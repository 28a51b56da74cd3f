use vstd::prelude::*;

use crate::geometry::Rect;
use crate::ids::{NamespaceId, TransactionId, XResourceId};

verus! {

/// The RENDER extension's major opcode.
pub const X_RENDER_MAJOR_OPCODE: u8 = 144;

/// The byte order a client announced at connection setup.
#[derive(Clone, Copy, Debug, PartialEq, Eq, Structural)]
pub enum XByteOrder {
    LittleEndian,
    BigEndian,
}

pub open spec fn spec_u16(order: XByteOrder, b0: u8, b1: u8) -> u16 {
    match order {
        XByteOrder::LittleEndian => (b0 + b1 * 256) as u16,
        XByteOrder::BigEndian => (b0 * 256 + b1) as u16,
    }
}

pub open spec fn spec_u32(order: XByteOrder, b0: u8, b1: u8, b2: u8, b3: u8) -> u32 {
    match order {
        XByteOrder::LittleEndian => (b0 + b1 * 256 + b2 * 65536 + b3 * 16777216) as u32,
        XByteOrder::BigEndian => (b0 * 16777216 + b1 * 65536 + b2 * 256 + b3) as u32,
    }
}

/// The 16-bit value at `at` in a byte sequence.
pub open spec fn spec_u16_at(order: XByteOrder, s: Seq<u8>, at: int) -> u16 {
    spec_u16(order, s[at], s[at + 1])
}

/// The 32-bit value at `at` in a byte sequence.
pub open spec fn spec_u32_at(order: XByteOrder, s: Seq<u8>, at: int) -> u32 {
    spec_u32(order, s[at], s[at + 1], s[at + 2], s[at + 3])
}

/// The 64-bit value at `at`: two 32-bit halves, the more significant one
/// first for a big-endian client.
pub open spec fn spec_u64_at(order: XByteOrder, s: Seq<u8>, at: int) -> u64 {
    match order {
        XByteOrder::LittleEndian => (spec_u32_at(order, s, at) + spec_u32_at(order, s, at + 4)
            * 0x1_0000_0000) as u64,
        XByteOrder::BigEndian => (spec_u32_at(order, s, at) * 0x1_0000_0000 + spec_u32_at(
            order,
            s,
            at + 4,
        )) as u64,
    }
}

impl XByteOrder {
    /// The 64-bit value at `at`.
    pub fn u64_at(self, bytes: &[u8], at: usize) -> (r: u64)
        requires
            at + 8 <= bytes@.len(),
        ensures
            r == spec_u64_at(self, bytes@, at as int),
    {
        let first = self.u32_at(bytes, at) as u64;
        let _ = bytes.len();
        let second = self.u32_at(bytes, at + 4) as u64;
        match self {
            XByteOrder::LittleEndian => first + second * 0x1_0000_0000,
            XByteOrder::BigEndian => first * 0x1_0000_0000 + second,
        }
    }

    /// The 16-bit value at `at`.
    pub fn u16_at(self, bytes: &[u8], at: usize) -> (r: u16)
        requires
            at + 2 <= bytes@.len(),
        ensures
            r == spec_u16_at(self, bytes@, at as int),
    {
        let b0 = bytes[at] as u16;
        let b1 = bytes[at + 1] as u16;
        match self {
            XByteOrder::LittleEndian => b0 + b1 * 256,
            XByteOrder::BigEndian => b0 * 256 + b1,
        }
    }

    /// The signed 16-bit value at `at`.
    pub fn i16_at(self, bytes: &[u8], at: usize) -> (r: i16)
        requires
            at + 2 <= bytes@.len(),
        ensures
            r == spec_u16_at(self, bytes@, at as int) as i16,
    {
        self.u16_at(bytes, at) as i16
    }

    /// The 32-bit value at `at`.
    pub fn u32_at(self, bytes: &[u8], at: usize) -> (r: u32)
        requires
            at + 4 <= bytes@.len(),
        ensures
            r == spec_u32_at(self, bytes@, at as int),
    {
        let b0 = bytes[at] as u32;
        let b1 = bytes[at + 1] as u32;
        let b2 = bytes[at + 2] as u32;
        let b3 = bytes[at + 3] as u32;
        match self {
            XByteOrder::LittleEndian => b0 + b1 * 256 + b2 * 65536 + b3 * 16777216,
            XByteOrder::BigEndian => b0 * 16777216 + b1 * 65536 + b2 * 256 + b3,
        }
    }
}

/// The XID range granted to one client at connection setup. It applies
/// only when a request creates a resource, not when it names one.
#[derive(Clone, Copy, Debug, PartialEq, Eq, Structural)]
pub struct XWireClientResourceRange {
    pub base: u32,
    pub mask: u32,
}

impl XWireClientResourceRange {
    pub open spec fn spec_owns(self, resource_id: u32) -> bool {
        resource_id != 0 && (resource_id & !self.mask) == self.base
    }

    /// Whether a client may create a resource with this id: a non-zero id
    /// whose bits outside the mask are the base.
    pub fn owns_new_resource(self, resource_id: u32) -> (r: bool)
        ensures
            r == self.spec_owns(resource_id),
    {
        resource_id != 0 && (resource_id & !self.mask) == self.base
    }
}

/// Every id a client builds from its base and bits of its mask is one it
/// may create, unless it is zero; and every id it may create is built so.
pub proof fn lemma_client_range_ids(range: XWireClientResourceRange, bits: u32)
    requires
        range.base & range.mask == 0,
    ensures
        (range.base | (bits & range.mask)) != 0 ==> range.spec_owns(range.base | (bits & range.mask)),
        range.spec_owns(bits) ==> bits == (range.base | (bits & range.mask)),
{
    let b = range.base;
    let m = range.mask;
    assert(((b | (bits & m)) & !m) == b) by (bit_vector)
        requires
            b & m == 0,
    ;
    assert((bits & !m) == b ==> bits == (b | (bits & m))) by (bit_vector);
}

/// Why a request's bytes were refused.
#[derive(Clone, Copy, Debug, PartialEq, Eq, Structural)]
pub enum XWireParseError {
    Truncated { needed: usize, actual: usize },
    InvalidLength { opcode: u8, expected_at_least: usize, actual: usize },
    TrailingBytes(usize),
    UnknownOpcode(u8),
    InvalidPropertyMode(u8),
    InvalidPropertyFormat(u8),
    InvalidEventType(u8),
    InvalidValue(u32),
    PropertyValueTooLarge { len: usize, max: usize },
    ResourceIdOutsideClientRange { resource_id: u32 },
}

/// What a decoder knows of the client whose bytes it reads.
#[derive(Clone, Copy, Debug, PartialEq, Eq, Structural)]
pub struct XWireClientContext {
    pub byte_order: XByteOrder,
    pub namespace: NamespaceId,
    pub transaction: TransactionId,
    /// `None` for decoding not attached to a live connection; a socket client
    /// always has its range.
    pub resource_id_range: Option<XWireClientResourceRange>,
}

impl XWireClientContext {
    /// Refuses an id a creating request names outside the client's range.
    pub fn validate_new_resource_id(self, resource_id: u32) -> (r: Result<(), XWireParseError>)
        ensures
            r == match self.resource_id_range {
                Some(range) => if range.spec_owns(resource_id) {
                    Ok(())
                } else {
                    Err(XWireParseError::ResourceIdOutsideClientRange { resource_id })
                },
                None => Ok::<(), XWireParseError>(()),
            },
    {
        match self.resource_id_range {
            Some(range) => if range.owns_new_resource(resource_id) {
                Ok(())
            } else {
                Err(XWireParseError::ResourceIdOutsideClientRange { resource_id })
            },
            None => Ok(()),
        }
    }
}

/// How a GLX request names a context's configuration.
#[derive(Clone, Copy, Debug, PartialEq, Eq, Structural)]
pub enum XGlxContextConfig {
    Visual(u32),
    FbConfig(u32),
}

/// One item of a `PolyText8` request.
#[derive(Clone, Debug)]
pub enum XPolyText8Item {
    Text { delta: i8, bytes: Vec<u8> },
    Font { font: XResourceId },
}

/// The rectangle at `at`: signed origin, unsigned extent, eight bytes.
pub open spec fn spec_rect_at(order: XByteOrder, s: Seq<u8>, at: int) -> Rect {
    Rect {
        x: spec_u16_at(order, s, at) as i16 as i32,
        y: spec_u16_at(order, s, at + 2) as i16 as i32,
        width: spec_u16_at(order, s, at + 4) as i32,
        height: spec_u16_at(order, s, at + 6) as i32,
    }
}

/// The rectangle list a RENDER or SHAPE request carries: every whole
/// eight-byte record, a short tail ignored.
pub fn decode_render_rectangles(byte_order: XByteOrder, bytes: &[u8]) -> (r: Vec<Rect>)
    ensures
        r@.len() == bytes@.len() / 8,
        forall|i: int| 0 <= i < r@.len() ==> #[trigger] r@[i] == spec_rect_at(byte_order, bytes@, 8 * i),
{
    let n = bytes.len() / 8;
    let mut out: Vec<Rect> = Vec::new();
    let mut i: usize = 0;
    while i < n
        invariant
            n == bytes@.len() / 8,
            bytes@.len() <= usize::MAX,
            i <= n,
            out@.len() == i,
            forall|j: int| 0 <= j < i ==> #[trigger] out@[j] == spec_rect_at(byte_order, bytes@, 8 * j),
        decreases n - i,
    {
        proof {
            assert(8 * i + 8 <= bytes@.len()) by (nonlinear_arith)
                requires
                    i < n,
                    n == bytes@.len() / 8,
            ;
        }
        let at = 8 * i;
        out.push(
            Rect {
                x: byte_order.i16_at(bytes, at) as i32,
                y: byte_order.i16_at(bytes, at + 2) as i32,
                width: byte_order.u16_at(bytes, at + 4) as i32,
                height: byte_order.u16_at(bytes, at + 6) as i32,
            },
        );
        i = i + 1;
    }
    out
}

} // verus!
