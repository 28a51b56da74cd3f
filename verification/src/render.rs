use vstd::prelude::*;

use crate::geometry::Rect;
use crate::ids::XResourceId;
use crate::wire::{X_RENDER_MAJOR_OPCODE, XByteOrder, XWireParseError, spec_u32_at};

verus! {

pub const X_RENDER_FORMAT_ARGB32: u32 = 0x26;
pub const X_RENDER_FORMAT_RGB24: u32 = 0x27;
pub const X_RENDER_FORMAT_A8: u32 = 0x28;
pub const X_RENDER_FORMAT_A1: u32 = 0x29;

/// The picture formats this server offers, each a view over the drawable's
/// 32-bit store slots.
#[derive(Clone, Copy, Debug, PartialEq, Eq, Structural)]
pub enum XRenderPictFormatKind {
    Argb32,
    Rgb24,
    A8,
    A1,
}

pub open spec fn spec_format_of(id: u32) -> Option<XRenderPictFormatKind> {
    if id == X_RENDER_FORMAT_ARGB32 {
        Some(XRenderPictFormatKind::Argb32)
    } else if id == X_RENDER_FORMAT_RGB24 {
        Some(XRenderPictFormatKind::Rgb24)
    } else if id == X_RENDER_FORMAT_A8 {
        Some(XRenderPictFormatKind::A8)
    } else if id == X_RENDER_FORMAT_A1 {
        Some(XRenderPictFormatKind::A1)
    } else {
        None
    }
}

pub open spec fn spec_format_depth(f: XRenderPictFormatKind) -> u8 {
    match f {
        XRenderPictFormatKind::Argb32 => 32,
        XRenderPictFormatKind::Rgb24 => 24,
        XRenderPictFormatKind::A8 => 8,
        XRenderPictFormatKind::A1 => 1,
    }
}

impl XRenderPictFormatKind {
    /// The format a `PictFormat` id names, if this server offers it.
    pub fn from_format_id(id: u32) -> (r: Option<Self>)
        ensures
            r == spec_format_of(id),
    {
        if id == X_RENDER_FORMAT_ARGB32 {
            Some(XRenderPictFormatKind::Argb32)
        } else if id == X_RENDER_FORMAT_RGB24 {
            Some(XRenderPictFormatKind::Rgb24)
        } else if id == X_RENDER_FORMAT_A8 {
            Some(XRenderPictFormatKind::A8)
        } else if id == X_RENDER_FORMAT_A1 {
            Some(XRenderPictFormatKind::A1)
        } else {
            None
        }
    }

    pub fn depth(self) -> (r: u8)
        ensures
            r == spec_format_depth(self),
    {
        match self {
            XRenderPictFormatKind::Argb32 => 32,
            XRenderPictFormatKind::Rgb24 => 24,
            XRenderPictFormatKind::A8 => 8,
            XRenderPictFormatKind::A1 => 1,
        }
    }

    /// One store slot as a premultiplied `[b, g, r, a]` sample: a format
    /// without alpha reads opaque, an alpha-only format reads no color.
    pub fn read(self, slot: [u8; 4]) -> (r: [u8; 4])
        ensures
            r@ == match self {
                XRenderPictFormatKind::Argb32 => slot@,
                XRenderPictFormatKind::Rgb24 => seq![slot@[0], slot@[1], slot@[2], 0xffu8],
                _ => seq![0u8, 0u8, 0u8, slot@[3]],
            },
    {
        let r = match self {
            XRenderPictFormatKind::Argb32 => slot,
            XRenderPictFormatKind::Rgb24 => [slot[0], slot[1], slot[2], 0xff],
            _ => [0, 0, 0, slot[3]],
        };
        proof {
            assert(r@ =~= match self {
                XRenderPictFormatKind::Argb32 => slot@,
                XRenderPictFormatKind::Rgb24 => seq![slot@[0], slot@[1], slot@[2], 0xffu8],
                _ => seq![0u8, 0u8, 0u8, slot@[3]],
            });
        }
        r
    }

    /// The store slot for one premultiplied result; a channel the format
    /// lacks is discarded, and A1 keeps alpha at or above half.
    pub fn write(self, pixel: [u8; 4]) -> (r: [u8; 4])
        ensures
            r@ == match self {
                XRenderPictFormatKind::Argb32 => pixel@,
                XRenderPictFormatKind::Rgb24 => seq![pixel@[0], pixel@[1], pixel@[2], 0u8],
                XRenderPictFormatKind::A8 => seq![0u8, 0u8, 0u8, pixel@[3]],
                XRenderPictFormatKind::A1 => seq![
                    0u8,
                    0u8,
                    0u8,
                    if pixel@[3] >= 128 {
                        0xffu8
                    } else {
                        0u8
                    },
                ],
            },
    {
        let r = match self {
            XRenderPictFormatKind::Argb32 => pixel,
            XRenderPictFormatKind::Rgb24 => [pixel[0], pixel[1], pixel[2], 0],
            XRenderPictFormatKind::A8 => [0, 0, 0, pixel[3]],
            XRenderPictFormatKind::A1 => [
                0,
                0,
                0,
                if pixel[3] >= 128 {
                    0xff
                } else {
                    0
                },
            ],
        };
        proof {
            assert(r@ =~= match self {
                XRenderPictFormatKind::Argb32 => pixel@,
                XRenderPictFormatKind::Rgb24 => seq![pixel@[0], pixel@[1], pixel@[2], 0u8],
                XRenderPictFormatKind::A8 => seq![0u8, 0u8, 0u8, pixel@[3]],
                XRenderPictFormatKind::A1 => seq![
                    0u8,
                    0u8,
                    0u8,
                    if pixel@[3] >= 128 {
                        0xffu8
                    } else {
                        0u8
                    },
                ],
            });
        }
        r
    }
}

/// The operators with an implementation: the Porter-Duff twelve, Add and
/// Saturate.
pub fn render_operator_is_implemented(op: u8) -> (r: bool)
    ensures
        r == (op <= 13),
{
    op <= 13
}

/// How a transformed picture is sampled.
#[derive(Clone, Copy, Debug, PartialEq, Eq, Structural)]
pub enum XRenderPictureFilter {
    Nearest,
    Bilinear,
}

/// The picture attributes this server acts on, plus what it refuses.
#[derive(Clone, Copy, Debug, PartialEq, Eq, Structural)]
pub struct XRenderPictureValueSet {
    pub repeat: Option<u32>,
    pub clip_x_origin: Option<i16>,
    pub clip_y_origin: Option<i16>,
    pub component_alpha: Option<u32>,
    /// The mask named an alpha map or a clip mask other than None.
    pub refused_attribute: bool,
    /// The mask carried bits no protocol version defines.
    pub invalid_mask: bool,
}

/// Whether bit `b` of a value mask is set.
pub open spec fn spec_bit(mask: u32, b: u32) -> bool {
    (mask >> b) & 1 == 1
}

/// How many bits below `n` a mask sets.
pub open spec fn spec_popcount_below(mask: u32, n: nat) -> nat
    decreases n,
{
    if n == 0 {
        0
    } else {
        spec_popcount_below(mask, (n - 1) as nat) + if spec_bit(mask, (n - 1) as u32) {
            1nat
        } else {
            0nat
        }
    }
}

/// A set bit's value is the one after every lower set bit's.
pub proof fn lemma_popcount_monotone(mask: u32, a: nat, b: nat)
    requires
        a <= b,
    ensures
        spec_popcount_below(mask, a) <= spec_popcount_below(mask, b),
        a < b && spec_bit(mask, a as u32) ==> spec_popcount_below(mask, a) + 1 <= spec_popcount_below(mask, b),
    decreases b,
{
    if a < b {
        lemma_popcount_monotone(mask, a, (b - 1) as nat);
    }
}

/// The value a mask bit carries: values follow in bit order, four bytes each.
pub open spec fn spec_value_of(order: XByteOrder, s: Seq<u8>, mask: u32, b: nat) -> u32 {
    spec_u32_at(order, s, 4 * spec_popcount_below(mask, b) as int)
}

/// What a `CreatePicture` or `ChangePicture` value list decodes to.
pub open spec fn spec_picture_values(order: XByteOrder, mask: u32, s: Seq<u8>) -> Result<
    XRenderPictureValueSet,
    XWireParseError,
> {
    let expected = 4 * spec_popcount_below(mask, 32);
    if s.len() != expected {
        Err(
            XWireParseError::InvalidLength {
                opcode: X_RENDER_MAJOR_OPCODE,
                expected_at_least: expected as usize,
                actual: s.len() as usize,
            },
        )
    } else {
        Ok(
            XRenderPictureValueSet {
                repeat: if spec_bit(mask, 0) {
                    Some(spec_value_of(order, s, mask, 0))
                } else {
                    None
                },
                clip_x_origin: if spec_bit(mask, 4) {
                    Some(spec_value_of(order, s, mask, 4) as u16 as i16)
                } else {
                    None
                },
                clip_y_origin: if spec_bit(mask, 5) {
                    Some(spec_value_of(order, s, mask, 5) as u16 as i16)
                } else {
                    None
                },
                component_alpha: if spec_bit(mask, 12) {
                    Some(spec_value_of(order, s, mask, 12))
                } else {
                    None
                },
                refused_attribute: (spec_bit(mask, 1) && spec_value_of(order, s, mask, 1) != 0) || (
                spec_bit(mask, 6) && spec_value_of(order, s, mask, 6) != 0),
                invalid_mask: mask & !0x1fffu32 != 0,
            },
        )
    }
}

pub(crate) fn popcount_below(mask: u32, n: u32) -> (r: usize)
    requires
        n <= 32,
    ensures
        r == spec_popcount_below(mask, n as nat),
        r <= n,
{
    let mut count: usize = 0;
    let mut b: u32 = 0;
    while b < n
        invariant
            b <= n <= 32,
            count == spec_popcount_below(mask, b as nat),
            count <= b,
        decreases n - b,
    {
        if (mask >> b) & 1 == 1 {
            count = count + 1;
        }
        b = b + 1;
    }
    count
}

/// The value bit `b` carries, when it is set.
pub(crate) fn value_of(order: XByteOrder, values: &[u8], mask: u32, b: u32) -> (r: Option<u32>)
    requires
        b < 32,
        values@.len() == 4 * spec_popcount_below(mask, 32),
    ensures
        r == if spec_bit(mask, b) {
            Some(spec_value_of(order, values@, mask, b as nat))
        } else {
            None::<u32>
        },
{
    if (mask >> b) & 1 == 1 {
        let at = popcount_below(mask, b);
        proof {
            lemma_popcount_monotone(mask, b as nat, 32);
        }
        Some(order.u32_at(values, 4 * at))
    } else {
        None
    }
}

/// Decodes a RENDER picture value list: one four-byte value per mask bit,
/// in bit order.
pub fn decode_render_picture_values(byte_order: XByteOrder, mask: u32, values: &[u8]) -> (r:
    Result<XRenderPictureValueSet, XWireParseError>)
    ensures
        r == spec_picture_values(byte_order, mask, values@),
{
    let expected = 4 * popcount_below(mask, 32);
    if values.len() != expected {
        return Err(
            XWireParseError::InvalidLength {
                opcode: X_RENDER_MAJOR_OPCODE,
                expected_at_least: expected,
                actual: values.len(),
            },
        );
    }
    let alpha_map = value_of(byte_order, values, mask, 1);
    let clip_mask = value_of(byte_order, values, mask, 6);
    let refused = match alpha_map {
        Some(v) => v != 0,
        None => false,
    } || match clip_mask {
        Some(v) => v != 0,
        None => false,
    };
    Ok(
        XRenderPictureValueSet {
            repeat: value_of(byte_order, values, mask, 0),
            clip_x_origin: match value_of(byte_order, values, mask, 4) {
                Some(v) => Some(v as u16 as i16),
                None => None,
            },
            clip_y_origin: match value_of(byte_order, values, mask, 5) {
                Some(v) => Some(v as u16 as i16),
                None => None,
            },
            component_alpha: value_of(byte_order, values, mask, 12),
            refused_attribute: refused,
            invalid_mask: mask & !0x1fffu32 != 0,
        },
    )
}

/// One glyph's placement metrics, as `AddGlyphs` sends them.
#[derive(Clone, Copy, Debug, PartialEq, Eq, Structural)]
pub struct XRenderGlyphInfo {
    pub width: u16,
    pub height: u16,
    pub x: i16,
    pub y: i16,
    pub off_x: i16,
    pub off_y: i16,
}

/// One run of glyphs drawn at an offset, from a possibly different set.
#[derive(Clone, Debug)]
pub struct XRenderGlyphElement {
    /// A glyph set switch, when the element carried one.
    pub glyphset: Option<XResourceId>,
    pub delta_x: i16,
    pub delta_y: i16,
    pub glyphs: Vec<u32>,
}

/// One trapezoid, in 16.16 fixed point.
#[derive(Clone, Copy, Debug, PartialEq, Eq)]
pub struct XRenderTrapezoid {
    pub top: i32,
    pub bottom: i32,
    pub left_p1: (i32, i32),
    pub left_p2: (i32, i32),
    pub right_p1: (i32, i32),
    pub right_p2: (i32, i32),
}

/// One triangle, in 16.16 fixed point.
#[derive(Clone, Copy, Debug, PartialEq, Eq)]
pub struct XRenderTriangle {
    pub p1: (i32, i32),
    pub p2: (i32, i32),
    pub p3: (i32, i32),
}

/// One gradient stop: a 16.16 position and a straight RGBA color.
#[derive(Clone, Copy, Debug, PartialEq, Eq)]
pub struct XRenderGradientStop {
    pub position: i32,
    pub color: [u16; 4],
}

/// The shape a gradient's parameter is derived from, in 16.16 fixed point.
#[derive(Clone, Copy, Debug, PartialEq, Eq)]
pub enum XRenderGradientGeometry {
    Linear { p1: (i32, i32), p2: (i32, i32) },
    Radial { inner: (i32, i32), inner_radius: i32, outer: (i32, i32), outer_radius: i32 },
    Conical { center: (i32, i32), angle: i32 },
}

/// A picture with no drawable behind it.
#[derive(Clone, Debug)]
pub enum XRenderGeneratedSource {
    /// Premultiplied on the wire and kept as received.
    Solid([u8; 4]),
    Gradient { geometry: XRenderGradientGeometry, stops: Vec<XRenderGradientStop> },
}

/// A RENDER cursor's image, premultiplied BGRA rows.
#[derive(Clone, Debug)]
pub struct XRenderCursorImage {
    pub width: u16,
    pub height: u16,
    pub hotspot_x: u16,
    pub hotspot_y: u16,
    pub premultiplied_bgra: Vec<u8>,
}

/// One RENDER picture: a format-aware view over a drawable.
#[derive(Clone, Debug)]
pub struct XRenderPictureRecord {
    pub drawable: XResourceId,
    pub drawable_is_window: bool,
    pub format: XRenderPictFormatKind,
    pub repeat: bool,
    pub clip_rects: Vec<Rect>,
    pub clip_x_origin: i16,
    pub clip_y_origin: i16,
    pub component_alpha: bool,
    /// The transform in 16.16 fixed point; `None` is identity.
    pub transform: Option<[i32; 9]>,
    pub filter: XRenderPictureFilter,
}

} // verus!
