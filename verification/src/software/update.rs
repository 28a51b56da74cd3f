//! What a CPU buffer change ships: the whole buffer, or packed patches of
//! the rectangles that changed, which the receiver writes over its copy.
use vstd::prelude::*;

use crate::geometry::{Rect, Size, sat_add_i32, sat_sub_i32, saturating_add_i32, saturating_sub_i32};
use crate::ids::XResourceId;
use crate::software::store::{XCpuBufferView, copy_snapshot};
use crate::table::XTable;
use crate::software::{XAuthorityCpuBufferSnapshot, clipped_bounds, lemma_pixel_of_byte, spec_clipped_bounds};

verus! {

/// The most rectangles one patch batch carries.
pub const X_AUTHORITY_CPU_PATCH_BATCH_MAX_RECTS: usize = 32;

/// One rectangle of a buffer, its rows packed tight.
pub struct XAuthorityCpuBufferPatch {
    pub handle: u64,
    pub drawable: XResourceId,
    pub size: Size,
    pub stride: u32,
    pub format: u32,
    pub generation: u64,
    pub rect: Rect,
    pub bytes: Vec<u8>,
}

/// One rectangle of a batch, its rows packed tight.
pub struct XAuthorityCpuBufferPatchRegion {
    pub rect: Rect,
    pub bytes: Vec<u8>,
}

/// The rectangles of one buffer that changed, under its brand.
pub struct XAuthorityCpuBufferPatchBatch {
    pub handle: u64,
    pub drawable: XResourceId,
    pub size: Size,
    pub stride: u32,
    pub format: u32,
    pub generation: u64,
    pub patches: Vec<XAuthorityCpuBufferPatchRegion>,
}

/// A buffer change: the whole buffer, or patches over a copy the receiver
/// holds.
pub enum XAuthorityCpuBufferUpdate {
    Replace(XAuthorityCpuBufferSnapshot),
    Patch(XAuthorityCpuBufferPatch),
    PatchBatch(XAuthorityCpuBufferPatchBatch),
}

impl XAuthorityCpuBufferUpdate {
    pub fn handle(&self) -> (r: u64)
        ensures
            r == match self {
                XAuthorityCpuBufferUpdate::Replace(s) => s.handle,
                XAuthorityCpuBufferUpdate::Patch(p) => p.handle,
                XAuthorityCpuBufferUpdate::PatchBatch(b) => b.handle,
            },
    {
        match self {
            XAuthorityCpuBufferUpdate::Replace(s) => s.handle,
            XAuthorityCpuBufferUpdate::Patch(p) => p.handle,
            XAuthorityCpuBufferUpdate::PatchBatch(b) => b.handle,
        }
    }

    /// The pixel format the update's bytes are written in.
    pub fn format(&self) -> (r: u32)
        ensures
            r == match self {
                XAuthorityCpuBufferUpdate::Replace(s) => s.format,
                XAuthorityCpuBufferUpdate::Patch(p) => p.format,
                XAuthorityCpuBufferUpdate::PatchBatch(b) => b.format,
            },
    {
        match self {
            XAuthorityCpuBufferUpdate::Replace(s) => s.format,
            XAuthorityCpuBufferUpdate::Patch(p) => p.format,
            XAuthorityCpuBufferUpdate::PatchBatch(b) => b.format,
        }
    }

    pub fn generation(&self) -> (r: u64)
        ensures
            r == match self {
                XAuthorityCpuBufferUpdate::Replace(s) => s.generation,
                XAuthorityCpuBufferUpdate::Patch(p) => p.generation,
                XAuthorityCpuBufferUpdate::PatchBatch(b) => b.generation,
            },
    {
        match self {
            XAuthorityCpuBufferUpdate::Replace(s) => s.generation,
            XAuthorityCpuBufferUpdate::Patch(p) => p.generation,
            XAuthorityCpuBufferUpdate::PatchBatch(b) => b.generation,
        }
    }

    pub fn size(&self) -> (r: Size)
        ensures
            r == match self {
                XAuthorityCpuBufferUpdate::Replace(s) => s.size,
                XAuthorityCpuBufferUpdate::Patch(p) => p.size,
                XAuthorityCpuBufferUpdate::PatchBatch(b) => b.size,
            },
    {
        match self {
            XAuthorityCpuBufferUpdate::Replace(s) => s.size,
            XAuthorityCpuBufferUpdate::Patch(p) => p.size,
            XAuthorityCpuBufferUpdate::PatchBatch(b) => b.size,
        }
    }

    /// How many rectangles the update patches; none for a replacement.
    pub fn patch_rects(&self) -> (r: usize)
        ensures
            r == match self {
                XAuthorityCpuBufferUpdate::Replace(_) => 0,
                XAuthorityCpuBufferUpdate::Patch(_) => 1,
                XAuthorityCpuBufferUpdate::PatchBatch(b) => b.patches@.len() as usize,
            },
    {
        match self {
            XAuthorityCpuBufferUpdate::Replace(_) => 0,
            XAuthorityCpuBufferUpdate::Patch(_) => 1,
            XAuthorityCpuBufferUpdate::PatchBatch(b) => b.patches.len(),
        }
    }

    pub fn is_replacement(&self) -> (r: bool)
        ensures
            r == self is Replace,
    {
        match self {
            XAuthorityCpuBufferUpdate::Replace(_) => true,
            _ => false,
        }
    }

    /// How many pixel bytes the update carries, saturating.
    pub fn payload_bytes(&self) -> (r: usize)
        ensures
            r == match self {
                XAuthorityCpuBufferUpdate::Replace(s) => s.bytes@.len(),
                XAuthorityCpuBufferUpdate::Patch(p) => p.bytes@.len(),
                XAuthorityCpuBufferUpdate::PatchBatch(b) => spec_payload_sum(b.patches@, b.patches@.len() as int) as nat,
            },
    {
        match self {
            XAuthorityCpuBufferUpdate::Replace(s) => s.bytes.len(),
            XAuthorityCpuBufferUpdate::Patch(p) => p.bytes.len(),
            XAuthorityCpuBufferUpdate::PatchBatch(b) => {
                let mut total: usize = 0;
                let mut k: usize = 0;
                while k < b.patches.len()
                    invariant
                        k <= b.patches@.len(),
                        total == spec_payload_sum(b.patches@, k as int),
                    decreases b.patches@.len() - k,
                {
                    total = total.saturating_add(b.patches[k].bytes.len());
                    k = k + 1;
                }
                total
            },
        }
    }

    /// Brings a receiver's buffers, keyed by handle, up to the update: a
    /// replacement is stored whole; patches are written over the buffer they
    /// name, once every check passes, and the buffer takes their
    /// generation. A refused update leaves the buffers as they were.
    pub fn apply_to(&self, buffers: &mut XTable<u64, XAuthorityCpuBufferSnapshot>) -> (r: Result<(), &'static str>)
        requires
            old(buffers).wf(),
            spec_buffers_wf(old(buffers).view()),
            self is Replace ==> self->Replace_0.wf(),
        ensures
            final(buffers).wf(),
            spec_buffers_wf(final(buffers).view()),
            match spec_update_error(spec_buffer_views(old(buffers).view()), *self) {
                Some(e) => r == Err::<(), &'static str>(e) && final(buffers).view() == old(buffers).view(),
                None => r is Ok && spec_buffer_views(final(buffers).view()) == spec_update_applied(
                    spec_buffer_views(old(buffers).view()),
                    *self,
                ),
            },
    {
        let ghost m0 = old(buffers).view();
        match self {
            XAuthorityCpuBufferUpdate::Replace(snapshot) => {
                let c = copy_snapshot(snapshot);
                buffers.insert(snapshot.handle, c);
                proof {
                    assert(spec_buffer_views(buffers.view()) =~= spec_buffer_views(m0).insert(snapshot.handle, snapshot@));
                }
                Ok(())
            },
            XAuthorityCpuBufferUpdate::Patch(patch) => {
                let i = match buffers.find(&patch.handle) {
                    None => {
                        return Err("CPU buffer patch has no replacement base");
                    },
                    Some(i) => i,
                };
                proof {
                    buffers.lemma_index(i as int);
                }
                let (h, mut buffer) = buffers.remove_at(i);
                if buffer.drawable != patch.drawable || buffer.size != patch.size || buffer.stride != patch.stride
                    || buffer.format != patch.format || patch.generation < buffer.generation {
                    buffers.insert(h, buffer);
                    proof {
                        assert(buffers.view() =~= m0);
                    }
                    return Err("CPU buffer patch metadata does not match its base");
                }
                match check_packed_rect(&buffer, patch.rect, patch.bytes.len()) {
                    Err(e) => {
                        buffers.insert(h, buffer);
                        proof {
                            assert(buffers.view() =~= m0);
                        }
                        return Err(e);
                    },
                    Ok(()) => {},
                }
                match apply_packed_patch(&mut buffer, patch) {
                    Err(e) => {
                        proof {
                            assert(false);
                        }
                        return Err(e);
                    },
                    Ok(()) => {},
                }
                buffer.generation = patch.generation;
                let ghost b = buffer@;
                buffers.insert(h, buffer);
                proof {
                    assert(spec_buffer_views(buffers.view()) =~= spec_buffer_views(m0).insert(h, b));
                }
                Ok(())
            },
            XAuthorityCpuBufferUpdate::PatchBatch(batch) => {
                let i = match buffers.find(&batch.handle) {
                    None => {
                        return Err("CPU buffer patch batch has no replacement base");
                    },
                    Some(i) => i,
                };
                proof {
                    buffers.lemma_index(i as int);
                }
                let (h, mut buffer) = buffers.remove_at(i);
                if buffer.drawable != batch.drawable || buffer.size != batch.size || buffer.stride != batch.stride
                    || buffer.format != batch.format || batch.generation < buffer.generation || batch.patches.len()
                    > X_AUTHORITY_CPU_PATCH_BATCH_MAX_RECTS {
                    buffers.insert(h, buffer);
                    proof {
                        assert(buffers.view() =~= m0);
                    }
                    return Err("CPU buffer patch batch metadata does not match its base");
                }
                let ghost first = buffer;
                let mut k: usize = 0;
                while k < batch.patches.len()
                    invariant
                        buffer.wf(),
                        buffer == first,
                        first == m0[h],
                        h == batch.handle,
                        m0 == old(buffers).view(),
                        spec_buffers_wf(m0),
                        self is PatchBatch && self->PatchBatch_0 == *batch,
                        !spec_brand_mismatch(m0[h]@, batch.drawable, batch.size, batch.stride, batch.format, batch.generation),
                        batch.patches@.len() <= X_AUTHORITY_CPU_PATCH_BATCH_MAX_RECTS,
                        buffers.wf(),
                        buffers.view() == m0.remove(h),
                        m0.contains_key(h),
                        k <= batch.patches@.len(),
                        spec_batch_error(buffer.size, batch.patches@, k as int) is None,
                    decreases batch.patches@.len() - k,
                {
                    match validate_packed_patch_region(&buffer, &batch.patches[k]) {
                        Err(e) => {
                            proof {
                                assert(spec_batch_error(buffer.size, batch.patches@, k + 1) == Some(e));
                                lemma_batch_error_sticks(buffer.size, batch.patches@, k + 1, batch.patches@.len() as int);
                            }
                            buffers.insert(h, buffer);
                            proof {
                                assert(buffers.view() =~= m0);
                            }
                            return Err(e);
                        },
                        Ok(()) => {},
                    }
                    k = k + 1;
                }
                let ghost pre = buffer;
                let mut k: usize = 0;
                while k < batch.patches.len()
                    invariant
                        buffer.wf(),
                        pre.wf(),
                        pre == m0[h],
                        h == batch.handle,
                        m0 == old(buffers).view(),
                        spec_buffers_wf(m0),
                        self is PatchBatch && self->PatchBatch_0 == *batch,
                        !spec_brand_mismatch(m0[h]@, batch.drawable, batch.size, batch.stride, batch.format, batch.generation),
                        batch.patches@.len() <= X_AUTHORITY_CPU_PATCH_BATCH_MAX_RECTS,
                        buffers.wf(),
                        buffers.view() == m0.remove(h),
                        m0.contains_key(h),
                        batch.generation >= pre.generation,
                        batch.size == pre.size,
                        buffer == (XAuthorityCpuBufferSnapshot { bytes: buffer.bytes, ..pre }),
                        k <= batch.patches@.len(),
                        spec_batch_error(pre.size, batch.patches@, batch.patches@.len() as int) is None,
                        buffer.bytes@ == spec_patches_written(pre.bytes@, pre.size, batch.patches@, k as int),
                    decreases batch.patches@.len() - k,
                {
                    proof {
                        lemma_batch_ok_each(pre.size, batch.patches@, batch.patches@.len() as int, k as int);
                    }
                    match apply_packed_patch_region(&mut buffer, &batch.patches[k]) {
                        Err(e) => {
                            proof {
                                assert(false);
                            }
                            return Err(e);
                        },
                        Ok(()) => {},
                    }
                    k = k + 1;
                }
                buffer.generation = batch.generation;
                let ghost b = buffer@;
                buffers.insert(h, buffer);
                proof {
                    assert(spec_buffer_views(buffers.view()) =~= spec_buffer_views(m0).insert(h, b));
                }
                Ok(())
            },
        }
    }
}

/// Bytes carried by the first `n` patches, added saturating.
pub open spec fn spec_payload_sum(patches: Seq<XAuthorityCpuBufferPatchRegion>, n: int) -> usize
    decreases n,
{
    if n <= 0 {
        0
    } else {
        let s = spec_payload_sum(patches, n - 1) as int + patches[n - 1].bytes@.len();
        if s > usize::MAX {
            usize::MAX
        } else {
            s as usize
        }
    }
}

/// Every buffer a receiver holds keeps its layout.
pub open spec fn spec_buffers_wf(m: Map<u64, XAuthorityCpuBufferSnapshot>) -> bool {
    forall|h: u64| #[trigger] m.contains_key(h) ==> m[h].wf()
}

/// A receiver's buffers, each taken by its view.
pub open spec fn spec_buffer_views(m: Map<u64, XAuthorityCpuBufferSnapshot>) -> Map<u64, XCpuBufferView> {
    m.map_values(|s: XAuthorityCpuBufferSnapshot| s@)
}

/// Whether a patch's brand leaves its base: another drawable, size,
/// stride or format, or an older generation.
pub open spec fn spec_brand_mismatch(
    base: XCpuBufferView,
    drawable: XResourceId,
    size: Size,
    stride: u32,
    format: u32,
    generation: u64,
) -> bool {
    base.drawable != drawable || base.size != size || base.stride != stride || base.format != format || generation
        < base.generation
}

/// The first refusal among the first `n` packed regions of a batch, if any.
pub open spec fn spec_batch_error(size: Size, patches: Seq<XAuthorityCpuBufferPatchRegion>, n: int) -> Option<
    &'static str,
>
    decreases n,
{
    if n <= 0 {
        None
    } else {
        match spec_batch_error(size, patches, n - 1) {
            Some(e) => Some(e),
            None => spec_patch_region_error(size, patches[n - 1].rect, patches[n - 1].bytes@.len() as int),
        }
    }
}

/// A buffer after the first `n` regions of a batch are written over it.
pub open spec fn spec_patches_written(
    bytes: Seq<u8>,
    size: Size,
    patches: Seq<XAuthorityCpuBufferPatchRegion>,
    n: int,
) -> Seq<u8>
    decreases n,
{
    if n <= 0 {
        bytes
    } else {
        spec_patched(
            spec_patches_written(bytes, size, patches, n - 1),
            size,
            patches[n - 1].rect,
            patches[n - 1].bytes@,
        )
    }
}

/// Why a receiver holding buffers `m` refuses an update, if it does.
pub open spec fn spec_update_error(m: Map<u64, XCpuBufferView>, u: XAuthorityCpuBufferUpdate) -> Option<&'static str> {
    match u {
        XAuthorityCpuBufferUpdate::Replace(_) => None,
        XAuthorityCpuBufferUpdate::Patch(p) => if !m.contains_key(p.handle) {
            Some("CPU buffer patch has no replacement base")
        } else if spec_brand_mismatch(m[p.handle], p.drawable, p.size, p.stride, p.format, p.generation) {
            Some("CPU buffer patch metadata does not match its base")
        } else {
            spec_patch_region_error(m[p.handle].size, p.rect, p.bytes@.len() as int)
        },
        XAuthorityCpuBufferUpdate::PatchBatch(b) => if !m.contains_key(b.handle) {
            Some("CPU buffer patch batch has no replacement base")
        } else if spec_brand_mismatch(m[b.handle], b.drawable, b.size, b.stride, b.format, b.generation)
            || b.patches@.len() > X_AUTHORITY_CPU_PATCH_BATCH_MAX_RECTS {
            Some("CPU buffer patch batch metadata does not match its base")
        } else {
            spec_batch_error(m[b.handle].size, b.patches@, b.patches@.len() as int)
        },
    }
}

/// A receiver's buffers once it takes an update it does not refuse.
pub open spec fn spec_update_applied(m: Map<u64, XCpuBufferView>, u: XAuthorityCpuBufferUpdate) -> Map<
    u64,
    XCpuBufferView,
> {
    match u {
        XAuthorityCpuBufferUpdate::Replace(s) => m.insert(s.handle, s@),
        XAuthorityCpuBufferUpdate::Patch(p) => {
            let b = m[p.handle];
            m.insert(
                p.handle,
                XCpuBufferView {
                    bytes: spec_patched(b.bytes, b.size, p.rect, p.bytes@),
                    generation: p.generation,
                    ..b
                },
            )
        },
        XAuthorityCpuBufferUpdate::PatchBatch(bt) => {
            let b = m[bt.handle];
            m.insert(
                bt.handle,
                XCpuBufferView {
                    bytes: spec_patches_written(b.bytes, b.size, bt.patches@, bt.patches@.len() as int),
                    generation: bt.generation,
                    ..b
                },
            )
        },
    }
}

proof fn lemma_batch_error_sticks(size: Size, patches: Seq<XAuthorityCpuBufferPatchRegion>, k: int, n: int)
    requires
        0 <= k <= n,
        spec_batch_error(size, patches, k) is Some,
    ensures
        spec_batch_error(size, patches, n) == spec_batch_error(size, patches, k),
    decreases n - k,
{
    if k < n {
        lemma_batch_error_sticks(size, patches, k, n - 1);
    }
}

proof fn lemma_batch_ok_each(size: Size, patches: Seq<XAuthorityCpuBufferPatchRegion>, n: int, k: int)
    requires
        0 <= k < n,
        spec_batch_error(size, patches, n) is None,
    ensures
        spec_batch_error(size, patches, k) is None,
        spec_patch_region_error(size, patches[k].rect, patches[k].bytes@.len() as int) is None,
    decreases n - k,
{
    if k < n - 1 {
        lemma_batch_ok_each(size, patches, n - 1, k);
    }
}

/// The rows of the part of `rect` inside a buffer, packed tight.
pub open spec fn spec_packed_bytes(b: XCpuBufferView, l: int, t: int, r: int, bt: int) -> Seq<u8> {
    let row = 4 * (r - l);
    Seq::new((row * (bt - t)) as nat, |k: int| b.bytes[(t + k / row) * (4 * b.size.width) + 4 * l + k % row])
}

/// The patch of the part of `rect` inside a buffer, under the buffer's
/// brand; none when no part is.
pub fn packed_patch(buffer: &XAuthorityCpuBufferSnapshot, rect: Rect) -> (r: Option<XAuthorityCpuBufferPatch>)
    requires
        buffer.wf(),
    ensures
        match spec_clipped_bounds(buffer.size, rect) {
            None => r is None,
            Some((l, t, rt, bt)) => r is Some && {
                let p = r->Some_0;
                &&& p.handle == buffer.handle
                &&& p.drawable == buffer.drawable
                &&& p.size == buffer.size
                &&& p.stride == buffer.stride
                &&& p.format == buffer.format
                &&& p.generation == buffer.generation
                &&& p.rect == Rect { x: l as i32, y: t as i32, width: (rt - l) as i32, height: (bt - t) as i32 }
                &&& p.bytes@ == spec_packed_bytes(buffer@, l, t, rt, bt)
            },
        },
{
    let (left, top, right, bottom) = match clipped_bounds(buffer.size, rect) {
        None => {
            return None;
        },
        Some(b) => b,
    };
    let width = right - left;
    let height = bottom - top;
    let row = 4 * width;
    let stride = buffer.stride as usize;
    let len = buffer.bytes.len();
    let ghost want = spec_packed_bytes(buffer@, left as int, top as int, right as int, bottom as int);
    let mut bytes: Vec<u8> = Vec::new();
    let mut y: usize = 0;
    while y < height
        invariant
            buffer.wf(),
            width == right - left,
            height == bottom - top,
            row == 4 * width,
            right <= buffer.size.width,
            bottom <= buffer.size.height,
            width > 0,
            stride == 4 * buffer.size.width,
            len == buffer.bytes@.len(),
            want == spec_packed_bytes(buffer@, left as int, top as int, right as int, bottom as int),
            want.len() == row * height,
            y <= height,
            bytes@ == want.subrange(0, row * y),
        decreases height - y,
    {
        let mut k: usize = 0;
        while k < row
            invariant
                buffer.wf(),
                width == right - left,
                height == bottom - top,
                row == 4 * width,
                right <= buffer.size.width,
                bottom <= buffer.size.height,
                width > 0,
                stride == 4 * buffer.size.width,
                len == buffer.bytes@.len(),
                want == spec_packed_bytes(buffer@, left as int, top as int, right as int, bottom as int),
                want.len() == row * height,
                y < height,
                k <= row,
                bytes@ == want.subrange(0, row * y + k),
            decreases row - k,
        {
            proof {
                assert((top + y) * stride + 4 * left + k < len) by (nonlinear_arith)
                    requires
                        top + y < buffer.size.height,
                        4 * left + k < 4 * right,
                        right <= buffer.size.width,
                        stride == 4 * buffer.size.width,
                        len == stride * buffer.size.height,
                        k < row,
                        row == 4 * width,
                        width == right - left,
                ;
                assert(row * y + k < row * height) by (nonlinear_arith)
                    requires
                        y < height,
                        k < row,
                ;
                vstd::arithmetic::div_mod::lemma_fundamental_div_mod_converse(row * y + k, row as int, y as int, k as int);
            }
            bytes.push(buffer.bytes[(top + y) * stride + 4 * left + k]);
            proof {
                assert(bytes@ =~= want.subrange(0, row * y + k + 1));
            }
            k = k + 1;
        }
        proof {
            assert(row * y + row == row * (y + 1)) by (nonlinear_arith);
        }
        y = y + 1;
    }
    proof {
        assert(bytes@ =~= want);
    }
    Some(
        XAuthorityCpuBufferPatch {
            handle: buffer.handle,
            drawable: buffer.drawable,
            size: buffer.size,
            stride: buffer.stride,
            format: buffer.format,
            generation: buffer.generation,
            rect: Rect { x: left as i32, y: top as i32, width: width as i32, height: height as i32 },
            bytes,
        },
    )
}

/// The region of a buffer's patch of `rect`.
pub fn packed_patch_region(buffer: &XAuthorityCpuBufferSnapshot, rect: Rect) -> (r: Option<
    XAuthorityCpuBufferPatchRegion,
>)
    requires
        buffer.wf(),
    ensures
        match spec_clipped_bounds(buffer.size, rect) {
            None => r is None,
            Some((l, t, rt, bt)) => r is Some && r->Some_0.rect == (Rect {
                x: l as i32,
                y: t as i32,
                width: (rt - l) as i32,
                height: (bt - t) as i32,
            }) && r->Some_0.bytes@ == spec_packed_bytes(buffer@, l, t, rt, bt),
        },
{
    match packed_patch(buffer, rect) {
        None => None,
        Some(p) => Some(XAuthorityCpuBufferPatchRegion { rect: p.rect, bytes: p.bytes }),
    }
}

/// Why a patch region does not fit its buffer, if it does not: it covers
/// nothing, it is not exactly its part inside the buffer, or its bytes are
/// not its rows packed.
pub open spec fn spec_patch_region_error(size: Size, rect: Rect, len: int) -> Option<&'static str> {
    match spec_clipped_bounds(size, rect) {
        None => Some("CPU buffer patch is empty"),
        Some((l, t, r, b)) => if rect.x != l || rect.y != t || rect.width != r - l || rect.height != b - t {
            Some("CPU buffer patch lies outside its buffer")
        } else if len != 4 * (r - l) * (b - t) {
            Some("CPU buffer patch byte length is invalid")
        } else {
            None
        },
    }
}

/// Why rows of `len` bytes packed tight do not fit `rect` of the buffer,
/// if they do not.
fn check_packed_rect(buffer: &XAuthorityCpuBufferSnapshot, rect: Rect, len: usize) -> (r: Result<(), &'static str>)
    requires
        buffer.wf(),
    ensures
        match spec_patch_region_error(buffer.size, rect, len as int) {
            Some(e) => r == Err::<(), &'static str>(e),
            None => r is Ok,
        },
{
    let (left, top, right, bottom) = match clipped_bounds(buffer.size, rect) {
        None => {
            return Err("CPU buffer patch is empty");
        },
        Some(b) => b,
    };
    if rect.x as i64 != left as i64 || rect.y as i64 != top as i64 || rect.width as i64 != (right
        - left) as i64 || rect.height as i64 != (bottom - top) as i64 {
        return Err("CPU buffer patch lies outside its buffer");
    }
    let blen = buffer.bytes.len();
    proof {
        assert(4 * (right - left) <= 4 * (right - left) * (bottom - top)) by (nonlinear_arith)
            requires
                left < right,
                top < bottom,
        ;
    }
    proof {
        assert(4 * (right - left) * (bottom - top) <= buffer.bytes@.len()) by (nonlinear_arith)
            requires
                right <= buffer.size.width,
                bottom <= buffer.size.height,
                left <= right,
                top <= bottom,
                buffer.bytes@.len() == 4 * buffer.size.width * buffer.size.height,
        ;
    }
    let expected: usize = 4 * (right - left) * (bottom - top);
    if len != expected {
        return Err("CPU buffer patch byte length is invalid");
    }
    Ok(())
}

/// Why a packed region does not fit its buffer, if it does not.
pub fn validate_packed_patch_region(buffer: &XAuthorityCpuBufferSnapshot, patch: &XAuthorityCpuBufferPatchRegion) -> (r:
    Result<(), &'static str>)
    requires
        buffer.wf(),
    ensures
        match spec_patch_region_error(buffer.size, patch.rect, patch.bytes@.len() as int) {
            Some(e) => r == Err::<(), &'static str>(e),
            None => r is Ok,
        },
{
    check_packed_rect(buffer, patch.rect, patch.bytes.len())
}

/// The bytes after writing a packed region over its rectangle.
pub open spec fn spec_patched(old: Seq<u8>, size: Size, rect: Rect, bytes: Seq<u8>) -> Seq<u8> {
    let stride = 4 * size.width;
    let row = 4 * rect.width;
    Seq::new(
        old.len(),
        |i: int|
            {
                let y = i / stride;
                let x = (i % stride) / 4;
                if stride > 0 && rect.x <= x < rect.x + rect.width && rect.y <= y < rect.y + rect.height {
                    bytes[(y - rect.y) * row + 4 * (x - rect.x) + i % 4]
                } else {
                    old[i]
                }
            },
    )
}

/// Writes rows packed tight over `rect` of the buffer, once they fit.
fn write_packed_rect(buffer: &mut XAuthorityCpuBufferSnapshot, rect: Rect, bytes: &Vec<u8>) -> (r: Result<
    (),
    &'static str,
>)
    requires
        old(buffer).wf(),
    ensures
        final(buffer).wf(),
        *final(buffer) == (XAuthorityCpuBufferSnapshot { bytes: final(buffer).bytes, ..*old(buffer) }),
        match spec_patch_region_error(old(buffer).size, rect, bytes@.len() as int) {
            Some(e) => r == Err::<(), &'static str>(e) && final(buffer).bytes@ == old(buffer).bytes@,
            None => r is Ok && final(buffer).bytes@ == spec_patched(
                old(buffer).bytes@,
                old(buffer).size,
                rect,
                bytes@,
            ),
        },
{
    match check_packed_rect(buffer, rect, bytes.len()) {
        Err(e) => {
            return Err(e);
        },
        Ok(()) => {},
    }
    let ghost old_bytes = buffer.bytes@;
    let ghost want = spec_patched(old_bytes, buffer.size, rect, bytes@);
    let ghost pre = *buffer;
    let left: usize = rect.x as usize;
    let top: usize = rect.y as usize;
    let width: usize = rect.width as usize;
    let height: usize = rect.height as usize;
    let bw: usize = buffer.size.width as usize;
    let stride: usize = buffer.stride as usize;
    let len = buffer.bytes.len();
    let plen = bytes.len();
    let row = 4 * width;
    let mut y: usize = 0;
    while y < height
        invariant
            buffer.wf(),
            *buffer == (XAuthorityCpuBufferSnapshot { bytes: buffer.bytes, ..pre }),
            pre.wf(),
            old_bytes == pre.bytes@,
            want == spec_patched(old_bytes, pre.size, rect, bytes@),
            spec_patch_region_error(pre.size, rect, bytes@.len() as int) is None,
            left == rect.x,
            top == rect.y,
            width == rect.width,
            height == rect.height,
            left + width <= bw,
            top + height <= pre.size.height,
            width > 0,
            bw == pre.size.width,
            stride == 4 * bw,
            row == 4 * width,
            plen == bytes@.len(),
            plen == row * height,
            len == old_bytes.len(),
            y <= height,
            buffer.bytes@.len() == old_bytes.len(),
            forall|i: int|
                0 <= i < old_bytes.len() ==> #[trigger] buffer.bytes@[i] == if i / (stride as int) < top + y {
                    want[i]
                } else {
                    old_bytes[i]
                },
        decreases height - y,
    {
        let mut x: usize = 0;
        while x < width
            invariant
                buffer.wf(),
                *buffer == (XAuthorityCpuBufferSnapshot { bytes: buffer.bytes, ..pre }),
                pre.wf(),
                old_bytes == pre.bytes@,
                want == spec_patched(old_bytes, pre.size, rect, bytes@),
                left == rect.x,
                top == rect.y,
                width == rect.width,
                height == rect.height,
                left + width <= bw,
                top + height <= pre.size.height,
                width > 0,
                bw == pre.size.width,
                stride == 4 * bw,
                row == 4 * width,
                plen == bytes@.len(),
                plen == row * height,
                len == old_bytes.len(),
                y < height,
                x <= width,
                buffer.bytes@.len() == old_bytes.len(),
                forall|i: int|
                    0 <= i < old_bytes.len() ==> #[trigger] buffer.bytes@[i] == if i / (stride as int) < top + y || (i
                        / (stride as int) == top + y && (i % (stride as int)) / 4 < left + x) {
                        want[i]
                    } else {
                        old_bytes[i]
                    },
            decreases width - x,
        {
            proof {
                assert((top + y) * stride + 4 * (left + x) + 4 <= len) by (nonlinear_arith)
                    requires
                        top + y < pre.size.height,
                        left + x < bw,
                        stride == 4 * bw,
                        len == stride * pre.size.height,
                ;
                assert(y * row + 4 * x + 4 <= plen) by (nonlinear_arith)
                    requires
                        y < height,
                        x < width,
                        row == 4 * width,
                        plen == row * height,
                ;
            }
            let o: usize = (top + y) * stride + 4 * (left + x);
            let so: usize = y * row + 4 * x;
            buffer.bytes.set(o, bytes[so]);
            buffer.bytes.set(o + 1, bytes[so + 1]);
            buffer.bytes.set(o + 2, bytes[so + 2]);
            buffer.bytes.set(o + 3, bytes[so + 3]);
            proof {
                assert forall|i: int| 0 <= i < old_bytes.len() implies #[trigger] buffer.bytes@[i] == if i / (
                stride as int) < top + y || (i / (stride as int) == top + y && (i % (stride as int)) / 4 < left + x
                    + 1) {
                    want[i]
                } else {
                    old_bytes[i]
                } by {
                    lemma_pixel_of_byte(i, bw as int, (left + x) as int, (top + y) as int);
                }
            }
            x = x + 1;
        }
        proof {
            assert forall|i: int| 0 <= i < old_bytes.len() implies #[trigger] buffer.bytes@[i] == if i / (stride
                as int) < top + y + 1 {
                want[i]
            } else {
                old_bytes[i]
            } by {
                if i / (stride as int) == top + y {
                    vstd::arithmetic::div_mod::lemma_mod_bound(i, stride as int);
                    assert((i % (stride as int)) / 4 < bw) by (nonlinear_arith)
                        requires
                            0 <= i % (stride as int) < stride,
                            stride == 4 * bw,
                    ;
                }
            }
        }
        y = y + 1;
    }
    proof {
        assert forall|i: int| 0 <= i < old_bytes.len() implies #[trigger] buffer.bytes@[i] == want[i] by {}
        assert(buffer.bytes@ =~= want);
    }
    Ok(())
}

/// Writes a packed region over its rectangle of the buffer, once it fits.
pub fn apply_packed_patch_region(buffer: &mut XAuthorityCpuBufferSnapshot, patch: &XAuthorityCpuBufferPatchRegion) -> (r:
    Result<(), &'static str>)
    requires
        old(buffer).wf(),
    ensures
        final(buffer).wf(),
        *final(buffer) == (XAuthorityCpuBufferSnapshot { bytes: final(buffer).bytes, ..*old(buffer) }),
        match spec_patch_region_error(old(buffer).size, patch.rect, patch.bytes@.len() as int) {
            Some(e) => r == Err::<(), &'static str>(e) && final(buffer).bytes@ == old(buffer).bytes@,
            None => r is Ok && final(buffer).bytes@ == spec_patched(
                old(buffer).bytes@,
                old(buffer).size,
                patch.rect,
                patch.bytes@,
            ),
        },
{
    write_packed_rect(buffer, patch.rect, &patch.bytes)
}

/// Writes a single patch's pixels over its rectangle of the buffer, once
/// they fit.
fn apply_packed_patch(buffer: &mut XAuthorityCpuBufferSnapshot, patch: &XAuthorityCpuBufferPatch) -> (r: Result<
    (),
    &'static str,
>)
    requires
        old(buffer).wf(),
    ensures
        final(buffer).wf(),
        *final(buffer) == (XAuthorityCpuBufferSnapshot { bytes: final(buffer).bytes, ..*old(buffer) }),
        match spec_patch_region_error(old(buffer).size, patch.rect, patch.bytes@.len() as int) {
            Some(e) => r == Err::<(), &'static str>(e) && final(buffer).bytes@ == old(buffer).bytes@,
            None => r is Ok && final(buffer).bytes@ == spec_patched(
                old(buffer).bytes@,
                old(buffer).size,
                patch.rect,
                patch.bytes@,
            ),
        },
{
    write_packed_rect(buffer, patch.rect, &patch.bytes)
}


/// Whether `a` orders at or before `b`: by row, then column, then extent.
pub open spec fn spec_rect_key_le(a: Rect, b: Rect) -> bool {
    a.y < b.y || (a.y == b.y && (a.x < b.x || (a.x == b.x && (a.width < b.width || (a.width == b.width
        && a.height <= b.height)))))
}

fn rect_key_le(a: Rect, b: Rect) -> (r: bool)
    ensures
        r == spec_rect_key_le(a, b),
{
    a.y < b.y || (a.y == b.y && (a.x < b.x || (a.x == b.x && (a.width < b.width || (a.width == b.width
        && a.height <= b.height)))))
}

/// `r` placed into a sorted list after everything that orders at or before
/// it.
pub open spec fn spec_sorted_insert(s: Seq<Rect>, r: Rect) -> Seq<Rect>
    decreases s.len(),
{
    if s.len() == 0 {
        seq![r]
    } else if spec_rect_key_le(s.last(), r) {
        s.push(r)
    } else {
        spec_sorted_insert(s.drop_last(), r).push(s.last())
    }
}

/// The first `n` rectangles in order, equal keys keeping their order.
pub open spec fn spec_sorted(s: Seq<Rect>, n: int) -> Seq<Rect>
    decreases n,
{
    if n <= 0 {
        Seq::empty()
    } else {
        spec_sorted_insert(spec_sorted(s, n - 1), s[n - 1])
    }
}

proof fn lemma_sorted_insert_len(s: Seq<Rect>, r: Rect)
    ensures
        spec_sorted_insert(s, r).len() == s.len() + 1,
    decreases s.len(),
{
    if s.len() > 0 && !spec_rect_key_le(s.last(), r) {
        lemma_sorted_insert_len(s.drop_last(), r);
    }
}

pub(crate) proof fn lemma_sorted_len(s: Seq<Rect>, n: int)
    requires
        n >= 0,
    ensures
        spec_sorted(s, n).len() == n,
    decreases n,
{
    if n > 0 {
        lemma_sorted_len(s, n - 1);
        lemma_sorted_insert_len(spec_sorted(s, n - 1), s[n - 1]);
    }
}

fn sorted_insert(mut s: Vec<Rect>, r: Rect) -> (out: Vec<Rect>)
    ensures
        out@ == spec_sorted_insert(s@, r),
    decreases s@.len(),
{
    if s.len() == 0 {
        let mut v: Vec<Rect> = Vec::new();
        v.push(r);
        proof {
            assert(v@ =~= seq![r]);
        }
        return v;
    }
    let ghost full = s@;
    let last = s.pop().unwrap();
    proof {
        assert(full.last() == last);
        assert(s@ =~= full.drop_last());
    }
    if rect_key_le(last, r) {
        s.push(last);
        s.push(r);
        proof {
            assert(s@ =~= full.push(r));
        }
        s
    } else {
        let mut t = sorted_insert(s, r);
        t.push(last);
        t
    }
}

/// The rectangles in order, equal keys keeping their order.
pub fn sort_rects(rects: &Vec<Rect>) -> (r: Vec<Rect>)
    ensures
        r@ == spec_sorted(rects@, rects@.len() as int),
{
    let mut out: Vec<Rect> = Vec::new();
    let mut i: usize = 0;
    while i < rects.len()
        invariant
            i <= rects@.len(),
            out@ == spec_sorted(rects@, i as int),
        decreases rects@.len() - i,
    {
        out = sorted_insert(out, rects[i]);
        i = i + 1;
    }
    out
}

/// The box two rectangles cover together.
pub open spec fn spec_union_rect(a: Rect, b: Rect) -> Rect {
    let x = if a.x < b.x {
        a.x
    } else {
        b.x
    };
    let y = if a.y < b.y {
        a.y
    } else {
        b.y
    };
    let ar = sat_add_i32(a.x as int, a.width as int);
    let br = sat_add_i32(b.x as int, b.width as int);
    let ab = sat_add_i32(a.y as int, a.height as int);
    let bb = sat_add_i32(b.y as int, b.height as int);
    let right = if ar > br {
        ar
    } else {
        br
    };
    let bottom = if ab > bb {
        ab
    } else {
        bb
    };
    Rect { x, y, width: sat_sub_i32(right, x as int) as i32, height: sat_sub_i32(bottom, y as int) as i32 }
}

fn union_rect(a: Rect, b: Rect) -> (r: Rect)
    ensures
        r == spec_union_rect(a, b),
{
    let x = if a.x < b.x {
        a.x
    } else {
        b.x
    };
    let y = if a.y < b.y {
        a.y
    } else {
        b.y
    };
    let ar = saturating_add_i32(a.x, a.width);
    let br = saturating_add_i32(b.x, b.width);
    let ab = saturating_add_i32(a.y, a.height);
    let bb = saturating_add_i32(b.y, b.height);
    let right = if ar > br {
        ar
    } else {
        br
    };
    let bottom = if ab > bb {
        ab
    } else {
        bb
    };
    Rect { x, y, width: saturating_sub_i32(right, x), height: saturating_sub_i32(bottom, y) }
}

/// The box of `s[start .. end]`, folded from the left.
pub open spec fn spec_group_box(s: Seq<Rect>, start: int, end: int) -> Rect
    decreases end - start,
{
    if end <= start + 1 {
        s[start]
    } else {
        spec_union_rect(spec_group_box(s, start, end - 1), s[end - 1])
    }
}

/// A product or sum of sizes, saturating at the largest `usize`.
pub open spec fn spec_sat(n: int) -> int {
    if n > usize::MAX {
        usize::MAX as int
    } else {
        n
    }
}

/// A product of sizes, saturating at the largest `usize`.
fn sat_mul_usize(a: usize, b: usize) -> (r: usize)
    ensures
        r == spec_sat(a * b),
{
    match a.checked_mul(b) {
        Some(p) => p,
        None => usize::MAX,
    }
}

/// The boxes of the first `g` groups `total` sorted rectangles split into,
/// skipping empty groups.
pub open spec fn spec_groups(s: Seq<Rect>, total: int, limit: int, g: int) -> Seq<Rect>
    decreases g,
{
    if g <= 0 {
        Seq::empty()
    } else {
        let prior = spec_groups(s, total, limit, g - 1);
        let start = spec_sat((g - 1) * total) / limit;
        let end = spec_sat(spec_sat(g) * total) / limit;
        if start >= end {
            prior
        } else {
            prior.push(spec_group_box(s, start, end))
        }
    }
}

/// A damage list merged down to at most `limit` rectangles: a list within
/// the limit (or a zero limit) stays as it is; else the rectangles in
/// order split into `limit` contiguous groups, each its box.
pub open spec fn spec_coalesced(rects: Seq<Rect>, limit: int) -> Seq<Rect> {
    if rects.len() <= limit || limit == 0 {
        rects
    } else {
        spec_groups(spec_sorted(rects, rects.len() as int), rects.len() as int, limit, limit)
    }
}

/// Merges a damage list down to at most `limit` rectangles, each group of
/// neighbours in row order becoming its box, which covers it.
pub fn coalesce_damage(rects: Vec<Rect>, limit: usize) -> (r: Vec<Rect>)
    ensures
        r@ == spec_coalesced(rects@, limit as int),
{
    if rects.len() <= limit || limit == 0 {
        return rects;
    }
    let sorted = sort_rects(&rects);
    let total = rects.len();
    proof {
        lemma_sorted_len(rects@, total as int);
    }
    let mut out: Vec<Rect> = Vec::new();
    let mut g: usize = 0;
    while g < limit
        invariant
            limit > 0,
            total == rects@.len(),
            total > limit,
            sorted@ == spec_sorted(rects@, total as int),
            sorted@.len() == total,
            g <= limit,
            out@ == spec_groups(sorted@, total as int, limit as int, g as int),
        decreases limit - g,
    {
        let start = sat_mul_usize(g, total) / limit;
        let end = sat_mul_usize(g.saturating_add(1), total) / limit;
        if start < end {
            proof {
                let e: int = end as int;
                let n: int = spec_sat(spec_sat(g as int + 1) * total as int);
                let lim: int = limit as int;
                assert(n <= (g as int + 1) * total as int);
                assert((g as int + 1) * total as int <= lim * total as int) by (nonlinear_arith)
                    requires
                        g < limit,
                        lim == limit,
                ;
                assert(e == n / lim);
                assert(n / lim <= total) by (nonlinear_arith)
                    requires
                        n <= lim * total as int,
                        lim > 0,
                        n >= 0,
                ;
            }
            let mut bounds = sorted[start];
            let mut k: usize = start + 1;
            while k < end
                invariant
                    start < k <= end <= total,
                    sorted@.len() == total,
                    bounds == spec_group_box(sorted@, start as int, k as int),
                decreases end - k,
            {
                bounds = union_rect(bounds, sorted[k]);
                k = k + 1;
            }
            out.push(bounds);
        }
        g = g + 1;
    }
    out
}

/// The area a damage list covers, counting overlap twice, saturating.
pub open spec fn spec_coverage(rects: Seq<Rect>, n: int) -> int
    decreases n,
{
    if n <= 0 {
        0
    } else {
        let r = rects[n - 1];
        let w: int = if r.width > 0 {
            r.width as int
        } else {
            0
        };
        let h: int = if r.height > 0 {
            r.height as int
        } else {
            0
        };
        spec_sat(spec_coverage(rects, n - 1) + spec_sat(w * h))
    }
}

pub fn coverage_area(rects: &Vec<Rect>) -> (r: usize)
    ensures
        r == spec_coverage(rects@, rects@.len() as int),
{
    let mut total: usize = 0;
    let mut i: usize = 0;
    while i < rects.len()
        invariant
            i <= rects@.len(),
            total == spec_coverage(rects@, i as int),
        decreases rects@.len() - i,
    {
        let r = rects[i];
        let w: usize = if r.width > 0 {
            r.width as usize
        } else {
            0
        };
        let h: usize = if r.height > 0 {
            r.height as usize
        } else {
            0
        };
        total = total.saturating_add(sat_mul_usize(w, h));
        i = i + 1;
    }
    total
}


/// Whether `outer` covers `inner`.
pub open spec fn spec_covers(outer: Rect, inner: Rect) -> bool {
    outer.x <= inner.x && outer.y <= inner.y && inner.x + inner.width <= outer.x + outer.width && inner.y
        + inner.height <= outer.y + outer.height
}

/// Coordinates and extents within what a client request can carry, so
/// that no edge saturates.
pub open spec fn spec_small_rect(r: Rect) -> bool {
    -0x10000 <= r.x <= 0x10000 && -0x10000 <= r.y <= 0x10000 && 0 <= r.width <= 0x10000 && 0 <= r.height
        <= 0x10000
}

proof fn lemma_sorted_insert_keeps(t: Seq<Rect>, r: Rect, x: Rect)
    requires
        t.contains(x) || x == r,
    ensures
        spec_sorted_insert(t, r).contains(x),
    decreases t.len(),
{
    if t.len() == 0 {
        assert(spec_sorted_insert(t, r)[0] == r);
    } else if spec_rect_key_le(t.last(), r) {
        let out = t.push(r);
        if x == r {
            assert(out[t.len() as int] == x);
        } else {
            let j = choose|j: int| 0 <= j < t.len() && t[j] == x;
            assert(out[j] == x);
        }
    } else {
        let last = t.last();
        let init = t.drop_last();
        if x == last {
            let rest = spec_sorted_insert(init, r);
            lemma_sorted_insert_len(init, r);
            assert(rest.push(last)[rest.len() as int] == x);
        } else {
            if t.contains(x) {
                let j = choose|j: int| 0 <= j < t.len() && t[j] == x;
                assert(j < t.len() - 1);
                assert(init[j] == x);
            }
            lemma_sorted_insert_keeps(init, r, x);
            let rest = spec_sorted_insert(init, r);
            let k = choose|k: int| 0 <= k < rest.len() && rest[k] == x;
            assert(rest.push(last)[k] == x);
        }
    }
}

proof fn lemma_sorted_keeps(s: Seq<Rect>, n: int, i: int)
    requires
        0 <= i < n <= s.len(),
    ensures
        spec_sorted(s, n).contains(s[i]),
    decreases n,
{
    if i == n - 1 {
        lemma_sorted_insert_keeps(spec_sorted(s, n - 1), s[n - 1], s[i]);
    } else {
        lemma_sorted_keeps(s, n - 1, i);
        lemma_sorted_insert_keeps(spec_sorted(s, n - 1), s[n - 1], s[i]);
    }
}

/// A box of small rectangles is bounded well inside the type.
pub open spec fn spec_bounded_rect(r: Rect) -> bool {
    -0x10000 <= r.x <= 0x10000 && -0x10000 <= r.y <= 0x10000 && 0 <= r.width <= 0x40000 && 0 <= r.height
        <= 0x40000 && r.x + r.width <= 0x20000 && r.y + r.height <= 0x20000
}

proof fn lemma_group_box_covers(s: Seq<Rect>, start: int, end: int, j: int)
    requires
        0 <= start <= j < end <= s.len(),
        forall|k: int| 0 <= k < s.len() ==> spec_small_rect(#[trigger] s[k]),
    ensures
        spec_covers(spec_group_box(s, start, end), s[j]),
        spec_bounded_rect(spec_group_box(s, start, end)),
    decreases end - start,
{
    if end <= start + 1 {
    } else {
        if j < end - 1 {
            lemma_group_box_covers(s, start, end - 1, j);
        } else {
            lemma_group_box_covers(s, start, end - 1, start);
        }
    }
}

/// Where group `h` of `total` rectangles split `limit` ways starts.
pub open spec fn spec_group_start(h: int, total: int, limit: int) -> int {
    (h * total) / limit
}

proof fn lemma_group_of(total: int, limit: int, j: int, g: int)
    requires
        0 < limit < total,
        total <= 0x8000,
        0 <= g <= limit,
        (g * total) / limit <= j < total,
    ensures
        exists|h: int|
            g <= h < limit && #[trigger] spec_group_start(h, total, limit) <= j < spec_group_start(h + 1, total, limit),
    decreases limit - g,
{
    if g == limit {
        assert((limit * total) / limit == total) by (nonlinear_arith)
            requires
                limit > 0,
        ;
        assert(false);
    } else if j < ((g + 1) * total) / limit {
        assert(spec_group_start(g, total, limit) <= j < spec_group_start(g + 1, total, limit));
    } else {
        lemma_group_of(total, limit, j, g + 1);
    }
}

proof fn lemma_groups_hold(s: Seq<Rect>, total: int, limit: int, g: int, h: int)
    requires
        0 < limit < total,
        total <= 0x8000,
        0 <= h < g <= limit,
        (h * total) / limit < ((h + 1) * total) / limit,
    ensures
        spec_groups(s, total, limit, g).contains(spec_group_box(s, (h * total) / limit, ((h + 1) * total) / limit)),
    decreases g,
{
    assert(0 <= h * total <= 0x8000 * 0x8000) by (nonlinear_arith)
        requires
            0 <= h < limit,
            limit < total,
            total <= 0x8000,
    ;
    assert(0 <= (h + 1) * total <= 0x8000 * 0x8000) by (nonlinear_arith)
        requires
            0 <= h < limit,
            limit < total,
            total <= 0x8000,
    ;
    assert(spec_sat(h * total) == h * total);
    assert(spec_sat(h + 1) == h + 1);
    assert(spec_sat((h + 1) * total) == (h + 1) * total);
    let prior = spec_groups(s, total, limit, g - 1);
    if h == g - 1 {
        let out = spec_groups(s, total, limit, g);
        assert(out == prior.push(spec_group_box(s, (h * total) / limit, ((h + 1) * total) / limit)));
        assert(out[prior.len() as int] == spec_group_box(s, (h * total) / limit, ((h + 1) * total) / limit));
    } else {
        lemma_groups_hold(s, total, limit, g - 1, h);
        let x = spec_group_box(s, (h * total) / limit, ((h + 1) * total) / limit);
        let k = choose|k: int| 0 <= k < prior.len() && prior[k] == x;
        let out = spec_groups(s, total, limit, g);
        assert(0 <= g * total <= 0x8000 * 0x8000) by (nonlinear_arith)
            requires
                0 < g <= limit,
                limit < total,
                total <= 0x8000,
        ;
        assert(0 <= (g - 1) * total <= 0x8000 * 0x8000) by (nonlinear_arith)
            requires
                0 < g <= limit,
                limit < total,
                total <= 0x8000,
        ;
        assert(spec_sat(g) == g);
        assert(spec_sat(g * total) == g * total);
        assert(spec_sat((g - 1) * total) == (g - 1) * total);
        if ((g - 1) * total) / limit < (g * total) / limit {
            assert(out == prior.push(spec_group_box(s, ((g - 1) * total) / limit, (g * total) / limit)));
            assert(out[k] == x);
        } else {
            assert(out == prior);
        }
    }
}


proof fn lemma_sorted_insert_from(t: Seq<Rect>, r: Rect, x: Rect)
    requires
        spec_sorted_insert(t, r).contains(x),
    ensures
        t.contains(x) || x == r,
    decreases t.len(),
{
    if t.len() == 0 {
        assert(spec_sorted_insert(t, r) == seq![r]);
    } else if spec_rect_key_le(t.last(), r) {
        let out = t.push(r);
        let j = choose|j: int| 0 <= j < out.len() && out[j] == x;
        if j < t.len() {
            assert(t[j] == x);
        }
    } else {
        let init = t.drop_last();
        let rest = spec_sorted_insert(init, r);
        let out = rest.push(t.last());
        let j = choose|j: int| 0 <= j < out.len() && out[j] == x;
        if j < rest.len() {
            assert(rest[j] == x);
            assert(rest.contains(x));
            lemma_sorted_insert_from(init, r, x);
            if init.contains(x) {
                let k = choose|k: int| 0 <= k < init.len() && init[k] == x;
                assert(t[k] == x);
            }
        } else {
            assert(t[t.len() - 1] == x);
        }
    }
}

pub proof fn lemma_sorted_from(s: Seq<Rect>, n: int, x: Rect)
    requires
        0 <= n <= s.len(),
        spec_sorted(s, n).contains(x),
    ensures
        exists|i: int| 0 <= i < n && s[i] == x,
    decreases n,
{
    if n > 0 {
        lemma_sorted_insert_from(spec_sorted(s, n - 1), s[n - 1], x);
        if spec_sorted(s, n - 1).contains(x) {
            lemma_sorted_from(s, n - 1, x);
            let i = choose|i: int| 0 <= i < n - 1 && s[i] == x;
            assert(s[i] == x);
        } else {
            assert(s[n - 1] == x);
        }
    }
}

/// A merged damage list covers every rectangle of the list it merges, so
/// the patches it becomes carry every changed pixel.
pub proof fn lemma_coalesced_covers(rects: Seq<Rect>, limit: int, i: int)
    requires
        0 <= i < rects.len(),
        rects.len() <= 0x8000,
        0 <= limit,
        forall|k: int| 0 <= k < rects.len() ==> spec_small_rect(#[trigger] rects[k]),
    ensures
        exists|k: int|
            0 <= k < spec_coalesced(rects, limit).len() && spec_covers(#[trigger] spec_coalesced(rects, limit)[k], rects[i])
                && spec_bounded_rect(spec_coalesced(rects, limit)[k]),
{
    let out = spec_coalesced(rects, limit);
    if rects.len() <= limit || limit == 0 {
        assert(spec_covers(out[i], rects[i]));
        assert(spec_small_rect(rects[i]));
        assert(spec_bounded_rect(out[i]));
    } else {
        let total = rects.len() as int;
        let sorted = spec_sorted(rects, total);
        lemma_sorted_len(rects, total);
        lemma_sorted_keeps(rects, total, i);
        let j = choose|j: int| 0 <= j < sorted.len() && sorted[j] == rects[i];
        assert forall|k: int| 0 <= k < sorted.len() implies spec_small_rect(#[trigger] sorted[k]) by {
            assert(sorted.contains(sorted[k]));
            lemma_sorted_from(rects, total, sorted[k]);
        }
        assert((0 * total) / limit == 0);
        lemma_group_of(total, limit, j, 0);
        let h = choose|h: int|
            0 <= h < limit && #[trigger] spec_group_start(h, total, limit) <= j < spec_group_start(h + 1, total, limit);
        let start = spec_group_start(h, total, limit);
        let end = spec_group_start(h + 1, total, limit);
        assert(end <= total) by (nonlinear_arith)
            requires
                end == ((h + 1) * total) / limit,
                h + 1 <= limit,
                limit > 0,
                total > 0,
        ;
        assert(start >= 0) by (nonlinear_arith)
            requires
                start == (h * total) / limit,
                h >= 0,
                total >= 0,
                limit > 0,
        ;
        lemma_group_box_covers(sorted, start, end, j);
        lemma_groups_hold(sorted, total, limit, limit, h);
        let b = spec_group_box(sorted, start, end);
        let k = choose|k: int| 0 <= k < out.len() && out[k] == b;
        assert(spec_covers(out[k], rects[i]));
        assert(spec_bounded_rect(out[k]));
    }
}


pub proof fn lemma_groups_len(s: Seq<Rect>, total: int, limit: int, g: int)
    requires
        g >= 0,
    ensures
        spec_groups(s, total, limit, g).len() <= g,
    decreases g,
{
    if g > 0 {
        lemma_groups_len(s, total, limit, g - 1);
    }
}

} // verus!
