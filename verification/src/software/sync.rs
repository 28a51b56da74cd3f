//! Why a patch batch keeps a receiver's copy of a presentation buffer in
//! step: composition only changes pixels inside the damage that landed,
//! the merged patch list covers that damage, and each patch carries the
//! buffer's own pixels.
use vstd::prelude::*;

use crate::geometry::{Rect, Size};
use crate::software::store::{
    XCpuBufferView, spec_batch_carries, spec_patch_list, spec_present_composed, spec_present_copies,
    spec_present_masks,
};
use crate::software::update::{
    XAuthorityCpuBufferPatchBatch, spec_batch_error, spec_bounded_rect, spec_coalesced, spec_covers,
    spec_packed_bytes, spec_patch_region_error, spec_patched, spec_patches_written, spec_small_rect,
    lemma_coalesced_covers,
};
use crate::software::{spec_clipped_bounds, spec_copy_plan, spec_masked, spec_region_copied};

verus! {

/// Whether byte `i` of a buffer of `size` belongs to a pixel of `r`.
pub open spec fn spec_byte_in(i: int, size: Size, r: Rect) -> bool {
    let stride = 4 * size.width;
    let x = (i % stride) / 4;
    let y = i / stride;
    r.x <= x < r.x + r.width && r.y <= y < r.y + r.height
}

/// Whether byte `i` belongs to a pixel of one of the first `n` rectangles.
pub open spec fn spec_byte_in_any(i: int, size: Size, rs: Seq<Rect>, n: int) -> bool {
    exists|k: int| 0 <= k < n && spec_byte_in(i, size, #[trigger] rs[k])
}

/// A rectangle with area, inside a buffer of `size`.
pub open spec fn spec_inside(r: Rect, size: Size) -> bool {
    0 <= r.x && 0 <= r.y && 1 <= r.width && 1 <= r.height && r.x + r.width <= size.width && r.y + r.height
        <= size.height
}

/// The part of a patch rectangle inside the buffer, as a rectangle.
pub open spec fn spec_clip_rect(size: Size, r: Rect) -> Rect {
    let (l, t, rt, bt) = spec_clipped_bounds(size, r)->Some_0;
    Rect { x: l as i32, y: t as i32, width: (rt - l) as i32, height: (bt - t) as i32 }
}

/// A copy after the first `n` patches of a list are written over it, each
/// the buffer's packed pixels of its rectangle inside the buffer.
pub open spec fn spec_patches_applied(copy: Seq<u8>, done: XCpuBufferView, list: Seq<Rect>, n: int) -> Seq<u8>
    decreases n,
{
    if n <= 0 {
        copy
    } else {
        let before = spec_patches_applied(copy, done, list, n - 1);
        match spec_clipped_bounds(done.size, list[n - 1]) {
            None => before,
            Some((l, t, rt, bt)) => spec_patched(
                before,
                done.size,
                spec_clip_rect(done.size, list[n - 1]),
                spec_packed_bytes(done, l, t, rt, bt),
            ),
        }
    }
}

/// Composition from the window's buffer changes only pixels of the damage
/// that landed, and everything that landed lies inside the presentation.
proof fn lemma_copies_confined(
    bytes: Seq<u8>,
    size: Size,
    src: XCpuBufferView,
    damage: Seq<Rect>,
    ox: i32,
    oy: i32,
    n: int,
)
    requires
        0 <= n <= damage.len(),
        size.width >= 1,
        size.height >= 1,
    ensures
        ({
            let (b, d) = spec_present_copies(bytes, size, src, damage, ox, oy, n);
            &&& b.len() == bytes.len()
            &&& forall|k: int| 0 <= k < d.len() ==> spec_inside(#[trigger] d[k], size)
            &&& forall|i: int|
                0 <= i < bytes.len() && !spec_byte_in_any(i, size, d, d.len() as int) ==> #[trigger] b[i]
                    == bytes[i]
        }),
    decreases n,
{
    if n > 0 {
        lemma_copies_confined(bytes, size, src, damage, ox, oy, n - 1);
        let (b0, d0) = spec_present_copies(bytes, size, src, damage, ox, oy, n - 1);
        match spec_copy_plan(src.size, size, damage[n - 1], ox, oy) {
            None => {},
            Some(plan) => {
                let (l, t, tx, ty, w, h) = plan;
                let (b, d) = spec_present_copies(bytes, size, src, damage, ox, oy, n);
                if w != 0 && h != 0 {
                    let r = Rect { x: tx as i32, y: ty as i32, width: w as i32, height: h as i32 };
                    assert(d == d0.push(r));
                    assert forall|k: int| 0 <= k < d.len() implies spec_inside(#[trigger] d[k], size) by {
                        if k < d0.len() {
                            assert(d[k] == d0[k]);
                        }
                    }
                    assert forall|i: int|
                        0 <= i < bytes.len() && !spec_byte_in_any(i, size, d, d.len() as int) implies #[trigger] b[i]
                        == bytes[i] by {
                        assert(!spec_byte_in(i, size, d[d0.len() as int]));
                        assert forall|k: int| 0 <= k < d0.len() implies !spec_byte_in(i, size, #[trigger] d0[k]) by {
                            assert(d[k] == d0[k]);
                        }
                    }
                } else {
                    assert(d == d0);
                    assert forall|i: int|
                        0 <= i < bytes.len() && !spec_byte_in_any(i, size, d, d.len() as int) implies #[trigger] b[i]
                        == bytes[i] by {
                        assert(b[i] == b0[i]);
                    }
                }
            },
        }
    }
}

/// Masking to the shape changes only pixels of the rectangles masked.
proof fn lemma_masks_confined(bytes: Seq<u8>, size: Size, rs: Seq<Rect>, shape: Seq<Rect>, n: int)
    requires
        0 <= n <= rs.len(),
        size.width >= 1,
        size.height >= 1,
        forall|k: int| 0 <= k < rs.len() ==> spec_inside(#[trigger] rs[k], size),
    ensures
        spec_present_masks(bytes, size, rs, shape, n).len() == bytes.len(),
        forall|i: int|
            0 <= i < bytes.len() && !spec_byte_in_any(i, size, rs, n) ==> #[trigger] spec_present_masks(
                bytes,
                size,
                rs,
                shape,
                n,
            )[i] == bytes[i],
    decreases n,
{
    if n > 0 {
        lemma_masks_confined(bytes, size, rs, shape, n - 1);
        let r = rs[n - 1];
        assert(spec_inside(r, size));
        assert(spec_clipped_bounds(size, r) == Some((r.x as int, r.y as int, (r.x + r.width) as int, (r.y + r.height) as int)));
        assert forall|i: int|
            0 <= i < bytes.len() && !spec_byte_in_any(i, size, rs, n) implies #[trigger] spec_present_masks(
            bytes,
            size,
            rs,
            shape,
            n,
        )[i] == bytes[i] by {
            assert(!spec_byte_in(i, size, rs[n - 1]));
            assert(!spec_byte_in_any(i, size, rs, n - 1));
        }
    }
}

/// After the first `n` patches, a byte of a pixel some patch rectangle
/// covers (inside the buffer) holds the buffer's byte; any other keeps the
/// copy's.
proof fn lemma_patches_applied(copy: Seq<u8>, done: XCpuBufferView, list: Seq<Rect>, n: int, i: int)
    requires
        0 <= n <= list.len(),
        done.size.width > 0,
        done.size.height > 0,
        done.bytes.len() == 4 * done.size.width * done.size.height,
        copy.len() == done.bytes.len(),
        0 <= i < copy.len(),
    ensures
        spec_patches_applied(copy, done, list, n).len() == copy.len(),
        spec_patches_applied(copy, done, list, n)[i] == if exists|k: int|
            0 <= k < n && spec_clipped_bounds(done.size, #[trigger] list[k]) is Some && spec_byte_in(
                i,
                done.size,
                spec_clip_rect(done.size, list[k]),
            ) {
            done.bytes[i]
        } else {
            copy[i]
        },
    decreases n,
{
    if n > 0 {
        lemma_patches_applied(copy, done, list, n - 1, i);
        let before = spec_patches_applied(copy, done, list, n - 1);
        match spec_clipped_bounds(done.size, list[n - 1]) {
            None => {
                if exists|k: int|
                    0 <= k < n && spec_clipped_bounds(done.size, #[trigger] list[k]) is Some && spec_byte_in(
                        i,
                        done.size,
                        spec_clip_rect(done.size, list[k]),
                    ) {
                    let k = choose|k: int|
                        0 <= k < n && spec_clipped_bounds(done.size, #[trigger] list[k]) is Some && spec_byte_in(
                            i,
                            done.size,
                            spec_clip_rect(done.size, list[k]),
                        );
                    assert(k < n - 1);
                }
            },
            Some((l, t, rt, bt)) => {
                crate::laws::law_patch_reproduces_its_region(done, before, list[n - 1], i);
                if exists|k: int|
                    0 <= k < n - 1 && spec_clipped_bounds(done.size, #[trigger] list[k]) is Some && spec_byte_in(
                        i,
                        done.size,
                        spec_clip_rect(done.size, list[k]),
                    ) {
                    let k = choose|k: int|
                        0 <= k < n - 1 && spec_clipped_bounds(done.size, #[trigger] list[k]) is Some
                            && spec_byte_in(i, done.size, spec_clip_rect(done.size, list[k]));
                    assert(0 <= k < n);
                }
            },
        }
    }
}

/// Every rectangle of a merged list has area where the list it merges is
/// made of small rectangles inside a buffer; a landed rectangle lies in
/// the part of its cover inside the buffer.
proof fn lemma_cover_clip(size: Size, landed: Rect, cover: Rect, i: int)
    requires
        spec_inside(landed, size),
        spec_covers(cover, landed),
        spec_bounded_rect(cover),
        size.width >= 1,
        size.height >= 1,
        size.width <= 0x8000,
        size.height <= 0x8000,
        spec_byte_in(i, size, landed),
    ensures
        spec_clipped_bounds(size, cover) is Some,
        spec_byte_in(i, size, spec_clip_rect(size, cover)),
{
}

/// A patch batch that a presentation answers, written over a copy of the
/// presentation as it was before, brings the copy level with the
/// presentation: every byte equals the composed buffer's.
pub(crate) proof fn lemma_patch_batch_syncs(
    base: XCpuBufferView,
    src: XCpuBufferView,
    damage: Seq<Rect>,
    ox: i32,
    oy: i32,
    shape: Option<Seq<Rect>>,
    i: int,
)
    requires
        1 <= base.size.width <= 0x8000,
        1 <= base.size.height <= 0x8000,
        base.bytes.len() == 4 * base.size.width * base.size.height,
        damage.len() <= 0x8000,
        0 <= i < base.bytes.len(),
    ensures
        ({
            let composed = spec_present_composed(base, src, damage, ox, oy, shape);
            let landed = spec_present_copies(base.bytes, base.size, src, damage, ox, oy, damage.len() as int).1;
            let list = spec_patch_list(landed);
            &&& composed.bytes.len() == base.bytes.len()
            &&& spec_patches_applied(base.bytes, composed, list, list.len() as int).len() == composed.bytes.len()
            &&& spec_patches_applied(base.bytes, composed, list, list.len() as int)[i] == composed.bytes[i]
        }),
{
    let size = base.size;
    let (b1, landed) = spec_present_copies(base.bytes, size, src, damage, ox, oy, damage.len() as int);
    lemma_copies_confined(base.bytes, size, src, damage, ox, oy, damage.len() as int);
    let composed = spec_present_composed(base, src, damage, ox, oy, shape);
    let list = spec_patch_list(landed);
    assert(composed.size == size);
    match shape {
        Some(sh) => {
            lemma_masks_confined(b1, size, landed, sh, landed.len() as int);
        },
        None => {},
    }
    // A byte outside every landed rectangle is as it was.
    if !spec_byte_in_any(i, size, landed, landed.len() as int) {
        assert(composed.bytes[i] == base.bytes[i]);
    }
    assert(composed.bytes.len() == base.bytes.len());
    lemma_patches_applied(base.bytes, composed, list, list.len() as int, i);
    if spec_byte_in_any(i, size, landed, landed.len() as int) {
        let j = choose|j: int| 0 <= j < landed.len() && spec_byte_in(i, size, #[trigger] landed[j]);
        assert(spec_inside(landed[j], size));
        assert forall|k: int| 0 <= k < landed.len() implies spec_small_rect(#[trigger] landed[k]) by {
            assert(spec_inside(landed[k], size));
        }
        lemma_landed_len(base.bytes, size, src, damage, ox, oy, damage.len() as int);
        lemma_coalesced_covers(landed, 32, j);
        let out = spec_coalesced(landed, 32);
        let k = choose|k: int|
            0 <= k < out.len() && spec_covers(#[trigger] out[k], landed[j]) && spec_bounded_rect(out[k]);
        assert(list == out);
        lemma_cover_clip(size, landed[j], list[k], i);
    }
}

pub(crate) proof fn lemma_landed_len(
    bytes: Seq<u8>,
    size: Size,
    src: XCpuBufferView,
    damage: Seq<Rect>,
    ox: i32,
    oy: i32,
    n: int,
)
    requires
        0 <= n <= damage.len(),
    ensures
        spec_present_copies(bytes, size, src, damage, ox, oy, n).1.len() <= n,
    decreases n,
{
    if n > 0 {
        lemma_landed_len(bytes, size, src, damage, ox, oy, n - 1);
    }
}

/// The regions of a batch that carries a buffer's pixels under a list are
/// the patches that list makes of the buffer, so writing the first `n` of
/// them does what writing the first `n` patches does.
pub(crate) proof fn lemma_batch_writes_the_patches(
    copy: Seq<u8>,
    done: XCpuBufferView,
    composed: XCpuBufferView,
    batch: XAuthorityCpuBufferPatchBatch,
    list: Seq<Rect>,
    n: int,
)
    requires
        spec_batch_carries(batch, done, list),
        done.bytes == composed.bytes,
        done.size == composed.size,
        0 <= n <= list.len(),
    ensures
        spec_patches_written(copy, done.size, batch.patches@, n) == spec_patches_applied(copy, composed, list, n),
    decreases n,
{
    if n > 0 {
        lemma_batch_writes_the_patches(copy, done, composed, batch, list, n - 1);
        let p = batch.patches@[n - 1];
        let (l, t, rt, bt) = spec_clipped_bounds(done.size, list[n - 1])->Some_0;
        assert(spec_packed_bytes(done, l, t, rt, bt) =~= spec_packed_bytes(composed, l, t, rt, bt));
        assert(p.rect == spec_clip_rect(done.size, list[n - 1]));
    }
}

/// Each region of a batch that carries a buffer's pixels fits the buffer.
pub(crate) proof fn lemma_batch_fits(
    done: XCpuBufferView,
    batch: XAuthorityCpuBufferPatchBatch,
    list: Seq<Rect>,
    n: int,
)
    requires
        spec_batch_carries(batch, done, list),
        0 <= n <= list.len(),
    ensures
        spec_batch_error(done.size, batch.patches@, n) is None,
    decreases n,
{
    if n > 0 {
        lemma_batch_fits(done, batch, list, n - 1);
        let p = batch.patches@[n - 1];
        let (l, t, rt, bt) = spec_clipped_bounds(done.size, list[n - 1])->Some_0;
        assert(spec_clipped_bounds(done.size, list[n - 1]) is Some);
        assert(spec_clipped_bounds(done.size, p.rect) == Some((l, t, rt, bt)));
        assert(p.bytes@.len() == 4 * (rt - l) * (bt - t));
        assert(spec_patch_region_error(done.size, p.rect, p.bytes@.len() as int) is None);
    }
}

} // verus!
