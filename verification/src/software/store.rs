//! The CPU buffers drawables hold, and the core drawing operations that
//! write them: each allocates a handle, makes sure the drawable has a buffer
//! of its size, draws, and rebrands the buffer under the new handle.
use vstd::prelude::*;

use crate::gc::{XGcValuesView, XGraphicsContextValues, XPutImageSemantics, spec_default_gc_values};
use crate::geometry::{Rect, Size, sat_add_i32, sat_sub_i32, saturating_add_i32, saturating_sub_i32};
use crate::ids::XResourceId;
use crate::runtime::resources::{X_AUTHORITY_SOFTWARE_BUFFER_MAX_BYTES, pixmap_depth_supported, spec_pixmap_depth_supported};
use crate::software::{
    XAuthorityCpuBufferSnapshot, XPoint, clipped_bounds, copy_xrgb8888, draw_line, draw_rectangle_outline,
    fill_rect, point_bounds, put_image_pixels, rectangle_outline_bounds, spec_box, spec_clipped_bounds,
    spec_copied, spec_filled, spec_filled_all, spec_line, spec_outline_bands, spec_pen, spec_point_bounds,
    spec_outline_bounds, spec_put_image, spec_semantics, pixel_in_clip, spec_pixel_in_clip, spec_le_byte,
    spec_gc_pixel, lemma_pixel_of_byte, render_fill_rect, spec_render_filled, copy_buffer_region,
    mask_rect_to_shape, spec_copy_plan, spec_region_copied, spec_masked,
};
use crate::software::update::{
    X_AUTHORITY_CPU_PATCH_BATCH_MAX_RECTS, XAuthorityCpuBufferPatchBatch, XAuthorityCpuBufferPatchRegion,
    XAuthorityCpuBufferUpdate, coalesce_damage, coverage_area, packed_patch_region, spec_coalesced,
    spec_coverage, spec_packed_bytes, spec_sat,
};
use crate::render::XRenderPictFormatKind;
use crate::raster::apply_raster_function;
use crate::wire::{XByteOrder, spec_u32_at};
use crate::table::XTable;

verus! {

/// The XRGB8888 format tag (`XR24`).
pub const X_AUTHORITY_CPU_BUFFER_FORMAT_XRGB8888: u32 = 0x3432_5258;

/// A snapshot with its bytes read as a sequence.
pub struct XCpuBufferView {
    pub handle: u64,
    pub drawable: XResourceId,
    pub size: Size,
    pub stride: u32,
    pub format: u32,
    pub generation: u64,
    pub bytes: Seq<u8>,
}

impl View for XAuthorityCpuBufferSnapshot {
    type V = XCpuBufferView;

    open spec fn view(&self) -> XCpuBufferView {
        XCpuBufferView {
            handle: self.handle,
            drawable: self.drawable,
            size: self.size,
            stride: self.stride,
            format: self.format,
            generation: self.generation,
            bytes: self.bytes@,
        }
    }
}

/// What a core drawing operation did, without the pixels.
#[derive(Clone, Copy, Debug, PartialEq, Eq, Structural)]
pub struct XAuthorityCpuDrawResult {
    pub handle: u64,
    pub size: Size,
    pub generation: u64,
}

/// The CPU buffers of drawables, and the presentation buffers windows
/// compose into.
pub struct XSoftwareBufferStore {
    pub next_handle: u64,
    pub buffers: XTable<XResourceId, XAuthorityCpuBufferSnapshot>,
    pub presentations: XTable<XResourceId, XAuthorityCpuBufferSnapshot>,
    /// For each drawable whose pixels are exported, what changed since the
    /// receiver last took patches.
    pub export_damage: XTable<XResourceId, XPixmapExportDamage>,
}

/// What changed in an exported drawable since its last patches.
pub struct XPixmapExportDamage {
    pub rects: Vec<Rect>,
}

/// A damage rectangle as export tracking keeps it: at a non-negative
/// origin, of non-negative extent, ending inside the coordinate range.
pub open spec fn spec_export_rect(r: Rect) -> bool {
    0 <= r.x && 0 <= r.y && 0 <= r.width && 0 <= r.height && r.x + r.width <= i32::MAX && r.y + r.height
        <= i32::MAX
}

/// A damage list as export tracking keeps it: within the patch batch
/// bound, each rectangle kept as above.
pub open spec fn spec_export_list(rects: Seq<Rect>) -> bool {
    &&& rects.len() <= X_AUTHORITY_CPU_PATCH_BATCH_MAX_RECTS
    &&& forall|k: int| 0 <= k < rects.len() ==> spec_export_rect(#[trigger] rects[k])
}

/// The handle an operation takes: never zero.
pub open spec fn spec_handle(next: u64) -> u64 {
    if next == 0 {
        1
    } else {
        next
    }
}

/// The counter after handing out `handle`: one more, held at the top and
/// never zero.
pub open spec fn spec_next_handle(handle: u64) -> u64 {
    if handle == u64::MAX {
        u64::MAX
    } else {
        (handle + 1) as u64
    }
}

/// The buffer a drawable has after making sure it has one of `size`, and
/// whether it was replaced: a fresh zeroed buffer under `handle` when it
/// had none or one of another size (keeping the old generation); none for
/// an empty size or one past the byte bound.
pub open spec fn spec_ensured(
    buffers: Map<XResourceId, XAuthorityCpuBufferSnapshot>,
    drawable: XResourceId,
    size: Size,
    handle: u64,
) -> Option<(XCpuBufferView, bool)> {
    if size.width <= 0 || size.height <= 0 || 4 * size.width * size.height > X_AUTHORITY_SOFTWARE_BUFFER_MAX_BYTES {
        None
    } else if buffers.contains_key(drawable) && buffers[drawable].size == size {
        Some((buffers[drawable]@, false))
    } else {
        Some(
            (
                XCpuBufferView {
                    handle,
                    drawable,
                    size,
                    stride: (4 * size.width) as u32,
                    format: X_AUTHORITY_CPU_BUFFER_FORMAT_XRGB8888,
                    generation: if buffers.contains_key(drawable) {
                        buffers[drawable].generation
                    } else {
                        0
                    },
                    bytes: Seq::new((4 * size.width * size.height) as nat, |i: int| 0u8),
                },
                true,
            ),
        )
    }
}

/// A drawn buffer rebranded under `handle` with the next generation, when
/// it was replaced or its damage is a representable patch; else it keeps
/// its brand and the operation answers nothing.
pub open spec fn spec_finished(
    v: XCpuBufferView,
    handle: u64,
    replaced: bool,
    damage: Option<Rect>,
) -> (XCpuBufferView, Option<XAuthorityCpuDrawResult>) {
    if !replaced && (damage is None || spec_clipped_bounds(v.size, damage->Some_0) is None) {
        (v, None)
    } else if v.generation == u64::MAX {
        (v, None)
    } else {
        let g = (v.generation + 1) as u64;
        (
            XCpuBufferView { generation: g, handle, ..v },
            Some(XAuthorityCpuDrawResult { handle, size: v.size, generation: g }),
        )
    }
}

/// The store after an operation that drew `bytes` into the ensured buffer
/// and reported `damage`, and its answer.
pub open spec fn spec_drew(
    old: XSoftwareBufferStore,
    new: XSoftwareBufferStore,
    drawable: XResourceId,
    size: Size,
    draw: spec_fn(XCpuBufferView) -> Seq<u8>,
    damage: Option<Rect>,
    r: Option<XAuthorityCpuDrawResult>,
) -> bool {
    let handle = spec_handle(old.next_handle);
    &&& new.next_handle == spec_next_handle(handle)
    &&& new.presentations == old.presentations
    &&& match spec_ensured(old.buffers.view(), drawable, size, handle) {
        None => r is None && new.buffers.view() == old.buffers.view(),
        Some((v, replaced)) => {
            let (fin, res) = spec_finished(XCpuBufferView { bytes: draw(v), ..v }, handle, replaced, damage);
            &&& r == res
            &&& new.buffers.view().dom() == old.buffers.view().dom().insert(drawable)
            &&& new.buffers.view().remove(drawable) == old.buffers.view().remove(drawable)
            &&& new.buffers.view()[drawable]@ == fin
        },
    }
}

/// What the store answers for a drawing: `spec_drew`'s result, named.
pub open spec fn spec_draw_result(
    store: XSoftwareBufferStore,
    drawable: XResourceId,
    size: Size,
    draw: spec_fn(XCpuBufferView) -> Seq<u8>,
    damage: Option<Rect>,
) -> Option<XAuthorityCpuDrawResult> {
    let handle = spec_handle(store.next_handle);
    match spec_ensured(store.buffers.view(), drawable, size, handle) {
        None => None,
        Some((v, replaced)) => spec_finished(XCpuBufferView { bytes: draw(v), ..v }, handle, replaced, damage).1,
    }
}

/// The answer `spec_drew` allows is exactly `spec_draw_result`.
pub proof fn lemma_drew_result(
    old: XSoftwareBufferStore,
    new: XSoftwareBufferStore,
    drawable: XResourceId,
    size: Size,
    draw: spec_fn(XCpuBufferView) -> Seq<u8>,
    damage: Option<Rect>,
    r: Option<XAuthorityCpuDrawResult>,
)
    requires
        spec_drew(old, new, drawable, size, draw, damage, r),
    ensures
        r == spec_draw_result(old, drawable, size, draw, damage),
{
}

/// Clearing `rect` to `pixel` through the default context.
pub open spec fn spec_clear_drawing(rect: Rect, pixel: u32) -> spec_fn(XCpuBufferView) -> Seq<u8> {
    |v: XCpuBufferView| spec_filled(v.bytes, v.size, rect, pixel, spec_default_gc_values())
}

/// Filling each of `rects` with the context's foreground.
pub open spec fn spec_paint_drawing(rects: Seq<Rect>, gc: XGcValuesView) -> spec_fn(XCpuBufferView) -> Seq<u8> {
    |v: XCpuBufferView| spec_filled_all(v.bytes, v.size, rects, gc.foreground, gc, rects.len() as int)
}

/// Outlining each of `rects` with the context's foreground.
pub open spec fn spec_outline_drawing(rects: Seq<Rect>, gc: XGcValuesView) -> spec_fn(XCpuBufferView) -> Seq<u8> {
    |v: XCpuBufferView|
        spec_outlined(v.bytes, v.size, rects, spec_line_width(gc.line_width), gc.foreground, gc, rects.len() as int)
}

/// Drawing the polyline through `points` with the context's foreground.
pub open spec fn spec_polyline_drawing(points: Seq<XPoint>, gc: XGcValuesView) -> spec_fn(XCpuBufferView) -> Seq<u8> {
    |v: XCpuBufferView|
        spec_polyline(
            v.bytes,
            v.size,
            points,
            spec_line_width(gc.line_width),
            gc.foreground,
            gc,
            if points.len() >= 1 {
                points.len() - 1
            } else {
                0
            },
        )
}

/// A core line width as drawing uses it: at least one pixel.
pub open spec fn spec_line_width(line_width: u16) -> i32 {
    if line_width >= 1 {
        line_width as i32
    } else {
        1
    }
}

/// The bytes after outlining the first `n` rectangles in turn.
pub open spec fn spec_outlined(
    old: Seq<u8>,
    size: Size,
    rects: Seq<Rect>,
    width: i32,
    pixel: u32,
    gc: XGcValuesView,
    n: int,
) -> Seq<u8>
    decreases n,
{
    if n <= 0 {
        old
    } else {
        let before = spec_outlined(old, size, rects, width, pixel, gc, n - 1);
        let bands = spec_outline_bands(rects[n - 1], width);
        spec_filled_all(before, size, bands, pixel, gc, bands.len() as int)
    }
}

/// The bytes after drawing the first `n` segments of a polyline in turn.
pub open spec fn spec_polyline(
    old: Seq<u8>,
    size: Size,
    points: Seq<XPoint>,
    width: i32,
    pixel: u32,
    gc: XGcValuesView,
    n: int,
) -> Seq<u8>
    decreases n,
{
    if n <= 0 {
        old
    } else {
        let before = spec_polyline(old, size, points, width, pixel, gc, n - 1);
        let pts = spec_line(points[n - 1], points[n]);
        spec_filled_all(before, size, Seq::new(pts.len(), |k: int| spec_pen(pts[k], width)), pixel, gc, pts.len() as int)
    }
}

/// The pixels of `region` of a drawable, four bytes each, row by row, zero
/// where the drawable has no pixel.
pub open spec fn spec_image_region(
    buffers: Map<XResourceId, XAuthorityCpuBufferSnapshot>,
    drawable: XResourceId,
    region: Rect,
) -> Seq<u8> {
    let dstride = 4 * region.width;
    Seq::new(
        (4 * region.width * region.height) as nat,
        |i: int|
            {
                let sy = region.y + i / dstride;
                let sx = region.x + (i % dstride) / 4;
                if buffers.contains_key(drawable) && 0 <= sy < buffers[drawable].size.height && 0 <= sx
                    < buffers[drawable].size.width {
                    buffers[drawable].bytes@[sy * (4 * buffers[drawable].size.width) + 4 * sx + i % 4]
                } else {
                    0u8
                }
            },
    )
}

/// The part of a `CopyArea` that lands, as offsets into the source
/// rectangle: left, top, right, bottom.
pub open spec fn spec_copy_area_span(source: Size, destination: Size, rect: Rect, dx: i16, dy: i16) -> (int, int, int, int) {
    let rw: int = if rect.width > 0 {
        rect.width as int
    } else {
        0
    };
    let rh: int = if rect.height > 0 {
        rect.height as int
    } else {
        0
    };
    let left = spec_max3(0, sat_sub_i32(0, rect.x as int), sat_sub_i32(0, dx as int));
    let top = spec_max3(0, sat_sub_i32(0, rect.y as int), sat_sub_i32(0, dy as int));
    let right = spec_min3(rw, sat_sub_i32(source.width as int, rect.x as int), sat_sub_i32(destination.width as int, dx as int));
    let bottom = spec_min3(rh, sat_sub_i32(source.height as int, rect.y as int), sat_sub_i32(destination.height as int, dy as int));
    (left, top, right, bottom)
}

pub open spec fn spec_max3(a: int, b: int, c: int) -> int {
    let m = if a > b {
        a
    } else {
        b
    };
    if m > c {
        m
    } else {
        c
    }
}

pub open spec fn spec_min3(a: int, b: int, c: int) -> int {
    let m = if a < b {
        a
    } else {
        b
    };
    if m < c {
        m
    } else {
        c
    }
}

/// The destination bytes after a `CopyArea`: each landing pixel takes its
/// source pixel through the context, every other byte stays.
pub open spec fn spec_area_copied(
    old: Seq<u8>,
    destination: Size,
    src: Seq<u8>,
    source: Size,
    rect: Rect,
    dx: i16,
    dy: i16,
    gc: XGcValuesView,
) -> Seq<u8> {
    let (left, top, right, bottom) = spec_copy_area_span(source, destination, rect, dx, dy);
    let stride = 4 * destination.width;
    Seq::new(
        old.len(),
        |i: int|
            {
                let y = i / stride;
                let x = (i % stride) / 4;
                let xo = x - dx;
                let yo = y - dy;
                if stride > 0 && left <= xo < right && top <= yo < bottom && spec_pixel_in_clip(x, y, gc) {
                    spec_le_byte(
                        spec_gc_pixel(
                            spec_u32_at(XByteOrder::LittleEndian, src, (rect.y + yo) * (4 * source.width) + 4 * (rect.x + xo)),
                            spec_u32_at(XByteOrder::LittleEndian, old, y * stride + 4 * x),
                            gc,
                        ),
                        i % 4,
                    )
                } else {
                    old[i]
                }
            },
    )
}

/// The store after an operation that only made sure the drawable has a
/// buffer of `size`.
pub open spec fn spec_only_ensured(
    old: XSoftwareBufferStore,
    new: XSoftwareBufferStore,
    drawable: XResourceId,
    size: Size,
) -> bool {
    let handle = spec_handle(old.next_handle);
    &&& new.next_handle == spec_next_handle(handle)
    &&& new.presentations == old.presentations
    &&& match spec_ensured(old.buffers.view(), drawable, size, handle) {
        None => new.buffers.view() == old.buffers.view(),
        Some((v, _)) => {
            &&& new.buffers.view().dom() == old.buffers.view().dom().insert(drawable)
            &&& new.buffers.view().remove(drawable) == old.buffers.view().remove(drawable)
            &&& new.buffers.view()[drawable]@ == v
        },
    }
}

/// The bytes after RENDER fills of the first `n` rectangles in turn.
pub open spec fn spec_render_filled_all(
    old: Seq<u8>,
    size: Size,
    rects: Seq<Rect>,
    op: u8,
    color: Seq<u8>,
    clip: Seq<Rect>,
    format: XRenderPictFormatKind,
    n: int,
) -> Seq<u8>
    decreases n,
{
    if n <= 0 {
        old
    } else {
        spec_render_filled(spec_render_filled_all(old, size, rects, op, color, clip, format, n - 1), size, rects[n - 1], op, color, clip, format)
    }
}

/// The ARGB8888 format tag (`AR24`), which a shaped presentation takes.
pub const X_AUTHORITY_CPU_BUFFER_FORMAT_ARGB8888: u32 = 0x3432_5241;

/// `v` held to `lo ..= hi`.
pub open spec fn spec_clamp_to(v: int, lo: int, hi: int) -> int {
    if v < lo {
        lo
    } else if v > hi {
        hi
    } else {
        v
    }
}

/// The size a window's presentation buffer takes: the whole presentation
/// when the window is its own presentation, else what it held grown to
/// cover the window at its offset, within the presentation.
pub open spec fn spec_desired_size(
    presentations: Map<XResourceId, XAuthorityCpuBufferSnapshot>,
    presentation: XResourceId,
    psize: Size,
    src: XCpuBufferView,
    ox: i32,
    oy: i32,
) -> Size {
    let ext_w = spec_clamp_to(sat_add_i32(ox as int, src.size.width as int), 1, psize.width as int);
    let ext_h = spec_clamp_to(sat_add_i32(oy as int, src.size.height as int), 1, psize.height as int);
    if src.drawable == presentation {
        psize
    } else if presentations.contains_key(presentation) {
        let b = presentations[presentation].size;
        let w = if b.width > ext_w {
            b.width as int
        } else {
            ext_w
        };
        let h = if b.height > ext_h {
            b.height as int
        } else {
            ext_h
        };
        Size { width: (if w < psize.width { w } else { psize.width as int }) as i32, height: (if h < psize.height {
            h
        } else {
            psize.height as int
        }) as i32 }
    } else {
        Size { width: ext_w as i32, height: ext_h as i32 }
    }
}

/// The presentation buffer damage is composed into, and whether it was
/// replaced: kept when it exists at the desired size, else a fresh zeroed
/// one under `handle` holding what the old one held; none past the byte
/// bound.
pub open spec fn spec_present_base(
    presentations: Map<XResourceId, XAuthorityCpuBufferSnapshot>,
    presentation: XResourceId,
    desired: Size,
    handle: u64,
) -> Option<(XCpuBufferView, bool)> {
    if presentations.contains_key(presentation) && presentations[presentation].size == desired {
        Some((presentations[presentation]@, false))
    } else if 4 * desired.width * desired.height > X_AUTHORITY_SOFTWARE_BUFFER_MAX_BYTES {
        None
    } else {
        let fresh = Seq::new((4 * desired.width * desired.height) as nat, |i: int| 0u8);
        let bytes = if presentations.contains_key(presentation) {
            let prev = presentations[presentation];
            match spec_copy_plan(
                prev.size,
                desired,
                Rect { x: 0, y: 0, width: prev.size.width, height: prev.size.height },
                0,
                0,
            ) {
                None => fresh,
                Some(plan) => spec_region_copied(fresh, desired, prev.bytes@, prev.size, plan),
            }
        } else {
            fresh
        };
        Some(
            (
                XCpuBufferView {
                    handle,
                    drawable: presentation,
                    size: desired,
                    stride: (4 * desired.width) as u32,
                    format: X_AUTHORITY_CPU_BUFFER_FORMAT_XRGB8888,
                    generation: if presentations.contains_key(presentation) {
                        presentations[presentation].generation
                    } else {
                        0
                    },
                    bytes,
                },
                true,
            ),
        )
    }
}

/// The presentation bytes after composing the first `n` damage rectangles
/// from the window's buffer, and the parts that landed.
pub open spec fn spec_present_copies(
    bytes: Seq<u8>,
    psize: Size,
    src: XCpuBufferView,
    damage: Seq<Rect>,
    ox: i32,
    oy: i32,
    n: int,
) -> (Seq<u8>, Seq<Rect>)
    decreases n,
{
    if n <= 0 {
        (bytes, Seq::empty())
    } else {
        let (b, d) = spec_present_copies(bytes, psize, src, damage, ox, oy, n - 1);
        match spec_copy_plan(src.size, psize, damage[n - 1], ox, oy) {
            None => (b, d),
            Some(plan) => {
                let (l, t, tx, ty, w, h) = plan;
                (
                    spec_region_copied(b, psize, src.bytes, src.size, plan),
                    if w != 0 && h != 0 {
                        d.push(Rect { x: tx as i32, y: ty as i32, width: w as i32, height: h as i32 })
                    } else {
                        d
                    },
                )
            },
        }
    }
}

/// The bytes after masking the first `n` rectangles to a shape in turn.
pub open spec fn spec_present_masks(bytes: Seq<u8>, psize: Size, rects: Seq<Rect>, shape: Seq<Rect>, n: int) -> Seq<u8>
    decreases n,
{
    if n <= 0 {
        bytes
    } else {
        spec_masked(spec_present_masks(bytes, psize, rects, shape, n - 1), psize, rects[n - 1], shape)
    }
}

/// The presentation buffer after composing the damage, before its
/// generation moves: copied, masked to the shape when there is one, in
/// the format the shape asks for.
pub open spec fn spec_present_composed(
    base: XCpuBufferView,
    src: XCpuBufferView,
    damage: Seq<Rect>,
    ox: i32,
    oy: i32,
    shape: Option<Seq<Rect>>,
) -> XCpuBufferView {
    let (b1, d) = spec_present_copies(base.bytes, base.size, src, damage, ox, oy, damage.len() as int);
    XCpuBufferView {
        bytes: match shape {
            Some(sh) => spec_present_masks(b1, base.size, d, sh, d.len() as int),
            None => b1,
        },
        format: if shape is Some {
            X_AUTHORITY_CPU_BUFFER_FORMAT_ARGB8888
        } else {
            X_AUTHORITY_CPU_BUFFER_FORMAT_XRGB8888
        },
        ..base
    }
}

/// The rectangles a patch batch carries: the landed damage, merged down
/// to the batch bound when longer.
pub open spec fn spec_patch_list(landed: Seq<Rect>) -> Seq<Rect> {
    if landed.len() > X_AUTHORITY_CPU_PATCH_BATCH_MAX_RECTS {
        spec_coalesced(landed, X_AUTHORITY_CPU_PATCH_BATCH_MAX_RECTS as int)
    } else {
        landed
    }
}

/// Whether a patch batch carries a buffer's pixels under each rectangle
/// of a list: the buffer's brand, and for each rectangle, in order, the
/// part of it inside the buffer with that part's rows packed tight.
pub open spec fn spec_batch_carries(batch: XAuthorityCpuBufferPatchBatch, done: XCpuBufferView, list: Seq<Rect>) -> bool {
    &&& batch.handle == done.handle
    &&& batch.drawable == done.drawable
    &&& batch.size == done.size
    &&& batch.stride == done.stride
    &&& batch.format == done.format
    &&& batch.generation == done.generation
    &&& batch.patches@.len() == list.len()
    &&& forall|k: int|
        0 <= k < list.len() ==> {
            let (l, t, rt, bt) = spec_clipped_bounds(done.size, list[k])->Some_0;
            &&& spec_clipped_bounds(done.size, list[k]) is Some
            &&& (#[trigger] batch.patches@[k]).rect == (Rect {
                x: l as i32,
                y: t as i32,
                width: (rt - l) as i32,
                height: (bt - t) as i32,
            })
            &&& batch.patches@[k].bytes@ == spec_packed_bytes(done, l, t, rt, bt)
        }
}

/// Whether the composed buffer ships whole: it was replaced, changed
/// format, or its merged damage covers at least half of it.
pub open spec fn spec_ships_whole(replaced: bool, format_changed: bool, landed: Seq<Rect>, size: Size) -> bool {
    replaced || format_changed || (landed.len() > X_AUTHORITY_CPU_PATCH_BATCH_MAX_RECTS && spec_sat(
        2 * spec_coverage(spec_patch_list(landed), spec_patch_list(landed).len() as int),
    ) >= spec_sat(size.width * size.height))
}

/// The box a damage list covers, or none for an empty list.
pub open spec fn spec_union_rects(rects: Seq<Rect>) -> Option<Rect> {
    if rects.len() == 0 {
        None
    } else {
        let (l, t, r, b) = spec_box(rects, rects.len() as int);
        Some(Rect { x: l as i32, y: t as i32, width: sat_sub_i32(r, l) as i32, height: sat_sub_i32(b, t) as i32 })
    }
}

/// The box a damage list covers.
pub fn union_rects(rectangles: &[Rect]) -> (r: Option<Rect>)
    ensures
        r == spec_union_rects(rectangles@),
{
    if rectangles.len() == 0 {
        return None;
    }
    let first = rectangles[0];
    let mut left = first.x;
    let mut top = first.y;
    let mut right = saturating_add_i32(first.x, first.width);
    let mut bottom = saturating_add_i32(first.y, first.height);
    let mut i: usize = 1;
    while i < rectangles.len()
        invariant
            1 <= i <= rectangles@.len(),
            spec_box(rectangles@, i as int) == (left as int, top as int, right as int, bottom as int),
        decreases rectangles@.len() - i,
    {
        let e = rectangles[i];
        let er = saturating_add_i32(e.x, e.width);
        let eb = saturating_add_i32(e.y, e.height);
        if e.x < left {
            left = e.x;
        }
        if e.y < top {
            top = e.y;
        }
        if er > right {
            right = er;
        }
        if eb > bottom {
            bottom = eb;
        }
        i = i + 1;
    }
    Some(
        Rect {
            x: left,
            y: top,
            width: saturating_sub_i32(right, left),
            height: saturating_sub_i32(bottom, top),
        },
    )
}

/// Rebrands a drawn buffer: a buffer kept from before must report damage
/// that is a patch of it.
fn finish_immutable_update(
    buffer: &mut XAuthorityCpuBufferSnapshot,
    handle: u64,
    replaced: bool,
    damage: Option<Rect>,
) -> (r: Option<XAuthorityCpuDrawResult>)
    ensures
        (final(buffer)@, r) == spec_finished(old(buffer)@, handle, replaced, damage),
        final(buffer).bytes == old(buffer).bytes,
{
    if !replaced {
        match damage {
            None => {
                return None;
            },
            Some(d) => {
                if clipped_bounds(buffer.size, d).is_none() {
                    return None;
                }
            },
        }
    }
    if buffer.generation == u64::MAX {
        return None;
    }
    buffer.generation = buffer.generation + 1;
    buffer.handle = handle;
    Some(XAuthorityCpuDrawResult { handle, size: buffer.size, generation: buffer.generation })
}

fn clamp_to(v: i32, lo: i32, hi: i32) -> (r: i32)
    ensures
        r == spec_clamp_to(v as int, lo as int, hi as int),
{
    if v < lo {
        lo
    } else if v > hi {
        hi
    } else {
        v
    }
}

/// A product of sizes, saturating at the largest `usize`.
fn sat_mul(a: usize, b: usize) -> (r: usize)
    ensures
        r == spec_sat(a * b),
{
    match a.checked_mul(b) {
        Some(p) => p,
        None => usize::MAX,
    }
}

/// A rectangle list copied.
fn copy_rect_list(v: &Vec<Rect>) -> (r: Vec<Rect>)
    ensures
        r@ == v@,
{
    let mut out: Vec<Rect> = Vec::new();
    let mut i: usize = 0;
    while i < v.len()
        invariant
            i <= v@.len(),
            out@ == v@.subrange(0, i as int),
        decreases v@.len() - i,
    {
        out.push(v[i]);
        i = i + 1;
        proof {
            assert(out@ =~= v@.subrange(0, i as int));
        }
    }
    proof {
        assert(out@ =~= v@);
    }
    out
}

fn max3(a: i32, b: i32, c: i32) -> (r: i32)
    ensures
        r == spec_max3(a as int, b as int, c as int),
{
    let m = if a > b {
        a
    } else {
        b
    };
    if m > c {
        m
    } else {
        c
    }
}

fn min3(a: i32, b: i32, c: i32) -> (r: i32)
    ensures
        r == spec_min3(a as int, b as int, c as int),
{
    let m = if a < b {
        a
    } else {
        b
    };
    if m < c {
        m
    } else {
        c
    }
}

/// A snapshot copied whole.
pub(crate) fn copy_snapshot(b: &XAuthorityCpuBufferSnapshot) -> (r: XAuthorityCpuBufferSnapshot)
    ensures
        r@ == b@,
{
    let mut bytes: Vec<u8> = Vec::new();
    let mut i: usize = 0;
    while i < b.bytes.len()
        invariant
            i <= b.bytes@.len(),
            bytes@ == b.bytes@.subrange(0, i as int),
        decreases b.bytes@.len() - i,
    {
        bytes.push(b.bytes[i]);
        i = i + 1;
        proof {
            assert(bytes@ =~= b.bytes@.subrange(0, i as int));
        }
    }
    proof {
        assert(bytes@ =~= b.bytes@);
    }
    XAuthorityCpuBufferSnapshot {
        handle: b.handle,
        drawable: b.drawable,
        size: b.size,
        stride: b.stride,
        format: b.format,
        generation: b.generation,
        bytes,
    }
}


/// Composes each damage rectangle from the window's buffer into the
/// presentation, answering the parts that landed.
fn compose_damage(
    target: &mut XAuthorityCpuBufferSnapshot,
    src: &XAuthorityCpuBufferSnapshot,
    damage: &[Rect],
    ox: i32,
    oy: i32,
) -> (landed: Vec<Rect>)
    requires
        old(target).wf(),
        src.wf(),
    ensures
        final(target).wf(),
        *final(target) == (XAuthorityCpuBufferSnapshot { bytes: final(target).bytes, ..*old(target) }),
        (final(target).bytes@, landed@) == spec_present_copies(
            old(target).bytes@,
            old(target).size,
            src@,
            damage@,
            ox,
            oy,
            damage@.len() as int,
        ),
{
    let ghost pre = *target;
    let mut landed: Vec<Rect> = Vec::new();
    let mut k: usize = 0;
    while k < damage.len()
        invariant
            target.wf(),
            src.wf(),
            *target == (XAuthorityCpuBufferSnapshot { bytes: target.bytes, ..pre }),
            k <= damage@.len(),
            (target.bytes@, landed@) == spec_present_copies(pre.bytes@, pre.size, src@, damage@, ox, oy, k as int),
        decreases damage@.len() - k,
    {
        match copy_buffer_region(src, target, damage[k], ox, oy) {
            Some(rect) => {
                landed.push(rect);
            },
            None => {},
        }
        k = k + 1;
    }
    landed
}

/// Masks each landed rectangle of the presentation to the shape.
fn mask_landed(target: &mut XAuthorityCpuBufferSnapshot, landed: &Vec<Rect>, shape: &Vec<Rect>)
    requires
        old(target).wf(),
    ensures
        final(target).wf(),
        *final(target) == (XAuthorityCpuBufferSnapshot { bytes: final(target).bytes, ..*old(target) }),
        final(target).bytes@ == spec_present_masks(old(target).bytes@, old(target).size, landed@, shape@, landed@.len() as int),
{
    let ghost pre = *target;
    let mut m: usize = 0;
    while m < landed.len()
        invariant
            target.wf(),
            *target == (XAuthorityCpuBufferSnapshot { bytes: target.bytes, ..pre }),
            m <= landed@.len(),
            target.bytes@ == spec_present_masks(pre.bytes@, pre.size, landed@, shape@, m as int),
        decreases landed@.len() - m,
    {
        mask_rect_to_shape(target, landed[m], shape);
        m = m + 1;
    }
}

/// The packed patch of each rectangle, or none when one covers nothing.
fn pack_patches(target: &XAuthorityCpuBufferSnapshot, list: &Vec<Rect>) -> (r: Option<Vec<XAuthorityCpuBufferPatchRegion>>)
    requires
        target.wf(),
    ensures
        r is None <==> exists|k: int| 0 <= k < list@.len() && spec_clipped_bounds(target.size, #[trigger] list@[k]) is None,
        r is Some ==> {
            let patches = r->Some_0;
            &&& patches@.len() == list@.len()
            &&& forall|k: int|
                0 <= k < list@.len() ==> {
                    let (l, t, rt, bt) = spec_clipped_bounds(target.size, list@[k])->Some_0;
                    &&& spec_clipped_bounds(target.size, list@[k]) is Some
                    &&& (#[trigger] patches@[k]).rect == (Rect {
                        x: l as i32,
                        y: t as i32,
                        width: (rt - l) as i32,
                        height: (bt - t) as i32,
                    })
                    &&& patches@[k].bytes@ == spec_packed_bytes(target@, l, t, rt, bt)
                }
        },
{
    let mut patches: Vec<XAuthorityCpuBufferPatchRegion> = Vec::new();
    let mut q: usize = 0;
    while q < list.len()
        invariant
            target.wf(),
            q <= list@.len(),
            patches@.len() == q,
            forall|j: int| 0 <= j < q ==> spec_clipped_bounds(target.size, #[trigger] list@[j]) is Some,
            forall|j: int|
                0 <= j < q ==> {
                    let (l, t, rt, bt) = spec_clipped_bounds(target.size, list@[j])->Some_0;
                    &&& (#[trigger] patches@[j]).rect == (Rect {
                        x: l as i32,
                        y: t as i32,
                        width: (rt - l) as i32,
                        height: (bt - t) as i32,
                    })
                    &&& patches@[j].bytes@ == spec_packed_bytes(target@, l, t, rt, bt)
                },
        decreases list@.len() - q,
    {
        match packed_patch_region(target, list[q]) {
            None => {
                return None;
            },
            Some(p) => {
                patches.push(p);
            },
        }
        q = q + 1;
    }
    Some(patches)
}

impl XSoftwareBufferStore {
    /// Every buffer is well formed.
    pub open spec fn wf(&self) -> bool {
        &&& self.buffers.wf()
        &&& self.presentations.wf()
        &&& forall|d: XResourceId| #[trigger] self.buffers.view().contains_key(d) ==> self.buffers.view()[d].wf()
        &&& forall|d: XResourceId| #[trigger]
            self.presentations.view().contains_key(d) ==> self.presentations.view()[d].wf()
        &&& self.export_damage.wf()
        &&& forall|d: XResourceId| #[trigger]
            self.export_damage.view().contains_key(d) ==> spec_export_list(self.export_damage.view()[d].rects@)
    }

    pub fn new() -> (r: Self)
        ensures
            r.wf(),
            r.next_handle == 0,
            r.buffers.view() == Map::<XResourceId, XAuthorityCpuBufferSnapshot>::empty(),
            r.presentations.view() == Map::<XResourceId, XAuthorityCpuBufferSnapshot>::empty(),
            r.export_damage.view() == Map::<XResourceId, XPixmapExportDamage>::empty(),
    {
        XSoftwareBufferStore {
            next_handle: 0,
            buffers: XTable::new(),
            presentations: XTable::new(),
            export_damage: XTable::new(),
        }
    }

    /// Whether this drawable holds pixels written through the CPU path.
    pub fn has_cpu_backing(&self, drawable: XResourceId) -> (r: bool)
        requires
            self.wf(),
        ensures
            r == self.buffers.view().contains_key(drawable),
    {
        self.buffers.contains_key(&drawable)
    }

    /// The presentation buffer a window composes into, if it has one.
    pub fn presentation_snapshot(&self, drawable: XResourceId) -> (r: Option<&XAuthorityCpuBufferSnapshot>)
        requires
            self.wf(),
        ensures
            match r {
                Some(b) => self.presentations.view().contains_key(drawable) && *b == self.presentations.view()[drawable],
                None => !self.presentations.view().contains_key(drawable),
            },
    {
        self.presentations.get(&drawable)
    }

    /// Drops a drawable's buffer and its presentation buffer.
    pub fn remove(&mut self, drawable: XResourceId) -> (r: Option<XAuthorityCpuBufferSnapshot>)
        requires
            old(self).wf(),
        ensures
            final(self).export_damage == old(self).export_damage,
            final(self).wf(),
            final(self).buffers.view() == old(self).buffers.view().remove(drawable),
            final(self).presentations.view() == old(self).presentations.view().remove(drawable),
            final(self).next_handle == old(self).next_handle,
            match r {
                Some(b) => old(self).buffers.view().contains_key(drawable) && b == old(self).buffers.view()[drawable],
                None => !old(self).buffers.view().contains_key(drawable),
            },
    {
        let _ = self.presentations.remove(&drawable);
        self.buffers.remove(&drawable)
    }

    /// `next` is this store with a drawable's pixels moved from `from` to
    /// `to`, branded with their new key; nothing else changes.
    pub open spec fn spec_rekeyed(&self, next: &Self, from: XResourceId, to: XResourceId) -> bool {
        &&& next.export_damage == self.export_damage
        &&& next.presentations == self.presentations
        &&& next.next_handle == self.next_handle
        &&& self.buffers.view().contains_key(from) ==> {
            &&& next.buffers.view() == self.buffers.view().remove(from).insert(to, next.buffers.view()[to])
            &&& next.buffers.view()[to]@ == (XCpuBufferView { drawable: to, ..self.buffers.view()[from]@ })
        }
        &&& !self.buffers.view().contains_key(from) ==> next.buffers.view() == self.buffers.view()
    }

    /// Moves a pixmap's pixels to another key before its id is reused.
    pub fn rekey_pixmap(&mut self, from: XResourceId, to: XResourceId)
        requires
            old(self).wf(),
        ensures
            old(self).spec_rekeyed(&*final(self), from, to),
            final(self).export_damage == old(self).export_damage,
            final(self).wf(),
            final(self).presentations == old(self).presentations,
            final(self).next_handle == old(self).next_handle,
            old(self).buffers.view().contains_key(from) ==> {
                &&& final(self).buffers.view() == old(self).buffers.view().remove(from).insert(
                    to,
                    final(self).buffers.view()[to],
                )
                &&& final(self).buffers.view()[to]@ == (XCpuBufferView {
                    drawable: to,
                    ..old(self).buffers.view()[from]@
                })
            },
            !old(self).buffers.view().contains_key(from) ==> final(self).buffers.view() == old(
                self,
            ).buffers.view(),
    {
        match self.buffers.remove(&from) {
            None => {},
            Some(mut buffer) => {
                buffer.drawable = to;
                let ghost moved = buffer;
                self.buffers.insert(to, buffer);
                proof {
                    assert(self.buffers.view()[to] == moved);
                }
            },
        }
        proof {
            let pre = *old(self);
            assert(self.export_damage == pre.export_damage);
            assert(self.presentations == pre.presentations);
            assert(self.next_handle == pre.next_handle);
            assert(pre.buffers.view().contains_key(from) ==> self.buffers.view() == pre.buffers.view().remove(from).insert(to, self.buffers.view()[to]));
            assert(pre.buffers.view().contains_key(from) ==> self.buffers.view()[to]@ == (XCpuBufferView { drawable: to, ..pre.buffers.view()[from]@ }));
            assert(!pre.buffers.view().contains_key(from) ==> self.buffers.view() == pre.buffers.view());
            assert(pre.spec_rekeyed(&*self, from, to));
        }
    }

    fn allocate_handle(&mut self) -> (r: u64)
        ensures
            final(self).export_damage == old(self).export_damage,
            r == spec_handle(old(self).next_handle),
            final(self).next_handle == spec_next_handle(r),
            final(self).buffers == old(self).buffers,
            final(self).presentations == old(self).presentations,
    {
        let handle = if self.next_handle == 0 {
            1
        } else {
            self.next_handle
        };
        self.next_handle = if handle == u64::MAX {
            u64::MAX
        } else {
            handle + 1
        };
        handle
    }

    /// Makes sure the drawable has a buffer of `size`, answering whether it
    /// was replaced.
    fn ensure(&mut self, drawable: XResourceId, size: Size, handle: u64) -> (r: Option<bool>)
        requires
            old(self).wf(),
        ensures
            final(self).export_damage == old(self).export_damage,
            final(self).wf(),
            final(self).next_handle == old(self).next_handle,
            final(self).presentations == old(self).presentations,
            match spec_ensured(old(self).buffers.view(), drawable, size, handle) {
                None => r is None && final(self).buffers.view() == old(self).buffers.view(),
                Some((v, replaced)) => {
                    &&& r == Some(replaced)
                    &&& final(self).buffers.view().dom() == old(self).buffers.view().dom().insert(drawable)
                    &&& final(self).buffers.view().remove(drawable) == old(self).buffers.view().remove(drawable)
                    &&& final(self).buffers.view()[drawable]@ == v
                },
            },
    {
        if size.width <= 0 || size.height <= 0 {
            return None;
        }
        let width: u64 = size.width as u64;
        let height: u64 = size.height as u64;
        proof {
            assert(width * height <= 0x7fff_ffff * 0x7fff_ffff) by (nonlinear_arith)
                requires
                    width <= 0x7fff_ffff,
                    height <= 0x7fff_ffff,
            ;
        }
        proof {
            assert(4 * size.width * size.height == 4 * (width * height)) by (nonlinear_arith)
                requires
                    width == size.width,
                    height == size.height,
            ;
        }
        if width * height > (X_AUTHORITY_SOFTWARE_BUFFER_MAX_BYTES / 4) as u64 {
            return None;
        }
        proof {
            assert(width <= width * height) by (nonlinear_arith)
                requires
                    height >= 1,
            ;
            assert(4 * (width * height) == (4 * width) * height) by (nonlinear_arith);
        }
        let byte_len: usize = (4 * (width * height)) as usize;
        let stride: u32 = (4 * width) as u32;
        let ghost pre = self.buffers.view();
        let (replace, generation) = match self.buffers.get(&drawable) {
            None => (true, 0u64),
            Some(b) => (b.size != size, b.generation),
        };
        if replace {
            let mut bytes: Vec<u8> = Vec::new();
            let mut i: usize = 0;
            while i < byte_len
                invariant
                    i <= byte_len,
                    bytes@ == Seq::new(i as nat, |k: int| 0u8),
                decreases byte_len - i,
            {
                bytes.push(0u8);
                i = i + 1;
                proof {
                    assert(bytes@ =~= Seq::new(i as nat, |k: int| 0u8));
                }
            }
            let buffer = XAuthorityCpuBufferSnapshot {
                handle,
                drawable,
                size,
                stride,
                format: X_AUTHORITY_CPU_BUFFER_FORMAT_XRGB8888,
                generation,
                bytes,
            };
            let ghost fresh = buffer;
            self.buffers.insert(drawable, buffer);
            proof {
                assert(self.buffers.view()[drawable] == fresh);
                assert(self.buffers.view().dom() =~= pre.dom().insert(drawable));
                assert(self.buffers.view().remove(drawable) =~= pre.remove(drawable));
                assert(fresh.wf());
            }
            Some(true)
        } else {
            proof {
                assert(self.buffers.view().dom() =~= pre.dom().insert(drawable));
            }
            Some(false)
        }
    }

    /// Takes the drawable's buffer out to draw on it.
    fn take(&mut self, drawable: XResourceId) -> (r: XAuthorityCpuBufferSnapshot)
        requires
            old(self).wf(),
            old(self).buffers.view().contains_key(drawable),
        ensures
            final(self).export_damage == old(self).export_damage,
            r == old(self).buffers.view()[drawable],
            r.wf(),
            final(self).buffers.wf(),
            final(self).presentations == old(self).presentations,
            final(self).next_handle == old(self).next_handle,
            final(self).buffers.view() == old(self).buffers.view().remove(drawable),
    {
        match self.buffers.remove(&drawable) {
            Some(b) => b,
            None => {
                proof {
                    assert(false);
                }
                XAuthorityCpuBufferSnapshot {
                    handle: 0,
                    drawable,
                    size: Size { width: 0, height: 0 },
                    stride: 0,
                    format: 0,
                    generation: 0,
                    bytes: Vec::new(),
                }
            },
        }
    }

    /// Fills `rect` with `pixel`, through the default context.
    pub fn clear(&mut self, drawable: XResourceId, size: Size, rect: Rect, pixel: u32) -> (r: Option<
        XAuthorityCpuDrawResult,
    >)
        requires
            old(self).wf(),
        ensures
            final(self).export_damage == old(self).export_damage,
            final(self).wf(),
            spec_drew(
                *old(self),
                *final(self),
                drawable,
                size,
                spec_clear_drawing(rect, pixel),
                Some(rect),
                r,
            ),
    {
        let handle = self.allocate_handle();
        let replaced = match self.ensure(drawable, size, handle) {
            None => {
                return None;
            },
            Some(b) => b,
        };
        let ghost mid = *self;
        let mut buffer = self.take(drawable);
        let gc = XGraphicsContextValues::default();
        fill_rect(&mut buffer, rect, pixel, &gc);
        let r = finish_immutable_update(&mut buffer, handle, replaced, Some(rect));
        let ghost done = buffer;
        self.buffers.insert(drawable, buffer);
        proof {
            assert(self.buffers.view()[drawable] == done);
            assert(self.buffers.view().dom() =~= mid.buffers.view().dom());
            assert(self.buffers.view().remove(drawable) =~= mid.buffers.view().remove(drawable));
        }
        r
    }

    /// Fills each damage rectangle with the context's foreground.
    pub fn paint_damage(&mut self, drawable: XResourceId, size: Size, damage: &[Rect], gc: &XGraphicsContextValues) -> (r:
        Option<XAuthorityCpuDrawResult>)
        requires
            old(self).wf(),
        ensures
            final(self).export_damage == old(self).export_damage,
            final(self).wf(),
            spec_drew(
                *old(self),
                *final(self),
                drawable,
                size,
                spec_paint_drawing(damage@, gc@),
                spec_union_rects(damage@),
                r,
            ),
    {
        let handle = self.allocate_handle();
        let replaced = match self.ensure(drawable, size, handle) {
            None => {
                return None;
            },
            Some(b) => b,
        };
        let ghost mid = *self;
        let mut buffer = self.take(drawable);
        let ghost start = buffer.bytes@;
        let mut i: usize = 0;
        while i < damage.len()
            invariant
                buffer.wf(),
                buffer.size == mid.buffers.view()[drawable].size,
                buffer@ == (XCpuBufferView { bytes: buffer.bytes@, ..mid.buffers.view()[drawable]@ }),
                start == mid.buffers.view()[drawable].bytes@,
                i <= damage@.len(),
                buffer.bytes@ == spec_filled_all(start, buffer.size, damage@, gc.foreground, gc@, i as int),
            decreases damage@.len() - i,
        {
            fill_rect(&mut buffer, damage[i], gc.foreground, gc);
            i = i + 1;
        }
        let r = finish_immutable_update(&mut buffer, handle, replaced, union_rects(damage));
        let ghost done = buffer;
        self.buffers.insert(drawable, buffer);
        proof {
            assert(self.buffers.view()[drawable] == done);
            assert(self.buffers.view().dom() =~= mid.buffers.view().dom());
            assert(self.buffers.view().remove(drawable) =~= mid.buffers.view().remove(drawable));
        }
        r
    }

    /// Outlines each rectangle with the context's foreground, the line at
    /// least one pixel wide; answers the box the outlines cover with the
    /// result. Nothing happens for no rectangles.
    pub fn draw_rectangles(&mut self, drawable: XResourceId, size: Size, rectangles: &[Rect], gc: &XGraphicsContextValues) -> (r:
        Option<(XAuthorityCpuDrawResult, Rect)>)
        requires
            old(self).wf(),
        ensures
            final(self).export_damage == old(self).export_damage,
            final(self).wf(),
            spec_outline_bounds(rectangles@, gc.line_width) is None ==> r is None && *final(self) == *old(self),
            spec_outline_bounds(rectangles@, gc.line_width) is Some ==> {
                let damage = spec_outline_bounds(rectangles@, gc.line_width)->Some_0;
                &&& spec_drew(
                    *old(self),
                    *final(self),
                    drawable,
                    size,
                    spec_outline_drawing(rectangles@, gc@),
                    Some(damage),
                    match r {
                        Some(p) => Some(p.0),
                        None => None,
                    },
                )
                &&& r is Some ==> r->Some_0.1 == damage
            },
    {
        let damage = match rectangle_outline_bounds(rectangles, gc.line_width) {
            None => {
                return None;
            },
            Some(d) => d,
        };
        let handle = self.allocate_handle();
        let replaced = match self.ensure(drawable, size, handle) {
            None => {
                return None;
            },
            Some(b) => b,
        };
        let ghost mid = *self;
        let mut buffer = self.take(drawable);
        let ghost start = buffer.bytes@;
        let line_width: i32 = if gc.line_width >= 1 {
            gc.line_width as i32
        } else {
            1
        };
        let mut i: usize = 0;
        while i < rectangles.len()
            invariant
                buffer.wf(),
                buffer.size == mid.buffers.view()[drawable].size,
                buffer@ == (XCpuBufferView { bytes: buffer.bytes@, ..mid.buffers.view()[drawable]@ }),
                start == mid.buffers.view()[drawable].bytes@,
                line_width == spec_line_width(gc.line_width),
                i <= rectangles@.len(),
                buffer.bytes@ == spec_outlined(start, buffer.size, rectangles@, line_width, gc.foreground, gc@, i as int),
            decreases rectangles@.len() - i,
        {
            draw_rectangle_outline(&mut buffer, rectangles[i], line_width, gc);
            i = i + 1;
        }
        let res = finish_immutable_update(&mut buffer, handle, replaced, Some(damage));
        let ghost done = buffer;
        self.buffers.insert(drawable, buffer);
        proof {
            assert(self.buffers.view()[drawable] == done);
            assert(self.buffers.view().dom() =~= mid.buffers.view().dom());
            assert(self.buffers.view().remove(drawable) =~= mid.buffers.view().remove(drawable));
        }
        match res {
            Some(u) => Some((u, damage)),
            None => None,
        }
    }

    /// Draws a line through each consecutive pair of points with the
    /// context's foreground, at least one pixel wide. Nothing happens for
    /// no points.
    pub fn draw_lines(&mut self, drawable: XResourceId, size: Size, points: &[XPoint], gc: &XGraphicsContextValues) -> (r:
        Option<XAuthorityCpuDrawResult>)
        requires
            old(self).wf(),
        ensures
            final(self).export_damage == old(self).export_damage,
            final(self).wf(),
            spec_point_bounds(points@, gc.line_width) is None ==> r is None && *final(self) == *old(self),
            spec_point_bounds(points@, gc.line_width) is Some ==> spec_drew(
                *old(self),
                *final(self),
                drawable,
                size,
                spec_polyline_drawing(points@, gc@),
                spec_point_bounds(points@, gc.line_width),
                r,
            ),
    {
        let damage = match point_bounds(points, gc.line_width) {
            None => {
                return None;
            },
            Some(d) => d,
        };
        let handle = self.allocate_handle();
        let replaced = match self.ensure(drawable, size, handle) {
            None => {
                return None;
            },
            Some(b) => b,
        };
        let ghost mid = *self;
        let mut buffer = self.take(drawable);
        let ghost start = buffer.bytes@;
        let width: i32 = if gc.line_width >= 1 {
            gc.line_width as i32
        } else {
            1
        };
        let last: usize = points.len() - 1;
        let mut i: usize = 0;
        while i < last
            invariant
                last + 1 == points@.len(),
                buffer.wf(),
                buffer.size == mid.buffers.view()[drawable].size,
                buffer@ == (XCpuBufferView { bytes: buffer.bytes@, ..mid.buffers.view()[drawable]@ }),
                start == mid.buffers.view()[drawable].bytes@,
                width == spec_line_width(gc.line_width),
                points@.len() >= 1,
                i + 1 <= points@.len(),
                buffer.bytes@ == spec_polyline(start, buffer.size, points@, width, gc.foreground, gc@, i as int),
            decreases points@.len() - i,
        {
            draw_line(&mut buffer, points[i], points[i + 1], width, gc);
            i = i + 1;
        }
        let r = finish_immutable_update(&mut buffer, handle, replaced, Some(damage));
        let ghost done = buffer;
        self.buffers.insert(drawable, buffer);
        proof {
            assert(self.buffers.view()[drawable] == done);
            assert(self.buffers.view().dom() =~= mid.buffers.view().dom());
            assert(self.buffers.view().remove(drawable) =~= mid.buffers.view().remove(drawable));
        }
        r
    }

    /// Writes an image through the request's wire facts. Nothing happens
    /// when the image is shorter than its rectangle needs or its depth has
    /// no pixmap format.
    pub fn put_image(
        &mut self,
        drawable: XResourceId,
        size: Size,
        destination: Rect,
        data: &[u8],
        semantics: Option<&XPutImageSemantics>,
    ) -> (r: Option<XAuthorityCpuDrawResult>)
        requires
            old(self).wf(),
            data@.len() <= isize::MAX,
        ensures
            final(self).export_damage == old(self).export_damage,
            final(self).wf(),
            ({
                let refused = destination.width < 0 || destination.height < 0 || 4 * destination.width
                    * destination.height > usize::MAX || data@.len() < 4 * destination.width * destination.height
                    || match semantics {
                    Some(s) => !spec_pixmap_depth_supported(s.depth),
                    None => false,
                };
                &&& refused ==> r is None && *final(self) == *old(self)
                &&& !refused ==> spec_drew(
                    *old(self),
                    *final(self),
                    drawable,
                    size,
                    |v: XCpuBufferView| spec_put_image(v.bytes, v.size, destination, data@, spec_semantics(semantics)),
                    Some(destination),
                    r,
                )
            }),
    {
        if destination.width < 0 || destination.height < 0 {
            return None;
        }
        let w: u64 = destination.width as u64;
        let h: u64 = destination.height as u64;
        proof {
            assert(w * h <= 0x7fff_ffff * 0x7fff_ffff) by (nonlinear_arith)
                requires
                    w <= 0x7fff_ffff,
                    h <= 0x7fff_ffff,
            ;
            assert(4 * destination.width * destination.height == 4 * (w * h)) by (nonlinear_arith)
                requires
                    w == destination.width,
                    h == destination.height,
            ;
        }
        if w * h > (usize::MAX / 4) as u64 {
            return None;
        }
        let len: usize = (4 * (w * h)) as usize;
        if data.len() < len {
            return None;
        }
        match semantics {
            Some(s) => if !pixmap_depth_supported(s.depth) {
                return None;
            },
            None => {},
        }
        let handle = self.allocate_handle();
        let replaced = match self.ensure(drawable, size, handle) {
            None => {
                return None;
            },
            Some(b) => b,
        };
        let ghost mid = *self;
        let mut buffer = self.take(drawable);
        proof {
            match semantics {
                Some(s) => {
                    assert forall|x: int, y: int|
                        #[trigger] crate::software::spec_put_image_writes(buffer.size, destination, s.gc@, x, y)
                            implies crate::software::spec_image_offset(destination, x, y) + 4 <= data@.len() by {
                        let (l, t, rt, b) = spec_clipped_bounds(buffer.size, destination)->Some_0;
                        crate::software::lemma_image_offset_in_range(destination, l, t, rt, b, x, y);
                    }
                },
                None => {},
            }
        }
        put_image_pixels(&mut buffer, destination, data, semantics);
        let r = finish_immutable_update(&mut buffer, handle, replaced, Some(destination));
        let ghost done = buffer;
        self.buffers.insert(drawable, buffer);
        proof {
            assert(self.buffers.view()[drawable] == done);
            assert(self.buffers.view().dom() =~= mid.buffers.view().dom());
            assert(self.buffers.view().remove(drawable) =~= mid.buffers.view().remove(drawable));
        }
        r
    }

    /// Makes sure the drawable has a buffer of `size`.
    pub fn ensure_image_backing(&mut self, drawable: XResourceId, size: Size) -> (r: Option<()>)
        requires
            old(self).wf(),
        ensures
            final(self).export_damage == old(self).export_damage,
            final(self).wf(),
            spec_only_ensured(*old(self), *final(self), drawable, size),
            r is Some <==> spec_ensured(old(self).buffers.view(), drawable, size, spec_handle(old(self).next_handle))
                is Some,
    {
        let handle = self.allocate_handle();
        match self.ensure(drawable, size, handle) {
            None => None,
            Some(_) => Some(()),
        }
    }

    /// Copies an image into the drawable's buffer without rebranding it,
    /// only advancing its generation.
    pub fn put_image_backing(&mut self, drawable: XResourceId, size: Size, destination: Rect, data: &[u8]) -> (r:
        Option<()>)
        requires
            old(self).wf(),
            data@.len() <= isize::MAX,
        ensures
            final(self).export_damage == old(self).export_damage,
            final(self).wf(),
            final(self).next_handle == spec_next_handle(spec_handle(old(self).next_handle)),
            final(self).presentations == old(self).presentations,
            match spec_ensured(old(self).buffers.view(), drawable, size, spec_handle(old(self).next_handle)) {
                None => r is None && final(self).buffers.view() == old(self).buffers.view(),
                Some((v, _)) => {
                    let copied = XCpuBufferView { bytes: spec_copied(v.bytes, v.size, destination, data@), ..v };
                    &&& final(self).buffers.view().dom() == old(self).buffers.view().dom().insert(drawable)
                    &&& final(self).buffers.view().remove(drawable) == old(self).buffers.view().remove(drawable)
                    &&& if v.generation == u64::MAX {
                        r is None && final(self).buffers.view()[drawable]@ == copied
                    } else {
                        r is Some && final(self).buffers.view()[drawable]@ == (XCpuBufferView {
                            generation: (v.generation + 1) as u64,
                            ..copied
                        })
                    }
                },
            },
    {
        let handle = self.allocate_handle();
        match self.ensure(drawable, size, handle) {
            None => {
                return None;
            },
            Some(_) => {},
        }
        let ghost mid = *self;
        let mut buffer = self.take(drawable);
        copy_xrgb8888(&mut buffer, destination, data);
        let r = if buffer.generation == u64::MAX {
            None
        } else {
            buffer.generation = buffer.generation + 1;
            Some(())
        };
        let ghost done = buffer;
        self.buffers.insert(drawable, buffer);
        proof {
            assert(self.buffers.view()[drawable] == done);
            assert(self.buffers.view().dom() =~= mid.buffers.view().dom());
            assert(self.buffers.view().remove(drawable) =~= mid.buffers.view().remove(drawable));
        }
        r
    }

    /// The pixels of `region` of a drawable, four bytes each, row by row;
    /// pixels outside the drawable, or of a drawable with no buffer, read
    /// as zero. None for a negative extent or one past the byte bound.
    pub fn image_region(&self, drawable: XResourceId, region: Rect) -> (r: Option<Vec<u8>>)
        requires
            self.wf(),
        ensures
            region.width < 0 || region.height < 0 || 4 * region.width * region.height
                > X_AUTHORITY_SOFTWARE_BUFFER_MAX_BYTES ==> r is None,
            !(region.width < 0 || region.height < 0 || 4 * region.width * region.height
                > X_AUTHORITY_SOFTWARE_BUFFER_MAX_BYTES) ==> r is Some && r->Some_0@ == spec_image_region(
                self.buffers.view(),
                drawable,
                region,
            ),
    {
        if region.width < 0 || region.height < 0 {
            return None;
        }
        let w: u64 = region.width as u64;
        let h: u64 = region.height as u64;
        proof {
            assert(w * h <= 0x7fff_ffff * 0x7fff_ffff) by (nonlinear_arith)
                requires
                    w <= 0x7fff_ffff,
                    h <= 0x7fff_ffff,
            ;
            assert(4 * region.width * region.height == 4 * (w * h)) by (nonlinear_arith)
                requires
                    w == region.width,
                    h == region.height,
            ;
        }
        if w * h > (X_AUTHORITY_SOFTWARE_BUFFER_MAX_BYTES / 4) as u64 {
            return None;
        }
        let width: usize = w as usize;
        let height: usize = h as usize;
        let byte_len: usize = (4 * (w * h)) as usize;
        let ghost want = spec_image_region(self.buffers.view(), drawable, region);
        if width == 0 || height == 0 {
            proof {
                assert(w * h == 0) by (nonlinear_arith)
                    requires
                        w == 0 || h == 0,
                ;
                assert(want =~= Seq::<u8>::empty());
            }
            return Some(Vec::new());
        }
        let mut image: Vec<u8> = Vec::new();
        let mut z: usize = 0;
        while z < byte_len
            invariant
                z <= byte_len,
                image@ == Seq::new(z as nat, |k: int| 0u8),
            decreases byte_len - z,
        {
            image.push(0u8);
            z = z + 1;
            proof {
                assert(image@ =~= Seq::new(z as nat, |k: int| 0u8));
            }
        }
        let buffer = match self.buffers.get(&drawable) {
            None => {
                proof {
                    assert(image@ =~= want);
                }
                return Some(image);
            },
            Some(b) => b,
        };
        let source_width: usize = buffer.size.width as usize;
        let source_height: usize = buffer.size.height as usize;
        let stride: usize = buffer.stride as usize;
        let slen = buffer.bytes.len();
        proof {
            assert(w <= w * h) by (nonlinear_arith)
                requires
                    h >= 1,
            ;
        }
        let dstride: usize = 4 * width;
        proof {
            assert(byte_len == dstride * height) by (nonlinear_arith)
                requires
                    byte_len == 4 * (w * h),
                    dstride == 4 * width,
                    width == w,
                    height == h,
            ;
        }
        let mut row: usize = 0;
        while row < height
            invariant
                buffer.wf(),
                self.buffers.view().contains_key(drawable),
                *buffer == self.buffers.view()[drawable],
                want == spec_image_region(self.buffers.view(), drawable, region),
                width == region.width,
                height == region.height,
                width > 0,
                byte_len == dstride * height,
                dstride == 4 * width,
                source_width == buffer.size.width,
                source_height == buffer.size.height,
                stride == 4 * source_width,
                slen == buffer.bytes@.len(),
                row <= height,
                image@.len() == byte_len,
                forall|i: int|
                    0 <= i < byte_len ==> #[trigger] image@[i] == if i / (dstride as int) < row {
                        want[i]
                    } else {
                        0u8
                    },
            decreases height - row,
        {
            let mut col: usize = 0;
            while col < width
                invariant
                    buffer.wf(),
                    self.buffers.view().contains_key(drawable),
                    *buffer == self.buffers.view()[drawable],
                    want == spec_image_region(self.buffers.view(), drawable, region),
                    width == region.width,
                    height == region.height,
                    width > 0,
                    byte_len == dstride * height,
                    dstride == 4 * width,
                    source_width == buffer.size.width,
                    source_height == buffer.size.height,
                    stride == 4 * source_width,
                    slen == buffer.bytes@.len(),
                    row < height,
                    col <= width,
                    image@.len() == byte_len,
                    forall|i: int|
                        0 <= i < byte_len ==> #[trigger] image@[i] == if i / (dstride as int) < row || (i / (
                        dstride as int) == row && (i % (dstride as int)) / 4 < col) {
                            want[i]
                        } else {
                            0u8
                        },
                decreases width - col,
            {
                proof {
                    assert(row * dstride + 4 * col + 4 <= byte_len) by (nonlinear_arith)
                        requires
                            row < height,
                            col < width,
                            dstride == 4 * width,
                            byte_len == dstride * height,
                    ;
                }
                let o: usize = row * dstride + 4 * col;
                let sy: i64 = region.y as i64 + row as i64;
                let sx: i64 = region.x as i64 + col as i64;
                if sy >= 0 && sy < source_height as i64 && sx >= 0 && sx < source_width as i64 {
                    let syu: usize = sy as usize;
                    let sxu: usize = sx as usize;
                    proof {
                        assert(syu * stride + 4 * sxu + 4 <= slen) by (nonlinear_arith)
                            requires
                                syu < source_height,
                                sxu < source_width,
                                stride == 4 * source_width,
                                slen == stride * source_height,
                        ;
                    }
                    let so: usize = syu * stride + 4 * sxu;
                    image.set(o, buffer.bytes[so]);
                    image.set(o + 1, buffer.bytes[so + 1]);
                    image.set(o + 2, buffer.bytes[so + 2]);
                    image.set(o + 3, buffer.bytes[so + 3]);
                }
                proof {
                    assert forall|i: int| 0 <= i < byte_len implies #[trigger] image@[i] == if i / (dstride
                        as int) < row || (i / (dstride as int) == row && (i % (dstride as int)) / 4 < col + 1) {
                        want[i]
                    } else {
                        0u8
                    } by {
                        crate::software::lemma_pixel_of_byte(i, width as int, col as int, row as int);
                    }
                }
                col = col + 1;
            }
            proof {
                assert forall|i: int| 0 <= i < byte_len implies #[trigger] image@[i] == if i / (dstride as int)
                    < row + 1 {
                    want[i]
                } else {
                    0u8
                } by {
                    if i / (dstride as int) == row {
                        vstd::arithmetic::div_mod::lemma_mod_bound(i, dstride as int);
                    }
                }
            }
            row = row + 1;
        }
        proof {
            assert forall|i: int| 0 <= i < byte_len implies #[trigger] image@[i] == want[i] by {
                vstd::arithmetic::div_mod::lemma_div_pos_is_pos(i, dstride as int);
                assert(i / (dstride as int) < height) by (nonlinear_arith)
                    requires
                        0 <= i < byte_len,
                        byte_len == dstride * height,
                        dstride > 0,
                ;
            }
            assert(image@ =~= want);
        }
        Some(image)
    }

    /// `CopyArea` between drawables through the context: the part of the
    /// source rectangle inside both drawables lands at the destination
    /// offset. Answers the area written with the result; nothing happens
    /// when the source has no buffer.
    pub fn copy_area(
        &mut self,
        source: XResourceId,
        destination: XResourceId,
        destination_size: Size,
        source_rect: Rect,
        dst_x: i16,
        dst_y: i16,
        gc: &XGraphicsContextValues,
    ) -> (r: Option<(XAuthorityCpuDrawResult, Rect)>)
        requires
            old(self).wf(),
        ensures
            final(self).export_damage == old(self).export_damage,
            final(self).wf(),
            !old(self).buffers.view().contains_key(source) ==> r is None && *final(self) == *old(self),
            old(self).buffers.view().contains_key(source) ==> {
                let src = old(self).buffers.view()[source];
                let (left, top, right, bottom) = spec_copy_area_span(src.size, destination_size, source_rect, dst_x, dst_y);
                let empty = right <= left || bottom <= top;
                let damage = Rect {
                    x: (dst_x + left) as i32,
                    y: (dst_y + top) as i32,
                    width: (right - left) as i32,
                    height: (bottom - top) as i32,
                };
                &&& empty ==> r is None && spec_only_ensured(*old(self), *final(self), destination, destination_size)
                &&& !empty ==> spec_drew(
                    *old(self),
                    *final(self),
                    destination,
                    destination_size,
                    |v: XCpuBufferView|
                        spec_area_copied(v.bytes, v.size, src.bytes@, src.size, source_rect, dst_x, dst_y, gc@),
                    Some(damage),
                    match r {
                        Some(p) => Some(p.0),
                        None => None,
                    },
                )
                &&& r is Some ==> r->Some_0.1 == damage
            },
    {
        let src = match self.buffers.get(&source) {
            None => {
                return None;
            },
            Some(b) => copy_snapshot(b),
        };
        let handle = self.allocate_handle();
        let replaced = match self.ensure(destination, destination_size, handle) {
            None => {
                return None;
            },
            Some(b) => b,
        };
        let rw: i32 = if source_rect.width > 0 {
            source_rect.width
        } else {
            0
        };
        let rh: i32 = if source_rect.height > 0 {
            source_rect.height
        } else {
            0
        };
        let left = max3(0, saturating_sub_i32(0, source_rect.x), saturating_sub_i32(0, dst_x as i32));
        let top = max3(0, saturating_sub_i32(0, source_rect.y), saturating_sub_i32(0, dst_y as i32));
        let right = min3(
            rw,
            saturating_sub_i32(src.size.width, source_rect.x),
            saturating_sub_i32(destination_size.width, dst_x as i32),
        );
        let bottom = min3(
            rh,
            saturating_sub_i32(src.size.height, source_rect.y),
            saturating_sub_i32(destination_size.height, dst_y as i32),
        );
        if right <= left || bottom <= top {
            return None;
        }
        let ghost mid = *self;
        let mut buffer = self.take(destination);
        let ghost old_bytes = buffer.bytes@;
        let ghost want = spec_area_copied(old_bytes, buffer.size, src.bytes@, src.size, source_rect, dst_x, dst_y, gc@);
        let width: usize = buffer.size.width as usize;
        let stride: usize = buffer.stride as usize;
        let sstride: usize = src.stride as usize;
        let slen = src.bytes.len();
        let dlen = buffer.bytes.len();
        let mut yo: i32 = top;
        proof {
            assert forall|i: int| 0 <= i < old_bytes.len() implies #[trigger] buffer.bytes@[i] == if i / (stride
                as int) - dst_y < yo {
                want[i]
            } else {
                old_bytes[i]
            } by {}
        }
        while yo < bottom
            invariant
                buffer.wf(),
                buffer.size == destination_size,
                buffer@ == (XCpuBufferView { bytes: buffer.bytes@, ..mid.buffers.view()[destination]@ }),
                old_bytes == mid.buffers.view()[destination].bytes@,
                want == spec_area_copied(old_bytes, destination_size, src.bytes@, src.size, source_rect, dst_x, dst_y, gc@),
                spec_copy_area_span(src.size, destination_size, source_rect, dst_x, dst_y) == (left as int, top as int, right as int, bottom as int),
                src.wf(),
                0 <= left < right,
                0 <= top < bottom,
                dst_x + right <= destination_size.width,
                dst_y + bottom <= destination_size.height,
                dst_x + left >= 0,
                dst_y + top >= 0,
                source_rect.x + left >= 0,
                source_rect.y + top >= 0,
                source_rect.x + right <= src.size.width,
                source_rect.y + bottom <= src.size.height,
                width == destination_size.width,
                stride == 4 * width,
                sstride == 4 * src.size.width,
                slen == src.bytes@.len(),
                dlen == old_bytes.len(),
                top <= yo <= bottom,
                buffer.bytes@.len() == old_bytes.len(),
                forall|i: int|
                    0 <= i < old_bytes.len() ==> #[trigger] buffer.bytes@[i] == if i / (stride as int) - dst_y < yo {
                        want[i]
                    } else {
                        old_bytes[i]
                    },
            decreases bottom - yo,
        {
            let mut xo: i32 = left;
            let y: usize = (dst_y as i32 + yo) as usize;
            let sy: usize = (source_rect.y + yo) as usize;
            proof {
                assert forall|i: int| 0 <= i < old_bytes.len() implies #[trigger] buffer.bytes@[i] == if i / (
                stride as int) - dst_y < yo || (i / (stride as int) - dst_y == yo && (i % (stride as int)) / 4 - dst_x
                    < xo) {
                    want[i]
                } else {
                    old_bytes[i]
                } by {
                    if i / (stride as int) - dst_y == yo && (i % (stride as int)) / 4 - dst_x < xo {
                        assert(want[i] == old_bytes[i]);
                    }
                }
            }
            while xo < right
                invariant
                    buffer.wf(),
                    buffer.size == destination_size,
                    buffer@ == (XCpuBufferView { bytes: buffer.bytes@, ..mid.buffers.view()[destination]@ }),
                    old_bytes == mid.buffers.view()[destination].bytes@,
                    want == spec_area_copied(old_bytes, destination_size, src.bytes@, src.size, source_rect, dst_x, dst_y, gc@),
                    spec_copy_area_span(src.size, destination_size, source_rect, dst_x, dst_y) == (left as int, top as int, right as int, bottom as int),
                    src.wf(),
                    0 <= left < right,
                    0 <= top < bottom,
                    dst_x + right <= destination_size.width,
                    dst_y + bottom <= destination_size.height,
                    dst_x + left >= 0,
                    dst_y + top >= 0,
                    source_rect.x + left >= 0,
                    source_rect.y + top >= 0,
                    source_rect.x + right <= src.size.width,
                    source_rect.y + bottom <= src.size.height,
                    width == destination_size.width,
                    stride == 4 * width,
                    sstride == 4 * src.size.width,
                    slen == src.bytes@.len(),
                    dlen == old_bytes.len(),
                    top <= yo < bottom,
                    left <= xo <= right,
                    y == dst_y + yo,
                    sy == source_rect.y + yo,
                    buffer.bytes@.len() == old_bytes.len(),
                    forall|i: int|
                        0 <= i < old_bytes.len() ==> #[trigger] buffer.bytes@[i] == if i / (stride as int) - dst_y < yo
                            || (i / (stride as int) - dst_y == yo && (i % (stride as int)) / 4 - dst_x < xo) {
                            want[i]
                        } else {
                            old_bytes[i]
                        },
                decreases right - xo,
            {
                let x: usize = (dst_x as i32 + xo) as usize;
                let sx: usize = (source_rect.x + xo) as usize;
                proof {
                    assert(y * stride + 4 * x + 4 <= old_bytes.len()) by (nonlinear_arith)
                        requires
                            y < destination_size.height,
                            x < width,
                            stride == 4 * width,
                            old_bytes.len() == stride * destination_size.height,
                    ;
                    assert(sy * sstride + 4 * sx + 4 <= slen) by (nonlinear_arith)
                        requires
                            sy < src.size.height,
                            sx < src.size.width,
                            sstride == 4 * src.size.width,
                            slen == sstride * src.size.height,
                    ;
                }
                let o: usize = y * stride + 4 * x;
                if pixel_in_clip(x, y, gc) {
                    let so: usize = sy * sstride + 4 * sx;
                    let pixel: u32 = src.bytes[so] as u32 + src.bytes[so + 1] as u32 * 256 + src.bytes[so + 2] as u32
                        * 65536 + src.bytes[so + 3] as u32 * 16777216;
                    let destination_pixel: u32 = buffer.bytes[o] as u32 + buffer.bytes[o + 1] as u32 * 256
                        + buffer.bytes[o + 2] as u32 * 65536 + buffer.bytes[o + 3] as u32 * 16777216;
                    let out = apply_raster_function(pixel, destination_pixel, gc.function, gc.plane_mask);
                    let ghost before = buffer.bytes@;
                    buffer.bytes.set(o, (out & 0xff) as u8);
                    buffer.bytes.set(o + 1, ((out >> 8u32) & 0xff) as u8);
                    buffer.bytes.set(o + 2, ((out >> 16u32) & 0xff) as u8);
                    buffer.bytes.set(o + 3, ((out >> 24u32) & 0xff) as u8);
                    proof {
                        assert forall|i: int| o <= i < o + 4 implies #[trigger] before[i] == old_bytes[i] by {
                            lemma_pixel_of_byte(i, width as int, x as int, y as int);
                        }
                        assert(destination_pixel == spec_u32_at(XByteOrder::LittleEndian, old_bytes, o as int));
                        assert(pixel == spec_u32_at(XByteOrder::LittleEndian, src.bytes@, so as int));
                        assert forall|i: int| 0 <= i < old_bytes.len() implies #[trigger] buffer.bytes@[i] == if i
                            / (stride as int) - dst_y < yo || (i / (stride as int) - dst_y == yo && (i % (stride
                            as int)) / 4 - dst_x < xo + 1) {
                            want[i]
                        } else {
                            old_bytes[i]
                        } by {
                            lemma_pixel_of_byte(i, width as int, x as int, y as int);
                        }
                    }
                } else {
                    proof {
                        assert forall|i: int| 0 <= i < old_bytes.len() implies #[trigger] buffer.bytes@[i] == if i
                            / (stride as int) - dst_y < yo || (i / (stride as int) - dst_y == yo && (i % (stride
                            as int)) / 4 - dst_x < xo + 1) {
                            want[i]
                        } else {
                            old_bytes[i]
                        } by {
                            lemma_pixel_of_byte(i, width as int, x as int, y as int);
                        }
                    }
                }
                xo = xo + 1;
            }
            proof {
                assert forall|i: int| 0 <= i < old_bytes.len() implies #[trigger] buffer.bytes@[i] == if i / (
                stride as int) - dst_y < yo + 1 {
                    want[i]
                } else {
                    old_bytes[i]
                } by {
                    if i / (stride as int) - dst_y == yo {
                        vstd::arithmetic::div_mod::lemma_mod_bound(i, stride as int);
                        assert((i % (stride as int)) / 4 < width) by (nonlinear_arith)
                            requires
                                0 <= i % (stride as int) < stride,
                                stride == 4 * width,
                        ;
                    }
                }
            }
            yo = yo + 1;
        }
        proof {
            assert forall|i: int| 0 <= i < old_bytes.len() implies #[trigger] buffer.bytes@[i] == want[i] by {}
            assert(buffer.bytes@ =~= want);
        }
        let damage = Rect {
            x: dst_x as i32 + left,
            y: dst_y as i32 + top,
            width: right - left,
            height: bottom - top,
        };
        let res = finish_immutable_update(&mut buffer, handle, replaced, Some(damage));
        let ghost done = buffer;
        self.buffers.insert(destination, buffer);
        proof {
            assert(self.buffers.view()[destination] == done);
            assert(self.buffers.view().dom() =~= mid.buffers.view().dom());
            assert(self.buffers.view().remove(destination) =~= mid.buffers.view().remove(destination));
        }
        match res {
            Some(u) => Some((u, damage)),
            None => None,
        }
    }

    /// Fills rectangles of a picture with one premultiplied color through a
    /// RENDER operator, clipped to the picture's translated clip list.
    pub fn render_fill(
        &mut self,
        drawable: XResourceId,
        size: Size,
        op: u8,
        color: [u8; 4],
        rects: &[Rect],
        clip: &Vec<Rect>,
        format: XRenderPictFormatKind,
    ) -> (r: Option<XAuthorityCpuDrawResult>)
        requires
            old(self).wf(),
        ensures
            final(self).export_damage == old(self).export_damage,
            final(self).wf(),
            spec_drew(
                *old(self),
                *final(self),
                drawable,
                size,
                |v: XCpuBufferView| spec_render_filled_all(v.bytes, v.size, rects@, op, color@, clip@, format, rects@.len() as int),
                spec_union_rects(rects@),
                r,
            ),
    {
        let handle = self.allocate_handle();
        let replaced = match self.ensure(drawable, size, handle) {
            None => {
                return None;
            },
            Some(b) => b,
        };
        let ghost mid = *self;
        let mut buffer = self.take(drawable);
        let ghost start = buffer.bytes@;
        let mut i: usize = 0;
        while i < rects.len()
            invariant
                buffer.wf(),
                buffer.size == mid.buffers.view()[drawable].size,
                buffer@ == (XCpuBufferView { bytes: buffer.bytes@, ..mid.buffers.view()[drawable]@ }),
                start == mid.buffers.view()[drawable].bytes@,
                i <= rects@.len(),
                buffer.bytes@ == spec_render_filled_all(start, buffer.size, rects@, op, color@, clip@, format, i as int),
            decreases rects@.len() - i,
        {
            render_fill_rect(&mut buffer, rects[i], op, color, clip, format);
            i = i + 1;
        }
        let r = finish_immutable_update(&mut buffer, handle, replaced, union_rects(rects));
        let ghost done = buffer;
        self.buffers.insert(drawable, buffer);
        proof {
            assert(self.buffers.view()[drawable] == done);
            assert(self.buffers.view().dom() =~= mid.buffers.view().dom());
            assert(self.buffers.view().remove(drawable) =~= mid.buffers.view().remove(drawable));
        }
        r
    }

    /// Composes a window's damage into its toplevel's presentation buffer
    /// and answers what the receiver needs: the whole buffer when it was
    /// (re)made, changed format or most of it changed, else packed patches
    /// of the damage that landed. A shape makes the buffer ARGB and clears
    /// what lies outside it in the damaged rectangles.
    #[verifier::rlimit(60)]
    #[verifier::spinoff_prover]
    pub fn present_window_damage(
        &mut self,
        presentation: XResourceId,
        presentation_size: Size,
        source: XResourceId,
        source_offset_x: i32,
        source_offset_y: i32,
        damage: &[Rect],
        shape: Option<&Vec<Rect>>,
    ) -> (r: Option<XAuthorityCpuBufferUpdate>)
        requires
            old(self).wf(),
        ensures
            final(self).export_damage == old(self).export_damage,
            final(self).wf(),
            final(self).buffers == old(self).buffers,
            !old(self).buffers.view().contains_key(source) || presentation_size.width <= 0
                || presentation_size.height <= 0 ==> r is None && *final(self) == *old(self),
            old(self).buffers.view().contains_key(source) && presentation_size.width > 0
                && presentation_size.height > 0 ==> {
                let src = old(self).buffers.view()[source]@;
                let desired = spec_desired_size(
                    old(self).presentations.view(),
                    presentation,
                    presentation_size,
                    src,
                    source_offset_x,
                    source_offset_y,
                );
                let handle = spec_handle(old(self).next_handle);
                match spec_present_base(old(self).presentations.view(), presentation, desired, handle) {
                    None => r is None && *final(self) == *old(self),
                    Some((base, replaced)) => {
                        let composed = spec_present_composed(
                            base,
                            src,
                            damage@,
                            source_offset_x,
                            source_offset_y,
                            match shape {
                                Some(v) => Some(v@),
                                None => None,
                            },
                        );
                        let landed = spec_present_copies(
                            base.bytes,
                            base.size,
                            src,
                            damage@,
                            source_offset_x,
                            source_offset_y,
                            damage@.len() as int,
                        ).1;
                        let done = if composed.generation == u64::MAX {
                            composed
                        } else {
                            XCpuBufferView { generation: (composed.generation + 1) as u64, ..composed }
                        };
                        let list = spec_patch_list(landed);
                        &&& final(self).next_handle == if replaced {
                            spec_next_handle(handle)
                        } else {
                            old(self).next_handle
                        }
                        &&& final(self).presentations.view().dom() == old(self).presentations.view().dom().insert(
                            presentation,
                        )
                        &&& final(self).presentations.view().remove(presentation) == old(
                            self,
                        ).presentations.view().remove(presentation)
                        &&& final(self).presentations.view()[presentation]@ == done
                        &&& composed.generation == u64::MAX ==> r is None
                        &&& composed.generation != u64::MAX ==> match r {
                            None => !spec_ships_whole(replaced, base.format != composed.format, landed, base.size)
                                && exists|k: int|
                                0 <= k < list.len() && spec_clipped_bounds(done.size, #[trigger] list[k]) is None,
                            Some(XAuthorityCpuBufferUpdate::Replace(b)) => spec_ships_whole(
                                replaced,
                                base.format != composed.format,
                                landed,
                                base.size,
                            ) && b@ == done,
                            Some(XAuthorityCpuBufferUpdate::PatchBatch(batch)) => !spec_ships_whole(
                                replaced,
                                base.format != composed.format,
                                landed,
                                base.size,
                            ) && spec_batch_carries(batch, done, list),
                            Some(XAuthorityCpuBufferUpdate::Patch(_)) => false,
                        }
                    },
                }
            },
    {
        let (src_drawable, src_size) = match self.buffers.get(&source) {
            None => {
                return None;
            },
            Some(b) => (b.drawable, b.size),
        };
        if presentation_size.width <= 0 || presentation_size.height <= 0 {
            return None;
        }
        let ext_w = clamp_to(saturating_add_i32(source_offset_x, src_size.width), 1, presentation_size.width);
        let ext_h = clamp_to(saturating_add_i32(source_offset_y, src_size.height), 1, presentation_size.height);
        let desired = if src_drawable == presentation {
            presentation_size
        } else {
            match self.presentations.get(&presentation) {
                Some(b) => {
                    let w = if b.size.width > ext_w {
                        b.size.width
                    } else {
                        ext_w
                    };
                    let h = if b.size.height > ext_h {
                        b.size.height
                    } else {
                        ext_h
                    };
                    Size {
                        width: if w < presentation_size.width {
                            w
                        } else {
                            presentation_size.width
                        },
                        height: if h < presentation_size.height {
                            h
                        } else {
                            presentation_size.height
                        },
                    }
                },
                None => Size { width: ext_w, height: ext_h },
            }
        };
        let replace = match self.present_base(presentation, desired) {
            None => {
                return None;
            },
            Some(b) => b,
        };
        proof {
            assert(self.presentations.view().dom().contains(presentation));
            assert(self.presentations.view()[presentation].wf());
        }
        let mut target = self.take_presentation(presentation);
        let landed = match self.buffers.get(&source) {
            Some(src) => compose_damage(&mut target, src, damage, source_offset_x, source_offset_y),
            None => {
                proof {
                    assert(false);
                }
                return None;
            },
        };
        let target_format = match shape {
            Some(_) => X_AUTHORITY_CPU_BUFFER_FORMAT_ARGB8888,
            None => X_AUTHORITY_CPU_BUFFER_FORMAT_XRGB8888,
        };
        let format_changed = target.format != target_format;
        target.format = target_format;
        match shape {
            None => {},
            Some(sh) => {
                mask_landed(&mut target, &landed, sh);
            },
        }
        let replace = replace || format_changed;
        if target.generation == u64::MAX {
            self.presentations.insert(presentation, target);
            return None;
        }
        target.generation = target.generation + 1;
        let whole = if replace {
            true
        } else if landed.len() > X_AUTHORITY_CPU_PATCH_BATCH_MAX_RECTS {
            let merged = coalesce_damage(copy_rect_list(&landed), X_AUTHORITY_CPU_PATCH_BATCH_MAX_RECTS);
            let area = sat_mul(target.size.width as usize, target.size.height as usize);
            let covered = coverage_area(&merged);
            sat_mul(2, covered) >= area
        } else {
            false
        };
        if whole {
            let copy = copy_snapshot(&target);
            self.presentations.insert(presentation, target);
            return Some(XAuthorityCpuBufferUpdate::Replace(copy));
        }
        let list = if landed.len() > X_AUTHORITY_CPU_PATCH_BATCH_MAX_RECTS {
            coalesce_damage(landed, X_AUTHORITY_CPU_PATCH_BATCH_MAX_RECTS)
        } else {
            landed
        };
        let patches = pack_patches(&target, &list);
        let result = match patches {
            None => None,
            Some(patches) => Some(
                XAuthorityCpuBufferUpdate::PatchBatch(
                    XAuthorityCpuBufferPatchBatch {
                        handle: target.handle,
                        drawable: target.drawable,
                        size: target.size,
                        stride: target.stride,
                        format: target.format,
                        generation: target.generation,
                        patches,
                    },
                ),
            ),
        };
        self.presentations.insert(presentation, target);
        result
    }

    /// Makes sure the presentation buffer exists at `desired`, answering
    /// whether it was made anew.
    fn present_base(&mut self, presentation: XResourceId, desired: Size) -> (r: Option<bool>)
        requires
            old(self).wf(),
            desired.width > 0,
            desired.height > 0,
        ensures
            final(self).export_damage == old(self).export_damage,
            final(self).wf(),
            final(self).buffers == old(self).buffers,
            match spec_present_base(
                old(self).presentations.view(),
                presentation,
                desired,
                spec_handle(old(self).next_handle),
            ) {
                None => r is None && *final(self) == *old(self),
                Some((base, replaced)) => {
                    &&& r == Some(replaced)
                    &&& final(self).next_handle == if replaced {
                        spec_next_handle(spec_handle(old(self).next_handle))
                    } else {
                        old(self).next_handle
                    }
                    &&& final(self).presentations.view().dom() == old(self).presentations.view().dom().insert(
                        presentation,
                    )
                    &&& final(self).presentations.view().remove(presentation) == old(
                        self,
                    ).presentations.view().remove(presentation)
                    &&& final(self).presentations.view()[presentation]@ == base
                },
            },
    {
        let ghost pre = self.presentations.view();
        let replace = match self.presentations.get(&presentation) {
            None => true,
            Some(b) => b.size != desired,
        };
        if !replace {
            proof {
                assert(self.presentations.view().dom() =~= pre.dom().insert(presentation));
            }
            return Some(false);
        }
        let w: u64 = desired.width as u64;
        let h: u64 = desired.height as u64;
        proof {
            assert(w * h <= 0x7fff_ffff * 0x7fff_ffff) by (nonlinear_arith)
                requires
                    w <= 0x7fff_ffff,
                    h <= 0x7fff_ffff,
            ;
            assert(4 * desired.width * desired.height == 4 * (w * h)) by (nonlinear_arith)
                requires
                    w == desired.width,
                    h == desired.height,
            ;
        }
        if w * h > (X_AUTHORITY_SOFTWARE_BUFFER_MAX_BYTES / 4) as u64 {
            return None;
        }
        proof {
            assert(w <= w * h) by (nonlinear_arith)
                requires
                    h >= 1,
            ;
            assert(4 * (w * h) == (4 * w) * h) by (nonlinear_arith);
        }
        let byte_len: usize = (4 * (w * h)) as usize;
        let handle = self.allocate_handle();
        let previous = self.presentations.remove(&presentation);
        let generation = match &previous {
            None => 0,
            Some(p) => p.generation,
        };
        let mut bytes: Vec<u8> = Vec::new();
        let mut i: usize = 0;
        while i < byte_len
            invariant
                i <= byte_len,
                bytes@ == Seq::new(i as nat, |k: int| 0u8),
            decreases byte_len - i,
        {
            bytes.push(0u8);
            i = i + 1;
            proof {
                assert(bytes@ =~= Seq::new(i as nat, |k: int| 0u8));
            }
        }
        let mut fresh = XAuthorityCpuBufferSnapshot {
            handle,
            drawable: presentation,
            size: desired,
            stride: (4 * w) as u32,
            format: X_AUTHORITY_CPU_BUFFER_FORMAT_XRGB8888,
            generation,
            bytes,
        };
        match &previous {
            None => {},
            Some(p) => {
                let _ = copy_buffer_region(p, &mut fresh, Rect { x: 0, y: 0, width: p.size.width, height: p.size.height }, 0, 0);
            },
        }
        let ghost made = fresh;
        self.presentations.insert(presentation, fresh);
        proof {
            assert(self.presentations.view()[presentation] == made);
            assert(self.presentations.view().dom() =~= pre.dom().insert(presentation));
            assert(self.presentations.view().remove(presentation) =~= pre.remove(presentation));
        }
        Some(true)
    }

    /// Takes a presentation buffer out to compose into it.
    fn take_presentation(&mut self, presentation: XResourceId) -> (r: XAuthorityCpuBufferSnapshot)
        requires
            old(self).presentations.wf(),
            old(self).presentations.view().contains_key(presentation),
            old(self).presentations.view()[presentation].wf(),
        ensures
            final(self).export_damage == old(self).export_damage,
            r == old(self).presentations.view()[presentation],
            r.wf(),
            final(self).presentations.wf(),
            final(self).buffers == old(self).buffers,
            final(self).next_handle == old(self).next_handle,
            final(self).presentations.view() == old(self).presentations.view().remove(presentation),
    {
        match self.presentations.remove(&presentation) {
            Some(b) => b,
            None => {
                proof {
                    assert(false);
                }
                XAuthorityCpuBufferSnapshot {
                    handle: 0,
                    drawable: presentation,
                    size: Size { width: 0, height: 0 },
                    stride: 0,
                    format: 0,
                    generation: 0,
                    bytes: Vec::new(),
                }
            },
        }
    }
}

} // verus!
