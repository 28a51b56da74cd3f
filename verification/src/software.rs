//! Writing pixels into a CPU buffer: clipping to the drawable, the graphics
//! context's raster function and clip list, and the byte layout of an
//! XRGB8888 buffer (four little-endian bytes a pixel, rows `stride` apart).
use vstd::prelude::*;

pub mod exports;
pub mod replay;
pub mod store;
pub mod sync;
pub mod update;

use crate::gc::{X_GX_COPY, XGcValuesView, XGraphicsContextValues, XPutImageSemantics};
use crate::geometry::{Rect, Size, sat_add_i32, sat_sub_i32, saturating_add_i32, saturating_sub_i32};
use crate::ids::XResourceId;
use crate::raster::{
    apply_raster_function, clip_list_contains, render_blend_pixel, render_point_in_clip, spec_blend_channel,
    spec_blend_factors, spec_coordinate, spec_in_clip_rect, spec_raster_function,
};
use crate::render::XRenderPictFormatKind;
use crate::wire::{XByteOrder, spec_u32_at};

verus! {

/// The pixels a drawable holds on the CPU path.
pub struct XAuthorityCpuBufferSnapshot {
    pub handle: u64,
    pub drawable: XResourceId,
    pub size: Size,
    pub stride: u32,
    pub format: u32,
    pub generation: u64,
    pub bytes: Vec<u8>,
}

impl XAuthorityCpuBufferSnapshot {
    /// Rows are exactly four bytes a pixel wide, and the bytes hold every
    /// row.
    pub open spec fn wf(&self) -> bool {
        &&& self.size.width >= 0
        &&& self.size.height >= 0
        &&& self.stride == 4 * self.size.width
        &&& self.bytes@.len() == self.stride * self.size.height
    }
}

/// The part of `rect` inside a drawable of `size`, as left, top, right and
/// bottom; none when nothing of it is inside.
pub open spec fn spec_clipped_bounds(size: Size, rect: Rect) -> Option<(int, int, int, int)> {
    if size.width <= 0 || size.height <= 0 || rect.width <= 0 || rect.height <= 0 {
        None
    } else {
        let left = spec_clamp(rect.x as int, 0, size.width as int);
        let top = spec_clamp(rect.y as int, 0, size.height as int);
        let right = spec_clamp(sat_add_i32(rect.x as int, rect.width as int), 0, size.width as int);
        let bottom = spec_clamp(sat_add_i32(rect.y as int, rect.height as int), 0, size.height as int);
        if right <= left || bottom <= top {
            None
        } else {
            Some((left, top, right, bottom))
        }
    }
}

/// `v` held to `lo ..= hi`, the lower bound applied first.
pub open spec fn spec_clamp(v: int, lo: int, hi: int) -> int {
    let a = if v < lo {
        lo
    } else {
        v
    };
    if a > hi {
        hi
    } else {
        a
    }
}

fn clamp_i32(v: i32, lo: i32, hi: i32) -> (r: i32)
    ensures
        r == spec_clamp(v as int, lo as int, hi as int),
{
    let a = if v < lo {
        lo
    } else {
        v
    };
    if a > hi {
        hi
    } else {
        a
    }
}

pub fn clipped_bounds(size: Size, rect: Rect) -> (r: Option<(usize, usize, usize, usize)>)
    ensures
        match r {
            Some((l, t, rt, b)) => spec_clipped_bounds(size, rect) == Some((l as int, t as int, rt as int, b as int)),
            None => spec_clipped_bounds(size, rect) is None,
        },
{
    if size.width <= 0 || size.height <= 0 || rect.width <= 0 || rect.height <= 0 {
        return None;
    }
    let left = clamp_i32(rect.x, 0, size.width);
    let top = clamp_i32(rect.y, 0, size.height);
    let right = clamp_i32(saturating_add_i32(rect.x, rect.width), 0, size.width);
    let bottom = clamp_i32(saturating_add_i32(rect.y, rect.height), 0, size.height);
    if right <= left || bottom <= top {
        return None;
    }
    Some((left as usize, top as usize, right as usize, bottom as usize))
}

/// A buffer coordinate as the clip test reads it, held at `i32::MAX`.
pub open spec fn spec_clip_coordinate(v: int) -> int {
    if v <= i32::MAX {
        v
    } else {
        i32::MAX as int
    }
}

/// Whether the context's clip list, when it has one, holds the pixel.
pub open spec fn spec_pixel_in_clip(x: int, y: int, gc: XGcValuesView) -> bool {
    match gc.clip_rectangles {
        None => true,
        Some(rects) => exists|i: int|
            0 <= i < rects.len() && spec_in_clip_rect(
                spec_clip_coordinate(x),
                spec_clip_coordinate(y),
                #[trigger] rects[i],
                gc.clip_x_origin as int,
                gc.clip_y_origin as int,
            ),
    }
}

pub fn pixel_in_clip(x: usize, y: usize, gc: &XGraphicsContextValues) -> (r: bool)
    ensures
        r == spec_pixel_in_clip(x as int, y as int, gc@),
{
    match &gc.clip_rectangles {
        None => true,
        Some(rects) => {
            let xi: i32 = if x <= i32::MAX as usize {
                x as i32
            } else {
                i32::MAX
            };
            let yi: i32 = if y <= i32::MAX as usize {
                y as i32
            } else {
                i32::MAX
            };
            let r = clip_list_contains(xi, yi, rects, gc.clip_x_origin as i32, gc.clip_y_origin as i32);
            proof {
                let s = rects@;
                assert(gc@.clip_rectangles == Some(s));
                if r {
                    let i = choose|i: int|
                        0 <= i < s.len() && spec_in_clip_rect(
                            xi as int,
                            yi as int,
                            #[trigger] s[i],
                            gc.clip_x_origin as i32 as int,
                            gc.clip_y_origin as i32 as int,
                        );
                    lemma_clip_witness(s, x as int, y as int, gc@, i);
                } else {
                    assert forall|i: int|
                        0 <= i < s.len() implies !spec_in_clip_rect(
                        spec_clip_coordinate(x as int),
                        spec_clip_coordinate(y as int),
                        #[trigger] s[i],
                        gc.clip_x_origin as int,
                        gc.clip_y_origin as int,
                    ) by {
                        assert(!spec_in_clip_rect(
                            xi as int,
                            yi as int,
                            s[i],
                            gc.clip_x_origin as i32 as int,
                            gc.clip_y_origin as i32 as int,
                        ));
                    }
                }
            }
            r
        },
    }
}

proof fn lemma_clip_witness(s: Seq<Rect>, x: int, y: int, gc: XGcValuesView, i: int)
    requires
        gc.clip_rectangles == Some(s),
        0 <= i < s.len(),
        spec_in_clip_rect(
            spec_clip_coordinate(x),
            spec_clip_coordinate(y),
            s[i],
            gc.clip_x_origin as int,
            gc.clip_y_origin as int,
        ),
    ensures
        spec_pixel_in_clip(x, y, gc),
{
    let rects = gc.clip_rectangles->Some_0;
    assert(rects == s);
    assert(spec_in_clip_rect(
        spec_clip_coordinate(x),
        spec_clip_coordinate(y),
        rects[i],
        gc.clip_x_origin as int,
        gc.clip_y_origin as int,
    ));
}

/// Byte `k` (little-endian) of a pixel value.
pub open spec fn spec_le_byte(v: u32, k: int) -> u8 {
    if k == 0 {
        (v & 0xff) as u8
    } else if k == 1 {
        ((v >> 8u32) & 0xff) as u8
    } else if k == 2 {
        ((v >> 16u32) & 0xff) as u8
    } else {
        ((v >> 24u32) & 0xff) as u8
    }
}

/// A pixel written through the context: its raster function, then its
/// plane mask.
pub open spec fn spec_gc_pixel(source: u32, destination: u32, gc: XGcValuesView) -> u32 {
    (spec_raster_function(source, destination, gc.function) & gc.plane_mask) | (destination
        & !gc.plane_mask)
}

/// Whether filling `rect` writes pixel (`x`, `y`) of a drawable of `size`.
pub open spec fn spec_fill_writes(size: Size, rect: Rect, gc: XGcValuesView, x: int, y: int) -> bool {
    match spec_clipped_bounds(size, rect) {
        None => false,
        Some((l, t, r, b)) => l <= x < r && t <= y < b && spec_pixel_in_clip(x, y, gc),
    }
}

/// The bytes after filling `rect` with `pixel` through the context: each
/// written pixel takes the context's result over its old value, every
/// other byte stays.
pub open spec fn spec_filled(old: Seq<u8>, size: Size, rect: Rect, pixel: u32, gc: XGcValuesView) -> Seq<u8> {
    let stride = 4 * size.width;
    Seq::new(
        old.len(),
        |i: int|
            {
                let y = i / stride;
                let x = (i % stride) / 4;
                if stride > 0 && spec_fill_writes(size, rect, gc, x, y) {
                    spec_le_byte(
                        spec_gc_pixel(pixel, spec_u32_at(XByteOrder::LittleEndian, old, y * stride + 4 * x), gc),
                        i % 4,
                    )
                } else {
                    old[i]
                }
            },
    )
}

/// The byte index `i` of a buffer with rows `stride = 4 * width` apart
/// lies in pixel (`x`, `y`) exactly when it is among that pixel's four.
pub proof fn lemma_pixel_of_byte(i: int, width: int, x: int, y: int)
    requires
        width > 0,
        0 <= x < width,
        0 <= y,
        0 <= i,
    ensures
        (i / (4 * width) == y && (i % (4 * width)) / 4 == x) <==> (y * (4 * width) + 4 * x <= i < y * (4
            * width) + 4 * x + 4),
        y * (4 * width) + 4 * x <= i < y * (4 * width) + 4 * x + 4 ==> i % 4 == i - (y * (4 * width) + 4
            * x),
{
    let stride = 4 * width;
    let o = y * stride + 4 * x;
    if o <= i < o + 4 {
        vstd::arithmetic::div_mod::lemma_fundamental_div_mod_converse(i, stride, y, 4 * x + (i - o));
        vstd::arithmetic::div_mod::lemma_fundamental_div_mod_converse(4 * x + (i - o), 4, x, i - o);
        assert(i == (y * width + x) * 4 + (i - o)) by (nonlinear_arith)
            requires
                o == y * (4 * width) + 4 * x,
                stride == 4 * width,
        ;
        vstd::arithmetic::div_mod::lemma_fundamental_div_mod_converse(i, 4, y * width + x, i - o);
    }
    if i / stride == y && (i % stride) / 4 == x {
        vstd::arithmetic::div_mod::lemma_fundamental_div_mod(i, stride);
        vstd::arithmetic::div_mod::lemma_mod_bound(i, stride);
        vstd::arithmetic::div_mod::lemma_fundamental_div_mod(i % stride, 4);
        vstd::arithmetic::div_mod::lemma_mod_bound(i % stride, 4);
        let r = (i % stride) % 4;
        assert(i % stride == 4 * x + r);
        assert(i == y * stride + 4 * x + r) by (nonlinear_arith)
            requires
                i == stride * (i / stride) + i % stride,
                i / stride == y,
                i % stride == 4 * x + r,
        ;
    }
}

/// Fills `rect`, clipped to the drawable and the context's clip list, with
/// `pixel` through the context's raster function and plane mask.
pub fn fill_rect(buffer: &mut XAuthorityCpuBufferSnapshot, rect: Rect, pixel: u32, gc: &XGraphicsContextValues)
    requires
        old(buffer).wf(),
    ensures
        final(buffer).wf(),
        final(buffer).bytes@ == spec_filled(old(buffer).bytes@, old(buffer).size, rect, pixel, gc@),
        *final(buffer) == (XAuthorityCpuBufferSnapshot { bytes: final(buffer).bytes, ..*old(buffer) }),
{
    let ghost old_bytes = buffer.bytes@;
    let ghost want = spec_filled(old_bytes, buffer.size, rect, pixel, gc@);
    let (left, top, right, bottom) = match clipped_bounds(buffer.size, rect) {
        None => {
            proof {
                assert(buffer.bytes@ =~= want);
            }
            return;
        },
        Some(b) => b,
    };
    let ghost pre = *buffer;
    let len = buffer.bytes.len();
    let width: usize = buffer.size.width as usize;
    let stride: usize = buffer.stride as usize;
    let mut y: usize = top;
    proof {
        assert forall|i: int| 0 <= i < old_bytes.len() implies #[trigger] buffer.bytes@[i] == if i / (stride
            as int) < y {
            want[i]
        } else {
            old_bytes[i]
        } by {
            if i / (stride as int) < y {
                assert(!spec_fill_writes(pre.size, rect, gc@, (i % (stride as int)) / 4, i / (stride as int)));
            }
        }
    }
    while y < bottom
        invariant
            buffer.wf(),
            *buffer == (XAuthorityCpuBufferSnapshot { bytes: buffer.bytes, ..pre }),
            pre.wf(),
            old_bytes == pre.bytes@,
            want == spec_filled(old_bytes, pre.size, rect, pixel, gc@),
            spec_clipped_bounds(pre.size, rect) == Some((left as int, top as int, right as int, bottom as int)),
            width == pre.size.width,
            stride == 4 * width,
            top <= y <= bottom,
            buffer.bytes@.len() == old_bytes.len(),
            len == old_bytes.len(),
            forall|i: int|
                0 <= i < old_bytes.len() ==> #[trigger] buffer.bytes@[i] == if i / (stride as int) < y {
                    want[i]
                } else {
                    old_bytes[i]
                },
        decreases bottom - y,
    {
        let mut x: usize = left;
        proof {
            assert forall|i: int| 0 <= i < old_bytes.len() implies #[trigger] buffer.bytes@[i] == if i / (
            stride as int) < y || (i / (stride as int) == y && (i % (stride as int)) / 4 < x) {
                want[i]
            } else {
                old_bytes[i]
            } by {
                if i / (stride as int) == y && (i % (stride as int)) / 4 < x {
                    assert(!spec_fill_writes(pre.size, rect, gc@, (i % (stride as int)) / 4, y as int));
                }
            }
        }
        while x < right
            invariant
                buffer.wf(),
                *buffer == (XAuthorityCpuBufferSnapshot { bytes: buffer.bytes, ..pre }),
                pre.wf(),
                old_bytes == pre.bytes@,
                want == spec_filled(old_bytes, pre.size, rect, pixel, gc@),
                spec_clipped_bounds(pre.size, rect) == Some((left as int, top as int, right as int, bottom as int)),
                width == pre.size.width,
                stride == 4 * width,
                top <= y < bottom,
                left <= x <= right,
                buffer.bytes@.len() == old_bytes.len(),
                len == old_bytes.len(),
                forall|i: int|
                    0 <= i < old_bytes.len() ==> #[trigger] buffer.bytes@[i] == if i / (stride as int) < y || (i
                        / (stride as int) == y && (i % (stride as int)) / 4 < x) {
                        want[i]
                    } else {
                        old_bytes[i]
                    },
            decreases right - x,
        {
            proof {
                assert(y * stride + 4 * x + 4 <= old_bytes.len()) by (nonlinear_arith)
                    requires
                        y < bottom,
                        bottom <= pre.size.height,
                        x < right,
                        right <= width,
                        stride == 4 * width,
                        old_bytes.len() == stride * pre.size.height,
                ;
            }
            let o: usize = y * stride + 4 * x;
            if pixel_in_clip(x, y, gc) {
                let b0 = buffer.bytes[o] as u32;
                let b1 = buffer.bytes[o + 1] as u32;
                let b2 = buffer.bytes[o + 2] as u32;
                let b3 = buffer.bytes[o + 3] as u32;
                let destination: u32 = b0 + b1 * 256 + b2 * 65536 + b3 * 16777216;
                let out = apply_raster_function(pixel, destination, gc.function, gc.plane_mask);
                let ghost before = buffer.bytes@;
                buffer.bytes[o] = (out & 0xff) as u8;
                buffer.bytes[o + 1] = ((out >> 8u32) & 0xff) as u8;
                buffer.bytes[o + 2] = ((out >> 16u32) & 0xff) as u8;
                buffer.bytes[o + 3] = ((out >> 24u32) & 0xff) as u8;
                proof {
                    assert forall|i: int| o <= i < o + 4 implies #[trigger] before[i] == old_bytes[i] by {
                        lemma_pixel_of_byte(i, width as int, x as int, y as int);
                    }
                    assert(destination == spec_u32_at(XByteOrder::LittleEndian, old_bytes, o as int));
                    assert forall|i: int| 0 <= i < old_bytes.len() implies #[trigger] buffer.bytes@[i] == if i
                        / (stride as int) < y || (i / (stride as int) == y && (i % (stride as int)) / 4 < x
                        + 1) {
                        want[i]
                    } else {
                        old_bytes[i]
                    } by {
                        lemma_pixel_of_byte(i, width as int, x as int, y as int);
                        if o <= i < o + 4 {
                            assert(spec_fill_writes(pre.size, rect, gc@, x as int, y as int));
                        }
                    }
                }
            } else {
                proof {
                    assert forall|i: int| 0 <= i < old_bytes.len() implies #[trigger] buffer.bytes@[i] == if i
                        / (stride as int) < y || (i / (stride as int) == y && (i % (stride as int)) / 4 < x
                        + 1) {
                        want[i]
                    } else {
                        old_bytes[i]
                    } by {
                        lemma_pixel_of_byte(i, width as int, x as int, y as int);
                    }
                }
            }
            x = x + 1;
        }
        proof {
            assert forall|i: int| 0 <= i < old_bytes.len() implies #[trigger] buffer.bytes@[i] == if i / (stride
                as int) < y + 1 {
                want[i]
            } else {
                old_bytes[i]
            } by {
                if i / (stride as int) == y {
                    vstd::arithmetic::div_mod::lemma_mod_bound(i, stride as int);
                    assert((i % (stride as int)) / 4 < width) by (nonlinear_arith)
                        requires
                            0 <= i % (stride as int) < stride,
                            stride == 4 * width,
                    ;
                    if (i % (stride as int)) / 4 >= right {
                        assert(!spec_fill_writes(pre.size, rect, gc@, (i % (stride as int)) / 4, y as int));
                    }
                }
            }
        }
        y = y + 1;
    }
    proof {
        assert forall|i: int| 0 <= i < old_bytes.len() implies #[trigger] buffer.bytes@[i] == want[i] by {
            if i / (stride as int) >= y {
                assert(!spec_fill_writes(pre.size, rect, gc@, (i % (stride as int)) / 4, i / (stride as int)));
            }
        }
        assert(buffer.bytes@ =~= want);
    }
}


/// Writes one pixel through the context, when it lies inside the drawable
/// and the clip list: the same as filling the one-pixel rectangle there.
pub fn set_pixel(buffer: &mut XAuthorityCpuBufferSnapshot, x: i32, y: i32, pixel: u32, gc: &XGraphicsContextValues)
    requires
        old(buffer).wf(),
    ensures
        final(buffer).wf(),
        final(buffer).bytes@ == spec_filled(
            old(buffer).bytes@,
            old(buffer).size,
            Rect { x, y, width: 1, height: 1 },
            pixel,
            gc@,
        ),
        *final(buffer) == (XAuthorityCpuBufferSnapshot { bytes: final(buffer).bytes, ..*old(buffer) }),
{
    fill_rect(buffer, Rect { x, y, width: 1, height: 1 }, pixel, gc);
}

/// A point of a core drawing request.
#[derive(Clone, Copy, Debug, PartialEq, Eq, Structural)]
pub struct XPoint {
    pub x: i16,
    pub y: i16,
}

/// Half of a width, rounded toward zero.
pub open spec fn spec_half(w: int) -> int {
    if w >= 0 {
        w / 2
    } else {
        -((-w) / 2)
    }
}

/// The four bands of a rectangle outlined `line_width` wide, centred on
/// its edges (top, bottom, left, right), or the whole outer rectangle when
/// the line swallows the inside.
pub open spec fn spec_outline_bands(rectangle: Rect, line_width: i32) -> Seq<Rect> {
    let half = spec_half(line_width as int);
    let outer_left = sat_sub_i32(rectangle.x as int, half as int);
    let outer_top = sat_sub_i32(rectangle.y as int, half as int);
    let outer_right = sat_add_i32(
        sat_sub_i32(sat_add_i32(rectangle.x as int, rectangle.width as int), half as int),
        line_width as int,
    );
    let outer_bottom = sat_add_i32(
        sat_sub_i32(sat_add_i32(rectangle.y as int, rectangle.height as int), half as int),
        line_width as int,
    );
    let inner_left = sat_add_i32(outer_left, line_width as int);
    let inner_top = sat_add_i32(outer_top, line_width as int);
    let inner_right = sat_sub_i32(outer_right, line_width as int);
    let inner_bottom = sat_sub_i32(outer_bottom, line_width as int);
    let outer_width = sat_sub_i32(outer_right, outer_left);
    if inner_left >= inner_right || inner_top >= inner_bottom {
        seq![
            Rect {
                x: outer_left as i32,
                y: outer_top as i32,
                width: outer_width as i32,
                height: sat_sub_i32(outer_bottom, outer_top) as i32,
            },
        ]
    } else {
        seq![
            Rect {
                x: outer_left as i32,
                y: outer_top as i32,
                width: outer_width as i32,
                height: sat_sub_i32(inner_top, outer_top) as i32,
            },
            Rect {
                x: outer_left as i32,
                y: inner_bottom as i32,
                width: outer_width as i32,
                height: sat_sub_i32(outer_bottom, inner_bottom) as i32,
            },
            Rect {
                x: outer_left as i32,
                y: inner_top as i32,
                width: sat_sub_i32(inner_left, outer_left) as i32,
                height: sat_sub_i32(inner_bottom, inner_top) as i32,
            },
            Rect {
                x: inner_right as i32,
                y: inner_top as i32,
                width: sat_sub_i32(outer_right, inner_right) as i32,
                height: sat_sub_i32(inner_bottom, inner_top) as i32,
            },
        ]
    }
}

/// The bytes after filling the first `n` rectangles in turn.
pub open spec fn spec_filled_all(old: Seq<u8>, size: Size, rects: Seq<Rect>, pixel: u32, gc: XGcValuesView, n: int) -> Seq<
    u8,
>
    decreases n,
{
    if n <= 0 {
        old
    } else {
        spec_filled(spec_filled_all(old, size, rects, pixel, gc, n - 1), size, rects[n - 1], pixel, gc)
    }
}

/// Outlines a rectangle with the context's foreground, `line_width` wide
/// and centred on its edges; the bands do not overlap, so every pixel takes
/// one raster operation.
pub fn draw_rectangle_outline(
    buffer: &mut XAuthorityCpuBufferSnapshot,
    rectangle: Rect,
    line_width: i32,
    gc: &XGraphicsContextValues,
)
    requires
        old(buffer).wf(),
    ensures
        final(buffer).wf(),
        final(buffer).bytes@ == spec_filled_all(
            old(buffer).bytes@,
            old(buffer).size,
            spec_outline_bands(rectangle, line_width),
            gc.foreground,
            gc@,
            spec_outline_bands(rectangle, line_width).len() as int,
        ),
        *final(buffer) == (XAuthorityCpuBufferSnapshot { bytes: final(buffer).bytes, ..*old(buffer) }),
{
    let half = line_width / 2;
    let outer_left = saturating_sub_i32(rectangle.x, half);
    let outer_top = saturating_sub_i32(rectangle.y, half);
    let outer_right = saturating_add_i32(
        saturating_sub_i32(saturating_add_i32(rectangle.x, rectangle.width), half),
        line_width,
    );
    let outer_bottom = saturating_add_i32(
        saturating_sub_i32(saturating_add_i32(rectangle.y, rectangle.height), half),
        line_width,
    );
    let inner_left = saturating_add_i32(outer_left, line_width);
    let inner_top = saturating_add_i32(outer_top, line_width);
    let inner_right = saturating_sub_i32(outer_right, line_width);
    let inner_bottom = saturating_sub_i32(outer_bottom, line_width);
    let outer = Rect {
        x: outer_left,
        y: outer_top,
        width: saturating_sub_i32(outer_right, outer_left),
        height: saturating_sub_i32(outer_bottom, outer_top),
    };
    let ghost bands = spec_outline_bands(rectangle, line_width);
    proof {
        assert(half as int == spec_half(line_width as int));
    }
    let ghost old_bytes = buffer.bytes@;
    let ghost size = buffer.size;
    if inner_left >= inner_right || inner_top >= inner_bottom {
        fill_rect(buffer, outer, gc.foreground, gc);
        proof {
            assert(bands[0] == outer);
            assert(spec_filled_all(old_bytes, size, bands, gc.foreground, gc@, 0) == old_bytes);
        }
        return;
    }
    let band_list = [
        Rect { x: outer_left, y: outer_top, width: outer.width, height: saturating_sub_i32(inner_top, outer_top) },
        Rect {
            x: outer_left,
            y: inner_bottom,
            width: outer.width,
            height: saturating_sub_i32(outer_bottom, inner_bottom),
        },
        Rect {
            x: outer_left,
            y: inner_top,
            width: saturating_sub_i32(inner_left, outer_left),
            height: saturating_sub_i32(inner_bottom, inner_top),
        },
        Rect {
            x: inner_right,
            y: inner_top,
            width: saturating_sub_i32(outer_right, inner_right),
            height: saturating_sub_i32(inner_bottom, inner_top),
        },
    ];
    proof {
        assert(band_list@ =~= bands);
    }
    let mut k: usize = 0;
    while k < 4
        invariant
            buffer.wf(),
            buffer.size == size,
            *buffer == (XAuthorityCpuBufferSnapshot { bytes: buffer.bytes, ..*old(buffer) }),
            old_bytes == old(buffer).bytes@,
            band_list@ == bands,
            bands.len() == 4,
            k <= 4,
            buffer.bytes@ == spec_filled_all(old_bytes, size, bands, gc.foreground, gc@, k as int),
        decreases 4 - k,
    {
        fill_rect(buffer, band_list[k], gc.foreground, gc);
        k = k + 1;
    }
}

/// The box a run of rectangles covers, grown by the line width centred
/// on its edges; none for no rectangles.
pub open spec fn spec_outline_bounds(rectangles: Seq<Rect>, line_width: u16) -> Option<Rect> {
    if rectangles.len() == 0 {
        None
    } else {
        let (left, top, right, bottom) = spec_box(rectangles, rectangles.len() as int);
        let width: int = if line_width >= 1 {
            line_width as int
        } else {
            1
        };
        let half = width / 2;
        Some(
            Rect {
                x: sat_sub_i32(left, half) as i32,
                y: sat_sub_i32(top, half) as i32,
                width: sat_add_i32(sat_sub_i32(right, left), width) as i32,
                height: sat_add_i32(sat_sub_i32(bottom, top), width) as i32,
            },
        )
    }
}

/// The left, top, right and bottom of the first `n` rectangles together
/// (right and bottom saturating); `n` at least one.
pub open spec fn spec_box(rs: Seq<Rect>, n: int) -> (int, int, int, int)
    decreases n,
{
    if n <= 1 {
        (rs[0].x as int, rs[0].y as int, sat_add_i32(rs[0].x as int, rs[0].width as int), sat_add_i32(
            rs[0].y as int,
            rs[0].height as int,
        ))
    } else {
        let (l, t, r, b) = spec_box(rs, n - 1);
        let e = rs[n - 1];
        (
            if e.x < l {
                e.x as int
            } else {
                l
            },
            if e.y < t {
                e.y as int
            } else {
                t
            },
            if sat_add_i32(e.x as int, e.width as int) > r {
                sat_add_i32(e.x as int, e.width as int)
            } else {
                r
            },
            if sat_add_i32(e.y as int, e.height as int) > b {
                sat_add_i32(e.y as int, e.height as int)
            } else {
                b
            },
        )
    }
}

pub fn rectangle_outline_bounds(rectangles: &[Rect], line_width: u16) -> (r: Option<Rect>)
    ensures
        r == spec_outline_bounds(rectangles@, line_width),
{
    if rectangles.len() == 0 {
        return None;
    }
    let first = rectangles[0];
    let mut left = first.x;
    let mut top = first.y;
    let mut right = saturating_add_i32(first.x, first.width);
    let mut bottom = saturating_add_i32(first.y, first.height);
    let mut i: usize = 1;
    while i < rectangles.len()
        invariant
            1 <= i <= rectangles@.len(),
            spec_box(rectangles@, i as int) == (left as int, top as int, right as int, bottom as int),
        decreases rectangles@.len() - i,
    {
        let e = rectangles[i];
        let er = saturating_add_i32(e.x, e.width);
        let eb = saturating_add_i32(e.y, e.height);
        if e.x < left {
            left = e.x;
        }
        if e.y < top {
            top = e.y;
        }
        if er > right {
            right = er;
        }
        if eb > bottom {
            bottom = eb;
        }
        i = i + 1;
    }
    let width: i32 = if line_width >= 1 {
        line_width as i32
    } else {
        1
    };
    let half = width / 2;
    Some(
        Rect {
            x: saturating_sub_i32(left, half),
            y: saturating_sub_i32(top, half),
            width: saturating_add_i32(saturating_sub_i32(right, left), width),
            height: saturating_add_i32(saturating_sub_i32(bottom, top), width),
        },
    )
}

/// The box a run of points covers, grown by the line width centred on
/// them; none for no points.
pub open spec fn spec_point_bounds(points: Seq<XPoint>, line_width: u16) -> Option<Rect> {
    if points.len() == 0 {
        None
    } else {
        let rs = Seq::new(points.len(), |i: int| Rect { x: points[i].x as i32, y: points[i].y as i32, width: 0, height: 0 });
        spec_outline_bounds(rs, line_width)
    }
}

pub fn point_bounds(points: &[XPoint], line_width: u16) -> (r: Option<Rect>)
    ensures
        r == spec_point_bounds(points@, line_width),
{
    let mut rects: Vec<Rect> = Vec::new();
    let mut i: usize = 0;
    while i < points.len()
        invariant
            i <= points@.len(),
            rects@ == Seq::new(i as nat, |j: int| Rect { x: points@[j].x as i32, y: points@[j].y as i32, width: 0, height: 0 }),
        decreases points@.len() - i,
    {
        rects.push(Rect { x: points[i].x as i32, y: points[i].y as i32, width: 0, height: 0 });
        i = i + 1;
        proof {
            assert(rects@ =~= Seq::new(i as nat, |j: int| Rect { x: points@[j].x as i32, y: points@[j].y as i32, width: 0, height: 0 }));
        }
    }
    rectangle_outline_bounds(rects.as_slice(), line_width)
}


/// The offset of pixel (`x`, `y`) in an image of `rect`'s size placed at
/// `rect`, packed four bytes a pixel.
pub open spec fn spec_image_offset(rect: Rect, x: int, y: int) -> int {
    ((y - rect.y) * rect.width + (x - rect.x)) * 4
}

/// The bytes after copying an XRGB8888 image of `rect`'s size into the part
/// of `rect` inside the drawable; nothing changes when the image is shorter
/// than `rect` needs.
pub open spec fn spec_copied(old: Seq<u8>, size: Size, rect: Rect, data: Seq<u8>) -> Seq<u8> {
    let stride = 4 * size.width;
    match spec_clipped_bounds(size, rect) {
        None => old,
        Some((l, t, r, b)) => if 4 * rect.width > usize::MAX || data.len() < (if 4 * rect.width
            * rect.height > usize::MAX {
            usize::MAX as int
        } else {
            4 * rect.width * rect.height
        }) {
            old
        } else {
            Seq::new(
                old.len(),
                |i: int|
                    {
                        let y = i / stride;
                        let x = (i % stride) / 4;
                        if l <= x < r && t <= y < b {
                            data[spec_image_offset(rect, x, y) + i % 4]
                        } else {
                            old[i]
                        }
                    },
            )
        },
    }
}

pub proof fn lemma_image_offset_in_range(rect: Rect, l: int, t: int, r: int, b: int, x: int, y: int)
    requires
        rect.width > 0,
        rect.height > 0,
        rect.x <= l <= x < r <= rect.x + rect.width,
        rect.y <= t <= y < b <= rect.y + rect.height,
    ensures
        0 <= spec_image_offset(rect, x, y),
        spec_image_offset(rect, x, y) + 4 <= 4 * rect.width * rect.height,
{
    assert(0 <= (y - rect.y) * rect.width) by (nonlinear_arith)
        requires
            y >= rect.y,
            rect.width > 0,
    ;
    assert(((y - rect.y) * rect.width + (x - rect.x)) * 4 + 4 <= 4 * rect.width * rect.height) by (nonlinear_arith)
        requires
            0 <= y - rect.y < rect.height,
            0 <= x - rect.x < rect.width,
    ;
}

/// Copies an XRGB8888 image of `rect`'s size into the part of `rect`
/// inside the drawable.
pub fn copy_xrgb8888(buffer: &mut XAuthorityCpuBufferSnapshot, rect: Rect, data: &[u8])
    requires
        old(buffer).wf(),
        data@.len() <= isize::MAX,
    ensures
        final(buffer).wf(),
        final(buffer).bytes@ == spec_copied(old(buffer).bytes@, old(buffer).size, rect, data@),
        *final(buffer) == (XAuthorityCpuBufferSnapshot { bytes: final(buffer).bytes, ..*old(buffer) }),
{
    let ghost old_bytes = buffer.bytes@;
    let ghost want = spec_copied(old_bytes, buffer.size, rect, data@);
    let (left, top, right, bottom) = match clipped_bounds(buffer.size, rect) {
        None => {
            return;
        },
        Some(b) => b,
    };
    let source_width = rect.width as usize;
    let source_height = rect.height as usize;
    let source_stride = match source_width.checked_mul(4) {
        None => {
            return;
        },
        Some(n) => n,
    };
    let needed = match source_stride.checked_mul(source_height) {
        None => usize::MAX,
        Some(n) => n,
    };
    if data.len() < needed {
        return;
    }
    let ghost pre = *buffer;
    let len = buffer.bytes.len();
    let width: usize = buffer.size.width as usize;
    let stride: usize = buffer.stride as usize;
    let mut y: usize = top;
    proof {
        assert forall|i: int| 0 <= i < old_bytes.len() implies #[trigger] buffer.bytes@[i] == if i / (stride
            as int) < y {
            want[i]
        } else {
            old_bytes[i]
        } by {}
    }
    while y < bottom
        invariant
            buffer.wf(),
            *buffer == (XAuthorityCpuBufferSnapshot { bytes: buffer.bytes, ..pre }),
            pre.wf(),
            old_bytes == pre.bytes@,
            want == spec_copied(old_bytes, pre.size, rect, data@),
            spec_clipped_bounds(pre.size, rect) == Some((left as int, top as int, right as int, bottom as int)),
            4 * rect.width <= usize::MAX,
            4 * rect.width * rect.height <= data@.len(),
            data@.len() <= isize::MAX,
            width == pre.size.width,
            stride == 4 * width,
            top <= y <= bottom,
            len == old_bytes.len(),
            buffer.bytes@.len() == old_bytes.len(),
            forall|i: int|
                0 <= i < old_bytes.len() ==> #[trigger] buffer.bytes@[i] == if i / (stride as int) < y {
                    want[i]
                } else {
                    old_bytes[i]
                },
        decreases bottom - y,
    {
        let mut x: usize = left;
        proof {
            assert forall|i: int| 0 <= i < old_bytes.len() implies #[trigger] buffer.bytes@[i] == if i / (
            stride as int) < y || (i / (stride as int) == y && (i % (stride as int)) / 4 < x) {
                want[i]
            } else {
                old_bytes[i]
            } by {}
        }
        while x < right
            invariant
                buffer.wf(),
                *buffer == (XAuthorityCpuBufferSnapshot { bytes: buffer.bytes, ..pre }),
                pre.wf(),
                old_bytes == pre.bytes@,
                want == spec_copied(old_bytes, pre.size, rect, data@),
                spec_clipped_bounds(pre.size, rect) == Some((left as int, top as int, right as int, bottom as int)),
                4 * rect.width <= usize::MAX,
                4 * rect.width * rect.height <= data@.len(),
                data@.len() <= isize::MAX,
                width == pre.size.width,
                stride == 4 * width,
                top <= y < bottom,
                left <= x <= right,
                len == old_bytes.len(),
                buffer.bytes@.len() == old_bytes.len(),
                forall|i: int|
                    0 <= i < old_bytes.len() ==> #[trigger] buffer.bytes@[i] == if i / (stride as int) < y || (i
                        / (stride as int) == y && (i % (stride as int)) / 4 < x) {
                        want[i]
                    } else {
                        old_bytes[i]
                    },
            decreases right - x,
        {
            proof {
                assert(y * stride + 4 * x + 4 <= old_bytes.len()) by (nonlinear_arith)
                    requires
                        y < bottom,
                        bottom <= pre.size.height,
                        x < right,
                        right <= width,
                        stride == 4 * width,
                        old_bytes.len() == stride * pre.size.height,
                ;
                lemma_image_offset_in_range(
                    rect,
                    left as int,
                    top as int,
                    right as int,
                    bottom as int,
                    x as int,
                    y as int,
                );
            }
            let o: usize = y * stride + 4 * x;
            let row: i64 = y as i64 - rect.y as i64;
            let column: i64 = x as i64 - rect.x as i64;
            proof {
                assert(0 <= row * rect.width <= row * rect.width + column) by (nonlinear_arith)
                    requires
                        row >= 0,
                        rect.width > 0,
                        column >= 0,
                ;
                assert((row * rect.width + column) * 4 == spec_image_offset(rect, x as int, y as int));
                assert((row * rect.width + column) * 4 + 4 <= data@.len());
            }
            let s: usize = ((row * rect.width as i64 + column) * 4) as usize;
            let ghost before = buffer.bytes@;
            buffer.bytes[o] = data[s];
            buffer.bytes[o + 1] = data[s + 1];
            buffer.bytes[o + 2] = data[s + 2];
            buffer.bytes[o + 3] = data[s + 3];
            proof {
                assert forall|i: int| 0 <= i < old_bytes.len() implies #[trigger] buffer.bytes@[i] == if i / (
                stride as int) < y || (i / (stride as int) == y && (i % (stride as int)) / 4 < x + 1) {
                    want[i]
                } else {
                    old_bytes[i]
                } by {
                    lemma_pixel_of_byte(i, width as int, x as int, y as int);
                }
            }
            x = x + 1;
        }
        proof {
            assert forall|i: int| 0 <= i < old_bytes.len() implies #[trigger] buffer.bytes@[i] == if i / (stride
                as int) < y + 1 {
                want[i]
            } else {
                old_bytes[i]
            } by {
                if i / (stride as int) == y {
                    vstd::arithmetic::div_mod::lemma_mod_bound(i, stride as int);
                    assert((i % (stride as int)) / 4 < width) by (nonlinear_arith)
                        requires
                            0 <= i % (stride as int) < stride,
                            stride == 4 * width,
                    ;
                }
            }
        }
        y = y + 1;
    }
    proof {
        assert(buffer.bytes@ =~= want);
    }
}


/// The planes a drawable of `depth` has.
pub open spec fn spec_depth_mask(depth: u8) -> u32 {
    if depth == 32 {
        u32::MAX
    } else {
        ((1u32 << (depth as u32)) - 1) as u32
    }
}

/// Whether a `PutImage` through `gc` may copy the image straight in: a
/// plain copy through every plane the depth has, with no clip list.
pub open spec fn spec_put_image_copies(depth: u8, gc: XGcValuesView) -> bool {
    gc.function == X_GX_COPY && gc.plane_mask & spec_depth_mask(depth) == spec_depth_mask(depth)
        && gc.clip_rectangles is None
}

/// Whether pixel (`x`, `y`) is one a raster `PutImage` writes.
pub open spec fn spec_put_image_writes(size: Size, rect: Rect, gc: XGcValuesView, x: int, y: int) -> bool {
    spec_fill_writes(size, rect, gc, x, y)
}

/// The bytes after a `PutImage` with its wire facts: a straight copy
/// unless the context asks for more, else each written pixel takes the
/// raster function of the image pixel over its old value through the
/// planes both the context and the depth have.
pub open spec fn spec_put_image(
    old: Seq<u8>,
    size: Size,
    rect: Rect,
    data: Seq<u8>,
    semantics: Option<(u8, XGcValuesView)>,
) -> Seq<u8> {
    match semantics {
        None => spec_copied(old, size, rect, data),
        Some((depth, gc)) => if spec_put_image_copies(depth, gc) {
            spec_copied(old, size, rect, data)
        } else {
            let stride = 4 * size.width;
            let planes = gc.plane_mask & spec_depth_mask(depth);
            Seq::new(
                old.len(),
                |i: int|
                    {
                        let y = i / stride;
                        let x = (i % stride) / 4;
                        if stride > 0 && spec_put_image_writes(size, rect, gc, x, y) {
                            let source = spec_u32_at(XByteOrder::LittleEndian, data, spec_image_offset(rect, x, y));
                            let destination = spec_u32_at(XByteOrder::LittleEndian, old, y * stride + 4 * x);
                            spec_le_byte(
                                (spec_raster_function(source, destination, gc.function) & planes) | (destination
                                    & !planes),
                                i % 4,
                            )
                        } else {
                            old[i]
                        }
                    },
            )
        },
    }
}

/// The wire facts a `PutImage` was decoded with, as the raster path reads
/// them.
pub open spec fn spec_semantics(semantics: Option<&XPutImageSemantics>) -> Option<(u8, XGcValuesView)> {
    match semantics {
        None => None,
        Some(s) => Some((s.depth, s.gc@)),
    }
}

/// Every pixel a raster `PutImage` writes has its four image bytes.
pub open spec fn spec_put_image_in_range(size: Size, rect: Rect, data: Seq<u8>, gc: XGcValuesView) -> bool {
    forall|x: int, y: int|
        #[trigger] spec_put_image_writes(size, rect, gc, x, y) ==> spec_image_offset(rect, x, y) + 4
            <= data.len()
}

/// Writes an image into the part of `rect` inside the drawable, through
/// the context the request carried when it asks for more than a copy.
pub fn put_image_pixels(
    buffer: &mut XAuthorityCpuBufferSnapshot,
    rect: Rect,
    data: &[u8],
    semantics: Option<&XPutImageSemantics>,
)
    requires
        old(buffer).wf(),
        data@.len() <= isize::MAX,
        match semantics {
            None => true,
            Some(s) => s.depth <= 32 && (spec_put_image_copies(s.depth, s.gc@) || spec_put_image_in_range(
                old(buffer).size,
                rect,
                data@,
                s.gc@,
            )),
        },
    ensures
        final(buffer).wf(),
        final(buffer).bytes@ == spec_put_image(
            old(buffer).bytes@,
            old(buffer).size,
            rect,
            data@,
            spec_semantics(semantics),
        ),
        *final(buffer) == (XAuthorityCpuBufferSnapshot { bytes: final(buffer).bytes, ..*old(buffer) }),
{
    let sem = match semantics {
        None => {
            copy_xrgb8888(buffer, rect, data);
            return;
        },
        Some(s) => s,
    };
    let gc = &sem.gc;
    let mask: u32 = if sem.depth == 32 {
        u32::MAX
    } else {
        let d: u32 = sem.depth as u32;
        proof {
            assert((1u32 << d) >= 1) by (bit_vector)
                requires
                    d < 32,
            ;
        }
        (1u32 << d) - 1
    };
    proof {
        assert(mask == spec_depth_mask(sem.depth));
    }
    let no_clip = match &gc.clip_rectangles {
        None => true,
        Some(_) => false,
    };
    if gc.function == X_GX_COPY && gc.plane_mask & mask == mask && no_clip {
        copy_xrgb8888(buffer, rect, data);
        return;
    }
    let ghost old_bytes = buffer.bytes@;
    let ghost want = spec_put_image(old_bytes, buffer.size, rect, data@, spec_semantics(semantics));
    let (left, top, right, bottom) = match clipped_bounds(buffer.size, rect) {
        None => {
            proof {
                assert(buffer.bytes@ =~= want);
            }
            return;
        },
        Some(b) => b,
    };
    let planes = gc.plane_mask & mask;
    let ghost pre = *buffer;
    let len = buffer.bytes.len();
    let width: usize = buffer.size.width as usize;
    let stride: usize = buffer.stride as usize;
    let mut y: usize = top;
    proof {
        assert forall|i: int| 0 <= i < old_bytes.len() implies #[trigger] buffer.bytes@[i] == if i / (stride
            as int) < y {
            want[i]
        } else {
            old_bytes[i]
        } by {
            if i / (stride as int) < y {
                assert(!spec_put_image_writes(pre.size, rect, gc@, (i % (stride as int)) / 4, i / (stride as int)));
            }
        }
    }
    while y < bottom
        invariant
            buffer.wf(),
            *buffer == (XAuthorityCpuBufferSnapshot { bytes: buffer.bytes, ..pre }),
            pre.wf(),
            old_bytes == pre.bytes@,
            want == spec_put_image(old_bytes, pre.size, rect, data@, spec_semantics(semantics)),
            !spec_put_image_copies(sem.depth, gc@),
            spec_semantics(semantics) == Some((sem.depth, gc@)),
            spec_put_image_in_range(pre.size, rect, data@, gc@),
            planes == gc.plane_mask & spec_depth_mask(sem.depth),
            spec_clipped_bounds(pre.size, rect) == Some((left as int, top as int, right as int, bottom as int)),
            data@.len() <= isize::MAX,
            width == pre.size.width,
            stride == 4 * width,
            top <= y <= bottom,
            len == old_bytes.len(),
            buffer.bytes@.len() == old_bytes.len(),
            forall|i: int|
                0 <= i < old_bytes.len() ==> #[trigger] buffer.bytes@[i] == if i / (stride as int) < y {
                    want[i]
                } else {
                    old_bytes[i]
                },
        decreases bottom - y,
    {
        let mut x: usize = left;
        proof {
            assert forall|i: int| 0 <= i < old_bytes.len() implies #[trigger] buffer.bytes@[i] == if i / (
            stride as int) < y || (i / (stride as int) == y && (i % (stride as int)) / 4 < x) {
                want[i]
            } else {
                old_bytes[i]
            } by {
                if i / (stride as int) == y && (i % (stride as int)) / 4 < x {
                    assert(!spec_put_image_writes(pre.size, rect, gc@, (i % (stride as int)) / 4, y as int));
                }
            }
        }
        while x < right
            invariant
                buffer.wf(),
                *buffer == (XAuthorityCpuBufferSnapshot { bytes: buffer.bytes, ..pre }),
                pre.wf(),
                old_bytes == pre.bytes@,
                want == spec_put_image(old_bytes, pre.size, rect, data@, spec_semantics(semantics)),
                !spec_put_image_copies(sem.depth, gc@),
                spec_semantics(semantics) == Some((sem.depth, gc@)),
                spec_put_image_in_range(pre.size, rect, data@, gc@),
                planes == gc.plane_mask & spec_depth_mask(sem.depth),
                spec_clipped_bounds(pre.size, rect) == Some((left as int, top as int, right as int, bottom as int)),
                data@.len() <= isize::MAX,
                width == pre.size.width,
                stride == 4 * width,
                top <= y < bottom,
                left <= x <= right,
                len == old_bytes.len(),
                buffer.bytes@.len() == old_bytes.len(),
                forall|i: int|
                    0 <= i < old_bytes.len() ==> #[trigger] buffer.bytes@[i] == if i / (stride as int) < y || (i
                        / (stride as int) == y && (i % (stride as int)) / 4 < x) {
                        want[i]
                    } else {
                        old_bytes[i]
                    },
            decreases right - x,
        {
            proof {
                assert(y * stride + 4 * x + 4 <= old_bytes.len()) by (nonlinear_arith)
                    requires
                        y < bottom,
                        bottom <= pre.size.height,
                        x < right,
                        right <= width,
                        stride == 4 * width,
                        old_bytes.len() == stride * pre.size.height,
                ;
            }
            let o: usize = y * stride + 4 * x;
            if pixel_in_clip(x, y, gc) {
                let row: i64 = y as i64 - rect.y as i64;
                let column: i64 = x as i64 - rect.x as i64;
                proof {
                    assert(spec_put_image_writes(pre.size, rect, gc@, x as int, y as int));
                    assert(spec_image_offset(rect, x as int, y as int) + 4 <= data@.len());
                    lemma_image_offset_in_range(
                        rect,
                        left as int,
                        top as int,
                        right as int,
                        bottom as int,
                        x as int,
                        y as int,
                    );
                    assert(0 <= row * rect.width <= row * rect.width + column) by (nonlinear_arith)
                        requires
                            row >= 0,
                            rect.width > 0,
                            column >= 0,
                    ;
                    assert((row * rect.width + column) * 4 == spec_image_offset(rect, x as int, y as int));
                }
                let s: usize = ((row * rect.width as i64 + column) * 4) as usize;
                let source: u32 = data[s] as u32 + data[s + 1] as u32 * 256 + data[s + 2] as u32 * 65536
                    + data[s + 3] as u32 * 16777216;
                let destination: u32 = buffer.bytes[o] as u32 + buffer.bytes[o + 1] as u32 * 256
                    + buffer.bytes[o + 2] as u32 * 65536 + buffer.bytes[o + 3] as u32 * 16777216;
                let out = apply_raster_function(source, destination, gc.function, planes);
                let ghost before = buffer.bytes@;
                buffer.bytes[o] = (out & 0xff) as u8;
                buffer.bytes[o + 1] = ((out >> 8u32) & 0xff) as u8;
                buffer.bytes[o + 2] = ((out >> 16u32) & 0xff) as u8;
                buffer.bytes[o + 3] = ((out >> 24u32) & 0xff) as u8;
                proof {
                    assert forall|i: int| o <= i < o + 4 implies #[trigger] before[i] == old_bytes[i] by {
                        lemma_pixel_of_byte(i, width as int, x as int, y as int);
                    }
                    assert(destination == spec_u32_at(XByteOrder::LittleEndian, old_bytes, o as int));
                    assert(source == spec_u32_at(XByteOrder::LittleEndian, data@, s as int));
                    assert forall|i: int| 0 <= i < old_bytes.len() implies #[trigger] buffer.bytes@[i] == if i
                        / (stride as int) < y || (i / (stride as int) == y && (i % (stride as int)) / 4 < x
                        + 1) {
                        want[i]
                    } else {
                        old_bytes[i]
                    } by {
                        lemma_pixel_of_byte(i, width as int, x as int, y as int);
                    }
                }
            } else {
                proof {
                    assert forall|i: int| 0 <= i < old_bytes.len() implies #[trigger] buffer.bytes@[i] == if i
                        / (stride as int) < y || (i / (stride as int) == y && (i % (stride as int)) / 4 < x
                        + 1) {
                        want[i]
                    } else {
                        old_bytes[i]
                    } by {
                        lemma_pixel_of_byte(i, width as int, x as int, y as int);
                    }
                }
            }
            x = x + 1;
        }
        proof {
            assert forall|i: int| 0 <= i < old_bytes.len() implies #[trigger] buffer.bytes@[i] == if i / (stride
                as int) < y + 1 {
                want[i]
            } else {
                old_bytes[i]
            } by {
                if i / (stride as int) == y {
                    vstd::arithmetic::div_mod::lemma_mod_bound(i, stride as int);
                    assert((i % (stride as int)) / 4 < width) by (nonlinear_arith)
                        requires
                            0 <= i % (stride as int) < stride,
                            stride == 4 * width,
                    ;
                    if (i % (stride as int)) / 4 >= right {
                        assert(!spec_put_image_writes(pre.size, rect, gc@, (i % (stride as int)) / 4, y as int));
                    }
                }
            }
        }
        y = y + 1;
    }
    proof {
        assert forall|i: int| 0 <= i < old_bytes.len() implies #[trigger] buffer.bytes@[i] == want[i] by {
            if i / (stride as int) >= y {
                assert(!spec_put_image_writes(pre.size, rect, gc@, (i % (stride as int)) / 4, i / (stride as int)));
            }
        }
        assert(buffer.bytes@ =~= want);
    }
}


/// A usize sum or difference, saturating at the type's bounds.
pub open spec fn spec_sat_usize(n: int) -> int {
    if n < 0 {
        0
    } else if n > usize::MAX {
        usize::MAX as int
    } else {
        n
    }
}

/// How a copy between drawables lands: the source's top-left pixel read,
/// the destination's top-left pixel written, and the extent, after
/// clipping to both drawables; none when the source rectangle misses the
/// source.
pub open spec fn spec_copy_plan(source: Size, destination: Size, rect: Rect, dx: i32, dy: i32) -> Option<
    (int, int, int, int, int, int),
> {
    match spec_clipped_bounds(source, rect) {
        None => None,
        Some((l, t, r, b)) => {
            let tx0 = sat_add_i32(dx as int, l);
            let ty0 = sat_add_i32(dy as int, t);
            let left = if tx0 < 0 {
                spec_sat_usize(l - tx0)
            } else {
                l
            };
            let top = if ty0 < 0 {
                spec_sat_usize(t - ty0)
            } else {
                t
            };
            let tx = if tx0 < 0 {
                0
            } else {
                tx0
            };
            let ty = if ty0 < 0 {
                0
            } else {
                ty0
            };
            let w1 = spec_sat_usize(r - left);
            let w2 = spec_sat_usize(destination.width - tx);
            let h1 = spec_sat_usize(b - top);
            let h2 = spec_sat_usize(destination.height - ty);
            Some((left, top, tx, ty, if w1 < w2 { w1 } else { w2 }, if h1 < h2 { h1 } else { h2 }))
        },
    }
}

/// The destination bytes after a copy: each pixel of the landing area
/// takes its source pixel, every other byte stays.
pub open spec fn spec_region_copied(old: Seq<u8>, destination: Size, src: Seq<u8>, source: Size, plan: (int, int, int, int, int, int)) -> Seq<u8> {
    let (left, top, tx, ty, w, h) = plan;
    let stride = 4 * destination.width;
    Seq::new(
        old.len(),
        |i: int|
            {
                let y = i / stride;
                let x = (i % stride) / 4;
                if stride > 0 && tx <= x < tx + w && ty <= y < ty + h {
                    src[(top + y - ty) * (4 * source.width) + 4 * (left + x - tx) + i % 4]
                } else {
                    old[i]
                }
            },
    )
}

/// Copies the part of `source_rect` inside `source` to `destination` with
/// its top-left corner at (`destination_x`, `destination_y`), clipped to
/// both; answers the area written, none when nothing was.
pub fn copy_buffer_region(
    source: &XAuthorityCpuBufferSnapshot,
    destination: &mut XAuthorityCpuBufferSnapshot,
    source_rect: Rect,
    destination_x: i32,
    destination_y: i32,
) -> (r: Option<Rect>)
    requires
        source.wf(),
        old(destination).wf(),
    ensures
        final(destination).wf(),
        *final(destination) == (XAuthorityCpuBufferSnapshot { bytes: final(destination).bytes, ..*old(destination) }),
        match spec_copy_plan(source.size, old(destination).size, source_rect, destination_x, destination_y) {
            None => r is None && final(destination).bytes@ == old(destination).bytes@,
            Some(plan) => {
                let (left, top, tx, ty, w, h) = plan;
                &&& final(destination).bytes@ == spec_region_copied(
                    old(destination).bytes@,
                    old(destination).size,
                    source.bytes@,
                    source.size,
                    plan,
                )
                &&& r == if w != 0 && h != 0 {
                    Some(Rect { x: tx as i32, y: ty as i32, width: w as i32, height: h as i32 })
                } else {
                    None
                }
            },
        },
{
    let ghost old_bytes = destination.bytes@;
    let (l, t, right, bottom) = match clipped_bounds(source.size, source_rect) {
        None => {
            return None;
        },
        Some(b) => b,
    };
    let tx0 = saturating_add_i32(destination_x, l as i32);
    let ty0 = saturating_add_i32(destination_y, t as i32);
    let mut left: usize = l;
    let mut top: usize = t;
    let mut target_x: i32 = tx0;
    let mut target_y: i32 = ty0;
    if target_x < 0 {
        left = left.saturating_add((0i64 - target_x as i64) as usize);
        target_x = 0;
    }
    if target_y < 0 {
        top = top.saturating_add((0i64 - target_y as i64) as usize);
        target_y = 0;
    }
    let tx: usize = target_x as usize;
    let ty: usize = target_y as usize;
    let dw: usize = destination.size.width as usize;
    let dh: usize = destination.size.height as usize;
    let w1 = right.saturating_sub(left);
    let w2 = dw.saturating_sub(tx);
    let h1 = bottom.saturating_sub(top);
    let h2 = dh.saturating_sub(ty);
    let width = if w1 < w2 {
        w1
    } else {
        w2
    };
    let height = if h1 < h2 {
        h1
    } else {
        h2
    };
    let ghost plan = (left as int, top as int, tx as int, ty as int, width as int, height as int);
    proof {
        assert(spec_copy_plan(source.size, destination.size, source_rect, destination_x, destination_y) == Some(plan));
    }
    let ghost want = spec_region_copied(old_bytes, destination.size, source.bytes@, source.size, plan);
    let ghost pre = *destination;
    let sstride: usize = source.stride as usize;
    let dstride: usize = destination.stride as usize;
    let dlen = destination.bytes.len();
    let slen = source.bytes.len();
    let mut row: usize = 0;
    while row < height
        invariant
            destination.wf(),
            *destination == (XAuthorityCpuBufferSnapshot { bytes: destination.bytes, ..pre }),
            pre.wf(),
            source.wf(),
            old_bytes == pre.bytes@,
            want == spec_region_copied(old_bytes, pre.size, source.bytes@, source.size, plan),
            plan == (left as int, top as int, tx as int, ty as int, width as int, height as int),
            height == 0 || top + height <= source.size.height,
            width == 0 || left + width <= source.size.width,
            width == 0 || tx + width <= pre.size.width,
            height == 0 || ty + height <= pre.size.height,
            dw == pre.size.width,
            dstride == 4 * dw,
            sstride == 4 * source.size.width,
            dlen == old_bytes.len(),
            slen == source.bytes@.len(),
            row <= height,
            destination.bytes@.len() == old_bytes.len(),
            forall|i: int|
                0 <= i < old_bytes.len() ==> #[trigger] destination.bytes@[i] == if i / (dstride as int) < ty + row {
                    want[i]
                } else {
                    old_bytes[i]
                },
        decreases height - row,
    {
        let mut col: usize = 0;
        while col < width
            invariant
                destination.wf(),
                *destination == (XAuthorityCpuBufferSnapshot { bytes: destination.bytes, ..pre }),
                pre.wf(),
                source.wf(),
                old_bytes == pre.bytes@,
                want == spec_region_copied(old_bytes, pre.size, source.bytes@, source.size, plan),
                plan == (left as int, top as int, tx as int, ty as int, width as int, height as int),
                height == 0 || top + height <= source.size.height,
                width == 0 || left + width <= source.size.width,
                width == 0 || tx + width <= pre.size.width,
                height == 0 || ty + height <= pre.size.height,
                dw == pre.size.width,
                dstride == 4 * dw,
                sstride == 4 * source.size.width,
                dlen == old_bytes.len(),
                slen == source.bytes@.len(),
                row < height,
                col <= width,
                destination.bytes@.len() == old_bytes.len(),
                forall|i: int|
                    0 <= i < old_bytes.len() ==> #[trigger] destination.bytes@[i] == if i / (dstride as int) < ty
                        + row || (i / (dstride as int) == ty + row && (i % (dstride as int)) / 4 < tx + col) {
                        want[i]
                    } else {
                        old_bytes[i]
                    },
            decreases width - col,
        {
            proof {
                assert((ty + row) * dstride + 4 * (tx + col) + 4 <= old_bytes.len()) by (nonlinear_arith)
                    requires
                        ty + row < pre.size.height,
                        tx + col < dw,
                        dstride == 4 * dw,
                        old_bytes.len() == dstride * pre.size.height,
                ;
                assert((top + row) * sstride + 4 * (left + col) + 4 <= slen) by (nonlinear_arith)
                    requires
                        top + row < source.size.height,
                        left + col < source.size.width,
                        sstride == 4 * source.size.width,
                        slen == sstride * source.size.height,
                ;
            }
            let o: usize = (ty + row) * dstride + 4 * (tx + col);
            let so: usize = (top + row) * sstride + 4 * (left + col);
            let ghost before = destination.bytes@;
            destination.bytes[o] = source.bytes[so];
            destination.bytes[o + 1] = source.bytes[so + 1];
            destination.bytes[o + 2] = source.bytes[so + 2];
            destination.bytes[o + 3] = source.bytes[so + 3];
            proof {
                assert forall|i: int| 0 <= i < old_bytes.len() implies #[trigger] destination.bytes@[i] == if i / (
                dstride as int) < ty + row || (i / (dstride as int) == ty + row && (i % (dstride as int)) / 4 < tx
                    + col + 1) {
                    want[i]
                } else {
                    old_bytes[i]
                } by {
                    lemma_pixel_of_byte(i, dw as int, (tx + col) as int, (ty + row) as int);
                    if o <= i < o + 4 {
                        assert(source.bytes@[(top + (ty + row) - ty) * (4 * source.size.width) + 4 * (left + (tx
                            + col) - tx) + i % 4] == source.bytes@[so + (i - o)]);
                    }
                }
            }
            col = col + 1;
        }
        proof {
            assert forall|i: int| 0 <= i < old_bytes.len() implies #[trigger] destination.bytes@[i] == if i / (
            dstride as int) < ty + row + 1 {
                want[i]
            } else {
                old_bytes[i]
            } by {
                if i / (dstride as int) == ty + row {
                    vstd::arithmetic::div_mod::lemma_mod_bound(i, dstride as int);
                }
            }
        }
        row = row + 1;
    }
    proof {
        assert forall|i: int| 0 <= i < old_bytes.len() implies #[trigger] destination.bytes@[i] == want[i] by {}
        assert(destination.bytes@ =~= want);
    }
    if width != 0 && height != 0 {
        Some(Rect { x: tx as i32, y: ty as i32, width: width as i32, height: height as i32 })
    } else {
        None
    }
}


/// One step of the line walk from (`x`, `y`) with error term `err`, for a
/// line `dx` across and `dd` down (both magnitudes), stepping by `sx` and
/// `sy`.
pub open spec fn spec_line_step(x: int, y: int, err: int, dx: int, dd: int, sx: int, sy: int) -> (int, int, int) {
    let e2 = 2 * err;
    let (err1, x1) = if e2 >= -dd {
        (err - dd, x + sx)
    } else {
        (err, x)
    };
    let (err2, y1) = if e2 <= dx {
        (err1 + dx, y + sy)
    } else {
        (err1, y)
    };
    (x1, y1, err2)
}

/// The points the walk visits from (`x`, `y`) until it reaches (`tx`,
/// `ty`), with at most `fuel` points.
pub open spec fn spec_line_points(
    x: int,
    y: int,
    err: int,
    tx: int,
    ty: int,
    dx: int,
    dd: int,
    sx: int,
    sy: int,
    fuel: nat,
) -> Seq<(int, int)>
    decreases fuel,
{
    if fuel == 0 {
        Seq::empty()
    } else if x == tx && y == ty {
        seq![(x, y)]
    } else {
        let (x1, y1, e1) = spec_line_step(x, y, err, dx, dd, sx, sy);
        seq![(x, y)] + spec_line_points(x1, y1, e1, tx, ty, dx, dd, sx, sy, (fuel - 1) as nat)
    }
}

/// The points of the line from `from` to `to`, both ends included.
pub open spec fn spec_line(from: XPoint, to: XPoint) -> Seq<(int, int)> {
    let dx = if to.x >= from.x {
        to.x - from.x
    } else {
        from.x - to.x
    };
    let dd = if to.y >= from.y {
        to.y - from.y
    } else {
        from.y - to.y
    };
    let sx = if from.x < to.x {
        1int
    } else {
        -1int
    };
    let sy = if from.y < to.y {
        1int
    } else {
        -1int
    };
    spec_line_points(from.x as int, from.y as int, dx - dd, to.x as int, to.y as int, dx, dd, sx, sy, (dx + dd + 1) as nat)
}

/// The square a line `width` wide paints around a point.
pub open spec fn spec_pen(p: (int, int), width: i32) -> Rect {
    let offset = spec_half(width as int);
    Rect { x: sat_sub_i32(p.0, offset) as i32, y: sat_sub_i32(p.1, offset) as i32, width, height: width }
}

/// One step keeps the walk's invariant and brings it strictly closer.
proof fn lemma_line_step(x: int, y: int, err: int, tx: int, ty: int, dx: int, dd: int, sx: int, sy: int, a: int, b: int)
    requires
        0 <= a <= dx,
        0 <= b <= dd,
        a + b > 0,
        sx == 1 || sx == -1,
        sy == 1 || sy == -1,
        x == tx - sx * a,
        y == ty - sy * b,
        err == dx - dd + dd * a - dx * b,
        -2 * dd <= err <= 2 * dx,
    ensures
        ({
            let (x1, y1, e1) = spec_line_step(x, y, err, dx, dd, sx, sy);
            let a1 = if 2 * err >= -dd {
                a - 1
            } else {
                a
            };
            let b1 = if 2 * err <= dx {
                b - 1
            } else {
                b
            };
            &&& 0 <= a1 <= dx
            &&& 0 <= b1 <= dd
            &&& a1 + b1 < a + b
            &&& x1 == tx - sx * a1
            &&& y1 == ty - sy * b1
            &&& e1 == dx - dd + dd * a1 - dx * b1
            &&& -2 * dd <= e1 <= 2 * dx
        }),
{
    if a == 0 {
        assert(2 * err < -dd) by (nonlinear_arith)
            requires
                err == dx - dd - dx * b,
                1 <= b <= dd,
                dx >= 0,
        ;
    }
    if b == 0 {
        assert(2 * err > dx) by (nonlinear_arith)
            requires
                err == dx - dd + dd * a,
                1 <= a <= dx,
                dd >= 0,
        ;
    }
    assert(dd * (a - 1) == dd * a - dd) by (nonlinear_arith);
    assert(dx * (b - 1) == dx * b - dx) by (nonlinear_arith);
    assert(sx * (a - 1) == sx * a - sx) by (nonlinear_arith);
    assert(sy * (b - 1) == sy * b - sy) by (nonlinear_arith);
}

/// Draws a line `width` wide from `from` to `to` with the context's
/// foreground: a square of the pen at every point of the walk, ends
/// included.
pub fn draw_line(buffer: &mut XAuthorityCpuBufferSnapshot, from: XPoint, to: XPoint, width: i32, gc: &XGraphicsContextValues)
    requires
        old(buffer).wf(),
    ensures
        final(buffer).wf(),
        ({
            let pts = spec_line(from, to);
            final(buffer).bytes@ == spec_filled_all(
                old(buffer).bytes@,
                old(buffer).size,
                Seq::new(pts.len(), |k: int| spec_pen(pts[k], width)),
                gc.foreground,
                gc@,
                pts.len() as int,
            )
        }),
        *final(buffer) == (XAuthorityCpuBufferSnapshot { bytes: final(buffer).bytes, ..*old(buffer) }),
{
    let mut x: i32 = from.x as i32;
    let mut y: i32 = from.y as i32;
    let target_x: i32 = to.x as i32;
    let target_y: i32 = to.y as i32;
    let dx: i32 = if target_x >= x {
        target_x - x
    } else {
        x - target_x
    };
    let dd: i32 = if target_y >= y {
        target_y - y
    } else {
        y - target_y
    };
    let sx: i32 = if x < target_x {
        1
    } else {
        -1
    };
    let sy: i32 = if y < target_y {
        1
    } else {
        -1
    };
    let mut error: i32 = dx - dd;
    let offset: i32 = width / 2;
    proof {
        assert(offset as int == spec_half(width as int));
    }
    let ghost pts = spec_line(from, to);
    let ghost rects = Seq::new(pts.len(), |k: int| spec_pen(pts[k], width));
    let ghost old_bytes = buffer.bytes@;
    let ghost size = buffer.size;
    let ghost mut a: int = dx as int;
    let ghost mut b: int = dd as int;
    let ghost mut fuel: nat = (dx + dd + 1) as nat;
    let ghost mut k: int = 0;
    proof {
        assert(dd * dx == dx * dd) by (nonlinear_arith);
    }
    loop
        invariant_except_break
            0 <= dx <= 65535,
            0 <= dd <= 65535,
            sx == 1 || sx == -1,
            sy == 1 || sy == -1,
            0 <= a <= dx,
            0 <= b <= dd,
            x == target_x - sx * a,
            y == target_y - sy * b,
            error == dx - dd + dd * a - dx * b,
            -2 * dd <= error <= 2 * dx,
            a + b + 1 <= fuel,
            offset as int == spec_half(width as int),
            pts == spec_line(from, to),
            rects == Seq::new(pts.len(), |j: int| spec_pen(pts[j], width)),
            0 <= k,
            k + spec_line_points(x as int, y as int, error as int, target_x as int, target_y as int, dx as int, dd as int, sx as int, sy as int, fuel).len() == pts.len(),
            forall|j: int|
                0 <= j < spec_line_points(x as int, y as int, error as int, target_x as int, target_y as int, dx as int, dd as int, sx as int, sy as int, fuel).len()
                    ==> pts[k + j] == #[trigger] spec_line_points(x as int, y as int, error as int, target_x as int, target_y as int, dx as int, dd as int, sx as int, sy as int, fuel)[j],
            buffer.bytes@ == spec_filled_all(old_bytes, size, rects, gc.foreground, gc@, k),
        invariant
            buffer.wf(),
            buffer.size == size,
            *buffer == (XAuthorityCpuBufferSnapshot { bytes: buffer.bytes, ..*old(buffer) }),
            old_bytes == old(buffer).bytes@,
            pts == spec_line(from, to),
            rects == Seq::new(pts.len(), |j: int| spec_pen(pts[j], width)),
        ensures
            buffer.bytes@ == spec_filled_all(old_bytes, size, rects, gc.foreground, gc@, pts.len() as int),
        decreases a + b,
    {
        let ghost rest = spec_line_points(x as int, y as int, error as int, target_x as int, target_y as int, dx as int, dd as int, sx as int, sy as int, fuel);
        proof {
            assert(rest[0] == (x as int, y as int));
            assert(pts[k] == (x as int, y as int));
            assert(rects[k] == spec_pen((x as int, y as int), width));
        }
        fill_rect(
            buffer,
            Rect {
                x: saturating_sub_i32(x, offset),
                y: saturating_sub_i32(y, offset),
                width,
                height: width,
            },
            gc.foreground,
            gc,
        );
        if x == target_x && y == target_y {
            proof {
                assert(rest.len() == 1);
                assert(k + 1 == pts.len());
            }
            break;
        }
        proof {
            if a == 0 && b == 0 {
                assert(x == target_x && y == target_y);
            }
            lemma_line_step(
                x as int,
                y as int,
                error as int,
                target_x as int,
                target_y as int,
                dx as int,
                dd as int,
                sx as int,
                sy as int,
                a,
                b,
            );
        }
        let doubled: i32 = error * 2;
        let ghost step_x = doubled >= -dd;
        let ghost step_y = doubled <= dx;
        if doubled >= -dd {
            error = error - dd;
            x = x + sx;
        }
        if doubled <= dx {
            error = error + dx;
            y = y + sy;
        }
        proof {
            if step_x {
                a = a - 1;
            }
            if step_y {
                b = b - 1;
            }
            let next = spec_line_points(x as int, y as int, error as int, target_x as int, target_y as int, dx as int, dd as int, sx as int, sy as int, (fuel - 1) as nat);
            assert(rest == seq![rest[0]] + next);
            assert forall|j: int| 0 <= j < next.len() implies pts[k + 1 + j] == #[trigger] next[j] by {
                assert(rest[j + 1] == next[j]);
            }
            fuel = (fuel - 1) as nat;
            k = k + 1;
        }
    }
}


/// From any state the walk's invariant admits, with enough fuel, the walk
/// starts where it stands and ends on the target.
pub proof fn lemma_line_reaches_target(
    x: int,
    y: int,
    err: int,
    tx: int,
    ty: int,
    dx: int,
    dd: int,
    sx: int,
    sy: int,
    a: int,
    b: int,
    fuel: nat,
)
    requires
        0 <= a <= dx,
        0 <= b <= dd,
        sx == 1 || sx == -1,
        sy == 1 || sy == -1,
        x == tx - sx * a,
        y == ty - sy * b,
        err == dx - dd + dd * a - dx * b,
        -2 * dd <= err <= 2 * dx,
        a + b + 1 <= fuel,
    ensures
        spec_line_points(x, y, err, tx, ty, dx, dd, sx, sy, fuel).len() >= 1,
        spec_line_points(x, y, err, tx, ty, dx, dd, sx, sy, fuel)[0] == (x, y),
        spec_line_points(x, y, err, tx, ty, dx, dd, sx, sy, fuel).last() == (tx, ty),
    decreases a + b,
{
    if a + b == 0 {
        assert(x == tx && y == ty);
    } else {
        if x == tx && y == ty {
            assert(sx * a == 0 && sy * b == 0);
            assert(a == 0 && b == 0) by (nonlinear_arith)
                requires
                    sx * a == 0,
                    sy * b == 0,
                    sx == 1 || sx == -1,
                    sy == 1 || sy == -1,
            ;
        }
        lemma_line_step(x, y, err, tx, ty, dx, dd, sx, sy, a, b);
        let (x1, y1, e1) = spec_line_step(x, y, err, dx, dd, sx, sy);
        let a1 = if 2 * err >= -dd {
            a - 1
        } else {
            a
        };
        let b1 = if 2 * err <= dx {
            b - 1
        } else {
            b
        };
        lemma_line_reaches_target(x1, y1, e1, tx, ty, dx, dd, sx, sy, a1, b1, (fuel - 1) as nat);
        let rest = spec_line_points(x1, y1, e1, tx, ty, dx, dd, sx, sy, (fuel - 1) as nat);
        assert(spec_line_points(x, y, err, tx, ty, dx, dd, sx, sy, fuel) == seq![(x, y)] + rest);
    }
}


/// A store slot as a picture of `format` reads it: premultiplied
/// `[b, g, r, a]`, opaque without alpha, no color when alpha-only.
pub open spec fn spec_read_slot(format: XRenderPictFormatKind, slot: Seq<u8>) -> Seq<u8> {
    match format {
        XRenderPictFormatKind::Argb32 => slot,
        XRenderPictFormatKind::Rgb24 => seq![slot[0], slot[1], slot[2], 0xffu8],
        _ => seq![0u8, 0u8, 0u8, slot[3]],
    }
}

/// The store slot a premultiplied result takes in `format`.
pub open spec fn spec_write_pixel(format: XRenderPictFormatKind, pixel: Seq<u8>) -> Seq<u8> {
    match format {
        XRenderPictFormatKind::Argb32 => pixel,
        XRenderPictFormatKind::Rgb24 => seq![pixel[0], pixel[1], pixel[2], 0u8],
        XRenderPictFormatKind::A8 => seq![0u8, 0u8, 0u8, pixel[3]],
        XRenderPictFormatKind::A1 => seq![
            0u8,
            0u8,
            0u8,
            if pixel[3] >= 128 {
                0xffu8
            } else {
                0u8
            },
        ],
    }
}

/// One Porter-Duff blend of a source over a destination pixel.
pub open spec fn spec_blend(op: u8, src: Seq<u8>, dst: Seq<u8>) -> Seq<u8> {
    let (fa, fb) = spec_blend_factors(op, src[3], dst[3]);
    Seq::new(4, |c: int| spec_blend_channel(src[c], dst[c], fa, fb))
}

/// Whether a point lies in a picture clip list; an empty list clips
/// nothing.
pub open spec fn spec_render_in_clip(x: int, y: int, clip: Seq<Rect>) -> bool {
    clip.len() == 0 || exists|i: int|
        0 <= i < clip.len() && spec_in_clip_rect(spec_coordinate(x as usize), spec_coordinate(y as usize), #[trigger] clip[i], 0, 0)
}

/// The bytes after a RENDER fill of `rect` with one premultiplied color:
/// each pixel inside the drawable and the clip takes the blend of the
/// color over what the format reads there.
pub open spec fn spec_render_filled(
    old: Seq<u8>,
    size: Size,
    rect: Rect,
    op: u8,
    color: Seq<u8>,
    clip: Seq<Rect>,
    format: XRenderPictFormatKind,
) -> Seq<u8> {
    let stride = 4 * size.width;
    Seq::new(
        old.len(),
        |i: int|
            {
                let y = i / stride;
                let x = (i % stride) / 4;
                let o = y * stride + 4 * x;
                if stride > 0 && (match spec_clipped_bounds(size, rect) {
                    None => false,
                    Some((l, t, r, b)) => l <= x < r && t <= y < b,
                }) && spec_render_in_clip(x, y, clip) {
                    spec_write_pixel(format, spec_blend(op, color, spec_read_slot(format, old.subrange(o, o + 4))))[i % 4]
                } else {
                    old[i]
                }
            },
    )
}

/// Fills `rect` of a picture with one premultiplied color through a RENDER
/// operator, clipped to the drawable and the picture's clip list.
pub fn render_fill_rect(
    buffer: &mut XAuthorityCpuBufferSnapshot,
    rect: Rect,
    op: u8,
    color: [u8; 4],
    clip: &Vec<Rect>,
    format: XRenderPictFormatKind,
)
    requires
        old(buffer).wf(),
    ensures
        final(buffer).wf(),
        final(buffer).bytes@ == spec_render_filled(old(buffer).bytes@, old(buffer).size, rect, op, color@, clip@, format),
        *final(buffer) == (XAuthorityCpuBufferSnapshot { bytes: final(buffer).bytes, ..*old(buffer) }),
{
    let ghost old_bytes = buffer.bytes@;
    let ghost want = spec_render_filled(old_bytes, buffer.size, rect, op, color@, clip@, format);
    let (left, top, right, bottom) = match clipped_bounds(buffer.size, rect) {
        None => {
            proof {
                assert(buffer.bytes@ =~= want);
            }
            return;
        },
        Some(b) => b,
    };
    let ghost pre = *buffer;
    let len = buffer.bytes.len();
    let width: usize = buffer.size.width as usize;
    let stride: usize = buffer.stride as usize;
    let mut y: usize = top;
    proof {
        assert forall|i: int| 0 <= i < old_bytes.len() implies #[trigger] buffer.bytes@[i] == if i / (stride
            as int) < y {
            want[i]
        } else {
            old_bytes[i]
        } by {}
    }
    while y < bottom
        invariant
            buffer.wf(),
            *buffer == (XAuthorityCpuBufferSnapshot { bytes: buffer.bytes, ..pre }),
            pre.wf(),
            old_bytes == pre.bytes@,
            want == spec_render_filled(old_bytes, pre.size, rect, op, color@, clip@, format),
            spec_clipped_bounds(pre.size, rect) == Some((left as int, top as int, right as int, bottom as int)),
            width == pre.size.width,
            stride == 4 * width,
            top <= y <= bottom,
            len == old_bytes.len(),
            buffer.bytes@.len() == old_bytes.len(),
            forall|i: int|
                0 <= i < old_bytes.len() ==> #[trigger] buffer.bytes@[i] == if i / (stride as int) < y {
                    want[i]
                } else {
                    old_bytes[i]
                },
        decreases bottom - y,
    {
        let mut x: usize = left;
        proof {
            assert forall|i: int| 0 <= i < old_bytes.len() implies #[trigger] buffer.bytes@[i] == if i / (
            stride as int) < y || (i / (stride as int) == y && (i % (stride as int)) / 4 < x) {
                want[i]
            } else {
                old_bytes[i]
            } by {}
        }
        while x < right
            invariant
                buffer.wf(),
                *buffer == (XAuthorityCpuBufferSnapshot { bytes: buffer.bytes, ..pre }),
                pre.wf(),
                old_bytes == pre.bytes@,
                want == spec_render_filled(old_bytes, pre.size, rect, op, color@, clip@, format),
                spec_clipped_bounds(pre.size, rect) == Some((left as int, top as int, right as int, bottom as int)),
                width == pre.size.width,
                stride == 4 * width,
                top <= y < bottom,
                left <= x <= right,
                len == old_bytes.len(),
                buffer.bytes@.len() == old_bytes.len(),
                forall|i: int|
                    0 <= i < old_bytes.len() ==> #[trigger] buffer.bytes@[i] == if i / (stride as int) < y || (i
                        / (stride as int) == y && (i % (stride as int)) / 4 < x) {
                        want[i]
                    } else {
                        old_bytes[i]
                    },
            decreases right - x,
        {
            proof {
                assert(y * stride + 4 * x + 4 <= old_bytes.len()) by (nonlinear_arith)
                    requires
                        y < bottom,
                        bottom <= pre.size.height,
                        x < right,
                        right <= width,
                        stride == 4 * width,
                        old_bytes.len() == stride * pre.size.height,
                ;
            }
            let o: usize = y * stride + 4 * x;
            if render_point_in_clip(x, y, clip) {
                let slot: [u8; 4] = [buffer.bytes[o], buffer.bytes[o + 1], buffer.bytes[o + 2], buffer.bytes[o + 3]];
                let read = format.read(slot);
                let blended = render_blend_pixel(op, color, read);
                let out = format.write(blended);
                let ghost before = buffer.bytes@;
                buffer.bytes.set(o, out[0]);
                buffer.bytes.set(o + 1, out[1]);
                buffer.bytes.set(o + 2, out[2]);
                buffer.bytes.set(o + 3, out[3]);
                proof {
                    assert forall|i: int| o <= i < o + 4 implies #[trigger] before[i] == old_bytes[i] by {
                        lemma_pixel_of_byte(i, width as int, x as int, y as int);
                    }
                    assert(slot@ =~= old_bytes.subrange(o as int, o + 4));
                    assert(read@ == spec_read_slot(format, slot@));
                    assert(blended@ =~= spec_blend(op, color@, read@));
                    assert(out@ == spec_write_pixel(format, blended@));
                    assert(spec_render_in_clip(x as int, y as int, clip@));
                    assert forall|i: int| 0 <= i < old_bytes.len() implies #[trigger] buffer.bytes@[i] == if i
                        / (stride as int) < y || (i / (stride as int) == y && (i % (stride as int)) / 4 < x
                        + 1) {
                        want[i]
                    } else {
                        old_bytes[i]
                    } by {
                        lemma_pixel_of_byte(i, width as int, x as int, y as int);
                    }
                }
            } else {
                proof {
                    assert(!spec_render_in_clip(x as int, y as int, clip@));
                    assert forall|i: int| 0 <= i < old_bytes.len() implies #[trigger] buffer.bytes@[i] == if i
                        / (stride as int) < y || (i / (stride as int) == y && (i % (stride as int)) / 4 < x
                        + 1) {
                        want[i]
                    } else {
                        old_bytes[i]
                    } by {
                        lemma_pixel_of_byte(i, width as int, x as int, y as int);
                    }
                }
            }
            x = x + 1;
        }
        proof {
            assert forall|i: int| 0 <= i < old_bytes.len() implies #[trigger] buffer.bytes@[i] == if i / (stride
                as int) < y + 1 {
                want[i]
            } else {
                old_bytes[i]
            } by {
                if i / (stride as int) == y {
                    vstd::arithmetic::div_mod::lemma_mod_bound(i, stride as int);
                    assert((i % (stride as int)) / 4 < width) by (nonlinear_arith)
                        requires
                            0 <= i % (stride as int) < stride,
                            stride == 4 * width,
                    ;
                }
            }
        }
        y = y + 1;
    }
    proof {
        assert forall|i: int| 0 <= i < old_bytes.len() implies #[trigger] buffer.bytes@[i] == want[i] by {}
        assert(buffer.bytes@ =~= want);
    }
}


/// The bytes after masking `rect` to a shape: inside it a pixel turns
/// opaque, outside it turns transparent black.
pub open spec fn spec_masked(old: Seq<u8>, size: Size, rect: Rect, shape: Seq<Rect>) -> Seq<u8> {
    let stride = 4 * size.width;
    Seq::new(
        old.len(),
        |i: int|
            {
                let y = i / stride;
                let x = (i % stride) / 4;
                if stride > 0 && (match spec_clipped_bounds(size, rect) {
                    None => false,
                    Some((l, t, r, b)) => l <= x < r && t <= y < b,
                }) {
                    if spec_render_in_clip(x, y, shape) {
                        if i % 4 == 3 {
                            0xffu8
                        } else {
                            old[i]
                        }
                    } else {
                        0u8
                    }
                } else {
                    old[i]
                }
            },
    )
}

/// Makes the part of `rect` inside a bounding shape opaque and the rest
/// transparent, so that a shaped window's buffer shows what is beneath it.
pub fn mask_rect_to_shape(buffer: &mut XAuthorityCpuBufferSnapshot, rect: Rect, shape: &Vec<Rect>)
    requires
        old(buffer).wf(),
    ensures
        final(buffer).wf(),
        final(buffer).bytes@ == spec_masked(old(buffer).bytes@, old(buffer).size, rect, shape@),
        *final(buffer) == (XAuthorityCpuBufferSnapshot { bytes: final(buffer).bytes, ..*old(buffer) }),
{
    let ghost old_bytes = buffer.bytes@;
    let ghost want = spec_masked(old_bytes, buffer.size, rect, shape@);
    let (left, top, right, bottom) = match clipped_bounds(buffer.size, rect) {
        None => {
            proof {
                assert(buffer.bytes@ =~= want);
            }
            return;
        },
        Some(b) => b,
    };
    let ghost pre = *buffer;
    let len = buffer.bytes.len();
    let width: usize = buffer.size.width as usize;
    let stride: usize = buffer.stride as usize;
    let mut y: usize = top;
    proof {
        assert forall|i: int| 0 <= i < old_bytes.len() implies #[trigger] buffer.bytes@[i] == if i / (stride
            as int) < y {
            want[i]
        } else {
            old_bytes[i]
        } by {}
    }
    while y < bottom
        invariant
            buffer.wf(),
            *buffer == (XAuthorityCpuBufferSnapshot { bytes: buffer.bytes, ..pre }),
            pre.wf(),
            old_bytes == pre.bytes@,
            want == spec_masked(old_bytes, pre.size, rect, shape@),
            spec_clipped_bounds(pre.size, rect) == Some((left as int, top as int, right as int, bottom as int)),
            width == pre.size.width,
            stride == 4 * width,
            top <= y <= bottom,
            len == old_bytes.len(),
            buffer.bytes@.len() == old_bytes.len(),
            forall|i: int|
                0 <= i < old_bytes.len() ==> #[trigger] buffer.bytes@[i] == if i / (stride as int) < y {
                    want[i]
                } else {
                    old_bytes[i]
                },
        decreases bottom - y,
    {
        let mut x: usize = left;
        proof {
            assert forall|i: int| 0 <= i < old_bytes.len() implies #[trigger] buffer.bytes@[i] == if i / (
            stride as int) < y || (i / (stride as int) == y && (i % (stride as int)) / 4 < x) {
                want[i]
            } else {
                old_bytes[i]
            } by {}
        }
        while x < right
            invariant
                buffer.wf(),
                *buffer == (XAuthorityCpuBufferSnapshot { bytes: buffer.bytes, ..pre }),
                pre.wf(),
                old_bytes == pre.bytes@,
                want == spec_masked(old_bytes, pre.size, rect, shape@),
                spec_clipped_bounds(pre.size, rect) == Some((left as int, top as int, right as int, bottom as int)),
                width == pre.size.width,
                stride == 4 * width,
                top <= y < bottom,
                left <= x <= right,
                len == old_bytes.len(),
                buffer.bytes@.len() == old_bytes.len(),
                forall|i: int|
                    0 <= i < old_bytes.len() ==> #[trigger] buffer.bytes@[i] == if i / (stride as int) < y || (i
                        / (stride as int) == y && (i % (stride as int)) / 4 < x) {
                        want[i]
                    } else {
                        old_bytes[i]
                    },
            decreases right - x,
        {
            proof {
                assert(y * stride + 4 * x + 4 <= old_bytes.len()) by (nonlinear_arith)
                    requires
                        y < bottom,
                        bottom <= pre.size.height,
                        x < right,
                        right <= width,
                        stride == 4 * width,
                        old_bytes.len() == stride * pre.size.height,
                ;
            }
            let o: usize = y * stride + 4 * x;
            let inside = render_point_in_clip(x, y, shape);
            if inside {
                buffer.bytes.set(o + 3, 0xff);
            } else {
                buffer.bytes.set(o, 0);
                buffer.bytes.set(o + 1, 0);
                buffer.bytes.set(o + 2, 0);
                buffer.bytes.set(o + 3, 0);
            }
            proof {
                assert(inside == spec_render_in_clip(x as int, y as int, shape@));
                assert forall|i: int| 0 <= i < old_bytes.len() implies #[trigger] buffer.bytes@[i] == if i / (
                stride as int) < y || (i / (stride as int) == y && (i % (stride as int)) / 4 < x + 1) {
                    want[i]
                } else {
                    old_bytes[i]
                } by {
                    lemma_pixel_of_byte(i, width as int, x as int, y as int);
                }
            }
            x = x + 1;
        }
        proof {
            assert forall|i: int| 0 <= i < old_bytes.len() implies #[trigger] buffer.bytes@[i] == if i / (stride
                as int) < y + 1 {
                want[i]
            } else {
                old_bytes[i]
            } by {
                if i / (stride as int) == y {
                    vstd::arithmetic::div_mod::lemma_mod_bound(i, stride as int);
                    assert((i % (stride as int)) / 4 < width) by (nonlinear_arith)
                        requires
                            0 <= i % (stride as int) < stride,
                            stride == 4 * width,
                    ;
                }
            }
        }
        y = y + 1;
    }
    proof {
        assert forall|i: int| 0 <= i < old_bytes.len() implies #[trigger] buffer.bytes@[i] == want[i] by {}
        assert(buffer.bytes@ =~= want);
    }
}

} // verus!
