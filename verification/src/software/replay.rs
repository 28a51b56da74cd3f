//! Density projection for replaying drawing into a derived store: exact
//! integer arithmetic over a command's own 1x coordinates, with densities
//! in thousandths; the projected context, source spans and overlaps, area
//! copies and coverage blending that replay draws with.
use vstd::prelude::*;

use crate::gc::{XGcValuesView, XGraphicsContextValues};
use crate::geometry::{Rect, sat_add_i32, sat_sub_i32, saturating_add_i32, saturating_sub_i32};
use crate::software::store::spec_line_width;
use crate::software::{XAuthorityCpuBufferSnapshot, set_pixel, spec_filled};
use crate::wire::{XByteOrder, spec_u32_at};

verus! {

/// `v` held to the range of an `i32`.
pub open spec fn spec_clamp_i32(v: int) -> i32 {
    if v < i32::MIN {
        i32::MIN
    } else if v > i32::MAX {
        i32::MAX
    } else {
        v as i32
    }
}

/// A 1x edge scaled by `density` thousandths, rounded down.
pub open spec fn spec_floor_edge(value: i32, density: u32) -> i32 {
    spec_clamp_i32((value * density) / 1000)
}

/// A 1x edge scaled by `density` thousandths, rounded up.
pub open spec fn spec_ceil_edge(value: i32, density: u32) -> i32 {
    spec_clamp_i32((value * density + 999) / 1000)
}

/// A 1x rectangle projected to `density`: its near edges rounded down and
/// its far edges rounded up, so it covers every pixel the scaled rectangle
/// touches.
pub open spec fn spec_project_rect(rect: Rect, density: u32) -> Rect {
    let left = spec_floor_edge(rect.x, density);
    let top = spec_floor_edge(rect.y, density);
    let right = spec_ceil_edge(sat_add_i32(rect.x as int, rect.width as int) as i32, density);
    let bottom = spec_ceil_edge(sat_add_i32(rect.y as int, rect.height as int) as i32, density);
    Rect {
        x: left,
        y: top,
        width: sat_sub_i32(right as int, left as int) as i32,
        height: sat_sub_i32(bottom as int, top as int) as i32,
    }
}

proof fn lemma_scaled_bounds(value: i32, density: u32)
    ensures
        -0x8000_0000 * 0xffff_ffff <= value * density <= 0x7fff_ffff * 0xffff_ffff,
{
    assert(-0x8000_0000 * 0xffff_ffff <= value * density <= 0x7fff_ffff * 0xffff_ffff) by (nonlinear_arith)
        requires
            -0x8000_0000 <= value <= 0x7fff_ffff,
            0 <= density <= 0xffff_ffff,
    ;
}

/// `a` divided by a thousand, rounded down.
fn floor_thousandths(a: i64) -> (r: i64)
    requires
        a > i64::MIN,
    ensures
        r == a / 1000,
{
    if a >= 0 {
        let q = (a as u64) / 1000;
        q as i64
    } else {
        let n = (-a) as u64;
        let q = (n + 999) / 1000;
        proof {
            let ni = n as int;
            assert(-((ni + 999) / 1000) == (-ni) / 1000) by (nonlinear_arith)
                requires
                    ni > 0,
            {
                let q0 = (ni + 999) / 1000;
                let r0 = (ni + 999) % 1000;
                assert(ni + 999 == 1000 * q0 + r0);
                assert(0 <= r0 < 1000);
                let f = (-ni) / 1000;
                let g = (-ni) % 1000;
                assert(-ni == 1000 * f + g);
                assert(0 <= g < 1000);
            }
        }
        -(q as i64)
    }
}

fn clamp_to_i32(v: i64) -> (r: i32)
    ensures
        r == spec_clamp_i32(v as int),
{
    if v < i32::MIN as i64 {
        i32::MIN
    } else if v > i32::MAX as i64 {
        i32::MAX
    } else {
        v as i32
    }
}

/// A 1x edge scaled by `density` thousandths, rounded down.
pub fn floor_edge(value: i32, density: u32) -> (r: i32)
    ensures
        r == spec_floor_edge(value, density),
{
    proof {
        lemma_scaled_bounds(value, density);
    }
    let scaled = (value as i64) * (density as i64);
    clamp_to_i32(floor_thousandths(scaled))
}

/// A 1x edge scaled by `density` thousandths, rounded up.
pub fn ceil_edge(value: i32, density: u32) -> (r: i32)
    ensures
        r == spec_ceil_edge(value, density),
{
    proof {
        lemma_scaled_bounds(value, density);
    }
    let scaled = (value as i64) * (density as i64);
    clamp_to_i32(floor_thousandths(scaled + 999))
}

/// A 1x rectangle projected to `density`.
pub fn project_rect(rect: Rect, density: u32) -> (r: Rect)
    ensures
        r == spec_project_rect(rect, density),
{
    let left = floor_edge(rect.x, density);
    let top = floor_edge(rect.y, density);
    let right = ceil_edge(saturating_add_i32(rect.x, rect.width), density);
    let bottom = ceil_edge(saturating_add_i32(rect.y, rect.height), density);
    Rect {
        x: left,
        y: top,
        width: saturating_sub_i32(right, left),
        height: saturating_sub_i32(bottom, top),
    }
}

/// At the canonical density, projection changes nothing: a rectangle whose
/// far edges fit the coordinate range projects to itself.
pub proof fn law_projection_at_1x_is_identity(rect: Rect)
    requires
        i32::MIN <= rect.x + rect.width <= i32::MAX,
        i32::MIN <= rect.y + rect.height <= i32::MAX,
        rect.width >= 0,
        rect.height >= 0,
    ensures
        spec_project_rect(rect, 1000) == rect,
{
    let r = spec_project_rect(rect, 1000);
    assert((rect.x * 1000) / 1000 == rect.x) by (nonlinear_arith);
    assert((rect.y * 1000) / 1000 == rect.y) by (nonlinear_arith);
    let xr = rect.x + rect.width;
    let yb = rect.y + rect.height;
    assert((xr * 1000 + 999) / 1000 == xr) by (nonlinear_arith);
    assert((yb * 1000 + 999) / 1000 == yb) by (nonlinear_arith);
}

/// Projected edges bracket the scaled edge: rounded down it lies at or
/// before it, rounded up at or after it, and the two are at most one pixel
/// apart (for edges whose projections fit the coordinate range).
pub proof fn law_projected_edges_bracket_the_scaled_edge(value: i32, density: u32)
    requires
        i32::MIN * 1000 <= value * density <= i32::MAX * 1000 - 999,
    ensures
        spec_floor_edge(value, density) * 1000 <= value * density,
        value * density <= spec_ceil_edge(value, density) * 1000,
        spec_ceil_edge(value, density) - spec_floor_edge(value, density) <= 1,
{
    let a = value * density;
    assert((a / 1000) * 1000 <= a) by (nonlinear_arith);
    assert(a <= ((a + 999) / 1000) * 1000) by (nonlinear_arith);
    assert((a + 999) / 1000 - a / 1000 <= 1) by (nonlinear_arith);
    assert(i32::MIN <= a / 1000 <= i32::MAX) by (nonlinear_arith)
        requires
            i32::MIN * 1000 <= a <= i32::MAX * 1000 - 999,
    ;
    assert(i32::MIN <= (a + 999) / 1000 <= i32::MAX) by (nonlinear_arith)
        requires
            i32::MIN * 1000 <= a <= i32::MAX * 1000 - 999,
    ;
}

/// The overlap, in thousandths of a pixel, between destination pixel
/// `destination` and source pixel `source` scaled by `density`: zero when
/// they do not meet.
pub open spec fn spec_overlap_scaled(destination: i32, source: i32, density: u32) -> int {
    let dl = destination * 1000;
    let sl = source * density;
    let lo = if dl > sl {
        dl
    } else {
        sl
    };
    let hi = if dl + 1000 < sl + density {
        dl + 1000
    } else {
        sl + density
    };
    if hi > lo {
        hi - lo
    } else {
        0
    }
}

/// Computes `spec_overlap_scaled`.
pub fn overlap_scaled(destination: i32, source: i32, density: u32) -> (r: i64)
    ensures
        r == spec_overlap_scaled(destination, source, density),
        0 <= r <= 1000,
{
    proof {
        lemma_scaled_bounds(source, density);
    }
    let dl: i64 = (destination as i64) * 1000;
    let dr: i64 = dl + 1000;
    let sl: i64 = (source as i64) * (density as i64);
    let sr: i64 = sl + (density as i64);
    let lo: i64 = if dl > sl {
        dl
    } else {
        sl
    };
    let hi: i64 = if dr < sr {
        dr
    } else {
        sr
    };
    if hi > lo {
        hi - lo
    } else {
        0
    }
}

/// The box around two rectangles, a side without area giving way to the
/// other; edges add and subtract saturating.
pub open spec fn spec_replay_union(left: Rect, right: Rect) -> Rect {
    if left.width <= 0 || left.height <= 0 {
        right
    } else if right.width <= 0 || right.height <= 0 {
        left
    } else {
        let x = if left.x < right.x {
            left.x
        } else {
            right.x
        };
        let y = if left.y < right.y {
            left.y
        } else {
            right.y
        };
        let le = sat_add_i32(left.x as int, left.width as int);
        let re = sat_add_i32(right.x as int, right.width as int);
        let lb = sat_add_i32(left.y as int, left.height as int);
        let rb = sat_add_i32(right.y as int, right.height as int);
        let right_edge = if le > re {
            le
        } else {
            re
        };
        let bottom_edge = if lb > rb {
            lb
        } else {
            rb
        };
        Rect {
            x,
            y,
            width: sat_sub_i32(right_edge, x as int) as i32,
            height: sat_sub_i32(bottom_edge, y as int) as i32,
        }
    }
}

/// Computes `spec_replay_union`.
pub fn replay_union(left: Rect, right: Rect) -> (r: Rect)
    ensures
        r == spec_replay_union(left, right),
{
    if left.width <= 0 || left.height <= 0 {
        return right;
    }
    if right.width <= 0 || right.height <= 0 {
        return left;
    }
    let x = if left.x < right.x {
        left.x
    } else {
        right.x
    };
    let y = if left.y < right.y {
        left.y
    } else {
        right.y
    };
    let le = saturating_add_i32(left.x, left.width);
    let re = saturating_add_i32(right.x, right.width);
    let lb = saturating_add_i32(left.y, left.height);
    let rb = saturating_add_i32(right.y, right.height);
    let right_edge = if le > re {
        le
    } else {
        re
    };
    let bottom_edge = if lb > rb {
        lb
    } else {
        rb
    };
    Rect { x, y, width: saturating_sub_i32(right_edge, x), height: saturating_sub_i32(bottom_edge, y) }
}

/// A source index held to `[low, high]`, or `origin` when the held value
/// leaves the coordinate range.
pub open spec fn spec_span_clamp(value: int, low: int, high: int, origin: i32) -> i32 {
    let c = if value < low {
        low
    } else if value > high {
        high
    } else {
        value
    };
    if i32::MIN <= c <= i32::MAX {
        c as i32
    } else {
        origin
    }
}

/// The source indices, held to the image's extent, that can overlap
/// destination pixel `destination` at `density` (a zero density taken as
/// one): from the source pixel under its left edge up to the one past its
/// right edge.
pub open spec fn spec_source_span(destination: i32, density: u32, origin: i32, extent: i32) -> (i32, i32) {
    let d: int = if density == 0 {
        1
    } else {
        density as int
    };
    let left = destination * 1000;
    let low = origin as int;
    let high = origin + if extent > 0 {
        extent as int
    } else {
        0
    };
    (spec_span_clamp(left / d, low, high, origin), spec_span_clamp((left + 1000 + d - 1) / d, low, high, origin))
}

/// `a` divided by `d`, rounded down.
fn floor_div(a: i64, d: i64) -> (r: i64)
    requires
        a > i64::MIN,
        0 < d,
        a + d <= i64::MAX,
    ensures
        r == a / d,
{
    if a >= 0 {
        let q = (a as u64) / (d as u64);
        q as i64
    } else {
        let n = (-a) as u64;
        let du = d as u64;
        let q = (n + du - 1) / du;
        proof {
            let ni = n as int;
            let di = du as int;
            assert(-((ni + di - 1) / di) == (-ni) / di) by (nonlinear_arith)
                requires
                    ni > 0,
                    di > 0,
            {
                let q0 = (ni + di - 1) / di;
                let r0 = (ni + di - 1) % di;
                assert(ni + di - 1 == di * q0 + r0);
                assert(0 <= r0 < di);
                let f = (-ni) / di;
                let g = (-ni) % di;
                assert(-ni == di * f + g);
                assert(0 <= g < di);
            }
            assert((ni + di - 1) / di <= ni) by (nonlinear_arith)
                requires
                    ni > 0,
                    di > 0,
            ;
        }
        -(q as i64)
    }
}

fn span_clamp(value: i64, low: i64, high: i64, origin: i32) -> (r: i32)
    ensures
        r == spec_span_clamp(value as int, low as int, high as int, origin),
{
    let c = if value < low {
        low
    } else if value > high {
        high
    } else {
        value
    };
    if i32::MIN as i64 <= c && c <= i32::MAX as i64 {
        c as i32
    } else {
        origin
    }
}

/// Computes `spec_source_span`.
pub fn source_span(destination: i32, density: u32, origin: i32, extent: i32) -> (r: (i32, i32))
    ensures
        r == spec_source_span(destination, density, origin, extent),
{
    let d: i64 = if density == 0 {
        1
    } else {
        density as i64
    };
    let left: i64 = (destination as i64) * 1000;
    let low: i64 = origin as i64;
    let high: i64 = low + if extent > 0 {
        extent as i64
    } else {
        0
    };
    let start = floor_div(left, d);
    let end = floor_div(left + 1000 + (d - 1), d);
    (span_clamp(start, low, high, origin), span_clamp(end, low, high, origin))
}

/// A line width projected to `density`: the drawn width (at least one
/// pixel) rounded up, at least one, held to a `u16`.
pub open spec fn spec_projected_line_width(line_width: u16, density: u32) -> u16 {
    let w = spec_ceil_edge(spec_line_width(line_width), density);
    let w1: int = if w < 1 {
        1
    } else {
        w as int
    };
    if w1 > u16::MAX {
        u16::MAX
    } else {
        w1 as u16
    }
}

/// A clip origin projected to `density`, rounded down, held to an `i16`
/// on the side of its sign.
pub open spec fn spec_projected_origin(v: i16, density: u32) -> i16 {
    let p = spec_floor_edge(v as i32, density);
    if i16::MIN <= p <= i16::MAX {
        p as i16
    } else if v < 0 {
        i16::MIN
    } else {
        i16::MAX
    }
}

/// A context projected to `density`: its line width, clip origin and clip
/// rectangles scaled, everything else kept.
pub open spec fn spec_projected_gc(gc: XGcValuesView, density: u32) -> XGcValuesView {
    XGcValuesView {
        line_width: spec_projected_line_width(gc.line_width, density),
        clip_x_origin: spec_projected_origin(gc.clip_x_origin, density),
        clip_y_origin: spec_projected_origin(gc.clip_y_origin, density),
        clip_rectangles: match gc.clip_rectangles {
            Some(rects) => Some(Seq::new(rects.len(), |i: int| spec_project_rect(rects[i], density))),
            None => None,
        },
        ..gc
    }
}

fn projected_origin(v: i16, density: u32) -> (r: i16)
    ensures
        r == spec_projected_origin(v, density),
{
    let p = floor_edge(v as i32, density);
    if i16::MIN as i32 <= p && p <= i16::MAX as i32 {
        p as i16
    } else if v < 0 {
        i16::MIN
    } else {
        i16::MAX
    }
}

/// Computes `spec_projected_gc`.
pub fn projected_gc(gc: &XGraphicsContextValues, density: u32) -> (r: XGraphicsContextValues)
    ensures
        r@ == spec_projected_gc(gc@, density),
{
    let drawn: i32 = if gc.line_width >= 1 {
        gc.line_width as i32
    } else {
        1
    };
    let w = ceil_edge(drawn, density);
    let w1: i32 = if w < 1 {
        1
    } else {
        w
    };
    let line_width: u16 = if w1 > u16::MAX as i32 {
        u16::MAX
    } else {
        w1 as u16
    };
    let clip_rectangles = match &gc.clip_rectangles {
        Some(rects) => {
            let mut out: Vec<Rect> = Vec::new();
            let mut i: usize = 0;
            while i < rects.len()
                invariant
                    i <= rects@.len(),
                    out@ == Seq::new(i as nat, |j: int| spec_project_rect(rects@[j], density)),
                decreases rects@.len() - i,
            {
                out.push(project_rect(rects[i], density));
                i = i + 1;
                proof {
                    assert(out@ =~= Seq::new(i as nat, |j: int| spec_project_rect(rects@[j], density)));
                }
            }
            Some(out)
        },
        None => None,
    };
    let r = XGraphicsContextValues {
        function: gc.function,
        plane_mask: gc.plane_mask,
        foreground: gc.foreground,
        background: gc.background,
        line_width,
        fill_style: gc.fill_style,
        graphics_exposures: gc.graphics_exposures,
        font: gc.font,
        clip_x_origin: projected_origin(gc.clip_x_origin, density),
        clip_y_origin: projected_origin(gc.clip_y_origin, density),
        clip_mask: gc.clip_mask,
        clip_rectangles,
    };
    proof {
        assert(r@.clip_rectangles == spec_projected_gc(gc@, density).clip_rectangles);
    }
    r
}

/// The pixel at source (`sx`, `sy`) of bytes laid out `stride` apart:
/// none for a negative coordinate, an offset past the address range, or
/// bytes that end before the pixel does.
pub open spec fn spec_area_pixel(bytes: Seq<u8>, stride: int, sx: int, sy: int) -> Option<u32> {
    if sx < 0 || sy < 0 || sy * stride > usize::MAX {
        None
    } else {
        let column: int = if sx * 4 > usize::MAX {
            usize::MAX as int
        } else {
            sx * 4
        };
        let offset = sy * stride + column;
        if offset > usize::MAX || offset + 4 > bytes.len() {
            None
        } else {
            Some(spec_u32_at(XByteOrder::LittleEndian, bytes, offset))
        }
    }
}

/// The bytes after copying the first `columns` pixels of row `y` of
/// `source`, read from `previous`, to the destination.
pub open spec fn spec_area_row(
    previous: Seq<u8>,
    stride: int,
    size: crate::geometry::Size,
    bytes: Seq<u8>,
    source: Rect,
    destination_x: i32,
    destination_y: i32,
    gc: XGcValuesView,
    y: int,
    columns: int,
) -> Seq<u8>
    decreases columns,
{
    if columns <= 0 {
        bytes
    } else {
        let x = columns - 1;
        let before = spec_area_row(previous, stride, size, bytes, source, destination_x, destination_y, gc, y, x);
        match spec_area_pixel(
            previous,
            stride,
            sat_add_i32(source.x as int, x),
            sat_add_i32(source.y as int, y),
        ) {
            None => before,
            Some(pixel) => spec_filled(
                before,
                size,
                Rect {
                    x: sat_add_i32(destination_x as int, x) as i32,
                    y: sat_add_i32(destination_y as int, y) as i32,
                    width: 1,
                    height: 1,
                },
                pixel,
                gc,
            ),
        }
    }
}

/// The bytes after copying the first `rows` rows of `source`.
pub open spec fn spec_area_rows(
    previous: Seq<u8>,
    stride: int,
    size: crate::geometry::Size,
    source: Rect,
    destination_x: i32,
    destination_y: i32,
    gc: XGcValuesView,
    rows: int,
) -> Seq<u8>
    decreases rows,
{
    if rows <= 0 {
        previous
    } else {
        spec_area_row(
            previous,
            stride,
            size,
            spec_area_rows(previous, stride, size, source, destination_x, destination_y, gc, rows - 1),
            source,
            destination_x,
            destination_y,
            gc,
            rows - 1,
            if source.width > 0 {
                source.width as int
            } else {
                0
            },
        )
    }
}

fn area_pixel(previous: &XAuthorityCpuBufferSnapshot, sx: i32, sy: i32) -> (r: Option<u32>)
    ensures
        r == spec_area_pixel(previous.bytes@, previous.stride as int, sx as int, sy as int),
{
    if sx < 0 || sy < 0 {
        return None;
    }
    let stride = previous.stride as usize;
    let row = match (sy as usize).checked_mul(stride) {
        Some(r) => r,
        None => {
            return None;
        },
    };
    let column: usize = match (sx as usize).checked_mul(4) {
        Some(c) => c,
        None => usize::MAX,
    };
    let offset = match row.checked_add(column) {
        Some(o) => o,
        None => {
            return None;
        },
    };
    if offset > previous.bytes.len() || previous.bytes.len() - offset < 4 {
        return None;
    }
    Some(XByteOrder::LittleEndian.u32_at(previous.bytes.as_slice(), offset))
}

/// Copies `source`, read from the buffer as it was before the copy, to
/// (`destination_x`, `destination_y`) through the context, pixel by pixel,
/// row by row; pixels the source cannot supply are skipped.
pub fn copy_projected_area(
    snapshot: &mut XAuthorityCpuBufferSnapshot,
    source: Rect,
    destination_x: i32,
    destination_y: i32,
    gc: &XGraphicsContextValues,
)
    requires
        old(snapshot).wf(),
    ensures
        final(snapshot).wf(),
        final(snapshot).bytes@ == spec_area_rows(
            old(snapshot).bytes@,
            old(snapshot).stride as int,
            old(snapshot).size,
            source,
            destination_x,
            destination_y,
            gc@,
            if source.height > 0 {
                source.height as int
            } else {
                0
            },
        ),
        *final(snapshot) == (XAuthorityCpuBufferSnapshot { bytes: final(snapshot).bytes, ..*old(snapshot) }),
{
    let previous = XAuthorityCpuBufferSnapshot {
        handle: snapshot.handle,
        drawable: snapshot.drawable,
        size: snapshot.size,
        stride: snapshot.stride,
        format: snapshot.format,
        generation: snapshot.generation,
        bytes: snapshot.bytes.clone(),
    };
    proof {
        assert(previous.bytes@ =~= old(snapshot).bytes@);
    }
    let height: i32 = if source.height > 0 {
        source.height
    } else {
        0
    };
    let width: i32 = if source.width > 0 {
        source.width
    } else {
        0
    };
    let mut y: i32 = 0;
    while y < height
        invariant
            0 <= y <= height,
            height == (if source.height > 0 { source.height as int } else { 0 }),
            width == (if source.width > 0 { source.width as int } else { 0 }),
            previous.bytes@ == old(snapshot).bytes@,
            previous.stride == old(snapshot).stride,
            snapshot.wf(),
            *snapshot == (XAuthorityCpuBufferSnapshot { bytes: snapshot.bytes, ..*old(snapshot) }),
            snapshot.bytes@ == spec_area_rows(
                previous.bytes@,
                previous.stride as int,
                old(snapshot).size,
                source,
                destination_x,
                destination_y,
                gc@,
                y as int,
            ),
        decreases height - y,
    {
        let ghost row_start = snapshot.bytes@;
        let mut x: i32 = 0;
        while x < width
            invariant
                0 <= x <= width,
                0 <= y < height,
                width == (if source.width > 0 { source.width as int } else { 0 }),
                previous.bytes@ == old(snapshot).bytes@,
                previous.stride == old(snapshot).stride,
                snapshot.wf(),
                *snapshot == (XAuthorityCpuBufferSnapshot { bytes: snapshot.bytes, ..*old(snapshot) }),
                snapshot.bytes@ == spec_area_row(
                    previous.bytes@,
                    previous.stride as int,
                    old(snapshot).size,
                    row_start,
                    source,
                    destination_x,
                    destination_y,
                    gc@,
                    y as int,
                    x as int,
                ),
            decreases width - x,
        {
            let sx = saturating_add_i32(source.x, x);
            let sy = saturating_add_i32(source.y, y);
            match area_pixel(&previous, sx, sy) {
                None => {},
                Some(pixel) => {
                    set_pixel(
                        snapshot,
                        saturating_add_i32(destination_x, x),
                        saturating_add_i32(destination_y, y),
                        pixel,
                        gc,
                    );
                },
            }
            x = x + 1;
        }
        y = y + 1;
    }
}

/// The integer square root of `v`, looked for at or below `n`.
pub open spec fn spec_isqrt_upto(v: int, n: int) -> int
    decreases n,
{
    if n <= 0 {
        0
    } else if n * n <= v {
        n
    } else {
        spec_isqrt_upto(v, n - 1)
    }
}

/// One channel of a partially covered copy, mixed in squared (roughly
/// linear-light) space: the coverage-weighted mean of the squares, rounded,
/// and its integer square root.
pub open spec fn spec_blend_byte(source: u32, destination: u32, alpha: u32) -> u32 {
    let mixed = (source * source * alpha + destination * destination * (255 - alpha) + 127) / 255;
    spec_isqrt_upto(mixed, 255) as u32
}

/// The pixel a copy with `coverage` leaves over `destination`, channel by
/// channel.
pub open spec fn spec_blended_pixel(source: u32, destination: u32, coverage: u8) -> u32 {
    let a = coverage as u32;
    spec_blend_byte((source >> 16u32) & 0xff, (destination >> 16u32) & 0xff, a) << 16u32 | spec_blend_byte(
        (source >> 8u32) & 0xff,
        (destination >> 8u32) & 0xff,
        a,
    ) << 8u32 | spec_blend_byte(source & 0xff, destination & 0xff, a)
}

/// The bytes after blending `source` at (`x`, `y`) with `coverage`: the
/// pixel there is read, mixed and written back through the context; nothing
/// happens where no pixel can be read.
pub open spec fn spec_blend_copy(
    bytes: Seq<u8>,
    stride: int,
    size: crate::geometry::Size,
    x: i32,
    y: i32,
    source: u32,
    coverage: u8,
    gc: XGcValuesView,
) -> Seq<u8> {
    match spec_area_pixel(bytes, stride, x as int, y as int) {
        None => bytes,
        Some(destination) => spec_filled(
            bytes,
            size,
            Rect { x, y, width: 1, height: 1 },
            spec_blended_pixel(source, destination, coverage),
            gc,
        ),
    }
}

fn square_exceeds(r: u32, v: u32) -> (b: bool)
    requires
        r <= 255,
    ensures
        b == (r * r > v),
{
    proof {
        assert(r * r <= 255 * 255) by (nonlinear_arith)
            requires
                r <= 255,
        ;
    }
    r * r > v
}

fn isqrt_byte(v: u32) -> (r: u32)
    ensures
        r == spec_isqrt_upto(v as int, 255),
        r <= 255,
{
    let mut r: u32 = 255;
    while r > 0 && square_exceeds(r, v)
        invariant
            r <= 255,
            spec_isqrt_upto(v as int, 255) == spec_isqrt_upto(v as int, r as int),
        decreases r,
    {
        r = r - 1;
    }
    r
}

fn blend_byte(source: u32, destination: u32, alpha: u32) -> (r: u32)
    requires
        source <= 255,
        destination <= 255,
        alpha <= 255,
    ensures
        r == spec_blend_byte(source, destination, alpha),
{
    proof {
        assert(source * source * alpha <= 255 * 255 * 255) by (nonlinear_arith)
            requires
                source <= 255,
                alpha <= 255,
        ;
        assert(destination * destination * (255 - alpha) <= 255 * 255 * 255) by (nonlinear_arith)
            requires
                destination <= 255,
                alpha <= 255,
        ;
        assert(source * source <= 255 * 255) by (nonlinear_arith)
            requires
                source <= 255,
        ;
        assert(destination * destination <= 255 * 255) by (nonlinear_arith)
            requires
                destination <= 255,
        ;
    }
    let mixed = (source * source * alpha + destination * destination * (255 - alpha) + 127) / 255;
    isqrt_byte(mixed)
}

/// Blends `source` into the pixel at (`x`, `y`) with `coverage`, through
/// the context.
pub fn blend_copy_pixel(
    snapshot: &mut XAuthorityCpuBufferSnapshot,
    x: i32,
    y: i32,
    source: u32,
    coverage: u8,
    gc: &XGraphicsContextValues,
)
    requires
        old(snapshot).wf(),
    ensures
        final(snapshot).wf(),
        final(snapshot).bytes@ == spec_blend_copy(
            old(snapshot).bytes@,
            old(snapshot).stride as int,
            old(snapshot).size,
            x,
            y,
            source,
            coverage,
            gc@,
        ),
        *final(snapshot) == (XAuthorityCpuBufferSnapshot { bytes: final(snapshot).bytes, ..*old(snapshot) }),
{
    let destination = match area_pixel(snapshot, x, y) {
        None => {
            return;
        },
        Some(d) => d,
    };
    let a = coverage as u32;
    proof {
        assert((source >> 16u32) & 0xff <= 255 && (destination >> 16u32) & 0xff <= 255) by (bit_vector);
        assert((source >> 8u32) & 0xff <= 255 && (destination >> 8u32) & 0xff <= 255) by (bit_vector);
        assert(source & 0xff <= 255 && destination & 0xff <= 255) by (bit_vector);
    }
    let r = blend_byte((source >> 16u32) & 0xff, (destination >> 16u32) & 0xff, a);
    let g = blend_byte((source >> 8u32) & 0xff, (destination >> 8u32) & 0xff, a);
    let b = blend_byte(source & 0xff, destination & 0xff, a);
    let pixel = r << 16u32 | g << 8u32 | b;
    set_pixel(snapshot, x, y, pixel, gc);
}

proof fn lemma_isqrt_of_square(s: int, n: int)
    requires
        0 <= s <= n,
    ensures
        spec_isqrt_upto(s * s, n) == s,
    decreases n,
{
    if n > s {
        assert(n * n > s * s) by (nonlinear_arith)
            requires
                0 <= s < n,
        ;
        lemma_isqrt_of_square(s, n - 1);
    } else if n > 0 {
        assert(n * n <= s * s) by (nonlinear_arith)
            requires
                n == s,
        ;
    }
}

/// Blending is exact at the ends of coverage, so replay at full coverage
/// reproduces the source bit for bit: full coverage writes the source
/// channel, none keeps the destination's.
pub proof fn law_blend_is_exact_at_full_and_no_coverage(source: u32, destination: u32)
    requires
        source <= 255,
        destination <= 255,
    ensures
        spec_blend_byte(source, destination, 255) == source,
        spec_blend_byte(source, destination, 0) == destination,
{
    let s = source as int;
    let d = destination as int;
    assert((s * s * 255 + d * d * (255 - 255) + 127) / 255 == s * s) by (nonlinear_arith);
    assert((s * s * 0 + d * d * (255 - 0) + 127) / 255 == d * d) by (nonlinear_arith);
    lemma_isqrt_of_square(s, 255);
    lemma_isqrt_of_square(d, 255);
}

/// A fully covered blend writes the source's colour channels unchanged.
pub proof fn law_full_coverage_blend_writes_the_source(source: u32, destination: u32)
    ensures
        spec_blended_pixel(source, destination, 255) == source & 0x00ff_ffff,
{
    let r = (source >> 16u32) & 0xff;
    let g = (source >> 8u32) & 0xff;
    let b = source & 0xff;
    assert(r <= 255 && g <= 255 && b <= 255) by (bit_vector)
        requires
            r == (source >> 16u32) & 0xff,
            g == (source >> 8u32) & 0xff,
            b == source & 0xff,
    ;
    assert((destination >> 16u32) & 0xff <= 255 && (destination >> 8u32) & 0xff <= 255 && destination & 0xff
        <= 255) by (bit_vector);
    law_blend_is_exact_at_full_and_no_coverage(r, (destination >> 16u32) & 0xff);
    law_blend_is_exact_at_full_and_no_coverage(g, (destination >> 8u32) & 0xff);
    law_blend_is_exact_at_full_and_no_coverage(b, destination & 0xff);
    assert(((source >> 16u32) & 0xff) << 16u32 | ((source >> 8u32) & 0xff) << 8u32 | (source & 0xff) == source
        & 0x00ff_ffff) by (bit_vector);
}

} // verus!
