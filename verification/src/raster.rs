use vstd::prelude::*;

use crate::geometry::{Rect, sat_add_i32, saturating_add_i32};

verus! {

/// Why a surface published sampled compatibility content instead of a
/// native-density variant drawn by the authority.
#[derive(Clone, Copy, Debug, PartialEq, Eq, Structural, PartialOrd, Ord)]
pub enum XRasterFallbackCause {
    /// An accepted `PutImage` fell outside the replayable format subset.
    UnsupportedPutImage,
    /// A `CopyArea` named a source drawable other than its destination.
    UnsupportedCrossDrawableCopy,
    /// A RENDER operation wrote the drawable.
    UnsupportedRenderOperation,
    /// Some other drawing operation has no journal representation.
    UnsupportedCommand,
    /// The requirement named a content generation already advanced past.
    StaleContentGeneration,
    /// The requirement's logical extent disagrees with the drawable.
    LogicalExtentMismatch,
    /// The surface has no canonical CPU drawable to replay from.
    NoCanonicalRaster,
    /// The journal exceeded its command or payload bound.
    JournalCapacity,
    /// The derived stores would exceed their bound.
    BackingCapacity,
    /// The requirement named a transform the derived stores do not render.
    TransformMismatch,
}

/// The stable snake_case token a cause is logged under.
pub open spec fn spec_cause_token(c: XRasterFallbackCause) -> Seq<char> {
    match c {
        XRasterFallbackCause::UnsupportedPutImage => "unsupported_put_image"@,
        XRasterFallbackCause::UnsupportedCrossDrawableCopy => "unsupported_cross_drawable_copy"@,
        XRasterFallbackCause::UnsupportedRenderOperation => "unsupported_render_operation"@,
        XRasterFallbackCause::UnsupportedCommand => "unsupported_command"@,
        XRasterFallbackCause::StaleContentGeneration => "stale_content_generation"@,
        XRasterFallbackCause::LogicalExtentMismatch => "logical_extent_mismatch"@,
        XRasterFallbackCause::NoCanonicalRaster => "no_canonical_raster"@,
        XRasterFallbackCause::JournalCapacity => "journal_capacity"@,
        XRasterFallbackCause::BackingCapacity => "backing_capacity"@,
        XRasterFallbackCause::TransformMismatch => "transform_mismatch"@,
    }
}

impl XRasterFallbackCause {
    /// Stable snake_case token for structured logs.
    pub fn as_str(self) -> (r: &'static str)
        ensures
            r@ == spec_cause_token(self),
    {
        match self {
            XRasterFallbackCause::UnsupportedPutImage => "unsupported_put_image",
            XRasterFallbackCause::UnsupportedCrossDrawableCopy => "unsupported_cross_drawable_copy",
            XRasterFallbackCause::UnsupportedRenderOperation => "unsupported_render_operation",
            XRasterFallbackCause::UnsupportedCommand => "unsupported_command",
            XRasterFallbackCause::StaleContentGeneration => "stale_content_generation",
            XRasterFallbackCause::LogicalExtentMismatch => "logical_extent_mismatch",
            XRasterFallbackCause::NoCanonicalRaster => "no_canonical_raster",
            XRasterFallbackCause::JournalCapacity => "journal_capacity",
            XRasterFallbackCause::BackingCapacity => "backing_capacity",
            XRasterFallbackCause::TransformMismatch => "transform_mismatch",
        }
    }
}

/// Which operation poisoned a surface's journal.
#[derive(Clone, Copy, Debug, PartialEq, Eq, Structural)]
pub enum XRasterUnsupportedKind {
    PutImage,
    CrossDrawableCopy,
    RenderOperation,
}

impl XRasterUnsupportedKind {
    /// The fallback cause an operation of this kind reports.
    pub fn cause(self) -> (r: XRasterFallbackCause)
        ensures
            r == match self {
                XRasterUnsupportedKind::PutImage => XRasterFallbackCause::UnsupportedPutImage,
                XRasterUnsupportedKind::CrossDrawableCopy => XRasterFallbackCause::UnsupportedCrossDrawableCopy,
                XRasterUnsupportedKind::RenderOperation => XRasterFallbackCause::UnsupportedRenderOperation,
            },
    {
        match self {
            XRasterUnsupportedKind::PutImage => XRasterFallbackCause::UnsupportedPutImage,
            XRasterUnsupportedKind::CrossDrawableCopy => XRasterFallbackCause::UnsupportedCrossDrawableCopy,
            XRasterUnsupportedKind::RenderOperation => XRasterFallbackCause::UnsupportedRenderOperation,
        }
    }
}

/// The sixteen core raster functions (`GXclear` .. `GXset`); an undefined
/// function copies the source.
pub open spec fn spec_raster_function(source: u32, destination: u32, function: u8) -> u32 {
    if function == 0 {
        0
    } else if function == 1 {
        source & destination
    } else if function == 2 {
        source & !destination
    } else if function == 3 {
        source
    } else if function == 4 {
        !source & destination
    } else if function == 5 {
        destination
    } else if function == 6 {
        source ^ destination
    } else if function == 7 {
        source | destination
    } else if function == 8 {
        !(source | destination)
    } else if function == 9 {
        !(source ^ destination)
    } else if function == 10 {
        !destination
    } else if function == 11 {
        source | !destination
    } else if function == 12 {
        !source
    } else if function == 13 {
        !source | destination
    } else if function == 14 {
        !(source & destination)
    } else if function == 15 {
        u32::MAX
    } else {
        source
    }
}

/// One pixel through a core raster function.
pub fn raster_function(source: u32, destination: u32, function: u8) -> (r: u32)
    ensures
        r == spec_raster_function(source, destination, function),
{
    match function {
        0 => 0,
        1 => source & destination,
        2 => source & !destination,
        3 => source,
        4 => !source & destination,
        5 => destination,
        6 => source ^ destination,
        7 => source | destination,
        8 => !(source | destination),
        9 => !(source ^ destination),
        10 => !destination,
        11 => source | !destination,
        12 => !source,
        13 => !source | destination,
        14 => !(source & destination),
        15 => u32::MAX,
        _ => source,
    }
}

/// A raster function result written through a plane mask: planes outside
/// the mask keep the destination's bits.
pub fn apply_raster_function(source: u32, destination: u32, function: u8, plane_mask: u32) -> (r:
    u32)
    ensures
        r == (spec_raster_function(source, destination, function) & plane_mask) | (destination
            & !plane_mask),
{
    let result = raster_function(source, destination, function);
    (result & plane_mask) | (destination & !plane_mask)
}

/// `value * factor / 255`, rounded to nearest.
pub open spec fn spec_mul_div_255(value: u8, factor: u8) -> int {
    (value * factor + 127) / 255
}

pub fn mul_div_255(value: u8, factor: u8) -> (r: u8)
    ensures
        r == spec_mul_div_255(value, factor),
{
    proof {
        assert(value * factor <= 255 * 255) by (nonlinear_arith)
            requires
                value <= 255,
                factor <= 255,
        ;
    }
    let p: u32 = value as u32 * factor as u32;
    ((p + 127) / 255) as u8
}

/// The source and destination factors a Porter-Duff operator applies,
/// given the two alphas.
pub open spec fn spec_blend_factors(op: u8, src_alpha: u8, dst_alpha: u8) -> (u8, u8) {
    if op == 0 {
        (0, 0)
    } else if op == 1 {
        (255, 0)
    } else if op == 2 {
        (0, 255)
    } else if op == 3 {
        (255, (255 - src_alpha) as u8)
    } else if op == 4 {
        ((255 - dst_alpha) as u8, 255)
    } else if op == 5 {
        (dst_alpha, 0)
    } else if op == 6 {
        (0, src_alpha)
    } else if op == 7 {
        ((255 - dst_alpha) as u8, 0)
    } else if op == 8 {
        (0, (255 - src_alpha) as u8)
    } else if op == 9 {
        (dst_alpha, (255 - src_alpha) as u8)
    } else if op == 10 {
        ((255 - dst_alpha) as u8, src_alpha)
    } else if op == 11 {
        ((255 - dst_alpha) as u8, (255 - src_alpha) as u8)
    } else if op == 12 {
        (255, 255)
    } else if op == 13 {
        (
            if src_alpha == 0 {
                255
            } else {
                let f = (255 - dst_alpha) * 255 / (src_alpha as int);
                if f > 255 {
                    255
                } else {
                    f as u8
                }
            },
            255,
        )
    } else {
        (0, 255)
    }
}

fn blend_factors(op: u8, src_alpha: u8, dst_alpha: u8) -> (r: (u8, u8))
    ensures
        r == spec_blend_factors(op, src_alpha, dst_alpha),
{
    match op {
        0 => (0, 0),
        1 => (255, 0),
        2 => (0, 255),
        3 => (255, 255 - src_alpha),
        4 => (255 - dst_alpha, 255),
        5 => (dst_alpha, 0),
        6 => (0, src_alpha),
        7 => (255 - dst_alpha, 0),
        8 => (0, 255 - src_alpha),
        9 => (dst_alpha, 255 - src_alpha),
        10 => (255 - dst_alpha, src_alpha),
        11 => (255 - dst_alpha, 255 - src_alpha),
        12 => (255, 255),
        13 => {
            if src_alpha == 0 {
                (255, 255)
            } else {
                let room: u32 = (255 - dst_alpha) as u32;
                proof {
                    assert(room * 255 <= 255 * 255) by (nonlinear_arith)
                        requires
                            room <= 255,
                    ;
                }
                let f: u32 = room * 255 / (src_alpha as u32);
                if f > 255 {
                    (255, 255)
                } else {
                    (f as u8, 255)
                }
            }
        },
        _ => (0, 255),
    }
}

/// One channel of a blend: `src * Fa + dst * Fb`, saturating.
pub open spec fn spec_blend_channel(src: u8, dst: u8, fa: u8, fb: u8) -> u8 {
    let s = spec_mul_div_255(src, fa) + spec_mul_div_255(dst, fb);
    if s > 255 {
        255
    } else {
        s as u8
    }
}

/// One premultiplied Porter-Duff blend of `[b, g, r, a]` pixels; operators
/// past Saturate leave the destination.
pub fn render_blend_pixel(op: u8, src: [u8; 4], dst: [u8; 4]) -> (r: [u8; 4])
    ensures
        forall|c: int|
            0 <= c < 4 ==> #[trigger] r@[c] == spec_blend_channel(
                src@[c],
                dst@[c],
                spec_blend_factors(op, src@[3], dst@[3]).0,
                spec_blend_factors(op, src@[3], dst@[3]).1,
            ),
{
    let (fa, fb) = blend_factors(op, src[3], dst[3]);
    let mut out: [u8; 4] = [0u8; 4];
    let mut c: usize = 0;
    while c < 4
        invariant
            c <= 4,
            fa == spec_blend_factors(op, src@[3], dst@[3]).0,
            fb == spec_blend_factors(op, src@[3], dst@[3]).1,
            forall|k: int|
                0 <= k < c ==> #[trigger] out@[k] == spec_blend_channel(src@[k], dst@[k], fa, fb),
        decreases 4 - c,
    {
        let a = mul_div_255(src[c], fa);
        let b = mul_div_255(dst[c], fb);
        let s: u16 = a as u16 + b as u16;
        let v: u8 = if s > 255 {
            255
        } else {
            s as u8
        };
        out[c] = v;
        c = c + 1;
    }
    out
}

/// Straight 16-bit `[r, g, b, a]` to premultiplied `[b, g, r, a]` bytes.
pub open spec fn spec_premultiply_channel(channel: u16, alpha: u16) -> u8 {
    ((channel * alpha / 65535) / 256) as u8
}

pub fn premultiply(color: [u16; 4]) -> (r: [u8; 4])
    ensures
        r@[0] == spec_premultiply_channel(color@[2], color@[3]),
        r@[1] == spec_premultiply_channel(color@[1], color@[3]),
        r@[2] == spec_premultiply_channel(color@[0], color@[3]),
        r@[3] == color@[3] / 256,
{
    let alpha: u32 = color[3] as u32;
    let b = scale_channel(color[2], color[3]);
    let g = scale_channel(color[1], color[3]);
    let r = scale_channel(color[0], color[3]);
    [b, g, r, (alpha / 256) as u8]
}

fn scale_channel(channel: u16, alpha: u16) -> (r: u8)
    ensures
        r == spec_premultiply_channel(channel, alpha),
{
    proof {
        assert(channel * alpha <= 65535 * 65535) by (nonlinear_arith)
            requires
                channel <= 65535,
                alpha <= 65535,
        ;
        assert(channel * alpha / 65535 <= 65535) by (nonlinear_arith)
            requires
                channel <= 65535,
                alpha <= 65535,
        ;
    }
    let value: u32 = (channel as u32) * (alpha as u32) / 65535;
    (value / 256) as u8
}

/// Whether a point lies in a clip rectangle placed at an origin: the edges
/// are the saturating sums the drawing code uses.
pub open spec fn spec_in_clip_rect(x: int, y: int, rect: Rect, ox: int, oy: int) -> bool {
    let left = sat_add_i32(rect.x as int, ox);
    let top = sat_add_i32(rect.y as int, oy);
    x >= left && y >= top && x < sat_add_i32(left, rect.width as int) && y < sat_add_i32(
        top,
        rect.height as int,
    )
}

/// A buffer coordinate as the clip test reads it, held at `i32::MAX`.
pub open spec fn spec_coordinate(v: usize) -> int {
    if v <= i32::MAX {
        v as int
    } else {
        i32::MAX as int
    }
}

fn coordinate(v: usize) -> (r: i32)
    ensures
        r == spec_coordinate(v),
{
    if v <= i32::MAX as usize {
        v as i32
    } else {
        i32::MAX
    }
}

/// Whether any rectangle of a clip list, at an origin, holds a point.
pub fn clip_list_contains(x: i32, y: i32, clip: &Vec<Rect>, ox: i32, oy: i32) -> (r: bool)
    ensures
        r == exists|i: int|
            0 <= i < clip@.len() && spec_in_clip_rect(x as int, y as int, #[trigger] clip@[i], ox as int, oy as int),
{
    let mut i: usize = 0;
    while i < clip.len()
        invariant
            i <= clip@.len(),
            forall|j: int|
                0 <= j < i ==> !spec_in_clip_rect(x as int, y as int, #[trigger] clip@[j], ox as int, oy as int),
        decreases clip@.len() - i,
    {
        let rect = clip[i];
        let left = saturating_add_i32(rect.x, ox);
        let top = saturating_add_i32(rect.y, oy);
        if x >= left && y >= top && x < saturating_add_i32(left, rect.width) && y
            < saturating_add_i32(top, rect.height) {
            return true;
        }
        i = i + 1;
    }
    false
}

/// Whether a destination point is inside a picture's clip list, already
/// placed at its clip origin. An empty list clips nothing.
pub fn render_point_in_clip(x: usize, y: usize, clip: &Vec<Rect>) -> (r: bool)
    ensures
        r == (clip@.len() == 0 || exists|i: int|
            0 <= i < clip@.len() && spec_in_clip_rect(
                spec_coordinate(x),
                spec_coordinate(y),
                #[trigger] clip@[i],
                0,
                0,
            )),
{
    if clip.len() == 0 {
        return true;
    }
    clip_list_contains(coordinate(x), coordinate(y), clip, 0, 0)
}

/// A clip origin moved by an offset, held at the ends of the `i16` range.
pub open spec fn spec_shift_origin(origin: i16, delta: i32) -> i16 {
    let s = sat_add_i32(origin as int, delta as int);
    if i16::MIN <= s <= i16::MAX {
        s as i16
    } else if delta < 0 {
        i16::MIN
    } else {
        i16::MAX
    }
}

pub fn shift_origin(origin: i16, delta: i32) -> (r: i16)
    ensures
        r == spec_shift_origin(origin, delta),
{
    let s = saturating_add_i32(origin as i32, delta);
    if i16::MIN as i32 <= s && s <= i16::MAX as i32 {
        s as i16
    } else if delta < 0 {
        i16::MIN
    } else {
        i16::MAX
    }
}

/// Exact overlap, in thousandths, between one destination pixel and one
/// source pixel projected at `density` thousandths, never negative.
pub open spec fn spec_overlap_scaled(destination: i32, source: i32, density: u32) -> int {
    let dl = destination * 1000;
    let dr = dl + 1000;
    let sl = source * density;
    let sr = sl + density;
    let right = if dr < sr {
        dr
    } else {
        sr
    };
    let left = if dl > sl {
        dl
    } else {
        sl
    };
    if right - left > 0 {
        right - left
    } else {
        0
    }
}

pub fn overlap_scaled(destination: i32, source: i32, density: u32) -> (r: i64)
    ensures
        r == spec_overlap_scaled(destination, source, density),
{
    proof {
        assert(-2147483648 * 1000 <= destination * 1000 <= 2147483647 * 1000) by (nonlinear_arith)
            requires
                -2147483648 <= destination <= 2147483647,
        ;
        assert(-2147483648 * 4294967295 <= source * density <= 2147483647 * 4294967295)
            by (nonlinear_arith)
            requires
                -2147483648 <= source <= 2147483647,
                0 <= density <= 4294967295,
        ;
    }
    let dl: i64 = destination as i64 * 1000;
    let dr: i64 = dl + 1000;
    let sl: i64 = source as i64 * density as i64;
    let sr: i64 = sl + density as i64;
    let right = if dr < sr {
        dr
    } else {
        sr
    };
    let left = if dl > sl {
        dl
    } else {
        sl
    };
    if right <= left {
        0
    } else {
        right - left
    }
}

} // verus!
