use sophia_x_authority::gc::{XGraphicsContextValues, XPutImageSemantics};
use sophia_x_authority::geometry::{Rect, Size};
use sophia_x_authority::ids::XResourceId;
use sophia_x_authority::software::{
    XAuthorityCpuBufferSnapshot, XPoint, clipped_bounds, copy_buffer_region, copy_xrgb8888,
    draw_line, draw_rectangle_outline, fill_rect, mask_rect_to_shape, render_fill_rect, pixel_in_clip, point_bounds, put_image_pixels,
    rectangle_outline_bounds, set_pixel,
};
use sophia_x_authority::render::XRenderPictFormatKind;
use sophia_x_authority::wire::XByteOrder;

fn buffer(width: i32, height: i32) -> XAuthorityCpuBufferSnapshot {
    XAuthorityCpuBufferSnapshot {
        handle: 1,
        drawable: XResourceId { local: 0x20_0001, generation: 1 },
        size: Size { width, height },
        stride: (width * 4) as u32,
        format: 0,
        generation: 1,
        bytes: vec![0; (width * height * 4) as usize],
    }
}

fn pixel(b: &XAuthorityCpuBufferSnapshot, x: usize, y: usize) -> u32 {
    let o = y * b.stride as usize + x * 4;
    u32::from_le_bytes([b.bytes[o], b.bytes[o + 1], b.bytes[o + 2], b.bytes[o + 3]])
}

fn rect(x: i32, y: i32, width: i32, height: i32) -> Rect {
    Rect { x, y, width, height }
}

#[test]
fn clipped_bounds_keep_the_inside() {
    let size = Size { width: 10, height: 5 };
    assert_eq!(clipped_bounds(size, rect(-3, 2, 5, 10)), Some((0, 2, 2, 5)));
    assert_eq!(clipped_bounds(size, rect(10, 0, 5, 5)), None);
    assert_eq!(clipped_bounds(size, rect(0, 0, 0, 5)), None);
    assert_eq!(clipped_bounds(size, rect(i32::MAX - 1, 0, 10, 1)), None);
}

#[test]
fn fill_writes_only_the_clipped_rectangle() {
    let mut b = buffer(4, 3);
    let mut gc = XGraphicsContextValues::default();
    gc.foreground = 0x00ab_cdef;
    fill_rect(&mut b, rect(2, 1, 10, 10), 0x00ab_cdef, &gc);
    assert_eq!(pixel(&b, 2, 1), 0x00ab_cdef);
    assert_eq!(pixel(&b, 3, 2), 0x00ab_cdef);
    assert_eq!(pixel(&b, 1, 1), 0);
    assert_eq!(pixel(&b, 2, 0), 0);
}

#[test]
fn fill_goes_through_raster_function_plane_mask_and_clip() {
    let mut b = buffer(4, 1);
    fill_rect(&mut b, rect(0, 0, 4, 1), 0x0000_00f0, &XGraphicsContextValues::default());
    let mut gc = XGraphicsContextValues::default();
    gc.function = 6;
    gc.plane_mask = 0x0000_000f;
    gc.clip_x_origin = 1;
    gc.clip_rectangles = Some(vec![rect(0, 0, 2, 1)]);
    assert!(!pixel_in_clip(0, 0, &gc));
    assert!(pixel_in_clip(2, 0, &gc));
    fill_rect(&mut b, rect(0, 0, 4, 1), 0x0000_00ff, &gc);
    assert_eq!(pixel(&b, 0, 0), 0xf0);
    assert_eq!(pixel(&b, 1, 0), 0xff);
    assert_eq!(pixel(&b, 2, 0), 0xff);
    assert_eq!(pixel(&b, 3, 0), 0xf0);
}

#[test]
fn set_pixel_ignores_points_outside() {
    let mut b = buffer(2, 2);
    let gc = XGraphicsContextValues::default();
    set_pixel(&mut b, 1, 1, 7, &gc);
    set_pixel(&mut b, -1, 0, 9, &gc);
    set_pixel(&mut b, 2, 0, 9, &gc);
    assert_eq!(pixel(&b, 1, 1), 7);
    assert_eq!(b.bytes.iter().filter(|v| **v != 0).count(), 1);
}

#[test]
fn outline_draws_bands_around_the_edges() {
    let mut b = buffer(6, 6);
    let mut gc = XGraphicsContextValues::default();
    gc.foreground = 1;
    draw_rectangle_outline(&mut b, rect(1, 1, 4, 4), 1, &gc);
    assert_eq!(pixel(&b, 1, 1), 1);
    assert_eq!(pixel(&b, 5, 5), 1);
    assert_eq!(pixel(&b, 5, 1), 1);
    assert_eq!(pixel(&b, 1, 3), 1);
    assert_eq!(pixel(&b, 2, 2), 0);
    assert_eq!(pixel(&b, 4, 4), 0);
    assert_eq!(pixel(&b, 0, 0), 0);
    let mut solid = buffer(6, 6);
    draw_rectangle_outline(&mut solid, rect(1, 1, 2, 2), 3, &gc);
    assert_eq!(pixel(&solid, 2, 2), 1);
}

#[test]
fn bounds_of_rectangles_and_points() {
    assert_eq!(rectangle_outline_bounds(&[], 1), None);
    assert_eq!(
        rectangle_outline_bounds(&[rect(0, 0, 2, 2), rect(5, -1, 1, 1)], 3),
        Some(rect(-1, -2, 9, 6))
    );
    assert_eq!(point_bounds(&[XPoint { x: 3, y: 4 }, XPoint { x: -1, y: 9 }], 0), Some(rect(-1, 4, 5, 6)));
}

#[test]
fn image_copies_into_the_drawable() {
    let mut b = buffer(3, 2);
    let data: Vec<u8> = (0u8..16).collect();
    copy_xrgb8888(&mut b, rect(1, 0, 2, 2), &data);
    assert_eq!(pixel(&b, 1, 0), u32::from_le_bytes([0, 1, 2, 3]));
    assert_eq!(pixel(&b, 2, 1), u32::from_le_bytes([12, 13, 14, 15]));
    assert_eq!(pixel(&b, 0, 0), 0);
    let mut short = buffer(3, 2);
    copy_xrgb8888(&mut short, rect(0, 0, 2, 2), &data[..15]);
    assert!(short.bytes.iter().all(|v| *v == 0));
}

#[test]
fn put_image_goes_through_the_context() {
    let mut b = buffer(2, 1);
    copy_xrgb8888(&mut b, rect(0, 0, 2, 1), &[0xf0, 0, 0, 0, 0xf0, 0, 0, 0]);
    let mut gc = XGraphicsContextValues::default();
    gc.function = 7;
    let semantics = XPutImageSemantics { format: 2, depth: 24, left_pad: 0, byte_order: XByteOrder::LittleEndian, gc };
    put_image_pixels(&mut b, rect(0, 0, 2, 1), &[0x0f, 0, 0, 0xff, 0x01, 0, 0, 0], Some(&semantics));
    assert_eq!(pixel(&b, 0, 0), 0xff);
    assert_eq!(pixel(&b, 1, 0), 0xf1);
}

#[test]
fn region_copy_clips_to_both_drawables() {
    let mut source = buffer(3, 3);
    let gc = XGraphicsContextValues::default();
    set_pixel(&mut source, 0, 0, 5, &gc);
    set_pixel(&mut source, 2, 2, 6, &gc);
    let mut destination = buffer(2, 2);
    let written = copy_buffer_region(&source, &mut destination, rect(0, 0, 3, 3), -1, -1);
    assert_eq!(written, Some(rect(0, 0, 2, 2)));
    assert_eq!(pixel(&destination, 1, 1), 6);
    assert_eq!(pixel(&destination, 0, 0), 0);
    assert_eq!(copy_buffer_region(&source, &mut destination, rect(5, 5, 1, 1), 0, 0), None);
}

#[test]
fn line_walks_from_end_to_end() {
    let mut b = buffer(4, 2);
    let mut gc = XGraphicsContextValues::default();
    gc.foreground = 9;
    draw_line(&mut b, XPoint { x: 0, y: 0 }, XPoint { x: 3, y: 1 }, 1, &gc);
    let lit: Vec<(usize, usize)> =
        (0..2).flat_map(|y| (0..4).map(move |x| (x, y))).filter(|&(x, y)| pixel(&b, x, y) == 9).collect();
    assert_eq!(lit, vec![(0, 0), (1, 0), (2, 1), (3, 1)]);
    let mut dot = buffer(3, 3);
    draw_line(&mut dot, XPoint { x: 1, y: 1 }, XPoint { x: 1, y: 1 }, 3, &gc);
    assert!((0..3).all(|y| (0..3).all(|x| pixel(&dot, x, y) == 9)));
}

#[test]
fn render_fill_blends_through_the_format() {
    let mut b = buffer(2, 1);
    copy_xrgb8888(&mut b, rect(0, 0, 2, 1), &[100, 100, 100, 0, 100, 100, 100, 0]);
    // Over with half-transparent premultiplied white, into an RGB24 picture
    // (which reads opaque): 128 + 100 * 127 / 255.
    render_fill_rect(&mut b, rect(0, 0, 2, 1), 3, [128, 128, 128, 128], &vec![rect(1, 0, 1, 1)], XRenderPictFormatKind::Rgb24);
    assert_eq!(pixel(&b, 0, 0), u32::from_le_bytes([100, 100, 100, 0]));
    assert_eq!(pixel(&b, 1, 0), u32::from_le_bytes([178, 178, 178, 0]));
}

#[test]
fn masking_to_a_shape_punches_holes() {
    let mut b = buffer(3, 1);
    copy_xrgb8888(&mut b, rect(0, 0, 3, 1), &[9, 9, 9, 0, 9, 9, 9, 0, 9, 9, 9, 0]);
    mask_rect_to_shape(&mut b, rect(0, 0, 2, 1), &vec![rect(0, 0, 1, 1)]);
    assert_eq!(pixel(&b, 0, 0), u32::from_le_bytes([9, 9, 9, 0xff]));
    assert_eq!(pixel(&b, 1, 0), 0);
    assert_eq!(pixel(&b, 2, 0), u32::from_le_bytes([9, 9, 9, 0]));
}
