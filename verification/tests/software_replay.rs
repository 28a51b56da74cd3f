use sophia_x_authority::geometry::Rect;
use sophia_x_authority::gc::XGraphicsContextValues;
use sophia_x_authority::software::replay::{
    blend_copy_pixel, ceil_edge, copy_projected_area, floor_edge, overlap_scaled, project_rect, projected_gc, replay_union, source_span,
};
use sophia_x_authority::geometry::Size;
use sophia_x_authority::ids::XResourceId;
use sophia_x_authority::software::XAuthorityCpuBufferSnapshot;

#[test]
fn edges_round_outward_at_fractional_densities() {
    assert_eq!(floor_edge(3, 1500), 4);
    assert_eq!(ceil_edge(3, 1500), 5);
    assert_eq!(floor_edge(-3, 1500), -5);
    assert_eq!(ceil_edge(-3, 1500), -4);
    assert_eq!(floor_edge(4, 1500), 6);
    assert_eq!(ceil_edge(4, 1500), 6);
    assert_eq!(floor_edge(i32::MAX, 2000), i32::MAX);
    assert_eq!(floor_edge(i32::MIN, 2000), i32::MIN);
    assert_eq!(floor_edge(7, 0), 0);
}

#[test]
fn rectangles_project_to_cover_their_scaled_extent() {
    let r = Rect { x: 1, y: 2, width: 3, height: 1 };
    assert_eq!(project_rect(r, 1000), r);
    assert_eq!(project_rect(r, 1500), Rect { x: 1, y: 3, width: 5, height: 2 });
    assert_eq!(project_rect(r, 2000), Rect { x: 2, y: 4, width: 6, height: 2 });
}

#[test]
fn overlap_is_measured_in_thousandths_of_a_pixel() {
    assert_eq!(overlap_scaled(0, 0, 1000), 1000);
    assert_eq!(overlap_scaled(1, 0, 1500), 500);
    assert_eq!(overlap_scaled(2, 0, 1500), 0);
    assert_eq!(overlap_scaled(-1, -1, 500), 500);
    assert_eq!(overlap_scaled(i32::MIN, i32::MAX, u32::MAX), 0);
}

#[test]
fn replay_union_skips_empty_sides() {
    let a = Rect { x: 0, y: 0, width: 2, height: 2 };
    let b = Rect { x: 5, y: 5, width: 1, height: 1 };
    assert_eq!(replay_union(a, b), Rect { x: 0, y: 0, width: 6, height: 6 });
    assert_eq!(replay_union(Rect { x: 9, y: 9, width: 0, height: 3 }, b), b);
    assert_eq!(replay_union(a, Rect { x: -4, y: 1, width: 3, height: -1 }), a);
}

#[test]
fn source_spans_are_held_to_the_image() {
    assert_eq!(source_span(1, 1500, 0, 10), (0, 2));
    assert_eq!(source_span(-1, 1000, 0, 10), (0, 0));
    assert_eq!(source_span(3, 0, 0, 10), (10, 10));
    assert_eq!(source_span(3, 0, 5, -3), (5, 5));
    assert_eq!(source_span(i32::MAX, 1, i32::MAX - 1, 10), (i32::MAX - 1, i32::MAX - 1));
}

#[test]
fn projected_contexts_scale_widths_and_clips() {
    let mut gc = XGraphicsContextValues::default();
    gc.foreground = 0x0012_3456;
    gc.clip_x_origin = -3;
    gc.clip_y_origin = 30000;
    gc.clip_rectangles = Some(vec![Rect { x: 1, y: 2, width: 3, height: 1 }]);
    let p = projected_gc(&gc, 1500);
    assert_eq!(p.line_width, 2);
    assert_eq!(p.clip_x_origin, -5);
    assert_eq!(p.clip_y_origin, i16::MAX);
    assert_eq!(p.clip_rectangles, Some(vec![Rect { x: 1, y: 3, width: 5, height: 2 }]));
    assert_eq!(p.foreground, 0x0012_3456);
    let same = projected_gc(&gc, 1000);
    assert_eq!(same.line_width, 1);
    assert_eq!(same.clip_x_origin, -3);
    assert_eq!(same.clip_rectangles, gc.clip_rectangles);
}

fn numbered(width: i32, height: i32) -> XAuthorityCpuBufferSnapshot {
    let mut bytes = Vec::new();
    for i in 0..(width * height) as u32 {
        bytes.extend_from_slice(&(0x0010_0000 + i).to_le_bytes());
    }
    XAuthorityCpuBufferSnapshot {
        handle: 1,
        drawable: XResourceId { local: 0x20_0001, generation: 1 },
        size: Size { width, height },
        stride: (width * 4) as u32,
        format: 0x3432_5258,
        generation: 1,
        bytes,
    }
}

fn at(b: &XAuthorityCpuBufferSnapshot, x: usize, y: usize) -> u32 {
    let o = y * b.stride as usize + x * 4;
    u32::from_le_bytes([b.bytes[o], b.bytes[o + 1], b.bytes[o + 2], b.bytes[o + 3]])
}

#[test]
fn area_copies_read_the_buffer_as_it_was() {
    let mut b = numbered(4, 4);
    copy_projected_area(&mut b, Rect { x: 0, y: 0, width: 2, height: 1 }, 2, 2, &XGraphicsContextValues::default());
    assert_eq!(at(&b, 2, 2), 0x0010_0000);
    assert_eq!(at(&b, 3, 2), 0x0010_0001);
    assert_eq!(at(&b, 1, 2), 0x0010_0009);
    let mut c = numbered(4, 4);
    copy_projected_area(&mut c, Rect { x: 0, y: 0, width: 3, height: 1 }, 1, 0, &XGraphicsContextValues::default());
    assert_eq!((at(&c, 0, 0), at(&c, 1, 0), at(&c, 2, 0), at(&c, 3, 0)), (0x0010_0000, 0x0010_0000, 0x0010_0001, 0x0010_0002));
    let mut d = numbered(4, 4);
    copy_projected_area(&mut d, Rect { x: -1, y: 3, width: 2, height: 5 }, 0, 0, &XGraphicsContextValues::default());
    assert_eq!(at(&d, 0, 0), 0x0010_0000);
    assert_eq!(at(&d, 1, 0), 0x0010_000c);
}

#[test]
fn blending_mixes_channels_in_squared_space() {
    let gc = XGraphicsContextValues::default();
    let mut b = numbered(2, 2);
    for byte in b.bytes.iter_mut() {
        *byte = 0;
    }
    blend_copy_pixel(&mut b, 0, 0, 0x00ff_ffff, 128, &gc);
    assert_eq!(at(&b, 0, 0), 0x00b4_b4b4);
    blend_copy_pixel(&mut b, 1, 0, 0x0012_3456, 255, &gc);
    assert_eq!(at(&b, 1, 0), 0x0012_3456);
    blend_copy_pixel(&mut b, 1, 0, 0x00ff_ffff, 0, &gc);
    assert_eq!(at(&b, 1, 0), 0x0012_3456);
    let before = b.bytes.clone();
    blend_copy_pixel(&mut b, -1, 0, 0x00ff_ffff, 255, &gc);
    blend_copy_pixel(&mut b, 0, 2, 0x00ff_ffff, 255, &gc);
    assert_eq!(b.bytes, before);
}
