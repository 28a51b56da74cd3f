use sophia_x_authority::gc::XGraphicsContextValues;
use sophia_x_authority::geometry::{Rect, Region, Size};
use sophia_x_authority::ids::{NamespaceId, SurfaceId, TransactionId, XResourceId};
use sophia_x_authority::resources::{XAuthorityRuntimeError, XResourceKind};
use sophia_x_authority::runtime::XAuthorityRuntime;
use sophia_x_authority::runtime::core_draw::line_damage;
use sophia_x_authority::software::XPoint;
use sophia_x_authority::window::{SurfaceConstraints, XWindowLifecycleEvent};

fn ns(raw: u64) -> NamespaceId {
    NamespaceId { raw }
}

fn id(local: u64) -> XResourceId {
    XResourceId { local, generation: 1 }
}

fn tx(raw: u64) -> TransactionId {
    TransactionId { raw }
}

fn rect(x: i32, y: i32, width: i32, height: i32) -> Rect {
    Rect { x, y, width, height }
}

fn with_window(geometry: Rect) -> XAuthorityRuntime {
    let mut rt = XAuthorityRuntime::new(Some(Size { width: 1920, height: 1080 }));
    rt.resources.insert(id(0x20_0001), XResourceKind::Window, ns(1), 1).unwrap();
    rt.windows
        .apply(XWindowLifecycleEvent::Created {
            id: id(0x20_0001),
            surface: SurfaceId { raw: 1 },
            namespace: ns(1),
            geometry,
            constraints: SurfaceConstraints { min_width: 0, min_height: 0, max_width: 0, max_height: 0 },
            generation: 7,
        })
        .unwrap();
    rt
}

fn pixel(rt: &XAuthorityRuntime, drawable: XResourceId, x: usize, y: usize) -> u32 {
    let b = rt.software_buffers.buffers.get(&drawable).unwrap();
    let o = y * b.stride as usize + x * 4;
    u32::from_le_bytes([b.bytes[o], b.bytes[o + 1], b.bytes[o + 2], b.bytes[o + 3]])
}

#[test]
fn drawing_on_an_unknown_window_is_refused() {
    let mut rt = with_window(rect(0, 0, 8, 8));
    let r = rt.apply_clear_with_pixel(tx(1), ns(1), id(0x20_0009), Region { rects: vec![rect(0, 0, 2, 2)] }, 5);
    assert_eq!(r.err(), Some(XAuthorityRuntimeError::UnknownResource));
    assert!(!rt.software_buffers.has_cpu_backing(id(0x20_0009)));
}

#[test]
fn clear_fills_the_first_rectangle_and_reports_all_damage() {
    let mut rt = with_window(rect(3, 4, 8, 8));
    let damage = vec![rect(1, 1, 2, 2), rect(6, 6, 1, 1)];
    let update = rt
        .apply_clear_with_pixel(tx(9), ns(1), id(0x20_0001), Region { rects: damage.clone() }, 0x00ab_cdef)
        .unwrap()
        .unwrap();
    assert_eq!(update.transaction, tx(9));
    assert_eq!(update.namespace, ns(1));
    assert_eq!(update.window, id(0x20_0001));
    assert_eq!(update.handle, 1);
    assert_eq!(update.window_generation, 7);
    assert_eq!(update.damage, damage);
    assert_eq!(pixel(&rt, id(0x20_0001), 1, 1), 0x00ab_cdef);
    assert_eq!(pixel(&rt, id(0x20_0001), 2, 2), 0x00ab_cdef);
    assert_eq!(pixel(&rt, id(0x20_0001), 6, 6), 0);
    assert_eq!(rt.software_buffers.buffers.get(&id(0x20_0001)).unwrap().size, Size { width: 8, height: 8 });
}

#[test]
fn clear_without_damage_presents_nothing() {
    let mut rt = with_window(rect(0, 0, 8, 8));
    let r = rt.apply_clear(tx(1), ns(1), id(0x20_0001), Region { rects: Vec::new() });
    assert!(matches!(r, Ok(None)));
    assert!(!rt.software_buffers.has_cpu_backing(id(0x20_0001)));
}

#[test]
fn clear_outside_a_kept_buffer_is_refused() {
    let mut rt = with_window(rect(0, 0, 8, 8));
    rt.apply_clear(tx(1), ns(1), id(0x20_0001), Region { rects: vec![rect(0, 0, 1, 1)] }).unwrap();
    let r = rt.apply_clear(tx(2), ns(1), id(0x20_0001), Region { rects: vec![rect(20, 20, 1, 1)] });
    assert_eq!(r.err(), Some(XAuthorityRuntimeError::InvalidResource));
}

#[test]
fn clear_on_an_empty_window_is_refused() {
    let mut rt = with_window(rect(0, 0, 0, 8));
    let r = rt.apply_clear(tx(1), ns(1), id(0x20_0001), Region { rects: vec![rect(0, 0, 1, 1)] });
    assert_eq!(r.err(), Some(XAuthorityRuntimeError::InvalidResource));
}

#[test]
fn core_draw_fills_damage_with_the_foreground() {
    let mut rt = with_window(rect(0, 0, 8, 8));
    let mut gc = XGraphicsContextValues::default();
    gc.foreground = 0x0012_3456;
    let update = rt
        .apply_core_draw_with_gc(tx(3), ns(1), id(0x20_0001), Region { rects: vec![rect(0, 0, 2, 1), rect(5, 5, 1, 1)] }, &gc)
        .unwrap()
        .unwrap();
    assert_eq!(update.damage, vec![rect(0, 0, 2, 1), rect(5, 5, 1, 1)]);
    assert_eq!(pixel(&rt, id(0x20_0001), 1, 0), 0x0012_3456);
    assert_eq!(pixel(&rt, id(0x20_0001), 5, 5), 0x0012_3456);
    assert_eq!(pixel(&rt, id(0x20_0001), 3, 3), 0);
    let second = rt.apply_core_draw(tx(4), ns(1), id(0x20_0001), Region { rects: vec![rect(5, 5, 1, 1)] }).unwrap().unwrap();
    assert_eq!(second.handle, 2);
    assert_eq!(pixel(&rt, id(0x20_0001), 5, 5), 0);
}

#[test]
fn line_damage_spans_the_points_widened_by_the_line() {
    let points = [XPoint { x: 4, y: -2 }, XPoint { x: -3, y: 7 }, XPoint { x: 1, y: 1 }];
    assert_eq!(line_damage(&points, 0), rect(-3, -2, 8, 10));
    assert_eq!(line_damage(&points, 3), rect(-3, -2, 10, 12));
    assert_eq!(line_damage(&[XPoint { x: i16::MIN, y: 0 }, XPoint { x: i16::MAX, y: 0 }], 2), rect(-32768, 0, 65537, 2));
}

#[test]
fn line_draw_reports_the_point_span() {
    let mut rt = with_window(rect(0, 0, 16, 16));
    let mut gc = XGraphicsContextValues::default();
    gc.foreground = 0x00ff_0000;
    let points = [XPoint { x: 2, y: 3 }, XPoint { x: 9, y: 3 }];
    let update = rt.apply_line_draw(tx(5), ns(1), id(0x20_0001), &points, &gc).unwrap().unwrap();
    assert_eq!(update.damage, vec![rect(2, 3, 8, 1)]);
    assert_eq!(update.window_generation, 7);
    assert_eq!(pixel(&rt, id(0x20_0001), 5, 3), 0x00ff_0000);
    assert_eq!(pixel(&rt, id(0x20_0001), 5, 4), 0);
}

#[test]
fn line_draw_without_points_presents_nothing() {
    let mut rt = with_window(rect(0, 0, 16, 16));
    let r = rt.apply_line_draw(tx(5), ns(1), id(0x20_0001), &[], &XGraphicsContextValues::default());
    assert!(matches!(r, Ok(None)));
    assert!(!rt.software_buffers.has_cpu_backing(id(0x20_0001)));
}

#[test]
fn rectangle_draw_reports_the_outline_box() {
    let mut rt = with_window(rect(0, 0, 16, 16));
    let mut gc = XGraphicsContextValues::default();
    gc.foreground = 0x0000_ff00;
    let update = rt
        .apply_rectangle_draw(tx(6), ns(1), id(0x20_0001), &[rect(2, 2, 4, 4)], &gc)
        .unwrap()
        .unwrap();
    assert_eq!(update.damage.len(), 1);
    assert_eq!(pixel(&rt, id(0x20_0001), 2, 2), 0x0000_ff00);
    assert_eq!(pixel(&rt, id(0x20_0001), 4, 4), 0);
    let none = rt.apply_rectangle_draw(tx(7), ns(1), id(0x20_0001), &[], &gc);
    assert!(matches!(none, Ok(None)));
}

#[test]
fn drawing_one_window_leaves_another_windows_pixels() {
    let mut rt = with_window(rect(0, 0, 8, 8));
    rt.resources.insert(id(0x20_0002), XResourceKind::Window, ns(1), 1).unwrap();
    rt.windows
        .apply(XWindowLifecycleEvent::Created {
            id: id(0x20_0002),
            surface: SurfaceId { raw: 2 },
            namespace: ns(1),
            geometry: rect(0, 0, 4, 4),
            constraints: SurfaceConstraints { min_width: 0, min_height: 0, max_width: 0, max_height: 0 },
            generation: 1,
        })
        .unwrap();
    rt.apply_clear_with_pixel(tx(1), ns(1), id(0x20_0002), Region { rects: vec![rect(0, 0, 4, 4)] }, 0x0011_2233).unwrap();
    let before = rt.software_buffers.buffers.get(&id(0x20_0002)).unwrap().bytes.clone();
    rt.apply_clear_with_pixel(tx(2), ns(1), id(0x20_0001), Region { rects: vec![rect(0, 0, 8, 8)] }, 0x0044_5566).unwrap();
    assert_eq!(rt.software_buffers.buffers.get(&id(0x20_0002)).unwrap().bytes, before);
    assert_eq!(pixel(&rt, id(0x20_0002), 3, 3), 0x0011_2233);
    assert_eq!(pixel(&rt, id(0x20_0001), 7, 7), 0x0044_5566);
}
