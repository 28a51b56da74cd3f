use sophia_x_authority::geometry::{Rect, Region, Size};
use sophia_x_authority::ids::{NamespaceId, SurfaceId, XResourceId};
use sophia_x_authority::resources::{XAuthorityRuntimeError, XResourceKind};
use sophia_x_authority::runtime::XAuthorityRuntime;
use sophia_x_authority::runtime::present::XPresentSource;
use sophia_x_authority::window::{SurfaceConstraints, XWindowLifecycleEvent};

fn ns(raw: u64) -> NamespaceId {
    NamespaceId { raw }
}

fn id(local: u64) -> XResourceId {
    XResourceId { local, generation: 1 }
}

fn rect(x: i32, y: i32, width: i32, height: i32) -> Rect {
    Rect { x, y, width, height }
}

fn add_window(rt: &mut XAuthorityRuntime, window: XResourceId, surface: u64, geometry: Rect, generation: u64) {
    rt.resources.insert(window, XResourceKind::Window, ns(1), 1).unwrap();
    rt.windows
        .apply(XWindowLifecycleEvent::Created {
            id: window,
            surface: SurfaceId { raw: surface },
            namespace: ns(1),
            geometry,
            constraints: SurfaceConstraints { min_width: 0, min_height: 0, max_width: 0, max_height: 0 },
            generation,
        })
        .unwrap();
}

const TOP: u64 = 0x20_0001;
const CHILD: u64 = 0x20_0002;
const PIXMAP: u64 = 0x20_0010;

/// A top-level window with a child at (10, 20) inside it, and a 64x32
/// pixmap.
fn runtime() -> XAuthorityRuntime {
    let mut rt = XAuthorityRuntime::new(Some(Size { width: 1920, height: 1080 }));
    add_window(&mut rt, id(TOP), 1, rect(100, 50, 400, 300), 3);
    add_window(&mut rt, id(CHILD), 2, rect(10, 20, 50, 40), 1);
    rt.set_window_parent(ns(1), id(CHILD), id(TOP)).unwrap();
    rt.create_pixmap(ns(1), id(PIXMAP), Size { width: 64, height: 32 }, 24, 1).unwrap();
    rt
}

#[test]
fn present_to_a_child_lands_in_its_top_level() {
    let rt = runtime();
    let plan = rt
        .plan_standard_present(ns(1), id(CHILD), id(PIXMAP), 2, 3, None, Some(Region { rects: vec![rect(60, 30, 10, 10)] }), None)
        .unwrap();
    assert_eq!(plan.target_window, id(TOP));
    assert_eq!(plan.target_generation, 3);
    assert_eq!(plan.target_size, Size { width: 400, height: 300 });
    assert_eq!(plan.drawing_extent, Size { width: 50, height: 40 });
    assert_eq!(plan.pixmap_size, Size { width: 64, height: 32 });
    assert_eq!(plan.source_damage, vec![rect(60, 30, 4, 2)]);
    assert_eq!(plan.damage, vec![rect(72, 53, 4, 2)]);
    assert_eq!((plan.destination_x, plan.destination_y), (12, 23));
    assert_eq!(plan.source, XPresentSource::Cpu);
}

#[test]
fn present_without_update_region_damages_the_whole_pixmap() {
    let rt = runtime();
    let plan = rt.plan_standard_present(ns(1), id(TOP), id(PIXMAP), 0, 0, None, None, Some(77)).unwrap();
    assert_eq!(plan.target_window, id(TOP));
    assert_eq!(plan.source_damage, vec![rect(0, 0, 64, 32)]);
    assert_eq!(plan.damage, vec![rect(0, 0, 64, 32)]);
    assert_eq!(plan.source, XPresentSource::DmaBuf { handle: 77 });
}

#[test]
fn present_refusals_follow_the_check_order() {
    let rt = runtime();
    assert_eq!(
        rt.plan_standard_present(ns(2), id(TOP), id(PIXMAP), 0, 0, None, None, None).err(),
        Some(XAuthorityRuntimeError::UnknownResource)
    );
    assert_eq!(
        rt.plan_standard_present(ns(1), id(TOP), id(0x20_0099), 0, 0, None, None, None).err(),
        Some(XAuthorityRuntimeError::UnknownResource)
    );
    assert_eq!(
        rt.plan_standard_present(ns(1), id(TOP), id(CHILD), 0, 0, None, None, None).err(),
        Some(XAuthorityRuntimeError::WrongResourceKind)
    );
    let too_many = Region { rects: vec![rect(0, 0, 1, 1); 2049] };
    assert_eq!(
        rt.plan_standard_present(ns(1), id(TOP), id(PIXMAP), 0, 0, Some(too_many.clone()), None, None).err(),
        Some(XAuthorityRuntimeError::InvalidResource)
    );
    assert_eq!(
        rt.plan_standard_present(ns(1), id(TOP), id(PIXMAP), 0, 0, None, Some(too_many), None).err(),
        Some(XAuthorityRuntimeError::InvalidResource)
    );
    let at_bound = Region { rects: vec![rect(0, 0, 1, 1); 2048] };
    assert!(rt.plan_standard_present(ns(1), id(TOP), id(PIXMAP), 0, 0, Some(at_bound), None, None).is_ok());
}

#[test]
fn present_damage_outside_the_pixmap_names_nothing() {
    let rt = runtime();
    let plan = rt
        .plan_standard_present(ns(1), id(TOP), id(PIXMAP), 0, 0, None, Some(Region { rects: vec![rect(100, 100, 5, 5)] }), None)
        .unwrap();
    assert!(plan.source_damage.is_empty());
    assert!(plan.damage.is_empty());
}

#[test]
fn present_of_a_shm_pixmap_copies_rows_of_its_width() {
    let mut rt = runtime();
    rt.attach_shm_segment(ns(1), id(0x20_0020), 55, false, 1).unwrap();
    rt.create_shm_pixmap(ns(1), id(0x20_0021), Size { width: 10, height: 10 }, 24, 1, id(0x20_0020), 0, 400).unwrap();
    let plan = rt.plan_standard_present(ns(1), id(TOP), id(0x20_0021), 0, 0, None, None, None).unwrap();
    assert_eq!(plan.source, XPresentSource::Shm { stride: 40 });
}

#[test]
fn present_source_damage_is_clipped_into_the_pixmap() {
    let rt = runtime();
    let plan = rt
        .plan_standard_present(
            ns(1),
            id(TOP),
            id(PIXMAP),
            0,
            0,
            None,
            Some(Region { rects: vec![rect(-5, -5, 10, 10), rect(60, 0, 10, 40), rect(10, 10, 0, 5)] }),
            None,
        )
        .unwrap();
    assert_eq!(plan.source_damage, vec![rect(0, 0, 5, 5), rect(60, 0, 4, 32)]);
}
