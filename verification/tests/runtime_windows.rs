use sophia_x_authority::gc::XGraphicsContextValues;
use sophia_x_authority::geometry::{Rect, Size};
use sophia_x_authority::ids::{NamespaceId, SurfaceId, XResourceId};
use sophia_x_authority::resources::{XAuthorityRuntimeError, XResourceKind};
use sophia_x_authority::runtime::pointer::{XPointerPosition, XPointerQueryState};
use sophia_x_authority::runtime::glx::XGlxFbConfig;
use sophia_x_authority::runtime::shape::XShapeError;
use sophia_x_authority::runtime::{XAuthorityRuntime, XWindowGeometryUpdate, XWindowShapeState};
use sophia_x_authority::selection::{XSelectionChangeKind, XSelectionEvent};
use sophia_x_authority::window::{SurfaceConstraints, XMapState, XWindowLifecycleEvent};

fn ns(raw: u64) -> NamespaceId {
    NamespaceId { raw }
}

fn id(local: u64) -> XResourceId {
    XResourceId { local, generation: 1 }
}

fn add_window(rt: &mut XAuthorityRuntime, namespace: NamespaceId, window: XResourceId, surface: u64, geometry: Rect) {
    rt.resources.insert(window, XResourceKind::Window, namespace, 1).unwrap();
    rt.windows
        .apply(XWindowLifecycleEvent::Created {
            id: window,
            surface: SurfaceId { raw: surface },
            namespace,
            geometry,
            constraints: SurfaceConstraints { min_width: 0, min_height: 0, max_width: 0, max_height: 0 },
            generation: 1,
        })
        .unwrap();
}

fn rect(x: i32, y: i32, width: i32, height: i32) -> Rect {
    Rect { x, y, width, height }
}

/// A top-level window at (100, 50) with a child at (10, 10) inside it,
/// both mapped.
fn tree() -> XAuthorityRuntime {
    let mut rt = XAuthorityRuntime::new(Some(Size { width: 1920, height: 1080 }));
    add_window(&mut rt, ns(1), id(0x20_0001), 1, rect(100, 50, 400, 300));
    add_window(&mut rt, ns(1), id(0x20_0002), 2, rect(10, 10, 50, 50));
    rt.set_window_parent(ns(1), id(0x20_0002), id(0x20_0001)).unwrap();
    rt.map_direct_subwindows(ns(1), XResourceId::root(), 1).unwrap();
    rt.map_direct_subwindows(ns(1), id(0x20_0001), 1).unwrap();
    rt
}

#[test]
fn mapping_subwindows_maps_each_child() {
    let rt = tree();
    assert_eq!(rt.window_map_state(ns(1), id(0x20_0001)), Ok(XMapState::Viewable));
    assert_eq!(rt.window_map_state(ns(1), id(0x20_0002)), Ok(XMapState::Viewable));
}

#[test]
fn deferred_policy_maps_wait_for_the_compositor() {
    let mut rt = XAuthorityRuntime::new(None);
    rt.defer_policy_maps = true;
    add_window(&mut rt, ns(1), id(0x20_0001), 1, rect(0, 0, 10, 10));
    let surfaces = rt.map_direct_subwindows(ns(1), XResourceId::root(), 1).unwrap();
    assert_eq!(surfaces.len(), 1);
    assert_eq!(rt.window_map_state(ns(1), id(0x20_0001)), Ok(XMapState::Unmapped));
    assert_eq!(rt.window_policy_map_pending(ns(1), id(0x20_0001)), Ok(true));
    assert_eq!(
        rt.admit_window_from_engine(ns(1), id(0x20_0001), rect(5, 5, 20, 20)),
        Ok(rect(5, 5, 20, 20))
    );
    assert_eq!(rt.window_map_state(ns(1), id(0x20_0001)), Ok(XMapState::Viewable));
}

#[test]
fn absolute_position_adds_the_offsets() {
    let rt = tree();
    assert_eq!(rt.window_absolute_position(ns(1), id(0x20_0002)), Ok((110, 60)));
    assert_eq!(rt.window_root_position(id(0x20_0002)), Some((110, 60)));
    assert_eq!(rt.window_absolute_position(ns(2), id(0x20_0002)), Err(XAuthorityRuntimeError::CrossNamespaceDenied));
}

#[test]
fn policy_managed_viewable_windows_are_not_client_controlled() {
    let rt = tree();
    assert_eq!(rt.client_controls_window_geometry(ns(1), id(0x20_0001)), Ok(false));
    assert_eq!(rt.client_controls_window_geometry(ns(1), id(0x20_0002)), Ok(true));
}

#[test]
fn configure_observed_answers_the_new_surface() {
    let mut rt = tree();
    let surface = rt
        .configure_window_geometry_observed(
            ns(1),
            id(0x20_0002),
            XWindowGeometryUpdate { x: Some(20), y: None, width: None, height: Some(80), generation: 2 },
        )
        .unwrap();
    assert_eq!(surface.geometry, rect(20, 10, 50, 80));
    assert_eq!(
        rt.configure_window_geometry_observed(ns(1), id(0x20_0009), XWindowGeometryUpdate {
            x: None,
            y: None,
            width: None,
            height: None,
            generation: 2,
        }),
        Err(XAuthorityRuntimeError::UnknownResource)
    );
}

#[test]
fn pointer_query_finds_the_child_under_the_pointer() {
    let rt = tree();
    let state = XPointerQueryState {
        mask: 0x100,
        position: Some(XPointerPosition {
            surface_window: id(0x20_0001),
            surface: SurfaceId { raw: 1 },
            root_x: 125,
            root_y: 75,
            local_x: 25,
            local_y: 25,
        }),
    };
    let on_top = rt.query_pointer(ns(1), id(0x20_0001), state).unwrap();
    assert_eq!(on_top.child, id(0x20_0002));
    assert_eq!((on_top.win_x, on_top.win_y), (25, 25));
    assert_eq!((on_top.root_x, on_top.root_y, on_top.mask), (125, 75, 0x100));
    let on_root = rt.query_pointer(ns(1), XResourceId::root(), state).unwrap();
    assert_eq!(on_root.child, id(0x20_0001));
    assert_eq!((on_root.win_x, on_root.win_y), (125, 75));
    let on_child = rt.query_pointer(ns(1), id(0x20_0002), state).unwrap();
    assert_eq!(on_child.child, XResourceId::none());
    assert_eq!((on_child.win_x, on_child.win_y), (15, 15));
}

#[test]
fn pointer_outside_any_child_names_none() {
    let rt = tree();
    let state = XPointerQueryState {
        mask: 0,
        position: Some(XPointerPosition {
            surface_window: id(0x20_0001),
            surface: SurfaceId { raw: 1 },
            root_x: 400,
            root_y: 300,
            local_x: 300,
            local_y: 250,
        }),
    };
    assert_eq!(rt.query_pointer(ns(1), id(0x20_0001), state).unwrap().child, XResourceId::none());
    let nowhere = XPointerQueryState { mask: 4, position: None };
    let q = rt.query_pointer(ns(1), id(0x20_0001), nowhere).unwrap();
    assert_eq!((q.child, q.root_x, q.win_x, q.mask), (XResourceId::none(), 0, 0, 4));
    assert_eq!(rt.query_pointer(ns(2), id(0x20_0001), nowhere), Err(XAuthorityRuntimeError::CrossNamespaceDenied));
}

#[test]
fn input_shape_hides_a_window_from_the_pointer() {
    let mut rt = tree();
    rt.window_shapes.insert(id(0x20_0002), XWindowShapeState {
        bounding: None,
        clip: None,
        input: Some(vec![rect(0, 0, 5, 5)]),
    });
    assert!(rt.pointer_window_contains(ns(1), id(0x20_0002), (112, 62)));
    assert!(!rt.pointer_window_contains(ns(1), id(0x20_0002), (125, 75)));
    assert!(!rt.pointer_window_contains(ns(2), id(0x20_0002), (112, 62)));
}

#[test]
fn fontable_face_falls_back_to_a_graphics_context() {
    let mut rt = tree();
    rt.open_font(ns(1), id(0x20_0010), 1).unwrap();
    rt.create_graphics_context(ns(1), id(0x20_0011), id(0x20_0001), XGraphicsContextValues::default()).unwrap();
    let face = rt.fontable_face(ns(1), id(0x20_0011)).unwrap();
    assert_eq!((face.ascent, face.descent, face.advance), (11, 2, 6));
    assert!(rt.fontable_face(ns(1), id(0x20_0010)).is_ok());
    assert_eq!(rt.fontable_face(ns(1), id(0x20_0012)), Err(XAuthorityRuntimeError::UnknownResource));
}

#[test]
fn shape_input_selection_follows_the_window() {
    let mut rt = tree();
    assert_eq!(rt.shape_input_selected(ns(1), 7, id(0x20_0001)), Ok(false));
    rt.select_shape_input(ns(1), 7, id(0x20_0001), true).unwrap();
    assert_eq!(rt.shape_input_selected(ns(1), 7, id(0x20_0001)), Ok(true));
    assert_eq!(rt.shape_input_selected(ns(1), 8, id(0x20_0001)), Ok(false));
    assert_eq!(rt.select_shape_input(ns(2), 7, id(0x20_0001), true), Err(XShapeError::UnknownWindow));
    rt.select_shape_input(ns(1), 7, id(0x20_0001), false).unwrap();
    assert_eq!(rt.shape_input_selected(ns(1), 7, id(0x20_0001)), Ok(false));
    rt.select_shape_input(ns(1), 7, id(0x20_0002), true).unwrap();
    rt.destroy_window(ns(1), id(0x20_0002)).unwrap();
    assert!(rt.shape_selections.len() == 0);
    rt.select_shape_input(ns(1), 7, id(0x20_0001), true).unwrap();
    rt.select_shape_input(ns(1), 8, id(0x20_0001), true).unwrap();
    rt.forget_window_shapes(id(0x20_0001));
    assert_eq!(rt.shape_input_selected(ns(1), 7, id(0x20_0001)), Ok(false));
    assert_eq!(rt.shape_input_selected(ns(1), 8, id(0x20_0001)), Ok(false));
}

#[test]
fn context_depth_and_values_mask_planes_to_the_depth() {
    let mut rt = tree();
    let mut values = XGraphicsContextValues::default();
    values.foreground = 3;
    rt.create_graphics_context(ns(1), id(0x20_0011), id(0x20_0001), values).unwrap();
    let (depth, read) = rt.graphics_context_depth_and_values(ns(1), id(0x20_0011)).unwrap();
    assert_eq!((depth, read.foreground, read.plane_mask), (24, 3, 0x00ff_ffff));
    let (_, _, face) = rt.graphics_context_depth_values_and_font(ns(1), id(0x20_0011)).unwrap();
    assert_eq!(face.ascent, 11);
}

#[test]
fn destroying_an_owner_window_retires_its_selections_once() {
    let mut rt = tree();
    let event = XSelectionEvent {
        selection: 9,
        owner: Some(id(0x20_0002)),
        timestamp: 5,
        selection_timestamp: 6,
        kind: XSelectionChangeKind::SetOwner,
    };
    rt.selections.apply_event(event, &rt.windows);
    rt.destroy_window(ns(1), id(0x20_0002)).unwrap();
    let retired = rt.take_retired_selection_ownerships();
    assert_eq!(retired.len(), 1);
    assert_eq!(retired[0].previous.unwrap().owner, Some(id(0x20_0002)));
    assert_eq!(retired[0].current.owner, None);
    assert_eq!(retired[0].current.timestamp, 5);
    assert_eq!(retired[0].kind, XSelectionChangeKind::SelectionWindowDestroyed);
    assert!(rt.take_retired_selection_ownerships().is_empty());
}

#[test]
fn glx_ids_held_by_a_graphics_context_are_refused() {
    let mut rt = tree();
    rt.create_graphics_context(ns(1), id(0x20_0040), id(0x20_0001), XGraphicsContextValues::default()).unwrap();
    assert_eq!(
        rt.create_glx_context(ns(1), id(0x20_0040), 1, true),
        Err(XAuthorityRuntimeError::InvalidResource)
    );
}

fn rgba_config() -> XGlxFbConfig {
    XGlxFbConfig {
        id: 0x21,
        visual: 0x21,
        visual_depth: 24,
        red_bits: 8,
        green_bits: 8,
        blue_bits: 8,
        alpha_bits: 0,
        bind_to_texture_rgb: true,
        bind_to_texture_rgba: false,
        bind_to_mipmap_texture: false,
    }
}

#[test]
fn a_glx_pixmap_keeps_its_attributes_after_its_pixmap_is_freed() {
    let mut rt = tree();
    rt.create_pixmap(ns(1), id(0x20_0050), Size { width: 16, height: 8 }, 24, 1).unwrap();
    rt.create_glx_pixmap(ns(1), id(0x20_0051), rgba_config(), id(0x20_0050), None, None, None).unwrap();
    rt.create_glx_pixmap(ns(1), id(0x20_0052), rgba_config(), id(0x20_0050), None, None, None).unwrap();
    let before = rt.glx_pixmap_attributes(ns(1), id(0x20_0051)).unwrap();
    rt.free_pixmap(ns(1), id(0x20_0050)).unwrap();
    assert_eq!(rt.glx_pixmap_attributes(ns(1), id(0x20_0051)).unwrap(), before);
    assert_eq!(rt.retained_pixmap_backings.len(), 1);
    rt.create_pixmap(ns(1), id(0x20_0050), Size { width: 2, height: 2 }, 24, 2).unwrap();
    assert_eq!(rt.glx_pixmap_attributes(ns(1), id(0x20_0052)).unwrap().0, Size { width: 16, height: 8 });
    rt.destroy_glx_pixmap(ns(1), id(0x20_0051)).unwrap();
    assert_eq!(rt.retained_pixmap_backings.len(), 1);
    rt.destroy_glx_pixmap(ns(1), id(0x20_0052)).unwrap();
    assert_eq!(rt.retained_pixmap_backings.len(), 0);
}

#[test]
fn freeing_an_unbound_pixmap_retains_nothing() {
    let mut rt = tree();
    rt.create_pixmap(ns(1), id(0x20_0060), Size { width: 4, height: 4 }, 24, 1).unwrap();
    rt.free_pixmap(ns(1), id(0x20_0060)).unwrap();
    assert_eq!(rt.retained_pixmap_backings.len(), 0);
    assert_eq!(rt.next_render_backing, 0x1_0000_0000);
}
