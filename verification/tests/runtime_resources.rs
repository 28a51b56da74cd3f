use sophia_x_authority::geometry::{Rect, Region, Size};
use sophia_x_authority::ids::{NamespaceId, SurfaceId, XResourceId};
use sophia_x_authority::resources::{XAuthorityRuntimeError, XResourceKind};
use sophia_x_authority::runtime::XAuthorityRuntime;
use sophia_x_authority::runtime::devices::{DRM_FORMAT_ARGB8888, DRM_FORMAT_XRGB8888};
use sophia_x_authority::runtime::resources::{
    X_AUTHORITY_SOFTWARE_BUFFER_MAX_BYTES, clipped_present_rect, dri3_depth_of, pixmap_depth_supported,
    present_source_damage, software_pixmap_byte_len, translated_present_damage,
};
use sophia_x_authority::window::{SurfaceConstraints, XMapState, XWindowLifecycleEvent};
use sophia_x_authority::wire::XWireClientResourceRange;

fn ns(raw: u64) -> NamespaceId {
    NamespaceId { raw }
}

fn id(local: u64) -> XResourceId {
    XResourceId { local, generation: 1 }
}

fn size(width: i32, height: i32) -> Size {
    Size { width, height }
}

fn runtime() -> XAuthorityRuntime {
    XAuthorityRuntime::new(Some(size(1920, 1080)))
}

fn add_window(rt: &mut XAuthorityRuntime, namespace: NamespaceId, window: XResourceId, surface: u64) {
    rt.resources.insert(window, XResourceKind::Window, namespace, 1).unwrap();
    rt.windows
        .apply(XWindowLifecycleEvent::Created {
            id: window,
            surface: SurfaceId { raw: surface },
            namespace,
            geometry: Rect { x: 10, y: 20, width: 300, height: 200 },
            constraints: SurfaceConstraints { min_width: 0, min_height: 0, max_width: 0, max_height: 0 },
            generation: 1,
        })
        .unwrap();
}

#[test]
fn created_pixmap_reads_back_its_geometry() {
    let mut rt = runtime();
    rt.create_pixmap(ns(1), id(0x20_0001), size(64, 32), 24, 1).unwrap();
    assert_eq!(rt.pixmap_geometry(ns(1), id(0x20_0001)), Ok((size(64, 32), 24)));
    assert_eq!(rt.pixmap_size(ns(1), id(0x20_0001)), Ok(size(64, 32)));
    assert_eq!(rt.pixmap_depth(ns(1), id(0x20_0001)), Ok(24));
    assert_eq!(rt.resource_count(), 1);
}

#[test]
fn pixmap_errors() {
    let mut rt = runtime();
    assert_eq!(
        rt.create_pixmap(ns(1), id(0x20_0001), size(0, 32), 24, 1),
        Err(XAuthorityRuntimeError::InvalidResource)
    );
    assert_eq!(
        rt.create_pixmap(ns(1), id(0x20_0001), size(8, 8), 7, 1),
        Err(XAuthorityRuntimeError::InvalidResource)
    );
    assert_eq!(
        rt.create_pixmap(ns(0), id(0x20_0001), size(8, 8), 24, 1),
        Err(XAuthorityRuntimeError::InvalidNamespace)
    );
    rt.create_pixmap(ns(1), id(0x20_0001), size(8, 8), 24, 1).unwrap();
    assert_eq!(
        rt.create_pixmap(ns(2), id(0x20_0001), size(8, 8), 24, 1),
        Err(XAuthorityRuntimeError::DuplicateResource)
    );
    assert_eq!(
        rt.validate_pixmap_access(ns(2), id(0x20_0001)),
        Err(XAuthorityRuntimeError::CrossNamespaceDenied)
    );
    assert_eq!(rt.validate_font_access(ns(1), id(0x20_0001)), Err(XAuthorityRuntimeError::WrongResourceKind));
}

#[test]
fn freed_pixmap_is_unknown() {
    let mut rt = runtime();
    rt.create_pixmap(ns(1), id(0x20_0001), size(8, 8), 24, 1).unwrap();
    rt.free_pixmap(ns(1), id(0x20_0001)).unwrap();
    assert_eq!(rt.validate_pixmap_access(ns(1), id(0x20_0001)), Err(XAuthorityRuntimeError::UnknownResource));
    assert_eq!(rt.free_pixmap(ns(1), id(0x20_0001)), Err(XAuthorityRuntimeError::UnknownResource));
}

#[test]
fn pixmap_depths_and_software_sizes() {
    for depth in [1u8, 4, 8, 15, 16, 24, 32] {
        assert!(pixmap_depth_supported(depth));
    }
    assert!(!pixmap_depth_supported(2));
    assert_eq!(software_pixmap_byte_len(size(10, 3)), Some(120));
    assert_eq!(software_pixmap_byte_len(size(-1, 3)), None);
    assert_eq!(software_pixmap_byte_len(size(4096, 4096)), Some(X_AUTHORITY_SOFTWARE_BUFFER_MAX_BYTES));
    assert_eq!(software_pixmap_byte_len(size(4096, 4097)), None);
}

#[test]
fn shm_pixmap_must_fit_its_segment() {
    let mut rt = runtime();
    rt.attach_shm_segment(ns(1), id(0x20_0002), 55, false, 1).unwrap();
    assert_eq!(
        rt.create_shm_pixmap(ns(1), id(0x20_0003), size(10, 10), 24, 1, id(0x20_0002), 0, 399),
        Err(XAuthorityRuntimeError::InvalidResource)
    );
    rt.create_shm_pixmap(ns(1), id(0x20_0003), size(10, 10), 24, 1, id(0x20_0002), 0, 400).unwrap();
    assert_eq!(rt.pixmap_size(ns(1), id(0x20_0003)), Ok(size(10, 10)));
    assert_eq!(rt.shm_segment_is_read_only(ns(1), id(0x20_0002)), Ok(false));
}

#[test]
fn region_reads_back_what_was_set() {
    let mut rt = runtime();
    let first = vec![Rect { x: 0, y: 0, width: 5, height: 5 }];
    rt.create_xfixes_region(ns(1), id(0x20_0004), first, 1).unwrap();
    let second = vec![Rect { x: 1, y: 2, width: 3, height: 4 }, Rect { x: 9, y: 9, width: 1, height: 1 }];
    rt.set_xfixes_region(ns(1), id(0x20_0004), second.clone()).unwrap();
    assert_eq!(rt.xfixes_region_snapshot(ns(1), id(0x20_0004)).unwrap().rects, second);
    rt.destroy_xfixes_region(ns(1), id(0x20_0004)).unwrap();
    assert_eq!(
        rt.validate_xfixes_region_access(ns(1), id(0x20_0004)),
        Err(XAuthorityRuntimeError::UnknownResource)
    );
}

#[test]
fn fences_take_increasing_handles() {
    let mut rt = runtime();
    let a = rt.create_dri3_fence(ns(1), id(0x20_0005), 1).unwrap();
    let b = rt.create_dri3_fence(ns(1), id(0x20_0006), 1).unwrap();
    assert_eq!(a, 1);
    assert_eq!(b, 2);
    assert_eq!(rt.dri3_fence_handle(ns(1), id(0x20_0006)), Ok(2));
    assert_eq!(rt.destroy_dri3_fence(ns(1), id(0x20_0005)), Ok(1));
}

#[test]
fn fonts_keep_their_face() {
    let mut rt = runtime();
    rt.open_font(ns(1), id(0x20_0007), 1).unwrap();
    let face = rt.font_face(ns(1), id(0x20_0007)).unwrap();
    assert_eq!((face.ascent, face.descent, face.advance), (11, 2, 6));
    rt.close_font(ns(1), id(0x20_0007)).unwrap();
    assert_eq!(rt.validate_font_access(ns(1), id(0x20_0007)), Err(XAuthorityRuntimeError::UnknownResource));
}

#[test]
fn cursors_are_namespace_owned() {
    let mut rt = runtime();
    rt.create_cursor(ns(1), id(0x20_0008), 1).unwrap();
    assert_eq!(rt.validate_cursor_access(ns(2), id(0x20_0008)), Err(XAuthorityRuntimeError::CrossNamespaceDenied));
    rt.free_cursor(ns(1), id(0x20_0008)).unwrap();
}

#[test]
fn window_attributes_read_back() {
    let mut rt = runtime();
    add_window(&mut rt, ns(1), id(0x20_0010), 5);
    assert_eq!(rt.window_map_state(ns(1), id(0x20_0010)), Ok(XMapState::Unmapped));
    rt.set_window_override_redirect(ns(1), id(0x20_0010), true).unwrap();
    assert_eq!(rt.window_override_redirect(ns(1), id(0x20_0010)), Ok(true));
    rt.set_window_background_pixel(ns(1), id(0x20_0010), 0x00ff_00ff).unwrap();
    assert_eq!(rt.window_background_pixel(ns(1), id(0x20_0010)), Ok(0x00ff_00ff));
    assert_eq!(
        rt.window_geometry(ns(1), id(0x20_0010)),
        Ok(Rect { x: 10, y: 20, width: 300, height: 200 })
    );
    assert_eq!(rt.window_override_redirect(ns(2), id(0x20_0010)), Err(XAuthorityRuntimeError::CrossNamespaceDenied));
}

#[test]
fn window_visual_defaults_and_reads_back() {
    let mut rt = runtime();
    assert_eq!(rt.window_visual(id(0x20_0011)), (24, 0x21, id(0x101)));
    rt.set_window_visual(id(0x20_0011), 32, 0x22, id(0x20_0012));
    assert_eq!(rt.window_visual(id(0x20_0011)), (32, 0x22, id(0x20_0012)));
}

#[test]
fn destroy_window_releases_it() {
    let mut rt = runtime();
    add_window(&mut rt, ns(1), id(0x20_0013), 6);
    assert_eq!(rt.destroy_window(ns(1), id(0x20_0013)), Ok(SurfaceId { raw: 6 }));
    assert_eq!(rt.window_count(), 0);
    assert_eq!(rt.validate_window_access(ns(1), id(0x20_0013)), Err(XAuthorityRuntimeError::UnknownResource));
}

#[test]
fn release_leaves_nothing_of_the_client_range() {
    let mut rt = runtime();
    let range = XWireClientResourceRange { base: 0x0020_0000, mask: 0x001f_ffff };
    add_window(&mut rt, ns(1), id(0x20_0020), 7);
    rt.create_pixmap(ns(1), id(0x20_0021), size(4, 4), 24, 1).unwrap();
    rt.open_font(ns(1), id(0x20_0022), 1).unwrap();
    rt.create_pixmap(ns(2), id(0x40_0001), size(4, 4), 24, 1).unwrap();
    let release = rt.release_client_resource_range(ns(1), range).unwrap();
    assert_eq!(release.released_pixmaps, 1);
    assert_eq!(release.released_fonts, 1);
    assert_eq!(release.destroyed_windows, vec![id(0x20_0020)]);
    assert_eq!(release.removed_surfaces, vec![SurfaceId { raw: 7 }]);
    assert_eq!(release.released_cursors, 0);
    assert_eq!(release.released_colormaps, 0);
    assert_eq!(rt.window_count(), 0);
    assert_eq!(rt.validate_pixmap_access(ns(1), id(0x20_0021)), Err(XAuthorityRuntimeError::UnknownResource));
    assert_eq!(rt.pixmap_depth(ns(2), id(0x40_0001)), Ok(24));
}

#[test]
fn drawable_facts_of_root_and_window() {
    let mut rt = runtime();
    let root = rt.drawable_facts(ns(1), id(0x100)).unwrap();
    assert_eq!((root.geometry.width, root.geometry.height, root.depth), (1920, 1080, 24));
    add_window(&mut rt, ns(1), id(0x20_0030), 8);
    let facts = rt.drawable_facts(ns(1), id(0x20_0030)).unwrap();
    assert_eq!((facts.geometry.width, facts.depth), (300, 24));
}

#[test]
fn dri3_backing_request_for_a_window() {
    let mut rt = runtime();
    add_window(&mut rt, ns(1), id(0x20_0031), 9);
    let request = rt.dri3_pixmap_backing_request(ns(1), id(0x20_0031), false).unwrap();
    assert_eq!((request.size.width, request.size.height, request.depth, request.handle), (300, 200, 24, 1));
    assert_eq!(rt.dri3_pixmap_backing_request(ns(1), id(0x20_0031), true), None);
    assert_eq!(rt.dri3_pixmap_backing_request(ns(1), id(0x100), false), None);
    assert_eq!(rt.dri3_pixmap_backing_request(ns(2), id(0x20_0031), false), None);
    rt.software_buffers.ensure_image_backing(id(0x20_0031), size(300, 200)).unwrap();
    assert_eq!(rt.dri3_pixmap_backing_request(ns(1), id(0x20_0031), false), None);
}

#[test]
fn present_helpers_clip_translate_and_report_depths() {
    assert_eq!(dri3_depth_of(DRM_FORMAT_ARGB8888), 32);
    assert_eq!(dri3_depth_of(DRM_FORMAT_XRGB8888), 24);
    let size = Size { width: 10, height: 5 };
    assert_eq!(
        clipped_present_rect(size, Rect { x: -2, y: 3, width: 5, height: 10 }),
        Some(Rect { x: 0, y: 3, width: 3, height: 2 })
    );
    assert_eq!(clipped_present_rect(size, Rect { x: 10, y: 0, width: 5, height: 5 }), None);
    assert_eq!(clipped_present_rect(size, Rect { x: 1, y: 1, width: -3, height: 2 }), None);
    assert_eq!(
        clipped_present_rect(size, Rect { x: i32::MAX - 1, y: 0, width: 10, height: 1 }),
        None
    );
    assert_eq!(present_source_damage(size, None), Some(vec![Rect { x: 0, y: 0, width: 10, height: 5 }]));
    let region = Region { rects: vec![Rect { x: 8, y: 4, width: 4, height: 4 }, Rect { x: 20, y: 0, width: 1, height: 1 }] };
    assert_eq!(present_source_damage(size, Some(&region)), Some(vec![Rect { x: 8, y: 4, width: 2, height: 1 }]));
    let many = Region { rects: vec![Rect { x: 0, y: 0, width: 1, height: 1 }; 2049] };
    assert_eq!(present_source_damage(size, Some(&many)), None);
    let moved = translated_present_damage(&[Rect { x: 1, y: 2, width: 3, height: 4 }, Rect { x: i32::MAX, y: i32::MIN, width: 1, height: 1 }], 5, -6);
    assert_eq!(moved.rects, vec![Rect { x: 6, y: -4, width: 3, height: 4 }, Rect { x: i32::MAX, y: i32::MIN, width: 1, height: 1 }]);
}
