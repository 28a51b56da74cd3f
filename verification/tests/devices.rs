use sophia_x_authority::geometry::Rect;
use sophia_x_authority::ids::{NamespaceId, SurfaceId, XResourceId};
use sophia_x_authority::resources::XResourceKind;
use sophia_x_authority::table::XTable;
use sophia_x_authority::window::{SurfaceConstraints, XWindowLifecycleEvent};
use sophia_x_authority::runtime::devices::{DRM_FORMAT_ARGB8888, DRM_FORMAT_XRGB8888};
use sophia_x_authority::runtime::{
    XAuthorityRuntime, XDeviceBundle, XDmaBufImportFormat, XDrmDeviceHint, XRenderDeviceIdentity,
    XWindowAllocationPreference, XWindowAllocationPreferences, XWindowAllocationUpdate,
};

/// The device number `makedev(226, 128)` packs.
const RENDER_NODE: u64 = 0xe280;

fn preference(surface: u64, major: u32, minor: u32) -> XWindowAllocationPreference {
    XWindowAllocationPreference {
        surface: SurfaceId { raw: surface },
        device: XDrmDeviceHint { major, minor },
        identity: Some(XRenderDeviceIdentity { device_number: RENDER_NODE }),
        formats: vec![XDmaBufImportFormat { format: DRM_FORMAT_XRGB8888, modifiers: vec![7, 0, 7] }],
    }
}

fn snapshot(generation: u64, windows: Vec<XWindowAllocationPreference>) -> XWindowAllocationPreferences {
    XWindowAllocationPreferences { generation, topology_generation: 0, windows }
}

#[test]
fn identity_must_name_the_hinted_device() {
    let mut rt = XAuthorityRuntime::new(None);
    assert_eq!(
        rt.update_window_allocation_preferences(snapshot(1, vec![preference(1, 226, 129)])),
        XWindowAllocationUpdate::Invalid
    );
    assert_eq!(
        rt.update_window_allocation_preferences(snapshot(1, vec![preference(1, 226, 128)])),
        XWindowAllocationUpdate::Applied
    );
}

#[test]
fn older_or_foreign_snapshots_are_stale() {
    let mut rt = XAuthorityRuntime::new(None);
    assert_eq!(
        rt.update_window_allocation_preferences(snapshot(2, vec![preference(1, 226, 128)])),
        XWindowAllocationUpdate::Applied
    );
    assert_eq!(
        rt.update_window_allocation_preferences(snapshot(2, vec![])),
        XWindowAllocationUpdate::Stale
    );
    let foreign = XWindowAllocationPreferences { generation: 3, topology_generation: 9, windows: vec![] };
    assert_eq!(rt.update_window_allocation_preferences(foreign), XWindowAllocationUpdate::Stale);
}

#[test]
fn a_surface_named_twice_or_a_bad_row_is_invalid() {
    let mut rt = XAuthorityRuntime::new(None);
    assert_eq!(
        rt.update_window_allocation_preferences(snapshot(1, vec![preference(1, 226, 128), preference(1, 226, 128)])),
        XWindowAllocationUpdate::Invalid
    );
    let mut bad = preference(2, 226, 128);
    bad.formats = vec![XDmaBufImportFormat { format: 1, modifiers: vec![] }];
    assert_eq!(rt.update_window_allocation_preferences(snapshot(1, vec![bad])), XWindowAllocationUpdate::Invalid);
    let mut doubled = preference(3, 226, 128);
    doubled.formats.push(XDmaBufImportFormat { format: DRM_FORMAT_XRGB8888, modifiers: vec![] });
    assert_eq!(rt.update_window_allocation_preferences(snapshot(1, vec![doubled])), XWindowAllocationUpdate::Invalid);
    let mut fine = preference(4, 226, 128);
    fine.formats.push(XDmaBufImportFormat { format: DRM_FORMAT_ARGB8888, modifiers: vec![] });
    assert_eq!(rt.update_window_allocation_preferences(snapshot(1, vec![fine])), XWindowAllocationUpdate::Applied);
}

#[test]
fn allocation_modifiers_come_out_ascending_and_screen_filtered() {
    let mut rt = XAuthorityRuntime::new(None);
    let ns = NamespaceId { raw: 1 };
    let window = XResourceId { local: 0x20_0001, generation: 1 };
    rt.resources.insert(window, XResourceKind::Window, ns, 1).unwrap();
    rt.windows
        .apply(XWindowLifecycleEvent::Created {
            id: window,
            surface: SurfaceId { raw: 1 },
            namespace: ns,
            geometry: Rect { x: 0, y: 0, width: 10, height: 10 },
            constraints: SurfaceConstraints { min_width: 0, min_height: 0, max_width: 0, max_height: 0 },
            generation: 1,
        })
        .unwrap();
    let mut pref = preference(1, 226, 128);
    pref.formats = vec![XDmaBufImportFormat { format: DRM_FORMAT_XRGB8888, modifiers: vec![9, 0, 5, 3, 9] }];
    assert_eq!(rt.update_window_allocation_preferences(snapshot(1, vec![pref])), XWindowAllocationUpdate::Applied);
    rt.device_connections.insert(
        7,
        Some(XDeviceBundle {
            available: true,
            identity: Some(XRenderDeviceIdentity { device_number: RENDER_NODE }),
            import_formats: XTable::new(),
        }),
    );
    let screen = [3u64, 9, 0, 5, 11];
    assert_eq!(rt.window_allocation_modifiers(ns, 7, window, DRM_FORMAT_XRGB8888, &screen), vec![0, 3, 5, 9]);
    assert_eq!(rt.window_allocation_modifiers(ns, 8, window, DRM_FORMAT_XRGB8888, &screen), vec![0]);
    assert!(rt.window_allocation_modifiers(ns, 7, window, DRM_FORMAT_ARGB8888, &screen).is_empty());
}
