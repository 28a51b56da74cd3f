use sophia_x_authority::gc::XGraphicsContextValues;
use sophia_x_authority::geometry::{Rect, Size};
use sophia_x_authority::ids::{NamespaceId, SurfaceId, XResourceId};
use sophia_x_authority::raster::{apply_raster_function, mul_div_255, raster_function, render_blend_pixel};
use sophia_x_authority::render::XRenderPictFormatKind;
use sophia_x_authority::resources::XResourceKind;
use sophia_x_authority::runtime::devices::{DRM_FORMAT_MOD_INVALID, DRM_FORMAT_XRGB8888};
use sophia_x_authority::runtime::glyphs::XRenderGlyphError;
use sophia_x_authority::runtime::{XAuthorityRuntime, XDmaBufImportFormat};
use sophia_x_authority::software::XAuthorityCpuBufferSnapshot;
use sophia_x_authority::software::store::XSoftwareBufferStore;
use sophia_x_authority::table::XTable;
use sophia_x_authority::software::update::{XAuthorityCpuBufferUpdate, apply_packed_patch_region};
use sophia_x_authority::selection::{XSelectionChangeKind, XSelectionEvent, XSelectionMonitor};
use sophia_x_authority::window::{SurfaceConstraints, XMapState, XWindowLifecycleEvent, XWindowTable};
use sophia_x_authority::wire::{XByteOrder, XWireClientResourceRange};

fn ns(raw: u64) -> NamespaceId {
    NamespaceId { raw }
}

fn id(local: u64) -> XResourceId {
    XResourceId { local, generation: 1 }
}

fn created(window: XResourceId, surface: u64, namespace: NamespaceId) -> XWindowLifecycleEvent {
    XWindowLifecycleEvent::Created {
        id: window,
        surface: SurfaceId { raw: surface },
        namespace,
        geometry: Rect { x: 0, y: 0, width: 100, height: 100 },
        constraints: SurfaceConstraints { min_width: 0, min_height: 0, max_width: 0, max_height: 0 },
        generation: 1,
    }
}

#[test]
fn mapping_twice_changes_nothing() {
    let mut windows = XWindowTable::new();
    windows.apply(created(id(0x20_0001), 1, ns(1))).unwrap();
    assert!(windows.apply(XWindowLifecycleEvent::Mapped { id: id(0x20_0001), generation: 1 }).unwrap().is_some());
    assert_eq!(windows.get(id(0x20_0001)).unwrap().map_state, XMapState::Viewable);
    assert_eq!(windows.apply(XWindowLifecycleEvent::Mapped { id: id(0x20_0001), generation: 2 }), Ok(None));
    assert_eq!(windows.get(id(0x20_0001)).unwrap().map_state, XMapState::Viewable);
}

#[test]
fn unmapped_window_is_unmapped() {
    let mut windows = XWindowTable::new();
    windows.apply(created(id(0x20_0001), 1, ns(1))).unwrap();
    windows.apply(XWindowLifecycleEvent::Mapped { id: id(0x20_0001), generation: 1 }).unwrap();
    windows.apply(XWindowLifecycleEvent::Unmapped { id: id(0x20_0001), generation: 1 }).unwrap();
    assert_eq!(windows.get(id(0x20_0001)).unwrap().map_state, XMapState::Unmapped);
}

#[test]
fn destroyed_window_children_move_to_the_root() {
    let mut windows = XWindowTable::new();
    windows.apply(created(id(0x20_0001), 1, ns(1))).unwrap();
    windows.apply(created(id(0x20_0002), 2, ns(1))).unwrap();
    windows.set_parent(id(0x20_0002), id(0x20_0001)).unwrap();
    windows.apply(XWindowLifecycleEvent::Destroyed { id: id(0x20_0001) }).unwrap();
    assert!(windows.get(id(0x20_0001)).is_none());
    assert_eq!(windows.get(id(0x20_0002)).unwrap().parent, XResourceId::root());
}

#[test]
fn configure_takes_named_fields_only() {
    let mut windows = XWindowTable::new();
    windows.apply(created(id(0x20_0001), 1, ns(1))).unwrap();
    windows
        .apply(XWindowLifecycleEvent::Configured {
            id: id(0x20_0001),
            x: Some(-5),
            y: None,
            width: Some(640),
            height: None,
            generation: 1,
        })
        .unwrap();
    assert_eq!(windows.get(id(0x20_0001)).unwrap().geometry, Rect { x: -5, y: 0, width: 640, height: 100 });
}

#[test]
fn latest_selection_owner_is_current() {
    let mut windows = XWindowTable::new();
    windows.apply(created(id(0x20_0001), 1, ns(1))).unwrap();
    windows.apply(created(id(0x40_0001), 2, ns(2))).unwrap();
    let mut monitor = XSelectionMonitor::new();
    let event = |owner: XResourceId| XSelectionEvent {
        selection: 1,
        owner: Some(owner),
        timestamp: 10,
        selection_timestamp: 10,
        kind: XSelectionChangeKind::SetOwner,
    };
    monitor.apply_event(event(id(0x20_0001)), &windows);
    let second = monitor.apply_event(event(id(0x40_0001)), &windows);
    assert_eq!(second.current.generation, 2);
    let current = monitor.current_owner_for_selection(1).unwrap();
    assert_eq!(current.owner, Some(id(0x40_0001)));
    assert_eq!(current.namespace, Some(ns(2)));
    assert_eq!(monitor.owner(1, Some(ns(1))).unwrap().owner, Some(id(0x20_0001)));
}

#[test]
fn clearing_a_window_drops_its_ownerships() {
    let mut windows = XWindowTable::new();
    windows.apply(created(id(0x20_0001), 1, ns(1))).unwrap();
    let mut monitor = XSelectionMonitor::new();
    for selection in [1u32, 2] {
        monitor.apply_event(
            XSelectionEvent {
                selection,
                owner: Some(id(0x20_0001)),
                timestamp: 3,
                selection_timestamp: 4,
                kind: XSelectionChangeKind::SetOwner,
            },
            &windows,
        );
    }
    let cleared = monitor.clear_window_owner(id(0x20_0001), &windows, XSelectionChangeKind::SelectionWindowDestroyed);
    assert_eq!(cleared.len(), 2);
    assert!(cleared.iter().all(|u| u.current.owner.is_none() && u.current.timestamp == 3));
    assert_eq!(monitor.owner(1, Some(ns(1))).unwrap().owner, None);
    assert_eq!(monitor.owner(2, Some(ns(1))).unwrap().owner, None);
    assert!(monitor.current_owner_for_selection(1).is_none());
}

#[test]
fn clearing_a_window_ends_its_ownership_without_a_namespace_too() {
    let windows = XWindowTable::new();
    let mut monitor = XSelectionMonitor::new();
    let unknown = id(0x40_0001);
    let set = |owner| XSelectionEvent {
        selection: 5,
        owner: Some(owner),
        timestamp: 1,
        selection_timestamp: 2,
        kind: XSelectionChangeKind::SetOwner,
    };
    monitor.apply_event(set(unknown), &windows);
    monitor.apply_event_in_namespace(set(id(0x20_0009)), &windows, Some(ns(1)));
    let cleared = monitor.clear_window_owner(unknown, &windows, XSelectionChangeKind::SelectionClientClosed);
    assert_eq!(cleared.len(), 1);
    assert_eq!(cleared[0].previous.unwrap().namespace, None);
    assert_eq!(monitor.owner(5, None).unwrap().owner, None);
    assert_eq!(monitor.owner(5, Some(ns(1))).unwrap().owner, Some(id(0x20_0009)));
}

#[test]
fn gc_change_with_empty_mask_keeps_values_and_later_change_wins() {
    let mut rt = XAuthorityRuntime::new(Some(Size { width: 100, height: 100 }));
    rt.create_pixmap(ns(1), id(0x20_0001), Size { width: 8, height: 8 }, 24, 1).unwrap();
    let mut values = XGraphicsContextValues::default();
    values.foreground = 7;
    rt.create_graphics_context(ns(1), id(0x20_0002), id(0x20_0001), values).unwrap();
    let mut other = XGraphicsContextValues::default();
    other.foreground = 99;
    rt.change_graphics_context(ns(1), id(0x20_0002), 0, other.clone()).unwrap();
    assert_eq!(rt.graphics_context_values(ns(1), id(0x20_0002)).unwrap().foreground, 7);
    rt.change_graphics_context(ns(1), id(0x20_0002), 1 << 2, other.clone()).unwrap();
    let mut last = XGraphicsContextValues::default();
    last.foreground = 5;
    rt.change_graphics_context(ns(1), id(0x20_0002), 1 << 2, last).unwrap();
    let read = rt.graphics_context_values(ns(1), id(0x20_0002)).unwrap();
    assert_eq!(read.foreground, 5);
    assert_eq!(read.plane_mask, 0x00ff_ffff);
}

#[test]
fn byte_orders_mirror() {
    let bytes = [1u8, 2, 3, 4];
    let reversed = [4u8, 3, 2, 1];
    assert_eq!(XByteOrder::BigEndian.u16_at(&bytes, 0), XByteOrder::LittleEndian.u16_at(&[2, 1], 0));
    assert_eq!(XByteOrder::BigEndian.u32_at(&bytes, 0), XByteOrder::LittleEndian.u32_at(&reversed, 0));
    assert_eq!(XByteOrder::LittleEndian.u32_at(&bytes, 0), 0x0403_0201);
    assert_eq!(XByteOrder::BigEndian.i16_at(&[0xff, 0xfe], 0), -2);
    assert_eq!(XByteOrder::BigEndian.u64_at(&[0, 0, 0, 1, 0, 0, 0, 2], 0), 0x0000_0001_0000_0002);
}

#[test]
fn client_range_ids() {
    let range = XWireClientResourceRange { base: 0x0020_0000, mask: 0x001f_ffff };
    assert!(range.owns_new_resource(0x0020_0000 | 0x1234));
    assert!(!range.owns_new_resource(0));
    assert!(!range.owns_new_resource(0x0040_0001));
}

#[test]
fn plane_mask_bounds_the_raster_function() {
    assert_eq!(raster_function(0b1100, 0b1010, 6), 0b0110);
    assert_eq!(apply_raster_function(0b1100, 0b1010, 6, u32::MAX), 0b0110);
    assert_eq!(apply_raster_function(0b1100, 0b1010, 6, 0), 0b1010);
    assert_eq!(apply_raster_function(0xffff_ffff, 0, 3, 0x0000_ff00), 0x0000_ff00);
    assert_eq!(raster_function(5, 9, 15), u32::MAX);
    assert_eq!(raster_function(5, 9, 200), 5);
}

#[test]
fn blend_identities() {
    assert_eq!(mul_div_255(200, 255), 200);
    assert_eq!(mul_div_255(200, 0), 0);
    assert_eq!(mul_div_255(255, 128), 128);
    let src = [10u8, 20, 30, 128];
    let dst = [200u8, 100, 50, 255];
    assert_eq!(render_blend_pixel(1, src, dst), src);
    assert_eq!(render_blend_pixel(2, src, dst), dst);
    assert_eq!(render_blend_pixel(0, src, dst), [0, 0, 0, 0]);
    // Over: src + dst * (255 - 128) / 255
    assert_eq!(render_blend_pixel(3, src, dst), [110, 70, 55, 255]);
}

#[test]
fn argb32_round_trips_and_rgb24_reads_opaque() {
    let pixel = [1u8, 2, 3, 4];
    let f = XRenderPictFormatKind::Argb32;
    assert_eq!(f.read(f.write(pixel)), pixel);
    let rgb = XRenderPictFormatKind::Rgb24;
    assert_eq!(rgb.read(rgb.write(pixel)), [1, 2, 3, 255]);
    let a1 = XRenderPictFormatKind::A1;
    assert_eq!(a1.write([9, 9, 9, 128]), [0, 0, 0, 255]);
    assert_eq!(a1.write([9, 9, 9, 127]), [0, 0, 0, 0]);
}

#[test]
fn glyph_store_lives_while_a_name_remains() {
    let mut rt = XAuthorityRuntime::new(None);
    rt.render_create_glyph_set(ns(1), id(0x20_0001), 0x28, 1).unwrap();
    rt.render_reference_glyph_set(ns(1), id(0x20_0002), id(0x20_0001), 1).unwrap();
    let store = rt.render_glyph_store_id(ns(1), id(0x20_0001)).unwrap();
    assert_eq!(rt.render_glyph_store_id(ns(1), id(0x20_0002)), Ok(store));
    rt.render_free_glyph_set(ns(1), id(0x20_0001)).unwrap();
    assert_eq!(rt.render_glyph_store_id(ns(1), id(0x20_0002)), Ok(store));
    assert_eq!(rt.render_free_glyph_set(ns(1), id(0x20_0001)), Err(XRenderGlyphError::UnknownGlyphSet));
    rt.render_free_glyph_set(ns(1), id(0x20_0002)).unwrap();
    assert!(rt.render_glyph_store_id(ns(1), id(0x20_0002)).is_err());
    assert_eq!(rt.render_create_glyph_set(ns(1), id(0x20_0003), 0x27, 1), Err(XRenderGlyphError::UnsupportedFormat));
}

#[test]
fn import_inventory_is_canonical_and_latched_once() {
    let mut rt = XAuthorityRuntime::new(None);
    rt.set_dma_buf_import_formats(vec![XDmaBufImportFormat {
        format: DRM_FORMAT_XRGB8888,
        modifiers: vec![5, 0, DRM_FORMAT_MOD_INVALID, 5, 3],
    }]);
    assert_eq!(rt.dma_buf_import_modifiers(DRM_FORMAT_XRGB8888), &[0, 3, 5]);
    rt.set_dma_buf_import_formats(vec![XDmaBufImportFormat { format: DRM_FORMAT_XRGB8888, modifiers: vec![9] }]);
    assert_eq!(rt.dma_buf_import_modifiers(DRM_FORMAT_XRGB8888), &[0, 3, 5]);
    assert!(rt.dma_buf_import_modifiers(1).is_empty());
}

#[test]
fn registered_resource_kinds_are_checked() {
    let mut rt = XAuthorityRuntime::new(None);
    rt.resources.insert(id(0x20_0001), XResourceKind::Colormap, ns(1), 1).unwrap();
    assert!(rt.access(ns(1), id(0x20_0001), XResourceKind::Colormap).is_ok());
    assert!(rt.access(ns(1), id(0x20_0001), XResourceKind::Pixmap).is_err());
}

#[test]
fn unmapping_a_parent_hides_its_children_and_mapping_shows_them() {
    let mut windows = XWindowTable::new();
    windows.apply(created(id(0x20_0001), 1, ns(1))).unwrap();
    windows.apply(created(id(0x20_0002), 2, ns(1))).unwrap();
    windows.set_parent(id(0x20_0002), id(0x20_0001)).unwrap();
    windows.apply(XWindowLifecycleEvent::Mapped { id: id(0x20_0001), generation: 1 }).unwrap();
    windows.apply(XWindowLifecycleEvent::Mapped { id: id(0x20_0002), generation: 1 }).unwrap();
    assert_eq!(windows.get(id(0x20_0002)).unwrap().map_state, XMapState::Viewable);
    windows.apply(XWindowLifecycleEvent::Unmapped { id: id(0x20_0001), generation: 1 }).unwrap();
    assert_eq!(windows.get(id(0x20_0002)).unwrap().map_state, XMapState::Unviewable);
    windows.apply(XWindowLifecycleEvent::Mapped { id: id(0x20_0001), generation: 1 }).unwrap();
    assert_eq!(windows.get(id(0x20_0002)).unwrap().map_state, XMapState::Viewable);
}

#[test]
fn patch_batch_brings_a_receivers_copy_up_to_date() {
    let mut store = XSoftwareBufferStore::new();
    let win = id(1);
    let presentation = id(10);
    let size = Size { width: 64, height: 64 };
    store.clear(win, size, Rect { x: 0, y: 0, width: 64, height: 64 }, 0x0000_0101).unwrap();
    let mut copy = match store.present_window_damage(presentation, size, win, 0, 0, &[Rect { x: 0, y: 0, width: 64, height: 64 }], None) {
        Some(XAuthorityCpuBufferUpdate::Replace(snapshot)) => snapshot,
        _ => panic!("the first presentation ships the whole buffer"),
    };
    let mut damage = Vec::new();
    for i in 0..40 {
        let r = Rect { x: i, y: (i * 7) % 64, width: 1, height: 1 };
        store.clear(win, size, r, 0x00ab_cd00 + i as u32).unwrap();
        damage.push(r);
    }
    let mut receiver: XTable<u64, XAuthorityCpuBufferSnapshot> = XTable::new();
    XAuthorityCpuBufferUpdate::Replace(XAuthorityCpuBufferSnapshot { bytes: copy.bytes.clone(), ..copy }).apply_to(&mut receiver).unwrap();
    let update = store.present_window_damage(presentation, size, win, 0, 0, &damage, None).unwrap();
    match &update {
        XAuthorityCpuBufferUpdate::PatchBatch(batch) => {
            assert!(batch.patches.len() <= 32);
            for patch in batch.patches.iter() {
                apply_packed_patch_region(&mut copy, patch).unwrap();
            }
        },
        _ => panic!("scattered damage ships as a patch batch"),
    }
    let now = store.presentations.get(&presentation).unwrap();
    assert_eq!(copy.bytes, now.bytes);
    update.apply_to(&mut receiver).unwrap();
    let held = receiver.get(&now.handle).unwrap();
    assert_eq!(held.bytes, now.bytes);
    assert_eq!(held.generation, now.generation);
}
