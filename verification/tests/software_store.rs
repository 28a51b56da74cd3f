use sophia_x_authority::gc::{XGraphicsContextValues, XPutImageSemantics};
use sophia_x_authority::geometry::{Rect, Size};
use sophia_x_authority::ids::XResourceId;
use sophia_x_authority::software::XPoint;
use sophia_x_authority::software::store::{X_AUTHORITY_CPU_BUFFER_FORMAT_ARGB8888, XSoftwareBufferStore, union_rects};
use sophia_x_authority::software::update::{
    XAuthorityCpuBufferPatch, XAuthorityCpuBufferPatchBatch, XAuthorityCpuBufferPatchRegion, XAuthorityCpuBufferUpdate,
    coalesce_damage, coverage_area,
};
use sophia_x_authority::software::XAuthorityCpuBufferSnapshot;
use sophia_x_authority::table::XTable;
use sophia_x_authority::render::XRenderPictFormatKind;
use sophia_x_authority::wire::XByteOrder;

fn id(local: u64) -> XResourceId {
    XResourceId { local, generation: 1 }
}

fn size(width: i32, height: i32) -> Size {
    Size { width, height }
}

fn rect(x: i32, y: i32, width: i32, height: i32) -> Rect {
    Rect { x, y, width, height }
}

fn pixel(store: &XSoftwareBufferStore, drawable: XResourceId, x: usize, y: usize) -> u32 {
    let b = store.buffers.get(&drawable).unwrap();
    let o = y * b.stride as usize + x * 4;
    u32::from_le_bytes([b.bytes[o], b.bytes[o + 1], b.bytes[o + 2], b.bytes[o + 3]])
}

#[test]
fn first_draw_allocates_a_buffer_and_rebrands_it() {
    let mut store = XSoftwareBufferStore::new();
    assert!(!store.has_cpu_backing(id(1)));
    let first = store.clear(id(1), size(4, 4), rect(0, 0, 2, 2), 0x00ff_0000).unwrap();
    assert_eq!((first.handle, first.generation, first.size), (1, 1, size(4, 4)));
    assert!(store.has_cpu_backing(id(1)));
    assert_eq!(pixel(&store, id(1), 1, 1), 0x00ff_0000);
    assert_eq!(pixel(&store, id(1), 2, 2), 0);
    let second = store.clear(id(1), size(4, 4), rect(3, 3, 1, 1), 5).unwrap();
    assert_eq!((second.handle, second.generation), (2, 2));
    assert_eq!(pixel(&store, id(1), 1, 1), 0x00ff_0000);
    assert_eq!(pixel(&store, id(1), 3, 3), 5);
}

#[test]
fn damage_outside_a_kept_buffer_is_refused_but_drawing_an_empty_size_is_not_possible() {
    let mut store = XSoftwareBufferStore::new();
    store.clear(id(1), size(4, 4), rect(0, 0, 1, 1), 1).unwrap();
    assert_eq!(store.clear(id(1), size(4, 4), rect(10, 10, 1, 1), 1), None);
    assert_eq!(store.clear(id(2), size(0, 4), rect(0, 0, 1, 1), 1), None);
    assert_eq!(store.clear(id(3), size(8192, 8192), rect(0, 0, 1, 1), 1), None);
}

#[test]
fn resizing_replaces_the_buffer_with_zeros() {
    let mut store = XSoftwareBufferStore::new();
    store.clear(id(1), size(2, 2), rect(0, 0, 2, 2), 7).unwrap();
    let resized = store.clear(id(1), size(3, 3), rect(2, 2, 1, 1), 9).unwrap();
    assert_eq!(resized.generation, 2);
    assert_eq!(pixel(&store, id(1), 0, 0), 0);
    assert_eq!(pixel(&store, id(1), 2, 2), 9);
}

#[test]
fn paint_damage_fills_every_rectangle() {
    let mut store = XSoftwareBufferStore::new();
    let mut gc = XGraphicsContextValues::default();
    gc.foreground = 3;
    store.paint_damage(id(1), size(4, 1), &[rect(0, 0, 1, 1), rect(3, 0, 1, 1)], &gc).unwrap();
    assert_eq!((pixel(&store, id(1), 0, 0), pixel(&store, id(1), 1, 0), pixel(&store, id(1), 3, 0)), (3, 0, 3));
    assert_eq!(union_rects(&[rect(0, 0, 1, 1), rect(3, 2, 1, 1)]), Some(rect(0, 0, 4, 3)));
    assert_eq!(union_rects(&[]), None);
}

#[test]
fn lines_and_rectangles_answer_their_damage() {
    let mut store = XSoftwareBufferStore::new();
    let mut gc = XGraphicsContextValues::default();
    gc.foreground = 1;
    assert_eq!(store.draw_lines(id(1), size(4, 4), &[], &gc), None);
    assert_eq!(store.next_handle, 0);
    store.draw_lines(id(1), size(4, 4), &[XPoint { x: 0, y: 0 }, XPoint { x: 3, y: 0 }, XPoint { x: 3, y: 3 }], &gc).unwrap();
    assert_eq!(pixel(&store, id(1), 2, 0), 1);
    assert_eq!(pixel(&store, id(1), 3, 2), 1);
    assert_eq!(pixel(&store, id(1), 0, 3), 0);
    let (_, damage) = store.draw_rectangles(id(2), size(6, 6), &[rect(1, 1, 3, 3)], &gc).unwrap();
    assert_eq!(damage, rect(1, 1, 4, 4));
    assert_eq!(pixel(&store, id(2), 4, 4), 1);
    assert_eq!(pixel(&store, id(2), 2, 2), 0);
}

#[test]
fn put_image_refuses_short_data_and_unknown_depths() {
    let mut store = XSoftwareBufferStore::new();
    assert_eq!(store.put_image(id(1), size(2, 2), rect(0, 0, 2, 1), &[1, 2, 3], None), None);
    let semantics = XPutImageSemantics {
        format: 2,
        depth: 7,
        left_pad: 0,
        byte_order: XByteOrder::LittleEndian,
        gc: XGraphicsContextValues::default(),
    };
    assert_eq!(store.put_image(id(1), size(2, 2), rect(0, 0, 1, 1), &[1, 2, 3, 4], Some(&semantics)), None);
    store.put_image(id(1), size(2, 2), rect(1, 1, 1, 1), &[1, 2, 3, 4], None).unwrap();
    assert_eq!(pixel(&store, id(1), 1, 1), u32::from_le_bytes([1, 2, 3, 4]));
}

#[test]
fn image_region_reads_back_with_zero_outside() {
    let mut store = XSoftwareBufferStore::new();
    store.put_image_backing(id(1), size(2, 2), rect(0, 0, 2, 2), &[1, 0, 0, 0, 2, 0, 0, 0, 3, 0, 0, 0, 4, 0, 0, 0]).unwrap();
    assert_eq!(store.buffers.get(&id(1)).unwrap().generation, 1);
    let image = store.image_region(id(1), rect(1, 1, 2, 1)).unwrap();
    assert_eq!(image, vec![4, 0, 0, 0, 0, 0, 0, 0]);
    assert_eq!(store.image_region(id(9), rect(0, 0, 1, 1)).unwrap(), vec![0, 0, 0, 0]);
    assert_eq!(store.image_region(id(1), rect(0, 0, -1, 1)), None);
    assert_eq!(store.image_region(id(1), rect(0, 0, 0, 5)).unwrap(), Vec::<u8>::new());
}

#[test]
fn copy_area_moves_pixels_between_drawables() {
    let mut store = XSoftwareBufferStore::new();
    store.put_image_backing(id(1), size(2, 1), rect(0, 0, 2, 1), &[7, 0, 0, 0, 8, 0, 0, 0]).unwrap();
    let gc = XGraphicsContextValues::default();
    let (_, damage) = store.copy_area(id(1), id(2), size(3, 3), rect(0, 0, 2, 1), 1, 2, &gc).unwrap();
    assert_eq!(damage, rect(1, 2, 2, 1));
    assert_eq!((pixel(&store, id(2), 1, 2), pixel(&store, id(2), 2, 2)), (7, 8));
    assert_eq!(store.copy_area(id(9), id(2), size(3, 3), rect(0, 0, 1, 1), 0, 0, &gc), None);
}

#[test]
fn removing_and_rekeying_buffers() {
    let mut store = XSoftwareBufferStore::new();
    store.ensure_image_backing(id(1), size(1, 1)).unwrap();
    store.rekey_pixmap(id(1), id(5));
    assert!(!store.has_cpu_backing(id(1)));
    assert_eq!(store.buffers.get(&id(5)).unwrap().drawable, id(5));
    assert!(store.remove(id(5)).is_some());
    assert!(store.remove(id(5)).is_none());
}

#[test]
fn render_fill_uses_the_union_as_damage() {
    let mut store = XSoftwareBufferStore::new();
    let result = store
        .render_fill(id(1), size(2, 2), 1, [1, 2, 3, 4], &[rect(0, 0, 1, 1), rect(1, 1, 1, 1)], &vec![], XRenderPictFormatKind::Argb32)
        .unwrap();
    assert_eq!(result.generation, 1);
    assert_eq!(pixel(&store, id(1), 0, 0), u32::from_le_bytes([1, 2, 3, 4]));
    assert_eq!(pixel(&store, id(1), 1, 0), 0);
}

fn presentation_pixel(store: &XSoftwareBufferStore, drawable: XResourceId, x: usize, y: usize) -> u32 {
    let b = store.presentations.get(&drawable).unwrap();
    let o = y * b.stride as usize + x * 4;
    u32::from_le_bytes([b.bytes[o], b.bytes[o + 1], b.bytes[o + 2], b.bytes[o + 3]])
}

#[test]
fn presenting_damage_replaces_then_patches() {
    let mut store = XSoftwareBufferStore::new();
    store.clear(id(1), size(2, 2), rect(0, 0, 2, 2), 0x0011_2233).unwrap();
    assert!(store.present_window_damage(id(10), size(4, 4), id(9), 0, 0, &[rect(0, 0, 1, 1)], None).is_none());
    assert!(store.present_window_damage(id(10), size(0, 4), id(1), 0, 0, &[rect(0, 0, 1, 1)], None).is_none());
    match store.present_window_damage(id(10), size(4, 4), id(1), 1, 1, &[rect(0, 0, 2, 2)], None) {
        Some(XAuthorityCpuBufferUpdate::Replace(snapshot)) => {
            assert_eq!(snapshot.size, size(3, 3));
            assert_eq!(snapshot.generation, 1);
        },
        _ => panic!("expected a replacement"),
    }
    assert_eq!(presentation_pixel(&store, id(10), 1, 1), 0x0011_2233);
    assert_eq!(presentation_pixel(&store, id(10), 0, 0), 0);
    assert_eq!(store.presentation_snapshot(id(10)).unwrap().size, size(3, 3));
    assert!(store.presentation_snapshot(id(1)).is_none());
    store.clear(id(1), size(2, 2), rect(1, 1, 1, 1), 7).unwrap();
    match store.present_window_damage(id(10), size(4, 4), id(1), 1, 1, &[rect(1, 1, 1, 1)], None) {
        Some(XAuthorityCpuBufferUpdate::PatchBatch(batch)) => {
            assert_eq!(batch.generation, 2);
            assert_eq!(batch.patches.len(), 1);
            assert_eq!(batch.patches[0].rect, rect(2, 2, 1, 1));
            assert_eq!(batch.patches[0].bytes, vec![7, 0, 0, 0]);
        },
        _ => panic!("expected a patch batch"),
    }
    let shape = vec![rect(0, 0, 2, 2)];
    match store.present_window_damage(id(10), size(4, 4), id(1), 1, 1, &[rect(0, 0, 2, 2)], Some(&shape)) {
        Some(XAuthorityCpuBufferUpdate::Replace(snapshot)) => {
            assert_eq!(snapshot.format, X_AUTHORITY_CPU_BUFFER_FORMAT_ARGB8888);
        },
        _ => panic!("a format change ships the whole buffer"),
    }
    assert_eq!(presentation_pixel(&store, id(10), 1, 1), 0xff11_2233);
    assert_eq!(presentation_pixel(&store, id(10), 2, 2), 0);
}

#[test]
fn long_damage_lists_are_coalesced() {
    let rects: Vec<Rect> = (0..5).map(|i| rect(i, 0, 1, 1)).collect();
    assert_eq!(coalesce_damage(rects.clone(), 10), rects);
    let merged = coalesce_damage(vec![rect(4, 0, 1, 1), rect(0, 0, 1, 1), rect(2, 0, 1, 1), rect(0, 5, 1, 1)], 2);
    assert_eq!(merged, vec![rect(0, 0, 3, 1), rect(0, 0, 5, 6)]);
    assert_eq!(coverage_area(&vec![rect(0, 0, 2, 3), rect(0, 0, -1, 4)]), 6);
}

fn snapshot(handle: u64, generation: u64) -> XAuthorityCpuBufferSnapshot {
    XAuthorityCpuBufferSnapshot {
        handle,
        drawable: id(3),
        size: size(2, 2),
        stride: 8,
        format: 0,
        generation,
        bytes: vec![0; 16],
    }
}

fn batch(generation: u64, patches: Vec<XAuthorityCpuBufferPatchRegion>) -> XAuthorityCpuBufferUpdate {
    XAuthorityCpuBufferUpdate::PatchBatch(XAuthorityCpuBufferPatchBatch {
        handle: 7,
        drawable: id(3),
        size: size(2, 2),
        stride: 8,
        format: 0,
        generation,
        patches,
    })
}

#[test]
fn a_receiver_applies_replacements_patches_and_batches() {
    let mut buffers: XTable<u64, XAuthorityCpuBufferSnapshot> = XTable::new();
    let single = XAuthorityCpuBufferUpdate::Patch(XAuthorityCpuBufferPatch {
        handle: 7,
        drawable: id(3),
        size: size(2, 2),
        stride: 8,
        format: 0,
        generation: 2,
        rect: rect(1, 0, 1, 1),
        bytes: vec![1, 2, 3, 4],
    });
    assert_eq!(single.apply_to(&mut buffers), Err("CPU buffer patch has no replacement base"));
    assert_eq!(batch(2, vec![]).apply_to(&mut buffers), Err("CPU buffer patch batch has no replacement base"));
    assert_eq!(XAuthorityCpuBufferUpdate::Replace(snapshot(7, 1)).apply_to(&mut buffers), Ok(()));
    assert_eq!(single.apply_to(&mut buffers), Ok(()));
    let b = buffers.get(&7).unwrap();
    assert_eq!(b.generation, 2);
    assert_eq!(b.bytes, vec![0, 0, 0, 0, 1, 2, 3, 4, 0, 0, 0, 0, 0, 0, 0, 0]);
    let rows = batch(3, vec![
        XAuthorityCpuBufferPatchRegion { rect: rect(0, 1, 2, 1), bytes: vec![9; 8] },
        XAuthorityCpuBufferPatchRegion { rect: rect(0, 0, 1, 1), bytes: vec![5; 4] },
    ]);
    assert_eq!(rows.payload_bytes(), 12);
    assert_eq!(rows.apply_to(&mut buffers), Ok(()));
    let b = buffers.get(&7).unwrap();
    assert_eq!(b.generation, 3);
    assert_eq!(b.bytes, vec![5, 5, 5, 5, 1, 2, 3, 4, 9, 9, 9, 9, 9, 9, 9, 9]);
}

#[test]
fn a_receiver_refuses_updates_that_do_not_fit_and_keeps_its_buffer() {
    let mut buffers: XTable<u64, XAuthorityCpuBufferSnapshot> = XTable::new();
    XAuthorityCpuBufferUpdate::Replace(snapshot(7, 4)).apply_to(&mut buffers).unwrap();
    assert_eq!(batch(3, vec![]).apply_to(&mut buffers), Err("CPU buffer patch batch metadata does not match its base"));
    let too_many = batch(4, (0..33).map(|_| XAuthorityCpuBufferPatchRegion { rect: rect(0, 0, 1, 1), bytes: vec![1; 4] }).collect());
    assert_eq!(too_many.apply_to(&mut buffers), Err("CPU buffer patch batch metadata does not match its base"));
    let good_then_empty = batch(5, vec![
        XAuthorityCpuBufferPatchRegion { rect: rect(0, 0, 1, 1), bytes: vec![1; 4] },
        XAuthorityCpuBufferPatchRegion { rect: rect(0, 0, 0, 1), bytes: vec![] },
    ]);
    assert_eq!(good_then_empty.apply_to(&mut buffers), Err("CPU buffer patch is empty"));
    let outside = batch(5, vec![XAuthorityCpuBufferPatchRegion { rect: rect(1, 1, 2, 2), bytes: vec![1; 16] }]);
    assert_eq!(outside.apply_to(&mut buffers), Err("CPU buffer patch lies outside its buffer"));
    let short = batch(5, vec![XAuthorityCpuBufferPatchRegion { rect: rect(0, 0, 2, 1), bytes: vec![1; 4] }]);
    assert_eq!(short.apply_to(&mut buffers), Err("CPU buffer patch byte length is invalid"));
    let b = buffers.get(&7).unwrap();
    assert_eq!(b.generation, 4);
    assert_eq!(b.bytes, vec![0; 16]);
    assert_eq!(XAuthorityCpuBufferUpdate::Replace(snapshot(7, 4)).payload_bytes(), 16);
}
