use sophia_x_authority::geometry::{Rect, Size};
use sophia_x_authority::ids::XResourceId;
use sophia_x_authority::software::store::XSoftwareBufferStore;

fn id(local: u64) -> XResourceId {
    XResourceId { local, generation: 1 }
}

fn rect(x: i32, y: i32, width: i32, height: i32) -> Rect {
    Rect { x, y, width, height }
}

fn store_with_pixmap() -> XSoftwareBufferStore {
    let mut store = XSoftwareBufferStore::new();
    store.clear(id(1), Size { width: 4, height: 4 }, rect(0, 0, 4, 4), 0x0102_0304).unwrap();
    store
}

#[test]
fn tracking_starts_with_the_whole_drawable_pending() {
    let mut store = store_with_pixmap();
    assert!(!store.export_has_damage(id(1)));
    store.begin_export_tracking(id(1));
    assert!(store.export_has_damage(id(1)));
    let (generation, patches) = store.take_export_patches(id(1)).unwrap();
    assert_eq!(generation, store.export_generation(id(1)));
    assert_eq!(patches.len(), 1);
    assert_eq!(patches[0].rect, rect(0, 0, 4, 4));
    assert_eq!(patches[0].bytes.len(), 64);
    assert_eq!(&patches[0].bytes[0..4], &[4, 3, 2, 1]);
    assert!(!store.export_has_damage(id(1)));
    assert_eq!(store.take_export_patches(id(1)).unwrap().1.len(), 0);
}

#[test]
fn noted_damage_is_clipped_and_delivered_once() {
    let mut store = store_with_pixmap();
    store.begin_export_tracking(id(1));
    store.take_export_patches(id(1)).unwrap();
    store.note_export_damage(id(1), false, None);
    store.note_export_damage(id(1), false, Some(rect(5, 5, 2, 2)));
    assert!(!store.export_has_damage(id(1)));
    store.note_export_damage(id(1), false, Some(rect(-1, -1, 2, 2)));
    let (_, patches) = store.take_export_patches(id(1)).unwrap();
    assert_eq!(patches.len(), 1);
    assert_eq!(patches[0].rect, rect(0, 0, 1, 1));
    assert_eq!(patches[0].bytes, vec![4, 3, 2, 1]);
    store.restore_export_damage(id(1), &[rect(1, 1, 1, 1), rect(2, 2, 1, 1)]);
    let (_, patches) = store.take_export_patches(id(1)).unwrap();
    assert_eq!(patches.iter().map(|p| p.rect).collect::<Vec<_>>(), vec![rect(1, 1, 1, 1), rect(2, 2, 1, 1)]);
}

#[test]
fn damage_stays_within_the_bound_and_the_drawable() {
    let mut store = XSoftwareBufferStore::new();
    store.clear(id(1), Size { width: 64, height: 64 }, rect(0, 0, 64, 64), 7).unwrap();
    store.begin_export_tracking(id(1));
    store.take_export_patches(id(1)).unwrap();
    for i in 0..40 {
        store.note_export_damage(id(1), false, Some(rect(i, i, 1, 1)));
    }
    let (_, patches) = store.take_export_patches(id(1)).unwrap();
    assert!(patches.len() <= 32);
    store.note_export_damage(id(1), false, Some(rect(0, 0, 64, 64)));
    store.note_export_damage(id(1), false, Some(rect(0, 0, 64, 64)));
    let (_, patches) = store.take_export_patches(id(1)).unwrap();
    assert_eq!(patches.len(), 1);
    assert_eq!(patches[0].rect, rect(0, 0, 64, 64));
    store.note_export_damage(id(1), true, None);
    assert_eq!(store.take_export_patches(id(1)).unwrap().1[0].rect, rect(0, 0, 64, 64));
}

#[test]
fn untracked_or_unbacked_drawables_give_nothing() {
    let mut store = store_with_pixmap();
    assert_eq!(store.export_generation(id(9)), 0);
    store.note_export_damage(id(1), true, None);
    assert!(!store.export_has_damage(id(1)));
    assert!(store.take_export_patches(id(1)).is_none());
    store.begin_export_tracking(id(2));
    assert!(!store.export_has_damage(id(2)));
    assert!(store.take_export_patches(id(2)).is_none());
    store.begin_export_tracking(id(1));
    store.end_export_tracking(id(1));
    assert!(!store.export_has_damage(id(1)));
    assert!(store.take_export_patches(id(1)).is_none());
}
