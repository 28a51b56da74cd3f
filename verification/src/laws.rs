//! What holds of the authority across its operations: a resource once
//! registered is found by its owner and refused to everyone else, a freed one
//! is gone for everyone, what a write stores a read gives back.
use vstd::prelude::*;

use crate::gc::{XGcValuesView, spec_changed_values};
use crate::ids::{NamespaceId, XResourceId};
use crate::resources::{XAuthorityRuntimeError, XResourceKind, spec_insert_error};
use crate::runtime::{XAuthorityRuntime, XPixmapRecord};
use crate::wire::{XByteOrder, XWireClientContext, XWireClientResourceRange, spec_u16, spec_u32};
use crate::software::{spec_fill_writes, spec_filled, spec_gc_pixel, spec_le_byte};
use crate::request::{XWireRequestView, spec_decode_request};
use crate::window::{WindowMap, XMapState, XWindowLifecycleEvent, spec_apply};
use crate::raster::{spec_raster_function, spec_mul_div_255, spec_blend_channel, spec_blend_factors};
use crate::selection::{XSelectionKey, XSelectionMonitor, XSelectionOwnerRecord, spec_current_owner, spec_record_key};

verus! {

/// A resource a namespace registered is found by that namespace as its
/// kind; any other namespace is denied it, and asking for it as another
/// kind is refused as the wrong kind.
pub proof fn law_registered_resource_is_found(
    before: XAuthorityRuntime,
    after: XAuthorityRuntime,
    id: XResourceId,
    kind: XResourceKind,
    namespace: NamespaceId,
    generation: u64,
    other_namespace: NamespaceId,
    other_kind: XResourceKind,
)
    requires
        before.spec_registered(&after, id, kind, namespace, generation),
        namespace.spec_is_valid(),
    ensures
        after.spec_access(namespace, id, kind) is None,
        other_namespace.spec_is_valid() && other_namespace != namespace ==> after.spec_access(
            other_namespace,
            id,
            kind,
        ) == Some(XAuthorityRuntimeError::CrossNamespaceDenied),
        other_kind != kind ==> after.spec_access(namespace, id, other_kind) == Some(
            XAuthorityRuntimeError::WrongResourceKind,
        ),
{
}

/// A resource taken out of the table is unknown to every namespace, as
/// every kind.
pub proof fn law_removed_resource_is_unknown(
    before: XAuthorityRuntime,
    after: XAuthorityRuntime,
    id: XResourceId,
    namespace: NamespaceId,
    kind: XResourceKind,
)
    requires
        after.resources.view() == before.resources.view().remove(id),
        namespace.spec_is_valid(),
    ensures
        after.spec_access(namespace, id, kind) == Some(XAuthorityRuntimeError::UnknownResource),
{
}

/// A live id cannot be registered a second time, whoever asks.
pub proof fn law_live_id_is_not_registered_twice(
    rt: XAuthorityRuntime,
    id: XResourceId,
    owner: NamespaceId,
    kind: XResourceKind,
    namespace: NamespaceId,
)
    requires
        rt.spec_access(owner, id, kind) is None,
        id.spec_is_valid(),
        namespace.spec_is_valid(),
    ensures
        spec_insert_error(rt.resources.view(), id, namespace) == Some(
            XAuthorityRuntimeError::DuplicateResource,
        ),
{
}

/// A pixmap reads back the size and depth it was created with.
pub proof fn law_created_pixmap_reads_back(
    before: XAuthorityRuntime,
    after: XAuthorityRuntime,
    namespace: NamespaceId,
    pixmap: XResourceId,
    record: XPixmapRecord,
    generation: u64,
)
    requires
        namespace.spec_is_valid(),
        before.spec_registered(&after, pixmap, XResourceKind::Pixmap, namespace, generation),
        after.pixmaps.view() == before.pixmaps.view().insert(pixmap, record),
    ensures
        after.spec_pixmap(namespace, pixmap) == Ok::<XPixmapRecord, XAuthorityRuntimeError>(record),
{
}

/// A region that was set reads back the rectangles it was set to, and stays
/// the setting namespace's.
pub proof fn law_region_reads_back(
    before: XAuthorityRuntime,
    after: XAuthorityRuntime,
    namespace: NamespaceId,
    region: XResourceId,
    rects: Seq<crate::geometry::Rect>,
)
    requires
        before.spec_access(namespace, region, XResourceKind::Region) is None,
        after.resources == before.resources,
        after.xfixes_regions.view().dom() == before.xfixes_regions.view().dom().insert(region),
        after.xfixes_regions.view()[region].rects@ == rects,
    ensures
        after.spec_access(namespace, region, XResourceKind::Region) is None,
        after.xfixes_regions.view().contains_key(region),
        after.xfixes_regions.view()[region].rects@ == rects,
{
    assert(after.xfixes_regions.view().dom().contains(region));
}

/// A window's override-redirect flag reads back what was last set.
pub proof fn law_override_redirect_reads_back(
    before: XAuthorityRuntime,
    after: XAuthorityRuntime,
    namespace: NamespaceId,
    window: XResourceId,
    override_redirect: bool,
)
    requires
        before.spec_access(namespace, window, XResourceKind::Window) is None,
        before.windows.view().contains_key(window),
        after.resources == before.resources,
        after.windows.view() == before.windows.view().insert(
            window,
            crate::window::XWindowRecord { override_redirect, ..before.windows.view()[window] },
        ),
    ensures
        after.spec_window(namespace, window) is Ok,
        after.spec_window(namespace, window)->Ok_0.override_redirect == override_redirect,
        after.spec_window(namespace, window)->Ok_0.geometry == before.spec_window(
            namespace,
            window,
        )->Ok_0.geometry,
{
}

/// `ChangeGC` with an empty mask changes nothing.
pub proof fn law_gc_empty_change_keeps_values(cur: XGcValuesView, values: XGcValuesView)
    ensures
        spec_changed_values(cur, 0, values) == cur,
{
    assert(forall|b: u32| b < 32 ==> #[trigger] (0u32 & (1u32 << b)) == 0) by (bit_vector);
    assert(forall|b: u32| b < 32 ==> #[trigger] crate::gc::spec_mask_has(0, b) == false);
}

/// Of two `ChangeGC`s with the same mask, the second decides every value.
pub proof fn law_gc_later_change_wins(
    cur: XGcValuesView,
    mask: u32,
    first: XGcValuesView,
    second: XGcValuesView,
)
    ensures
        spec_changed_values(spec_changed_values(cur, mask, first), mask, second)
            == spec_changed_values(cur, mask, second),
{
}

/// A big-endian client's bytes read the same value as a little-endian
/// client's bytes in the reverse order.
pub proof fn law_byte_orders_mirror(b0: u8, b1: u8, b2: u8, b3: u8)
    ensures
        spec_u16(XByteOrder::BigEndian, b0, b1) == spec_u16(XByteOrder::LittleEndian, b1, b0),
        spec_u32(XByteOrder::BigEndian, b0, b1, b2, b3) == spec_u32(
            XByteOrder::LittleEndian,
            b3,
            b2,
            b1,
            b0,
        ),
{
}


/// Walking the records in order, the current owner is the record at `p`
/// once the walk has passed it, when every other owned record of the
/// selection is older.
proof fn lemma_newest_record_wins(
    s: Seq<(XSelectionKey, XSelectionOwnerRecord)>,
    p: int,
    n: int,
)
    requires
        0 <= p < s.len(),
        n <= s.len(),
        s[p].1.owner is Some,
        forall|i: int|
            0 <= i < s.len() && i != p && (#[trigger] s[i]).1.selection == s[p].1.selection
                && s[i].1.owner is Some ==> s[i].1.generation < s[p].1.generation,
    ensures
        n > p ==> spec_current_owner(s, s[p].1.selection, n) == Some(s[p].1),
        n <= p ==> match spec_current_owner(s, s[p].1.selection, n) {
            None => true,
            Some(b) => b.generation < s[p].1.generation,
        },
    decreases n,
{
    if n > 0 {
        lemma_newest_record_wins(s, p, n - 1);
        let best = spec_current_owner(s, s[p].1.selection, n - 1);
        let e = s[n - 1].1;
        if n - 1 != p && e.selection == s[p].1.selection && e.owner is Some {
            assert(e.generation < s[p].1.generation);
        }
        if n - 1 == p {
            match spec_current_owner(s, s[p].1.selection, n - 1) {
                None => {},
                Some(b) => {
                    assert(b.generation < s[p].1.generation);
                },
            }
        }
    }
}

/// After an ownership change that names an owner, that owner is the
/// selection's current owner across every namespace: it is the newest
/// record, as long as generations have not run out.
pub proof fn law_latest_owner_is_current(
    before: XSelectionMonitor,
    after: XSelectionMonitor,
    current: XSelectionOwnerRecord,
)
    requires
        before.wf(),
        after.wf(),
        before.generation < u64::MAX,
        after.generation == before.generation + 1,
        current.generation == after.generation,
        current.owner is Some,
        after.view() == before.view().insert(spec_record_key(current), current),
    ensures
        spec_current_owner(after.owners.entries@, current.selection, after.owners.entries@.len() as int)
            == Some(current),
{
    let key = spec_record_key(current);
    let s = after.owners.entries@;
    let p = after.owners.index_of(key);
    assert(after.view().contains_key(key));
    assert(after.owners.has_key(key));
    assert(s[p].0 == key);
    after.owners.lemma_index(p);
    assert forall|i: int|
        0 <= i < s.len() && i != p && (#[trigger] s[i]).1.selection == s[p].1.selection
            && s[i].1.owner is Some implies s[i].1.generation < s[p].1.generation by {
        after.owners.lemma_index(i);
        after.owners.lemma_keys_distinct(i, p);
        let k = s[i].0;
        assert(k != key);
        assert(before.view().contains_key(k));
        assert(after.view()[k] == before.view()[k]);
    }
    lemma_newest_record_wins(s, p, s.len() as int);
}


/// A new window starts unmapped under the root, and mapping it a second
/// time changes nothing and reports no surface.
pub proof fn law_window_map_is_idempotent(m: WindowMap, id: XResourceId, first: u64, second: u64)
    requires
        m.contains_key(id),
    ensures
        ({
            let (m1, _) = spec_apply(m, XWindowLifecycleEvent::Mapped { id, generation: first });
            &&& m1.contains_key(id)
            &&& m1[id].map_state != XMapState::Unmapped
            &&& spec_apply(m1, XWindowLifecycleEvent::Mapped { id, generation: second }) == (
                m1,
                Ok::<Option<crate::window::AuthoritySurface>, XAuthorityRuntimeError>(None),
            )
        }),
{
}

/// A created window is unmapped, a child of the root, and has the geometry
/// it was created with.
pub proof fn law_created_window_starts_unmapped(
    m: WindowMap,
    id: XResourceId,
    surface: crate::ids::SurfaceId,
    namespace: NamespaceId,
    geometry: crate::geometry::Rect,
    constraints: crate::window::SurfaceConstraints,
    generation: u64,
)
    requires
        id.spec_is_valid(),
        surface.spec_is_valid(),
        namespace.spec_is_valid(),
    ensures
        ({
            let (m1, r) = spec_apply(
                m,
                XWindowLifecycleEvent::Created { id, surface, namespace, geometry, constraints, generation },
            );
            &&& r is Ok
            &&& m1.contains_key(id)
            &&& m1[id].map_state == XMapState::Unmapped
            &&& m1[id].parent == XResourceId::spec_root()
            &&& m1[id].geometry == geometry
            &&& m1[id].namespace == namespace
        }),
{
}

/// Unmapping a window leaves it unmapped, whatever state it was in.
pub proof fn law_unmapped_window_is_unmapped(m: WindowMap, id: XResourceId, generation: u64)
    requires
        m.contains_key(id),
    ensures
        ({
            let (m1, _) = spec_apply(m, XWindowLifecycleEvent::Unmapped { id, generation });
            m1.contains_key(id) && m1[id].map_state == XMapState::Unmapped
        }),
{
    let (m1, _) = spec_apply(m, XWindowLifecycleEvent::Unmapped { id, generation });
    if !(m[id].map_state == XMapState::Unmapped && !m[id].policy_map_pending) {
        let r = crate::window::XWindowRecord {
            policy_map_pending: false,
            map_state: XMapState::Unmapped,
            ..m[id]
        };
        let m0 = m.insert(id, r);
        assert(m1 == crate::window::spec_shift(m0, id, true));
        assert(m1[id] == crate::window::spec_shifted(m0, id, id, true));
    }
}

/// A destroyed window is gone, and none of the windows left names it as
/// its parent: its children move to the root.
pub proof fn law_destroyed_window_leaves_no_child(m: WindowMap, id: XResourceId, other: XResourceId)
    requires
        !id.spec_is_root(),
    ensures
        ({
            let (m1, r) = spec_apply(m, XWindowLifecycleEvent::Destroyed { id });
            &&& r is Ok
            &&& !m1.contains_key(id)
            &&& m1.contains_key(other) ==> m1[other].parent != id
            &&& m1.dom() == m.dom().remove(id)
        }),
{
    let (m1, _) = spec_apply(m, XWindowLifecycleEvent::Destroyed { id });
    assert(m1.dom() =~= m.dom().remove(id));
}

/// A configured window takes each coordinate and extent the request names
/// and keeps the others.
pub proof fn law_configure_reads_back(
    m: WindowMap,
    id: XResourceId,
    x: Option<i16>,
    y: Option<i16>,
    width: Option<u16>,
    height: Option<u16>,
    generation: u64,
)
    requires
        m.contains_key(id),
    ensures
        ({
            let (m1, r) = spec_apply(
                m,
                XWindowLifecycleEvent::Configured { id, x, y, width, height, generation },
            );
            &&& r is Ok
            &&& m1[id].geometry.x == (match x {
                Some(v) => v as i32,
                None => m[id].geometry.x,
            })
            &&& m1[id].geometry.width == (match width {
                Some(v) => v as i32,
                None => m[id].geometry.width,
            })
            &&& m1[id].geometry.y == (match y {
                Some(v) => v as i32,
                None => m[id].geometry.y,
            })
            &&& m1[id].geometry.height == (match height {
                Some(v) => v as i32,
                None => m[id].geometry.height,
            })
            &&& m1[id].map_state == m[id].map_state
            &&& m1.dom() == m.dom()
        }),
{
    let (m1, _) = spec_apply(
        m,
        XWindowLifecycleEvent::Configured { id, x, y, width, height, generation },
    );
    assert(m1.dom() =~= m.dom());
}


/// A raster function written through a full plane mask is the function's
/// result; through an empty mask the destination is left as it was.
pub proof fn law_plane_mask_bounds_raster_function(source: u32, destination: u32, function: u8)
    ensures
        (spec_raster_function(source, destination, function) & u32::MAX) | (destination & !u32::MAX)
            == spec_raster_function(source, destination, function),
        (spec_raster_function(source, destination, function) & 0) | (destination & !0u32) == destination,
{
    let v = spec_raster_function(source, destination, function);
    assert((v & u32::MAX) | (destination & !u32::MAX) == v) by (bit_vector);
    assert((v & 0) | (destination & !0u32) == destination) by (bit_vector);
}

/// Scaling by an opaque factor keeps a channel; by zero, clears it.
pub proof fn law_mul_div_255_identities(value: u8)
    ensures
        spec_mul_div_255(value, 255) == value,
        spec_mul_div_255(value, 0) == 0,
{
    assert((value * 255 + 127) / 255 == value) by (nonlinear_arith)
        requires
            0 <= value <= 255,
    ;
}

/// `Src` gives the source pixel, `Dst` keeps the destination and `Clear`
/// gives zero, channel by channel.
pub proof fn law_blend_src_dst_clear(src: u8, dst: u8, src_alpha: u8, dst_alpha: u8)
    ensures
        spec_blend_channel(src, dst, spec_blend_factors(1, src_alpha, dst_alpha).0, spec_blend_factors(1, src_alpha, dst_alpha).1) == src,
        spec_blend_channel(src, dst, spec_blend_factors(2, src_alpha, dst_alpha).0, spec_blend_factors(2, src_alpha, dst_alpha).1) == dst,
        spec_blend_channel(src, dst, spec_blend_factors(0, src_alpha, dst_alpha).0, spec_blend_factors(0, src_alpha, dst_alpha).1) == 0,
{
    law_mul_div_255_identities(src);
    law_mul_div_255_identities(dst);
}


/// A decoded `CreatePixmap`, `CreateGC`, `OpenFont` or XFIXES
/// `CreateRegion` names its new id inside the client's range: decoding
/// refuses any other.
pub proof fn law_created_ids_stay_in_client_range(
    context: XWireClientContext,
    bytes: Seq<u8>,
    range: XWireClientResourceRange,
)
    requires
        context.resource_id_range == Some(range),
        bytes.len() >= 4,
        bytes[0] == crate::request::X_CREATE_PIXMAP || bytes[0] == crate::request::X_CREATE_GC
            || bytes[0] == crate::request::X_OPEN_FONT || (bytes[0]
            == crate::request::X_XFIXES_MAJOR_OPCODE && bytes[1]
            == crate::request::X_XFIXES_CREATE_REGION_MINOR_OPCODE),
    ensures
        spec_decode_request(context, bytes) is Ok ==> range.spec_owns(
            crate::wire::spec_u32_at(context.byte_order, bytes, 4),
        ),
        match spec_decode_request(context, bytes) {
            Ok(XWireRequestView::CreatePixmap { pixmap: id, .. }) => id == crate::request::spec_xid(
                crate::wire::spec_u32_at(context.byte_order, bytes, 4),
            ),
            Ok(XWireRequestView::CreateGraphicsContext { gc: id, .. }) => id
                == crate::request::spec_xid(crate::wire::spec_u32_at(context.byte_order, bytes, 4)),
            Ok(XWireRequestView::OpenFont { font: id, .. }) => id == crate::request::spec_xid(
                crate::wire::spec_u32_at(context.byte_order, bytes, 4),
            ),
            Ok(XWireRequestView::XfixesCreateRegion { region: id, .. }) => id
                == crate::request::spec_xid(crate::wire::spec_u32_at(context.byte_order, bytes, 4)),
            Ok(_) => false,
            Err(_) => true,
        },
{
}


/// Filling a rectangle leaves every byte of a pixel it does not write as it
/// was.
pub proof fn law_fill_touches_only_written_pixels(
    old: Seq<u8>,
    size: crate::geometry::Size,
    rect: crate::geometry::Rect,
    pixel: u32,
    gc: XGcValuesView,
    i: int,
)
    requires
        0 <= i < old.len(),
        size.width > 0,
        !spec_fill_writes(size, rect, gc, (i % (4 * size.width)) / 4, i / (4 * size.width)),
    ensures
        spec_filled(old, size, rect, pixel, gc)[i] == old[i],
{
}

/// Through `GXcopy` and every plane, a written pixel takes the fill value
/// whatever it held.
pub proof fn law_copy_fill_writes_the_value(source: u32, destination: u32, gc: XGcValuesView)
    requires
        gc.function == crate::gc::X_GX_COPY,
        gc.plane_mask == u32::MAX,
    ensures
        spec_gc_pixel(source, destination, gc) == source,
{
    assert((source & u32::MAX) | (destination & !u32::MAX) == source) by (bit_vector);
}


/// A line's walk starts on its first end point and finishes on its second,
/// so a drawn line covers both ends.
pub proof fn law_line_covers_both_ends(from: crate::software::XPoint, to: crate::software::XPoint)
    ensures
        crate::software::spec_line(from, to).len() >= 1,
        crate::software::spec_line(from, to)[0] == (from.x as int, from.y as int),
        crate::software::spec_line(from, to).last() == (to.x as int, to.y as int),
{
    let dx: int = if to.x >= from.x {
        to.x - from.x
    } else {
        from.x - to.x
    };
    let dd: int = if to.y >= from.y {
        to.y - from.y
    } else {
        from.y - to.y
    };
    let sx: int = if from.x < to.x {
        1
    } else {
        -1
    };
    let sy: int = if from.y < to.y {
        1
    } else {
        -1
    };
    assert(dd * dx == dx * dd) by (nonlinear_arith);
    crate::software::lemma_line_reaches_target(
        from.x as int,
        from.y as int,
        dx - dd,
        to.x as int,
        to.y as int,
        dx,
        dd,
        sx,
        sy,
        dx,
        dd,
        (dx + dd + 1) as nat,
    );
}


/// A packed patch of a buffer's rectangle, written over another copy of
/// the same shape, makes that copy agree with the buffer inside the
/// rectangle and leaves it as it was outside.
pub proof fn law_patch_reproduces_its_region(
    b: crate::software::store::XCpuBufferView,
    copy: Seq<u8>,
    rect: crate::geometry::Rect,
    i: int,
)
    requires
        b.size.width > 0,
        b.size.height > 0,
        b.bytes.len() == 4 * b.size.width * b.size.height,
        copy.len() == b.bytes.len(),
        crate::software::spec_clipped_bounds(b.size, rect) is Some,
        0 <= i < copy.len(),
    ensures
        ({
            let (l, t, r, bt) = crate::software::spec_clipped_bounds(b.size, rect)->Some_0;
            let region = crate::geometry::Rect { x: l as i32, y: t as i32, width: (r - l) as i32, height: (bt - t) as i32 };
            let packed = crate::software::update::spec_packed_bytes(b, l, t, r, bt);
            let stride = 4 * b.size.width;
            let x = (i % stride) / 4;
            let y = i / stride;
            crate::software::update::spec_patched(copy, b.size, region, packed)[i] == if l <= x < r && t <= y < bt {
                b.bytes[i]
            } else {
                copy[i]
            }
        }),
{
    let (l, t, r, bt) = crate::software::spec_clipped_bounds(b.size, rect)->Some_0;
    let w = b.size.width as int;
    let stride = 4 * w;
    let x = (i % stride) / 4;
    let y = i / stride;
    let row = 4 * (r - l);
    if l <= x < r && t <= y < bt {
        vstd::arithmetic::div_mod::lemma_fundamental_div_mod(i, stride);
        vstd::arithmetic::div_mod::lemma_mod_bound(i, stride);
        vstd::arithmetic::div_mod::lemma_fundamental_div_mod(i % stride, 4);
        vstd::arithmetic::div_mod::lemma_mod_bound(i % stride, 4);
        crate::software::lemma_pixel_of_byte(i, w, x, y);
        let k = (y - t) * row + 4 * (x - l) + i % 4;
        assert(0 <= 4 * (x - l) + i % 4 < row);
        assert(0 <= (y - t) * row) by (nonlinear_arith)
            requires
                y >= t,
                row > 0,
        ;
        vstd::arithmetic::div_mod::lemma_fundamental_div_mod_converse(k, row, y - t, 4 * (x - l) + i % 4);
        assert(k < row * (bt - t)) by (nonlinear_arith)
            requires
                k == (y - t) * row + 4 * (x - l) + i % 4,
                0 <= 4 * (x - l) + i % 4 < row,
                y - t < bt - t,
        ;
        assert((t + k / row) * stride + 4 * l + k % row == i) by (nonlinear_arith)
            requires
                k / row == y - t,
                k % row == 4 * (x - l) + i % 4,
                i == y * stride + 4 * x + i % 4,
        ;
    }
}


/// Merging a damage list for a patch batch keeps it within the bound
/// (when the bound is not zero) and covers every damaged rectangle, so the
/// patches carry every changed pixel.
pub proof fn law_coalesced_damage_covers_every_rectangle(rects: Seq<crate::geometry::Rect>, limit: int, i: int)
    requires
        0 <= i < rects.len(),
        rects.len() <= 0x8000,
        0 < limit,
        forall|k: int| 0 <= k < rects.len() ==> crate::software::update::spec_small_rect(#[trigger] rects[k]),
    ensures
        crate::software::update::spec_coalesced(rects, limit).len() <= limit,
        exists|k: int|
            0 <= k < crate::software::update::spec_coalesced(rects, limit).len()
                && crate::software::update::spec_covers(
                #[trigger] crate::software::update::spec_coalesced(rects, limit)[k],
                rects[i],
            ),
{
    crate::software::update::lemma_coalesced_covers(rects, limit, i);
    if !(rects.len() <= limit) {
        crate::software::update::lemma_groups_len(
            crate::software::update::spec_sorted(rects, rects.len() as int),
            rects.len() as int,
            limit,
            limit,
        );
    }
}


/// A patch batch that a presentation answers with, written patch by patch
/// over a copy of the presentation as it stood before the damage was
/// composed, leaves the copy byte for byte equal to the composed
/// presentation (for presentations up to 0x8000 pixels a side and damage
/// lists up to 0x8000 rectangles).
pub proof fn law_patch_batch_brings_a_copy_up_to_date(
    base: crate::software::store::XCpuBufferView,
    src: crate::software::store::XCpuBufferView,
    damage: Seq<crate::geometry::Rect>,
    ox: i32,
    oy: i32,
    shape: Option<Seq<crate::geometry::Rect>>,
)
    requires
        1 <= base.size.width <= 0x8000,
        1 <= base.size.height <= 0x8000,
        base.bytes.len() == 4 * base.size.width * base.size.height,
        damage.len() <= 0x8000,
    ensures
        ({
            let composed = crate::software::store::spec_present_composed(base, src, damage, ox, oy, shape);
            let landed = crate::software::store::spec_present_copies(
                base.bytes,
                base.size,
                src,
                damage,
                ox,
                oy,
                damage.len() as int,
            ).1;
            let list = crate::software::store::spec_patch_list(landed);
            crate::software::sync::spec_patches_applied(base.bytes, composed, list, list.len() as int)
                == composed.bytes
        }),
{
    let composed = crate::software::store::spec_present_composed(base, src, damage, ox, oy, shape);
    let landed = crate::software::store::spec_present_copies(
        base.bytes,
        base.size,
        src,
        damage,
        ox,
        oy,
        damage.len() as int,
    ).1;
    let list = crate::software::store::spec_patch_list(landed);
    let applied = crate::software::sync::spec_patches_applied(base.bytes, composed, list, list.len() as int);
    assert(4 * base.size.width * base.size.height >= 1) by (nonlinear_arith)
        requires
            base.size.width >= 1,
            base.size.height >= 1,
    ;
    crate::software::sync::lemma_patch_batch_syncs(base, src, damage, ox, oy, shape, 0);
    assert forall|i: int| 0 <= i < composed.bytes.len() implies #[trigger] applied[i] == composed.bytes[i] by {
        crate::software::sync::lemma_patch_batch_syncs(base, src, damage, ox, oy, shape, i);
    }
    assert(applied =~= composed.bytes);
}

/// A receiver follows a presentation: whatever update composing damage
/// into it answers with (the whole buffer, or a patch batch to a receiver
/// that holds the presentation as it stood before under its handle),
/// applying that update is not refused and leaves the receiver holding the
/// presentation as it now stands under its handle, every other buffer as
/// it was (for presentations up to 0x8000 pixels a side and damage lists
/// up to 0x8000 rectangles).
pub proof fn law_receiver_follows_the_presentation(
    base: crate::software::store::XCpuBufferView,
    src: crate::software::store::XCpuBufferView,
    damage: Seq<crate::geometry::Rect>,
    ox: i32,
    oy: i32,
    shape: Option<Seq<crate::geometry::Rect>>,
    update: crate::software::update::XAuthorityCpuBufferUpdate,
    receiver: Map<u64, crate::software::store::XCpuBufferView>,
)
    requires
        1 <= base.size.width <= 0x8000,
        1 <= base.size.height <= 0x8000,
        base.bytes.len() == 4 * base.size.width * base.size.height,
        damage.len() <= 0x8000,
        base.generation != u64::MAX,
        ({
            let composed = crate::software::store::spec_present_composed(base, src, damage, ox, oy, shape);
            let landed = crate::software::store::spec_present_copies(
                base.bytes,
                base.size,
                src,
                damage,
                ox,
                oy,
                damage.len() as int,
            ).1;
            let list = crate::software::store::spec_patch_list(landed);
            let done = crate::software::store::XCpuBufferView {
                generation: (composed.generation + 1) as u64,
                ..composed
            };
            match update {
                crate::software::update::XAuthorityCpuBufferUpdate::Replace(b) => b@ == done,
                crate::software::update::XAuthorityCpuBufferUpdate::PatchBatch(batch) => {
                    &&& !crate::software::store::spec_ships_whole(
                        false,
                        base.format != composed.format,
                        landed,
                        base.size,
                    )
                    &&& crate::software::store::spec_batch_carries(batch, done, list)
                    &&& receiver.contains_key(batch.handle)
                    &&& receiver[batch.handle] == base
                },
                crate::software::update::XAuthorityCpuBufferUpdate::Patch(_) => false,
            }
        }),
    ensures
        ({
            let composed = crate::software::store::spec_present_composed(base, src, damage, ox, oy, shape);
            let done = crate::software::store::XCpuBufferView {
                generation: (composed.generation + 1) as u64,
                ..composed
            };
            &&& crate::software::update::spec_update_error(receiver, update) is None
            &&& crate::software::update::spec_update_applied(receiver, update) == receiver.insert(done.handle, done)
        }),
{
    let composed = crate::software::store::spec_present_composed(base, src, damage, ox, oy, shape);
    let landed = crate::software::store::spec_present_copies(
        base.bytes,
        base.size,
        src,
        damage,
        ox,
        oy,
        damage.len() as int,
    ).1;
    let list = crate::software::store::spec_patch_list(landed);
    let done = crate::software::store::XCpuBufferView { generation: (composed.generation + 1) as u64, ..composed };
    match update {
        crate::software::update::XAuthorityCpuBufferUpdate::PatchBatch(batch) => {
            crate::software::sync::lemma_landed_len(base.bytes, base.size, src, damage, ox, oy, damage.len() as int);
            if landed.len() > crate::software::update::X_AUTHORITY_CPU_PATCH_BATCH_MAX_RECTS {
                crate::software::update::lemma_groups_len(
                    crate::software::update::spec_sorted(landed, landed.len() as int),
                    landed.len() as int,
                    crate::software::update::X_AUTHORITY_CPU_PATCH_BATCH_MAX_RECTS as int,
                    crate::software::update::X_AUTHORITY_CPU_PATCH_BATCH_MAX_RECTS as int,
                );
            }
            assert(list.len() <= crate::software::update::X_AUTHORITY_CPU_PATCH_BATCH_MAX_RECTS);
            crate::software::sync::lemma_batch_fits(done, batch, list, list.len() as int);
            crate::software::sync::lemma_batch_writes_the_patches(
                base.bytes,
                done,
                composed,
                batch,
                list,
                list.len() as int,
            );
            law_patch_batch_brings_a_copy_up_to_date(base, src, damage, ox, oy, shape);
            assert(base.format == composed.format);
            assert(receiver.insert(batch.handle, crate::software::store::XCpuBufferView {
                bytes: crate::software::update::spec_patches_written(
                    base.bytes,
                    base.size,
                    batch.patches@,
                    batch.patches@.len() as int,
                ),
                generation: batch.generation,
                ..base
            }) =~= receiver.insert(done.handle, done));
        },
        _ => {},
    }
}

/// Noting a change to an exported drawable leaves its damage list
/// covering no more bytes than the drawable holds, and (for drawables and
/// earlier damage within 0x8000 pixels a side) covering the change.
pub proof fn law_noted_export_damage_covers_the_change_within_the_drawable(
    rects: Seq<crate::geometry::Rect>,
    size: crate::geometry::Size,
    replaced: bool,
    rect: Option<crate::geometry::Rect>,
)
    requires
        crate::software::store::spec_export_list(rects),
        size.width >= 0,
        size.height >= 0,
    ensures
        ({
            let added = if replaced {
                Some(crate::software::exports::spec_full_rect(size))
            } else {
                match rect {
                    None => None,
                    Some(q) => crate::runtime::resources::spec_clipped_present_rect(size, q),
                }
            };
            let noted = crate::software::exports::spec_noted(rects, size, replaced, rect);
            &&& added is None ==> noted == rects
            &&& added is Some ==> crate::software::exports::spec_export_bytes(noted, noted.len() as int) <= size.width
                * size.height * 4
            &&& added is Some && size.width <= 0x8000 && size.height <= 0x8000 && (forall|k: int|
                0 <= k < rects.len() ==> crate::software::update::spec_small_rect(#[trigger] rects[k]))
                ==> exists|k: int|
                0 <= k < noted.len() && crate::software::update::spec_covers(#[trigger] noted[k], added->Some_0)
        }),
{
    let full = crate::software::exports::spec_full_rect(size);
    let added = if replaced {
        Some(full)
    } else {
        match rect {
            None => None,
            Some(q) => crate::runtime::resources::spec_clipped_present_rect(size, q),
        }
    };
    let noted = crate::software::exports::spec_noted(rects, size, replaced, rect);
    assert(0 <= size.width * size.height * 4) by (nonlinear_arith)
        requires
            size.width >= 0,
            size.height >= 0,
    ;
    match added {
        None => {},
        Some(r) => {
            let pushed = rects.push(r);
            let limit = crate::software::update::X_AUTHORITY_CPU_PATCH_BATCH_MAX_RECTS as int;
            let merged = if pushed.len() > limit {
                crate::software::update::spec_coalesced(pushed, limit)
            } else {
                pushed
            };
            let over = crate::software::exports::spec_export_bytes(merged, merged.len() as int) > size.width
                * size.height * 4;
            if over {
                assert(noted == seq![full]);
                assert(crate::software::exports::spec_export_bytes(noted, 0) == 0);
                assert(noted[0] == full);
            }
            if size.width <= 0x8000 && size.height <= 0x8000 && (forall|k: int|
                0 <= k < rects.len() ==> crate::software::update::spec_small_rect(#[trigger] rects[k])) {
                if over {
                    assert(noted[0] == full);
                    assert(crate::software::update::spec_covers(noted[0], r));
                } else if pushed.len() > limit {
                    assert forall|k: int| 0 <= k < pushed.len() implies crate::software::update::spec_small_rect(
                        #[trigger] pushed[k],
                    ) by {
                        if k < rects.len() {
                            assert(pushed[k] == rects[k]);
                        }
                    }
                    crate::software::update::lemma_coalesced_covers(pushed, limit, pushed.len() - 1);
                } else {
                    assert(noted[pushed.len() - 1] == r);
                    assert(crate::software::update::spec_covers(noted[pushed.len() - 1], r));
                }
            }
        },
    }
}

/// A GLX pixmap answers the same attributes after its pixmap is freed as
/// before: freeing moves the backing under a private key that no pixmap
/// holds, rebinds the GLX pixmap to it, and keeps the pixmap's record with
/// the backing (as `free_pixmap` states when GLX pixmaps bind the pixmap).
pub proof fn law_glx_pixmap_attributes_survive_free(
    before: XAuthorityRuntime,
    after: XAuthorityRuntime,
    namespace: NamespaceId,
    pixmap: XResourceId,
    glx_pixmap: XResourceId,
    key: XResourceId,
)
    requires
        before.spec_own_glx_drawable(namespace, glx_pixmap) is Some,
        crate::runtime::retained::spec_bound_to(before.spec_own_glx_drawable(namespace, glx_pixmap)->Some_0, pixmap),
        before.pixmaps.view().contains_key(pixmap),
        after.pixmaps.view() == before.pixmaps.view().remove(pixmap),
        after.glx_drawables.view() == crate::runtime::retained::spec_rewired(before.glx_drawables.view(), pixmap, key),
        !after.pixmaps.view().contains_key(key),
        after.retained_pixmap_backings.view().contains_key(key),
        after.retained_pixmap_backings.view()[key].pixmap == before.pixmaps.view()[pixmap],
    ensures
        after.spec_glx_pixmap_attributes(namespace, glx_pixmap) == before.spec_glx_pixmap_attributes(
            namespace,
            glx_pixmap,
        ),
{
    assert(after.glx_drawables.view().contains_key(glx_pixmap));
}

/// A window's background pixel reads back the last one set since the
/// window was made: setting it stores the pixel under the window, other
/// windows keep theirs, and destroying the window forgets it, so a window
/// made later under the same id reads zero until one is set.
pub proof fn law_background_pixel_reads_back_the_last_set(
    pixels: Map<XResourceId, u32>,
    window: XResourceId,
    pixel: u32,
    other: XResourceId,
)
    ensures
        ({
            let set = pixels.insert(window, pixel);
            let read = |m: Map<XResourceId, u32>, w: XResourceId| if m.contains_key(w) {
                m[w]
            } else {
                0u32
            };
            &&& read(set, window) == pixel
            &&& other != window ==> read(set, other) == read(pixels, other)
            &&& read(set.remove(window), window) == 0
        }),
{
}

/// Whether `w` reaches `p` through the same windows in two tables that
/// differ only at `p`.
proof fn lemma_linked_ignores_target(
    m: WindowMap,
    m0: WindowMap,
    w: XResourceId,
    p: XResourceId,
    fuel: nat,
    viewable_only: bool,
)
    requires
        m0.dom() == m.dom(),
        forall|k: XResourceId| k != p && #[trigger] m.contains_key(k) ==> m0[k] == m[k],
        w != p,
    ensures
        crate::window::spec_linked(m0, w, p, fuel, viewable_only) == crate::window::spec_linked(
            m,
            w,
            p,
            fuel,
            viewable_only,
        ),
    decreases fuel,
{
    if m.contains_key(w) && fuel > 0 && m[w].parent != p {
        lemma_linked_ignores_target(m, m0, m[w].parent, p, (fuel - 1) as nat, viewable_only);
    }
}

/// Unmapping a window leaves none of the windows shown through it
/// viewable: every window that reached it through viewable windows becomes
/// unviewable.
pub proof fn law_unmap_hides_descendants(m: WindowMap, id: XResourceId, generation: u64, k: XResourceId)
    requires
        m.contains_key(id),
        m[id].map_state != XMapState::Unmapped || m[id].policy_map_pending,
        k != id,
        m.contains_key(k),
        crate::window::spec_linked(m, k, id, m.len(), true),
    ensures
        ({
            let (m1, _) = spec_apply(m, XWindowLifecycleEvent::Unmapped { id, generation });
            m1.contains_key(k) && m1[k].map_state == XMapState::Unviewable
        }),
{
    let r = crate::window::XWindowRecord { policy_map_pending: false, map_state: XMapState::Unmapped, ..m[id] };
    let m0 = m.insert(id, r);
    assert(m0.dom() =~= m.dom());
    lemma_linked_ignores_target(m, m0, k, id, m.len(), true);
    assert(m0.len() == m.len()) by {
        assert(m0.dom() =~= m.dom());
    }
    let (m1, _) = spec_apply(m, XWindowLifecycleEvent::Unmapped { id, generation });
    assert(m1 == crate::window::spec_shift(m0, id, true));
    assert(m0[k] == m[k]);
    assert(m[k].map_state == XMapState::Viewable);
    assert(m1[k] == crate::window::spec_shifted(m0, k, id, true));
}


/// Mapping a window under a viewable parent makes it viewable, and with it
/// every mapped window shown through it.
pub proof fn law_map_shows_descendants(m: WindowMap, id: XResourceId, generation: u64, k: XResourceId)
    requires
        m.contains_key(id),
        m[id].map_state == XMapState::Unmapped,
        crate::window::spec_parent_viewable(m, m[id].parent),
        k != id,
        m.contains_key(k),
        m[k].map_state == XMapState::Unviewable,
        crate::window::spec_linked(m, k, id, m.len(), false),
    ensures
        ({
            let (m1, _) = spec_apply(m, XWindowLifecycleEvent::Mapped { id, generation });
            &&& m1.contains_key(id) && m1[id].map_state == XMapState::Viewable
            &&& m1.contains_key(k) && m1[k].map_state == XMapState::Viewable
        }),
{
    let r = crate::window::XWindowRecord { policy_map_pending: false, map_state: XMapState::Viewable, ..m[id] };
    let m0 = m.insert(id, r);
    assert(m0.dom() =~= m.dom());
    lemma_linked_ignores_target(m, m0, k, id, m.len(), false);
    assert(m0.len() == m.len());
    let (m1, _) = spec_apply(m, XWindowLifecycleEvent::Mapped { id, generation });
    assert(m1 == crate::window::spec_shift(m0, id, false));
    assert(m0[k] == m[k]);
    assert(m1[k] == crate::window::spec_shifted(m0, k, id, false));
    assert(m1[id] == crate::window::spec_shifted(m0, id, id, false));
}

/// A core drawing changes only its window's buffer: every other drawable
/// keeps its buffer, the presentation buffers stay as they were, and so
/// does the rest of the runtime.
pub proof fn law_core_draw_touches_only_its_window(
    old: XAuthorityRuntime,
    new: XAuthorityRuntime,
    window: XResourceId,
    draw: spec_fn(crate::software::store::XCpuBufferView) -> Seq<u8>,
    painted: Option<crate::geometry::Rect>,
    other: XResourceId,
)
    requires
        crate::runtime::core_draw::spec_window_drawn(old, new, window, draw, painted),
        other != window,
    ensures
        new.software_buffers.buffers.view().contains_key(other) == old.software_buffers.buffers.view().contains_key(
            other,
        ),
        old.software_buffers.buffers.view().contains_key(other) ==> new.software_buffers.buffers.view()[other]
            == old.software_buffers.buffers.view()[other],
        new.software_buffers.presentations == old.software_buffers.presentations,
        new.windows == old.windows,
        new.resources == old.resources,
        new.pixmaps == old.pixmaps,
{
    let ob = old.software_buffers.buffers.view();
    let nb = new.software_buffers.buffers.view();
    if nb != ob {
        assert(nb.remove(window).contains_key(other) == nb.contains_key(other));
        assert(ob.remove(window).contains_key(other) == ob.contains_key(other));
        if ob.contains_key(other) {
            assert(nb.remove(window)[other] == nb[other]);
            assert(ob.remove(window)[other] == ob[other]);
        }
    }
}

proof fn lemma_clipped_present_rects_inside(size: crate::geometry::Size, rects: Seq<crate::geometry::Rect>, n: int, k: int)
    requires
        0 <= k < crate::runtime::resources::spec_clipped_present_rects(size, rects, n).len(),
    ensures
        ({
            let r = crate::runtime::resources::spec_clipped_present_rects(size, rects, n)[k];
            &&& 0 <= r.x && 0 <= r.y && 0 < r.width && 0 < r.height
            &&& r.x + r.width <= size.width && r.y + r.height <= size.height
        }),
    decreases n,
{
    if n > 0 {
        let before = crate::runtime::resources::spec_clipped_present_rects(size, rects, n - 1);
        if k < before.len() {
            lemma_clipped_present_rects_inside(size, rects, n - 1, k);
        }
    }
}

/// Every rectangle of a present's source damage lies inside the pixmap:
/// the update region's rectangles are clipped to it and those left without
/// area dropped; with no update region the damage is the whole pixmap.
pub proof fn law_present_source_damage_stays_in_the_pixmap(
    size: crate::geometry::Size,
    update: Option<Seq<crate::geometry::Rect>>,
    k: int,
)
    requires
        crate::runtime::resources::spec_present_source_damage(size, update) is Some,
        0 <= k < crate::runtime::resources::spec_present_source_damage(size, update)->Some_0.len(),
    ensures
        ({
            let r = crate::runtime::resources::spec_present_source_damage(size, update)->Some_0[k];
            &&& 0 <= r.x && 0 <= r.y
            &&& r.x + r.width <= size.width && r.y + r.height <= size.height
            &&& update is Some ==> 0 < r.width && 0 < r.height
        }),
{
    match update {
        Some(rects) => {
            lemma_clipped_present_rects_inside(size, rects, rects.len() as int, k);
        },
        None => {},
    }
}

/// The sixteen core raster functions, each by its bitwise formula over
/// the source and destination pixel: clear, and, andReverse, copy,
/// andInverted, noop, xor, or, nor, equiv, invert, orReverse,
/// copyInverted, orInverted, nand, set.
pub proof fn law_raster_functions_follow_their_formulas(s: u32, d: u32)
    ensures
        spec_raster_function(s, d, 0) == 0u32,
        spec_raster_function(s, d, 1) == s & d,
        spec_raster_function(s, d, 2) == s & !d,
        spec_raster_function(s, d, 3) == s,
        spec_raster_function(s, d, 4) == !s & d,
        spec_raster_function(s, d, 5) == d,
        spec_raster_function(s, d, 6) == s ^ d,
        spec_raster_function(s, d, 7) == s | d,
        spec_raster_function(s, d, 8) == !(s | d),
        spec_raster_function(s, d, 9) == !(s ^ d),
        spec_raster_function(s, d, 10) == !d,
        spec_raster_function(s, d, 11) == s | !d,
        spec_raster_function(s, d, 12) == !s,
        spec_raster_function(s, d, 13) == !s | d,
        spec_raster_function(s, d, 14) == !(s & d),
        spec_raster_function(s, d, 15) == 0xffff_ffffu32,
{
}

/// Each raster function's code is its truth table: bit `3 - (2 * s + d)`
/// of the code is the result where the source bit is `s` and the
/// destination bit `d`. So a result bit is set exactly
/// when the code's bit for that pair of input bits is.
pub proof fn law_raster_function_code_is_its_truth_table(s: u32, d: u32, function: u8, bit: u32)
    requires
        function < 16,
        bit < 32,
    ensures
        ((spec_raster_function(s, d, function) >> bit) & 1u32 == 1u32) == (((function as u32) >> (3u32 ^ (((s >> bit) & 1u32) << 1u32 | ((d
            >> bit) & 1u32)))) & 1u32 == 1u32),
{
    law_raster_functions_follow_their_formulas(s, d);
    let f = function as u32;
    let r = spec_raster_function(s, d, function);
    assert(f < 16u32 && bit < 32u32 && (f == 0u32 ==> r == 0u32) && (f == 1u32 ==> r == s & d) && (f == 2u32 ==> r
        == s & !d) && (f == 3u32 ==> r == s) && (f == 4u32 ==> r == !s & d) && (f == 5u32 ==> r == d) && (f == 6u32
        ==> r == s ^ d) && (f == 7u32 ==> r == s | d) && (f == 8u32 ==> r == !(s | d)) && (f == 9u32 ==> r == !(s
        ^ d)) && (f == 10u32 ==> r == !d) && (f == 11u32 ==> r == s | !d) && (f == 12u32 ==> r == !s) && (f == 13u32
        ==> r == !s | d) && (f == 14u32 ==> r == !(s & d)) && (f == 15u32 ==> r == 0xffff_ffffu32)
        ==> (((r >> bit) & 1u32 == 1u32) == ((f >> (3u32 ^ (((s >> bit) & 1u32) << 1u32 | ((d >> bit) & 1u32))))
        & 1u32 == 1u32))) by (bit_vector);
}

/// `ChangeGC` takes each attribute from the new values exactly when the
/// value mask carries that attribute's protocol bit (function 0x1,
/// plane-mask 0x2, foreground 0x4, background 0x8, line-width 0x10,
/// fill-style 0x100, font 0x4000, graphics-exposures 0x10000, clip
/// x-origin 0x20000, clip y-origin 0x40000, clip-mask 0x80000), and keeps
/// the old one otherwise; a clip mask drops the clip rectangles.
pub proof fn law_change_gc_follows_the_protocol_bits(cur: XGcValuesView, mask: u32, v: XGcValuesView)
    ensures
        ({
            let n = spec_changed_values(cur, mask, v);
            &&& n.function == if mask & 0x1 != 0 { v.function } else { cur.function }
            &&& n.plane_mask == if mask & 0x2 != 0 { v.plane_mask } else { cur.plane_mask }
            &&& n.foreground == if mask & 0x4 != 0 { v.foreground } else { cur.foreground }
            &&& n.background == if mask & 0x8 != 0 { v.background } else { cur.background }
            &&& n.line_width == if mask & 0x10 != 0 { v.line_width } else { cur.line_width }
            &&& n.fill_style == if mask & 0x100 != 0 { v.fill_style } else { cur.fill_style }
            &&& n.font == if mask & 0x4000 != 0 { v.font } else { cur.font }
            &&& n.graphics_exposures == if mask & 0x1_0000 != 0 { v.graphics_exposures } else { cur.graphics_exposures }
            &&& n.clip_x_origin == if mask & 0x2_0000 != 0 { v.clip_x_origin } else { cur.clip_x_origin }
            &&& n.clip_y_origin == if mask & 0x4_0000 != 0 { v.clip_y_origin } else { cur.clip_y_origin }
            &&& n.clip_mask == if mask & 0x8_0000 != 0 { v.clip_mask } else { cur.clip_mask }
            &&& n.clip_rectangles == if mask & 0x8_0000 != 0 { None } else { cur.clip_rectangles }
        }),
{
    assert(1u32 << 0u32 == 0x1u32 && 1u32 << 1u32 == 0x2u32 && 1u32 << 2u32 == 0x4u32 && 1u32 << 3u32 == 0x8u32
        && 1u32 << 4u32 == 0x10u32 && 1u32 << 8u32 == 0x100u32 && 1u32 << 14u32 == 0x4000u32 && 1u32 << 16u32
        == 0x1_0000u32 && 1u32 << 17u32 == 0x2_0000u32 && 1u32 << 18u32 == 0x4_0000u32 && 1u32 << 19u32
        == 0x8_0000u32) by (bit_vector);
}

/// A `QueryBestSize` request of the right length decodes to the class in
/// byte 1, the drawable in bytes 4..8, the width in bytes 8..10 and the
/// height in bytes 10..12, each read in the client's byte order.
pub proof fn law_query_best_size_reads_its_wire_fields(context: XWireClientContext, s: Seq<u8>)
    requires
        s.len() == 12,
        s[0] == 97,
        context.byte_order == XByteOrder::LittleEndian ==> s[2] == 3 && s[3] == 0,
        context.byte_order == XByteOrder::BigEndian ==> s[2] == 0 && s[3] == 3,
    ensures
        spec_decode_request(context, s) == Ok::<XWireRequestView, crate::wire::XWireParseError>(
            XWireRequestView::QueryBestSize {
                class: s[1],
                drawable: crate::request::spec_xid(
                    match context.byte_order {
                        XByteOrder::LittleEndian => (s[4] + 256 * s[5] + 65536 * s[6] + 16777216 * s[7]) as u32,
                        XByteOrder::BigEndian => (16777216 * s[4] + 65536 * s[5] + 256 * s[6] + s[7]) as u32,
                    },
                ),
                width: match context.byte_order {
                    XByteOrder::LittleEndian => (s[8] + 256 * s[9]) as u16,
                    XByteOrder::BigEndian => (256 * s[8] + s[9]) as u16,
                },
                height: match context.byte_order {
                    XByteOrder::LittleEndian => (s[10] + 256 * s[11]) as u16,
                    XByteOrder::BigEndian => (256 * s[10] + s[11]) as u16,
                },
            },
        ),
{
}

/// The Porter-Duff factors of each RENDER operator, on the 0..255 scale
/// (255 is one, `255 - a` is one minus alpha `a`): Clear (0, 0), Src
/// (1, 0), Dst (0, 1), Over (1, 1 - As), OverReverse (1 - Ad, 1), In
/// (Ad, 0), InReverse (0, As), Out (1 - Ad, 0), OutReverse (0, 1 - As),
/// Atop (Ad, 1 - As), AtopReverse (1 - Ad, As), Xor (1 - Ad, 1 - As), Add
/// (1, 1), Saturate (min(1, (1 - Ad) / As), 1); any other operator
/// leaves the destination (0, 1).
pub proof fn law_porter_duff_factors(sa: u8, da: u8)
    ensures
        spec_blend_factors(0, sa, da) == (0u8, 0u8),
        spec_blend_factors(1, sa, da) == (255u8, 0u8),
        spec_blend_factors(2, sa, da) == (0u8, 255u8),
        spec_blend_factors(3, sa, da) == (255u8, (255 - sa) as u8),
        spec_blend_factors(4, sa, da) == ((255 - da) as u8, 255u8),
        spec_blend_factors(5, sa, da) == (da, 0u8),
        spec_blend_factors(6, sa, da) == (0u8, sa),
        spec_blend_factors(7, sa, da) == ((255 - da) as u8, 0u8),
        spec_blend_factors(8, sa, da) == (0u8, (255 - sa) as u8),
        spec_blend_factors(9, sa, da) == (da, (255 - sa) as u8),
        spec_blend_factors(10, sa, da) == ((255 - da) as u8, sa),
        spec_blend_factors(11, sa, da) == ((255 - da) as u8, (255 - sa) as u8),
        spec_blend_factors(12, sa, da) == (255u8, 255u8),
        forall|op: u8| op > 13 ==> #[trigger] spec_blend_factors(op, sa, da) == (0u8, 255u8),
        spec_blend_factors(13, sa, da).1 == 255u8,
        sa == 0 ==> spec_blend_factors(13, sa, da).0 == 255u8,
        sa > 0 && (255 - da) * 255 / (sa as int) >= 255 ==> spec_blend_factors(13, sa, da).0 == 255u8,
        sa > 0 && (255 - da) * 255 / (sa as int) < 255 ==> spec_blend_factors(13, sa, da).0 == (255 - da) * 255
            / (sa as int),
{
}

/// `Add` sums source and destination, held at 255; `Over` with an opaque
/// source gives the source; `Clear` gives zero: channel by channel, for
/// every alpha.
pub proof fn law_add_sums_and_opaque_over_replaces(src: u8, dst: u8, sa: u8, da: u8)
    ensures
        ({
            let (fa, fb) = spec_blend_factors(12, sa, da);
            spec_blend_channel(src, dst, fa, fb) == if src + dst > 255 {
                255u8
            } else {
                (src + dst) as u8
            }
        }),
        ({
            let (fa, fb) = spec_blend_factors(3, 255, da);
            spec_blend_channel(src, dst, fa, fb) == src
        }),
        ({
            let (fa, fb) = spec_blend_factors(0, sa, da);
            spec_blend_channel(src, dst, fa, fb) == 0
        }),
{
    law_mul_div_255_identities(src);
    law_mul_div_255_identities(dst);
}

/// A SHAPE kind selects its own shape of a window: Bounding (0) the
/// bounding shape, Clip (1) the clip shape, Input (2) the input shape; and
/// what a window has stored for a kind is that field of its shape state.
pub proof fn law_shape_kinds_select_their_fields(
    state: crate::runtime::XWindowShapeState,
    rt: XAuthorityRuntime,
    window: XResourceId,
)
    ensures
        crate::runtime::shape::spec_shape_kind(state, 0) == state.bounding,
        crate::runtime::shape::spec_shape_kind(state, 1) == state.clip,
        crate::runtime::shape::spec_shape_kind(state, 2) == state.input,
        rt.window_shapes.view().contains_key(window) ==> {
            let st = rt.window_shapes.view()[window];
            &&& rt.spec_stored_shape(window, 1) == match st.clip {
                Some(v) => Some(v@),
                None => None::<Seq<crate::geometry::Rect>>,
            }
            &&& rt.spec_stored_shape(window, 2) == match st.input {
                Some(v) => Some(v@),
                None => None::<Seq<crate::geometry::Rect>>,
            }
            &&& rt.spec_stored_shape(window, 0) == match st.bounding {
                Some(v) => Some(v@),
                None => None::<Seq<crate::geometry::Rect>>,
            }
        },
        !rt.window_shapes.view().contains_key(window) ==> rt.spec_stored_shape(window, 1) is None,
{
}

/// A 16-bit value on the wire at `at`: low byte first from a
/// little-endian client, high byte first from a big-endian one.
pub open spec fn spec_wire16(order: XByteOrder, s: Seq<u8>, at: int) -> u16 {
    match order {
        XByteOrder::LittleEndian => (s[at] + 256 * s[at + 1]) as u16,
        XByteOrder::BigEndian => (256 * s[at] + s[at + 1]) as u16,
    }
}

/// A 32-bit value on the wire at `at`, in the client's byte order.
pub open spec fn spec_wire32(order: XByteOrder, s: Seq<u8>, at: int) -> u32 {
    match order {
        XByteOrder::LittleEndian => (s[at] + 256 * s[at + 1] + 65536 * s[at + 2] + 16777216 * s[at + 3]) as u32,
        XByteOrder::BigEndian => (16777216 * s[at] + 65536 * s[at + 1] + 256 * s[at + 2] + s[at + 3]) as u32,
    }
}

/// A core request of `words` four-byte units whose header names `opcode`
/// and that length.
pub open spec fn spec_core_request(order: XByteOrder, s: Seq<u8>, opcode: u8, words: int) -> bool {
    &&& s.len() == 4 * words
    &&& s[0] == opcode
    &&& spec_wire16(order, s, 2) == words
}

/// The fixed-size core requests decode to the fields their wire layout
/// puts at fixed offsets: `DeleteProperty` the window at 4 and the
/// property at 8; `QueryPointer`, `CloseFont`, `QueryFont`, `FreePixmap`,
/// `FreeGC` and `FreeColormap` their one id at 4; `CreatePixmap` the depth
/// in byte 1, the new pixmap at 4, the drawable at 8, the width at 12 and
/// the height at 14 (when the client may create that id);
/// `GetKeyboardControl` and `Bell` nothing.
pub proof fn law_core_requests_read_their_wire_fields(context: XWireClientContext, s: Seq<u8>)
    ensures
        ({
            let o = context.byte_order;
            let d = spec_decode_request(context, s);
            &&& spec_core_request(o, s, 19, 3) ==> d == Ok::<XWireRequestView, crate::wire::XWireParseError>(
                XWireRequestView::DeleteProperty {
                    window: crate::request::spec_xid(spec_wire32(o, s, 4)),
                    property: spec_wire32(o, s, 8),
                },
            )
            &&& spec_core_request(o, s, 38, 2) ==> d == Ok::<XWireRequestView, crate::wire::XWireParseError>(
                XWireRequestView::QueryPointer { window: crate::request::spec_xid(spec_wire32(o, s, 4)) },
            )
            &&& spec_core_request(o, s, 46, 2) ==> d == Ok::<XWireRequestView, crate::wire::XWireParseError>(
                XWireRequestView::CloseFont { font: crate::request::spec_xid(spec_wire32(o, s, 4)) },
            )
            &&& spec_core_request(o, s, 47, 2) ==> d == Ok::<XWireRequestView, crate::wire::XWireParseError>(
                XWireRequestView::QueryFont { font: crate::request::spec_xid(spec_wire32(o, s, 4)) },
            )
            &&& spec_core_request(o, s, 54, 2) ==> d == Ok::<XWireRequestView, crate::wire::XWireParseError>(
                XWireRequestView::FreePixmap { pixmap: crate::request::spec_xid(spec_wire32(o, s, 4)) },
            )
            &&& spec_core_request(o, s, 60, 2) ==> d == Ok::<XWireRequestView, crate::wire::XWireParseError>(
                XWireRequestView::FreeGraphicsContext { gc: crate::request::spec_xid(spec_wire32(o, s, 4)) },
            )
            &&& spec_core_request(o, s, 79, 2) ==> d == Ok::<XWireRequestView, crate::wire::XWireParseError>(
                XWireRequestView::FreeColormap { colormap: crate::request::spec_xid(spec_wire32(o, s, 4)) },
            )
            &&& spec_core_request(o, s, 103, 1) ==> d == Ok::<XWireRequestView, crate::wire::XWireParseError>(
                XWireRequestView::GetKeyboardControl,
            )
            &&& spec_core_request(o, s, 104, 1) ==> d == Ok::<XWireRequestView, crate::wire::XWireParseError>(
                XWireRequestView::Bell,
            )
            &&& spec_core_request(o, s, 53, 4) && (context.resource_id_range matches Some(range) ==> range.spec_owns(
                spec_wire32(o, s, 4),
            )) ==> d == Ok::<XWireRequestView, crate::wire::XWireParseError>(
                XWireRequestView::CreatePixmap {
                    depth: s[1],
                    pixmap: crate::request::spec_xid(spec_wire32(o, s, 4)),
                    drawable: crate::request::spec_xid(spec_wire32(o, s, 8)),
                    width: spec_wire16(o, s, 12),
                    height: spec_wire16(o, s, 14),
                },
            )
        }),
{
}

proof fn lemma_popcount_without_low_bits(mask: u32, n: nat)
    requires
        n <= 32,
        forall|j: u32| j < n ==> !(#[trigger] crate::render::spec_bit(mask, j)),
    ensures
        crate::render::spec_popcount_below(mask, n) == 0,
    decreases n,
{
    if n > 0 {
        lemma_popcount_without_low_bits(mask, (n - 1) as nat);
        assert(!crate::render::spec_bit(mask, (n - 1) as u32));
    }
}

proof fn lemma_single_bit_mask(k: u32)
    requires
        k < 32,
    ensures
        crate::render::spec_popcount_below(1u32 << k, k as nat) == 0,
        crate::render::spec_bit(1u32 << k, k),
        forall|j: u32| j < 32 && j != k ==> !(#[trigger] crate::render::spec_bit(1u32 << k, j)),
{
    assert(forall|j: u32| j < 32 && j != k ==> ((1u32 << k) >> j) & 1u32 != 1u32) by (bit_vector)
        requires
            k < 32,
    ;
    assert(((1u32 << k) >> k) & 1u32 == 1u32) by (bit_vector)
        requires
            k < 32,
    ;
    lemma_popcount_without_low_bits(1u32 << k, k as nat);
}

/// A `ChangeGC` or `CreateGC` value list with one attribute's bit set
/// carries that attribute's value as its one word, read in the client's
/// byte order: function 0x1, plane mask 0x2, foreground 0x4, background
/// 0x8, line width 0x10, fill style 0x100, font 0x4000 (zero naming none),
/// graphics exposures 0x10000 (non-zero is true), clip origins 0x20000 and
/// 0x40000, clip mask 0x80000; every other attribute keeps its default.
pub proof fn law_gc_value_list_single_attribute(order: XByteOrder, s: Seq<u8>)
    requires
        s.len() == 4,
    ensures
        ({
            let w = spec_wire32(order, s, 0);
            let d = crate::gc::spec_default_gc_values();
            &&& crate::request::spec_gc_values(order, s, 0x1).function == if w <= 255 { w as u8 } else { 255u8 }
            &&& crate::request::spec_gc_values(order, s, 0x2).plane_mask == w
            &&& crate::request::spec_gc_values(order, s, 0x4).foreground == w
            &&& crate::request::spec_gc_values(order, s, 0x4).background == d.background
            &&& crate::request::spec_gc_values(order, s, 0x8).background == w
            &&& crate::request::spec_gc_values(order, s, 0x8).foreground == d.foreground
            &&& crate::request::spec_gc_values(order, s, 0x10).line_width == if w <= 65535 { w as u16 } else { 65535u16 }
            &&& crate::request::spec_gc_values(order, s, 0x100).fill_style == if w <= 255 { w as u8 } else { 255u8 }
            &&& crate::request::spec_gc_values(order, s, 0x4000).font == if w == 0 {
                None
            } else {
                Some(crate::request::spec_xid(w))
            }
            &&& crate::request::spec_gc_values(order, s, 0x1_0000).graphics_exposures == (w != 0)
            &&& crate::request::spec_gc_values(order, s, 0x2_0000).clip_x_origin == w as u16 as i16
            &&& crate::request::spec_gc_values(order, s, 0x4_0000).clip_y_origin == w as u16 as i16
            &&& crate::request::spec_gc_values(order, s, 0x8_0000).clip_mask == if w == 0 {
                None
            } else {
                Some(crate::request::spec_xid(w))
            }
        }),
{
    assert(1u32 << 0u32 == 0x1u32 && 1u32 << 1u32 == 0x2u32 && 1u32 << 2u32 == 0x4u32 && 1u32 << 3u32 == 0x8u32
        && 1u32 << 4u32 == 0x10u32 && 1u32 << 8u32 == 0x100u32 && 1u32 << 14u32 == 0x4000u32 && 1u32 << 16u32
        == 0x1_0000u32 && 1u32 << 17u32 == 0x2_0000u32 && 1u32 << 18u32 == 0x4_0000u32 && 1u32 << 19u32
        == 0x8_0000u32) by (bit_vector);
    lemma_single_bit_mask(0);
    lemma_single_bit_mask(1);
    lemma_single_bit_mask(2);
    lemma_single_bit_mask(3);
    lemma_single_bit_mask(4);
    lemma_single_bit_mask(8);
    lemma_single_bit_mask(14);
    lemma_single_bit_mask(16);
    lemma_single_bit_mask(17);
    lemma_single_bit_mask(18);
    lemma_single_bit_mask(19);
}

/// An extension request of `words` four-byte units whose header names the
/// extension's `major` opcode, the `minor` request and that length.
pub open spec fn spec_extension_request(order: XByteOrder, s: Seq<u8>, major: u8, minor: u8, words: int) -> bool {
    &&& s.len() == 4 * words
    &&& s[0] == major
    &&& s[1] == minor
    &&& spec_wire16(order, s, 2) == words
}

/// The fixed-size SHAPE requests decode to the fields of their wire
/// layout: `ShapeMask` the operation in byte 4, the kind in 5, the window
/// at 8, the offsets at 12 and 14 and the source pixmap at 16 (zero naming
/// none); `ShapeCombine` the operation, the destination kind, the source
/// kind in 6, the destination window at 8, the offsets and the source
/// window at 16; `ShapeOffset` the kind in byte 4, the window at 8 and the
/// offsets; `QueryExtents` and `InputSelected` the window at 4;
/// `SelectInput` the window at 4 and whether byte 8 is non-zero;
/// `GetRectangles` the window at 4 and the kind in byte 8.
pub proof fn law_shape_requests_read_their_wire_fields(context: XWireClientContext, s: Seq<u8>)
    ensures
        ({
            let o = context.byte_order;
            let d = spec_decode_request(context, s);
            let at16 = |a: int| spec_wire16(o, s, a) as i16;
            let id = |a: int| crate::request::spec_xid(spec_wire32(o, s, a));
            &&& spec_extension_request(o, s, 145, 2, 5) ==> d == Ok::<
                XWireRequestView,
                crate::wire::XWireParseError,
            >(
                XWireRequestView::ShapeMask {
                    op: s[4],
                    kind: s[5],
                    destination: id(8),
                    x_offset: at16(12),
                    y_offset: at16(14),
                    source: if spec_wire32(o, s, 16) == 0 {
                        None
                    } else {
                        Some(id(16))
                    },
                },
            )
            &&& spec_extension_request(o, s, 145, 3, 5) ==> d == Ok::<
                XWireRequestView,
                crate::wire::XWireParseError,
            >(
                XWireRequestView::ShapeCombine {
                    op: s[4],
                    kind: s[5],
                    source_kind: s[6],
                    destination: id(8),
                    x_offset: at16(12),
                    y_offset: at16(14),
                    source: id(16),
                },
            )
            &&& spec_extension_request(o, s, 145, 4, 4) ==> d == Ok::<
                XWireRequestView,
                crate::wire::XWireParseError,
            >(XWireRequestView::ShapeOffset { kind: s[4], destination: id(8), x_offset: at16(12), y_offset: at16(14) })
            &&& spec_extension_request(o, s, 145, 5, 2) ==> d == Ok::<
                XWireRequestView,
                crate::wire::XWireParseError,
            >(XWireRequestView::ShapeQueryExtents { window: id(4) })
            &&& spec_extension_request(o, s, 145, 6, 3) ==> d == Ok::<
                XWireRequestView,
                crate::wire::XWireParseError,
            >(XWireRequestView::ShapeSelectInput { window: id(4), enable: s[8] != 0 })
            &&& spec_extension_request(o, s, 145, 7, 2) ==> d == Ok::<
                XWireRequestView,
                crate::wire::XWireParseError,
            >(XWireRequestView::ShapeInputSelected { window: id(4) })
            &&& spec_extension_request(o, s, 145, 8, 3) ==> d == Ok::<
                XWireRequestView,
                crate::wire::XWireParseError,
            >(XWireRequestView::ShapeGetRectangles { window: id(4), kind: s[8] })
        }),
{
}

/// `ShapeRectangles` with a whole number of rectangles decodes to the
/// operation, kind and ordering in bytes 4 to 6, the window at 8, the offsets at 12 and 14, and one rectangle
/// per eight bytes after the header: x and y signed at its start, width
/// and height unsigned after them.
#[verifier::rlimit(50)]
pub proof fn law_shape_rectangles_read_their_wire_fields(context: XWireClientContext, s: Seq<u8>, words: int)
    requires
        words >= 4,
        words % 2 == 0,
        spec_extension_request(context.byte_order, s, 145, 1, words),
    ensures
        ({
            let o = context.byte_order;
            match spec_decode_request(context, s) {
                Ok(XWireRequestView::ShapeRectangles { op, kind, ordering, destination, x_offset, y_offset, rectangles }) => {
                    &&& op == s[4] && kind == s[5] && ordering == s[6]
                    &&& destination == crate::request::spec_xid(spec_wire32(o, s, 8))
                    &&& x_offset == spec_wire16(o, s, 12) as i16
                    &&& y_offset == spec_wire16(o, s, 14) as i16
                    &&& rectangles.len() == (s.len() - 16) / 8
                    &&& forall|i: int|
                        0 <= i < rectangles.len() ==> #[trigger] rectangles[i] == (crate::geometry::Rect {
                            x: spec_wire16(o, s, 16 + 8 * i) as i16 as i32,
                            y: spec_wire16(o, s, 18 + 8 * i) as i16 as i32,
                            width: spec_wire16(o, s, 20 + 8 * i) as i32,
                            height: spec_wire16(o, s, 22 + 8 * i) as i32,
                        })
                },
                _ => false,
            }
        }),
{
    let o = context.byte_order;
    let sub = s.subrange(16, s.len() as int);
    assert(sub.len() % 8 == 0);
    let rects = crate::request::spec_rects(o, sub);
    assert(spec_decode_request(context, s) == crate::request::spec_decode_shape(context, s));
    assert(crate::request::spec_decode_shape(context, s) == Ok::<XWireRequestView, crate::wire::XWireParseError>(
        XWireRequestView::ShapeRectangles {
            op: s[4],
            kind: s[5],
            ordering: s[6],
            destination: crate::request::spec_xid(crate::wire::spec_u32_at(o, s, 8)),
            x_offset: crate::request::spec_i16_at(o, s, 12),
            y_offset: crate::request::spec_i16_at(o, s, 14),
            rectangles: rects,
        },
    ));
    assert forall|i: int| 0 <= i < rects.len() implies #[trigger] rects[i] == (crate::geometry::Rect {
        x: spec_wire16(o, s, 16 + 8 * i) as i16 as i32,
        y: spec_wire16(o, s, 18 + 8 * i) as i16 as i32,
        width: spec_wire16(o, s, 20 + 8 * i) as i32,
        height: spec_wire16(o, s, 22 + 8 * i) as i32,
    }) by {
        assert(8 * i + 7 < sub.len()) by (nonlinear_arith)
            requires
                0 <= i < sub.len() / 8,
                sub.len() % 8 == 0,
        ;
        assert(sub[8 * i] == s[16 + 8 * i]);
        assert(sub[8 * i + 1] == s[17 + 8 * i]);
        assert(sub[8 * i + 2] == s[18 + 8 * i]);
        assert(sub[8 * i + 3] == s[19 + 8 * i]);
        assert(sub[8 * i + 4] == s[20 + 8 * i]);
        assert(sub[8 * i + 5] == s[21 + 8 * i]);
        assert(sub[8 * i + 6] == s[22 + 8 * i]);
        assert(sub[8 * i + 7] == s[23 + 8 * i]);
    }
}

/// The fixed-size XFIXES region requests decode to the fields of their
/// wire layout: `QueryVersion` the client's versions at 4 and 8;
/// `SelectSelectionInput` the window at 4, the selection at 8 and the
/// event mask at 12; `DestroyRegion` and `FetchRegion` the region at 4;
/// `UnionRegion`, `IntersectRegion` and `SubtractRegion` the two sources
/// at 4 and 8 and the destination at 12; `CopyRegion` the source at 4
/// (both operands) and the destination at 8; `InvertRegion` the source at
/// 4, the bounds at 8 and the destination at 16; `TranslateRegion` the
/// region at 4 and the signed offsets at 8 and 10; `RegionExtents` the
/// source at 4 and the destination at 8.
#[verifier::rlimit(50)]
pub proof fn law_xfixes_requests_read_their_wire_fields(context: XWireClientContext, s: Seq<u8>)
    ensures
        ({
            let o = context.byte_order;
            let d = spec_decode_request(context, s);
            let w = |a: int| spec_wire32(o, s, a);
            let id = |a: int| crate::request::spec_xid(spec_wire32(o, s, a));
            &&& spec_extension_request(o, s, 139, 0, 3) ==> d == Ok::<
                XWireRequestView,
                crate::wire::XWireParseError,
            >(XWireRequestView::XfixesQueryVersion { major_version: w(4), minor_version: w(8) })
            &&& spec_extension_request(o, s, 139, 2, 4) ==> d == Ok::<
                XWireRequestView,
                crate::wire::XWireParseError,
            >(XWireRequestView::XfixesSelectSelectionInput { window: id(4), selection: w(8), event_mask: w(12) })
            &&& spec_extension_request(o, s, 139, 10, 2) ==> d == Ok::<
                XWireRequestView,
                crate::wire::XWireParseError,
            >(XWireRequestView::XfixesDestroyRegion { region: id(4) })
            &&& spec_extension_request(o, s, 139, 19, 2) ==> d == Ok::<
                XWireRequestView,
                crate::wire::XWireParseError,
            >(XWireRequestView::XfixesFetchRegion { region: id(4) })
            &&& (spec_extension_request(o, s, 139, 13, 4) || spec_extension_request(o, s, 139, 14, 4)
                || spec_extension_request(o, s, 139, 15, 4)) ==> d == Ok::<
                XWireRequestView,
                crate::wire::XWireParseError,
            >(XWireRequestView::XfixesCombineRegion { minor_opcode: s[1], source: id(4), other: id(8), destination: id(12) })
            &&& spec_extension_request(o, s, 139, 12, 3) ==> d == Ok::<
                XWireRequestView,
                crate::wire::XWireParseError,
            >(XWireRequestView::XfixesCombineRegion { minor_opcode: 12, source: id(4), other: id(4), destination: id(8) })
            &&& spec_extension_request(o, s, 139, 16, 5) ==> d == Ok::<
                XWireRequestView,
                crate::wire::XWireParseError,
            >(
                XWireRequestView::XfixesInvertRegion {
                    source: id(4),
                    bounds: crate::geometry::Rect {
                        x: spec_wire16(o, s, 8) as i16 as i32,
                        y: spec_wire16(o, s, 10) as i16 as i32,
                        width: spec_wire16(o, s, 12) as i32,
                        height: spec_wire16(o, s, 14) as i32,
                    },
                    destination: id(16),
                },
            )
            &&& spec_extension_request(o, s, 139, 17, 3) ==> d == Ok::<
                XWireRequestView,
                crate::wire::XWireParseError,
            >(
                XWireRequestView::XfixesTranslateRegion {
                    region: id(4),
                    dx: spec_wire16(o, s, 8) as i16 as i32,
                    dy: spec_wire16(o, s, 10) as i16 as i32,
                },
            )
            &&& spec_extension_request(o, s, 139, 18, 3) ==> d == Ok::<
                XWireRequestView,
                crate::wire::XWireParseError,
            >(XWireRequestView::XfixesRegionExtents { source: id(4), destination: id(8) })
        }),
{
}

/// The DRI3 requests decode to the fields of their wire layout:
/// `QueryVersion` the client's versions at 4 and 8; `Open` the drawable at
/// 4 and the provider at 8; `PixmapFromBuffer` the new pixmap at 4, the
/// drawable at 8, the buffer size at 12, width, height and stride at 16,
/// 18 and 20, depth and bits per pixel in bytes 22 and 23;
/// `FenceFromFD` the drawable at 4, the new fence at 8 and whether byte 12
/// is non-zero; `GetSupportedModifiers` the window at 4, depth and bits
/// per pixel in bytes 8 and 9; `PixmapFromBuffers` the new pixmap at 4,
/// the window at 8, the plane count in byte 12, width and height at 16 and
/// 18, each plane's stride and offset in turn from 20, depth and bits per
/// pixel in bytes 52 and 53 and the modifier at 56; `BufferFromPixmap` and
/// `BuffersFromPixmap` the pixmap at 4. New ids must be the client's.
#[verifier::rlimit(50)]
pub proof fn law_dri3_requests_read_their_wire_fields(context: XWireClientContext, s: Seq<u8>)
    ensures
        ({
            let o = context.byte_order;
            let d = spec_decode_request(context, s);
            let w = |a: int| spec_wire32(o, s, a);
            let id = |a: int| crate::request::spec_xid(spec_wire32(o, s, a));
            let owns = |a: int| context.resource_id_range matches Some(range) ==> range.spec_owns(spec_wire32(o, s, a));
            &&& spec_extension_request(o, s, 137, 0, 3) ==> d == Ok::<
                XWireRequestView,
                crate::wire::XWireParseError,
            >(XWireRequestView::Dri3QueryVersion { major_version: w(4), minor_version: w(8) })
            &&& spec_extension_request(o, s, 137, 1, 3) ==> d == Ok::<
                XWireRequestView,
                crate::wire::XWireParseError,
            >(XWireRequestView::Dri3Open { drawable: id(4), provider: w(8) })
            &&& spec_extension_request(o, s, 137, 2, 6) && owns(4) ==> d == Ok::<
                XWireRequestView,
                crate::wire::XWireParseError,
            >(
                XWireRequestView::Dri3PixmapFromBuffer {
                    pixmap: id(4),
                    drawable: id(8),
                    size_bytes: w(12),
                    width: spec_wire16(o, s, 16),
                    height: spec_wire16(o, s, 18),
                    stride: spec_wire16(o, s, 20),
                    depth: s[22],
                    bits_per_pixel: s[23],
                },
            )
            &&& spec_extension_request(o, s, 137, 4, 4) && owns(8) ==> d == Ok::<
                XWireRequestView,
                crate::wire::XWireParseError,
            >(XWireRequestView::Dri3FenceFromFd { drawable: id(4), fence: id(8), initially_triggered: s[12] != 0 })
            &&& spec_extension_request(o, s, 137, 6, 3) ==> d == Ok::<
                XWireRequestView,
                crate::wire::XWireParseError,
            >(XWireRequestView::Dri3GetSupportedModifiers { window: id(4), depth: s[8], bits_per_pixel: s[9] })
            &&& spec_extension_request(o, s, 137, 7, 16) && owns(4) && 1 <= s[12] <= 4 ==> d == Ok::<
                XWireRequestView,
                crate::wire::XWireParseError,
            >(
                XWireRequestView::Dri3PixmapFromBuffers {
                    pixmap: id(4),
                    window: id(8),
                    num_buffers: s[12],
                    width: spec_wire16(o, s, 16),
                    height: spec_wire16(o, s, 18),
                    strides: seq![w(20), w(28), w(36), w(44)],
                    offsets: seq![w(24), w(32), w(40), w(48)],
                    depth: s[52],
                    bits_per_pixel: s[53],
                    modifier: match o {
                        XByteOrder::LittleEndian => (w(56) + 0x1_0000_0000 * w(60)) as u64,
                        XByteOrder::BigEndian => (0x1_0000_0000 * w(56) + w(60)) as u64,
                    },
                },
            )
            &&& spec_extension_request(o, s, 137, 3, 2) ==> d == Ok::<
                XWireRequestView,
                crate::wire::XWireParseError,
            >(XWireRequestView::Dri3BufferFromPixmap { pixmap: id(4) })
            &&& spec_extension_request(o, s, 137, 8, 2) ==> d == Ok::<
                XWireRequestView,
                crate::wire::XWireParseError,
            >(XWireRequestView::Dri3BuffersFromPixmap { pixmap: id(4) })
        }),
{
}

/// The fixed-size RENDER requests decode to the fields of their wire
/// layout: `QueryVersion` the client's versions at 4 and 8;
/// `FreePicture`, `FreeGlyphSet` and `QueryFilters` their id at 4;
/// `Composite` the operator in byte 4, source, mask (zero naming none) and
/// destination at 8, 12 and 16, the signed source, mask and destination
/// origins from 20 and the unsigned width and height at 32 and 34;
/// `CreateGlyphSet` the new set at 4 and the format at 8;
/// `ReferenceGlyphSet` the new set at 4 and the existing one at 8;
/// `CreateCursor` the new cursor at 4, the source at 8 and the hotspot at
/// 12 and 14; `CreateSolidFill` the new picture at 4 and the colour's red,
/// green, blue and alpha from 8. New ids must be the client's.
#[verifier::rlimit(80)]
pub proof fn law_render_requests_read_their_wire_fields(context: XWireClientContext, s: Seq<u8>)
    ensures
        ({
            let o = context.byte_order;
            let d = spec_decode_request(context, s);
            let w = |a: int| spec_wire32(o, s, a);
            let h = |a: int| spec_wire16(o, s, a);
            let id = |a: int| crate::request::spec_xid(spec_wire32(o, s, a));
            let owns = |a: int| context.resource_id_range matches Some(range) ==> range.spec_owns(spec_wire32(o, s, a));
            &&& spec_extension_request(o, s, 144, 0, 3) ==> d == Ok::<
                XWireRequestView,
                crate::wire::XWireParseError,
            >(XWireRequestView::RenderQueryVersion { major: w(4), minor: w(8) })
            &&& spec_extension_request(o, s, 144, 7, 2) ==> d == Ok::<
                XWireRequestView,
                crate::wire::XWireParseError,
            >(XWireRequestView::RenderFreePicture { picture: id(4) })
            &&& spec_extension_request(o, s, 144, 19, 2) ==> d == Ok::<
                XWireRequestView,
                crate::wire::XWireParseError,
            >(XWireRequestView::RenderFreeGlyphSet { glyphset: id(4) })
            &&& spec_extension_request(o, s, 144, 29, 2) ==> d == Ok::<
                XWireRequestView,
                crate::wire::XWireParseError,
            >(XWireRequestView::RenderQueryFilters { drawable: id(4) })
            &&& spec_extension_request(o, s, 144, 8, 9) ==> d == Ok::<
                XWireRequestView,
                crate::wire::XWireParseError,
            >(
                XWireRequestView::RenderComposite {
                    op: s[4],
                    source: id(8),
                    mask: if w(12) == 0 {
                        None
                    } else {
                        Some(id(12))
                    },
                    destination: id(16),
                    source_x: h(20) as i16,
                    source_y: h(22) as i16,
                    mask_x: h(24) as i16,
                    mask_y: h(26) as i16,
                    destination_x: h(28) as i16,
                    destination_y: h(30) as i16,
                    width: h(32),
                    height: h(34),
                },
            )
            &&& spec_extension_request(o, s, 144, 17, 3) && owns(4) ==> d == Ok::<
                XWireRequestView,
                crate::wire::XWireParseError,
            >(XWireRequestView::RenderCreateGlyphSet { glyphset: id(4), format: w(8) })
            &&& spec_extension_request(o, s, 144, 18, 3) && owns(4) ==> d == Ok::<
                XWireRequestView,
                crate::wire::XWireParseError,
            >(XWireRequestView::RenderReferenceGlyphSet { glyphset: id(4), existing: id(8) })
            &&& spec_extension_request(o, s, 144, 27, 4) && owns(4) ==> d == Ok::<
                XWireRequestView,
                crate::wire::XWireParseError,
            >(XWireRequestView::RenderCreateCursor { cursor: id(4), source: id(8), hotspot_x: h(12), hotspot_y: h(14) })
            &&& spec_extension_request(o, s, 144, 33, 4) && owns(4) ==> d == Ok::<
                XWireRequestView,
                crate::wire::XWireParseError,
            >(XWireRequestView::RenderCreateSolidFill { picture: id(4), color: seq![h(8), h(10), h(12), h(14)] })
        }),
{
}

/// `FillRectangles` with a whole number of rectangles decodes to the
/// operator in byte 4, the destination picture at 8, the colour's red,
/// green, blue and alpha from 12, and one rectangle per eight bytes after
/// the header: x and y signed, width and height unsigned.
#[verifier::rlimit(80)]
pub proof fn law_render_fill_rectangles_read_their_wire_fields(context: XWireClientContext, s: Seq<u8>, words: int)
    requires
        words >= 5,
        (words - 5) % 2 == 0,
        spec_extension_request(context.byte_order, s, 144, 26, words),
    ensures
        ({
            let o = context.byte_order;
            match spec_decode_request(context, s) {
                Ok(XWireRequestView::RenderFillRectangles { op, picture, color, rectangles }) => {
                    &&& op == s[4]
                    &&& picture == crate::request::spec_xid(spec_wire32(o, s, 8))
                    &&& color == seq![spec_wire16(o, s, 12), spec_wire16(o, s, 14), spec_wire16(o, s, 16), spec_wire16(o, s, 18)]
                    &&& rectangles.len() == (s.len() - 20) / 8
                    &&& forall|i: int|
                        0 <= i < rectangles.len() ==> #[trigger] rectangles[i] == (crate::geometry::Rect {
                            x: spec_wire16(o, s, 20 + 8 * i) as i16 as i32,
                            y: spec_wire16(o, s, 22 + 8 * i) as i16 as i32,
                            width: spec_wire16(o, s, 24 + 8 * i) as i32,
                            height: spec_wire16(o, s, 26 + 8 * i) as i32,
                        })
                },
                _ => false,
            }
        }),
{
    let o = context.byte_order;
    let sub = s.subrange(20, s.len() as int);
    assert(sub.len() % 8 == 0);
    let rects = crate::request::spec_rects(o, sub);
    assert(spec_decode_request(context, s) == crate::request::spec_decode_render(context, s));
    assert(crate::request::spec_decode_render_simple(context, s) == Some(Ok::<XWireRequestView, crate::wire::XWireParseError>(
        XWireRequestView::RenderFillRectangles {
            op: s[4],
            picture: crate::request::spec_xid(crate::wire::spec_u32_at(o, s, 8)),
            color: seq![
                crate::wire::spec_u16_at(o, s, 12),
                crate::wire::spec_u16_at(o, s, 14),
                crate::wire::spec_u16_at(o, s, 16),
                crate::wire::spec_u16_at(o, s, 18),
            ],
            rectangles: rects,
        },
    )));
    assert forall|i: int| 0 <= i < rects.len() implies #[trigger] rects[i] == (crate::geometry::Rect {
        x: spec_wire16(o, s, 20 + 8 * i) as i16 as i32,
        y: spec_wire16(o, s, 22 + 8 * i) as i16 as i32,
        width: spec_wire16(o, s, 24 + 8 * i) as i32,
        height: spec_wire16(o, s, 26 + 8 * i) as i32,
    }) by {
        assert(8 * i + 7 < sub.len()) by (nonlinear_arith)
            requires
                0 <= i < sub.len() / 8,
                sub.len() % 8 == 0,
        ;
        assert(sub[8 * i] == s[20 + 8 * i]);
        assert(sub[8 * i + 1] == s[21 + 8 * i]);
        assert(sub[8 * i + 2] == s[22 + 8 * i]);
        assert(sub[8 * i + 3] == s[23 + 8 * i]);
        assert(sub[8 * i + 4] == s[24 + 8 * i]);
        assert(sub[8 * i + 5] == s[25 + 8 * i]);
        assert(sub[8 * i + 6] == s[26 + 8 * i]);
        assert(sub[8 * i + 7] == s[27 + 8 * i]);
    }
}

/// A context's clip rectangles, moved by its clip origin, hold exactly
/// the pixels some rectangle covers (each rectangle's edges inside the
/// coordinate range); with no clip list every pixel is held.
pub proof fn law_clip_holds_exactly_the_covered_pixels(x: int, y: int, gc: XGcValuesView)
    requires
        0 <= x <= i32::MAX,
        0 <= y <= i32::MAX,
        gc.clip_rectangles matches Some(rs) ==> forall|i: int|
            0 <= i < rs.len() ==> {
                let r = #[trigger] rs[i];
                &&& i32::MIN <= r.x + gc.clip_x_origin <= i32::MAX
                &&& i32::MIN <= r.y + gc.clip_y_origin <= i32::MAX
                &&& r.x + gc.clip_x_origin + r.width <= i32::MAX
                &&& r.y + gc.clip_y_origin + r.height <= i32::MAX
                &&& r.x + gc.clip_x_origin + r.width >= i32::MIN
                &&& r.y + gc.clip_y_origin + r.height >= i32::MIN
            },
    ensures
        gc.clip_rectangles is None ==> crate::software::spec_pixel_in_clip(x, y, gc),
        gc.clip_rectangles matches Some(rs) ==> (crate::software::spec_pixel_in_clip(x, y, gc) <==> exists|i: int|
            0 <= i < rs.len() && {
                let r = #[trigger] rs[i];
                &&& r.x + gc.clip_x_origin <= x < r.x + gc.clip_x_origin + r.width
                &&& r.y + gc.clip_y_origin <= y < r.y + gc.clip_y_origin + r.height
            }),
{
    if let Some(rs) = gc.clip_rectangles {
        assert forall|i: int| 0 <= i < rs.len() implies crate::raster::spec_in_clip_rect(
            x,
            y,
            #[trigger] rs[i],
            gc.clip_x_origin as int,
            gc.clip_y_origin as int,
        ) == ({
            let r = rs[i];
            &&& r.x + gc.clip_x_origin <= x < r.x + gc.clip_x_origin + r.width
            &&& r.y + gc.clip_y_origin <= y < r.y + gc.clip_y_origin + r.height
        }) by {}
    }
}

proof fn lemma_child_on_path_is_a_child(
    rt: XAuthorityRuntime,
    namespace: NamespaceId,
    window: XResourceId,
    cand: XResourceId,
    fuel: nat,
)
    ensures
        ({
            let c = rt.spec_child_on_path(namespace, window, cand, fuel);
            let m = rt.windows.view();
            c == XResourceId::spec_none() || (m.contains_key(c) && m[c].parent == window && m[c].namespace
                == namespace && m[c].map_state == XMapState::Viewable)
        }),
    decreases fuel,
{
    let m = rt.windows.view();
    if fuel == 0 || !m.contains_key(cand) || m[cand].namespace != namespace || m[cand].map_state
        != XMapState::Viewable {
    } else if m[cand].parent == window {
    } else if m[cand].parent == XResourceId::spec_root() {
    } else {
        lemma_child_on_path_is_a_child(rt, namespace, window, m[cand].parent, (fuel - 1) as nat);
    }
}

/// `QueryPointer` passes the button and modifier mask through and reports
/// the pointer's root position; with no pointer it reports zeros and no
/// child; on the root window the window position is the root position; and
/// the child it names, when it names one, is a viewable child of the
/// queried window in the client's namespace.
pub proof fn law_query_pointer_answers(
    rt: XAuthorityRuntime,
    namespace: NamespaceId,
    window: XResourceId,
    state: crate::runtime::pointer::XPointerQueryState,
)
    ensures
        rt.spec_query_pointer(namespace, window, state) matches Ok(q) ==> {
            let m = rt.windows.view();
            &&& q.mask == state.mask
            &&& state.position is None ==> q.root_x == 0 && q.root_y == 0 && q.win_x == 0 && q.win_y == 0
                && q.child == XResourceId::spec_none()
            &&& state.position matches Some(p) ==> q.root_x == p.root_x && q.root_y == p.root_y
            &&& (state.position is Some && window == XResourceId::spec_root()) ==> q.win_x
                == state.position->Some_0.root_x && q.win_y == state.position->Some_0.root_y
            &&& q.child == XResourceId::spec_none() || (m.contains_key(q.child) && m[q.child].parent == window
                && m[q.child].namespace == namespace && m[q.child].map_state == XMapState::Viewable)
        },
{
    if let Some(p) = state.position {
        let (lx, ly) = rt.spec_logical_pointer(namespace, p);
        let deepest = rt.spec_deepest(namespace, p.surface_window, lx, ly, crate::runtime::pointer::X_POINTER_QUERY_DEPTH as nat);
        lemma_child_on_path_is_a_child(rt, namespace, window, deepest, crate::runtime::pointer::X_POINTER_QUERY_DEPTH as nat);
    }
}

/// The fixed-size GLX requests decode to the fields of their wire layout:
/// `QueryVersion` the client's versions at 4 and 8; `GetVisualConfigs` and
/// `GetFBConfigs` the screen at 4; `QueryServerString` the name at 8;
/// `CreateContext` the new context at 4, the visual at 8, the screen at
/// 12, the share list at 16 (zero naming none) and whether byte 20 is
/// non-zero; `CreateNewContext` the same with the FB config at 8, the share
/// list at 20 and the direct flag in byte 24; `MakeCurrent` the drawable
/// and context at 4 and 8 (zero naming none) and the old tag at 12;
/// `MakeContextCurrent` the drawable at 8, the read drawable at 12 and the
/// context at 16; `CreateGLXPixmap` the screen, visual, pixmap and new GLX
/// pixmap at 4, 8, 12 and 16; `CreateWindow` with no attributes the
/// screen, FB config, window and new GLX window at 4, 8, 12 and 16; and
/// the one-id requests their id at 4. New ids must be the client's.
#[verifier::rlimit(100)]
pub proof fn law_glx_requests_read_their_wire_fields(context: XWireClientContext, s: Seq<u8>)
    ensures
        ({
            let o = context.byte_order;
            let d = spec_decode_request(context, s);
            let w = |a: int| spec_wire32(o, s, a);
            let id = |a: int| crate::request::spec_xid(spec_wire32(o, s, a));
            let opt = |a: int| if spec_wire32(o, s, a) == 0 {
                None
            } else {
                Some(crate::request::spec_xid(spec_wire32(o, s, a)))
            };
            let owns = |a: int| context.resource_id_range matches Some(range) ==> range.spec_owns(spec_wire32(o, s, a));
            let ok = |v: XWireRequestView| d == Ok::<XWireRequestView, crate::wire::XWireParseError>(v);
            &&& spec_extension_request(o, s, 140, 7, 3) ==> ok(
                XWireRequestView::GlxQueryVersion { major_version: w(4), minor_version: w(8) },
            )
            &&& spec_extension_request(o, s, 140, 14, 2) ==> ok(XWireRequestView::GlxGetVisualConfigs { screen: w(4) })
            &&& spec_extension_request(o, s, 140, 21, 2) ==> ok(XWireRequestView::GlxGetFbConfigs { screen: w(4) })
            &&& spec_extension_request(o, s, 140, 19, 3) ==> ok(XWireRequestView::GlxQueryServerString { name: w(8) })
            &&& spec_extension_request(o, s, 140, 3, 6) && owns(4) ==> ok(
                XWireRequestView::GlxCreateContext {
                    context: id(4),
                    config: crate::wire::XGlxContextConfig::Visual(w(8)),
                    screen: w(12),
                    share: opt(16),
                    direct: s[20] != 0,
                },
            )
            &&& spec_extension_request(o, s, 140, 24, 7) && owns(4) ==> ok(
                XWireRequestView::GlxCreateContext {
                    context: id(4),
                    config: crate::wire::XGlxContextConfig::FbConfig(w(8)),
                    screen: w(12),
                    share: opt(20),
                    direct: s[24] != 0,
                },
            )
            &&& spec_extension_request(o, s, 140, 4, 2) ==> ok(XWireRequestView::GlxDestroyContext { context: id(4) })
            &&& spec_extension_request(o, s, 140, 5, 4) ==> ok(
                XWireRequestView::GlxMakeCurrent { drawable: opt(4), context: opt(8), old_context_tag: w(12) },
            )
            &&& spec_extension_request(o, s, 140, 6, 2) ==> ok(XWireRequestView::GlxIsDirect { context: id(4) })
            &&& spec_extension_request(o, s, 140, 26, 5) ==> ok(
                XWireRequestView::GlxMakeContextCurrent { drawable: id(8), read_drawable: id(12), context: opt(16) },
            )
            &&& spec_extension_request(o, s, 140, 13, 5) && owns(16) ==> ok(
                XWireRequestView::GlxCreateGlxPixmap { screen: w(4), visual: w(8), pixmap: id(12), glx_pixmap: id(16) },
            )
            &&& spec_extension_request(o, s, 140, 31, 6) && w(20) == 0 && owns(16) ==> ok(
                XWireRequestView::GlxCreateWindow { screen: w(4), fbconfig: w(8), window: id(12), glx_window: id(16) },
            )
            &&& spec_extension_request(o, s, 140, 15, 2) ==> ok(
                XWireRequestView::GlxDestroyPixmap { minor_opcode: 15, glx_pixmap: id(4) },
            )
            &&& spec_extension_request(o, s, 140, 23, 2) ==> ok(
                XWireRequestView::GlxDestroyPixmap { minor_opcode: 23, glx_pixmap: id(4) },
            )
            &&& spec_extension_request(o, s, 140, 28, 2) ==> ok(XWireRequestView::GlxDestroyPbuffer { pbuffer: id(4) })
            &&& spec_extension_request(o, s, 140, 25, 2) ==> ok(XWireRequestView::GlxQueryContext { context: id(4) })
            &&& spec_extension_request(o, s, 140, 32, 2) ==> ok(XWireRequestView::GlxDeleteWindow { glx_window: id(4) })
            &&& spec_extension_request(o, s, 140, 29, 2) ==> ok(
                XWireRequestView::GlxGetDrawableAttributes { drawable: id(4) },
            )
        }),
{
}

} // verus!
