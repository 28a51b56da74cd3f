use vstd::prelude::*;

use crate::gc::{OwnedInRange, XGraphicsContextRecord, XOwned, spec_in_client_range};
use crate::ids::{NamespaceId, SurfaceId, XResourceId};
use crate::render::XRenderPictureRecord;
use crate::selection::{XSelectionChangeKind, XSelectionKey, spec_clear_updates};
use crate::resources::{XAuthorityRuntimeError, XResourceKind, XResourceRecord};
use crate::runtime::{XAuthorityRuntime, XGlxContextRecord, XGlxDrawableBacking, XGlxDrawableRecord, XShmSegmentRecord};
use crate::table::{XEntryPredicate, XTableKey};
use crate::window::{XWindowLifecycleEvent, spec_destroyed};
use crate::wire::XWireClientResourceRange;

verus! {

/// GLX drawables standing for a window.
pub struct BackedByWindow {
    pub window: XResourceId,
}

impl XEntryPredicate<XResourceId, XGlxDrawableRecord> for BackedByWindow {
    open spec fn holds(&self, k: XResourceId, v: XGlxDrawableRecord) -> bool {
        v.backing == XGlxDrawableBacking::Window(self.window)
    }

    fn test(&self, k: &XResourceId, v: &XGlxDrawableRecord) -> (r: bool) {
        match v.backing {
            XGlxDrawableBacking::Window(w) => w == self.window,
            _ => false,
        }
    }
}

/// RENDER pictures over a drawable.
pub struct OfDrawable {
    pub drawable: XResourceId,
}

impl XEntryPredicate<XResourceId, XRenderPictureRecord> for OfDrawable {
    open spec fn holds(&self, k: XResourceId, v: XRenderPictureRecord) -> bool {
        v.drawable == self.drawable
    }

    fn test(&self, k: &XResourceId, v: &XRenderPictureRecord) -> (r: bool) {
        v.drawable == self.drawable
    }
}

/// `new` is `old` without the entries `gone` names, the rest unchanged.
pub open spec fn spec_kept_unless<V>(
    old: Map<XResourceId, V>,
    new: Map<XResourceId, V>,
    gone: spec_fn(XResourceId, V) -> bool,
) -> bool {
    &&& forall|k: XResourceId| #[trigger]
        new.contains_key(k) <==> (old.contains_key(k) && !gone(k, old[k]))
    &&& forall|k: XResourceId| #[trigger] new.contains_key(k) ==> new[k] == old[k]
}

/// The ids of entries a namespace owns within a client's range.
pub open spec fn spec_owned_keys<V: XOwned>(
    m: Map<XResourceId, V>,
    namespace: NamespaceId,
    range: XWireClientResourceRange,
) -> Set<XResourceId> {
    m.dom().filter(|k: XResourceId| m[k].owner_of() == namespace && spec_in_client_range(range, k))
}

/// A list of distinct ids drawn from the first `t` of `ids` stays so when
/// it takes the next one, or nothing.
proof fn lemma_drawn_step(acc0: Seq<XResourceId>, acc: Seq<XResourceId>, ids: Seq<XResourceId>, t: int)
    requires
        acc0.no_duplicates(),
        forall|k: XResourceId| #[trigger] acc0.contains(k) ==> exists|j: int| 0 <= j < t && ids[j] == k,
        ids.no_duplicates(),
        0 <= t < ids.len(),
        acc == acc0 || acc == acc0.push(ids[t]),
    ensures
        acc.no_duplicates(),
        forall|k: XResourceId| #[trigger] acc.contains(k) ==> exists|j: int| 0 <= j < t + 1 && ids[j] == k,
{
    if acc0.contains(ids[t]) {
        let j = choose|j: int| 0 <= j < t && ids[j] == ids[t];
        assert(false);
    }
    assert forall|k: XResourceId| #[trigger] acc.contains(k) implies exists|j: int| 0 <= j < t + 1 && ids[j] == k by {
        if acc0.contains(k) {
            let j = choose|j: int| 0 <= j < t && ids[j] == k;
            assert(0 <= j < t + 1 && ids[j] == k);
        } else {
            let a = choose|a: int| 0 <= a < acc.len() && acc[a] == k;
            if a < acc0.len() {
                assert(acc0[a] == k);
            }
            assert(ids[t] == k);
        }
    }
    if acc != acc0 {
        assert forall|a: int, b: int| 0 <= a < acc.len() && 0 <= b < acc.len() && a != b implies acc[a] != acc[b] by {
            if a < acc0.len() && b < acc0.len() {
                assert(acc[a] == acc0[a] && acc[b] == acc0[b]);
            } else if a < acc0.len() {
                assert(acc0.contains(acc[a]));
            } else {
                assert(acc0.contains(acc[b]));
            }
        }
    }
}

/// The resources of one kind a namespace owns within a client's range.
pub open spec fn spec_owned_of_kind(
    m: Map<XResourceId, XResourceRecord>,
    namespace: NamespaceId,
    range: XWireClientResourceRange,
    kind: XResourceKind,
) -> Set<XResourceId> {
    m.dom().filter(|k: XResourceId| m[k].owner_namespace == namespace && spec_in_client_range(range, k) && m[k].kind == kind)
}

impl XAuthorityRuntime {
    /// Every RENDER picture is a live resource of the picture kind, as the
    /// requests that make and free pictures keep it.
    pub open spec fn spec_pictures_named(&self) -> bool {
        forall|k: XResourceId| #[trigger]
            self.render_pictures.view().contains_key(k) ==> self.resources.view().contains_key(k)
                && self.resources.view()[k].kind == XResourceKind::Picture
    }
}

/// What releasing a disconnected client's resources reclaimed.
pub struct XAuthorityClientResourceRelease {
    pub released_glx_contexts: usize,
    pub released_glx_drawables: usize,
    pub released_graphics_contexts: usize,
    pub released_shm_segments: usize,
    pub released_pixmaps: usize,
    pub released_fonts: usize,
    pub released_cursors: usize,
    pub released_colormaps: usize,
    pub destroyed_windows: Vec<XResourceId>,
    pub removed_surfaces: Vec<SurfaceId>,
    pub released_fences: Vec<u64>,
}

/// A list's length is the size of the set it enumerates.
proof fn lemma_enumeration_len(ids: Seq<XResourceId>, s: Set<XResourceId>)
    requires
        ids.no_duplicates(),
        forall|k: XResourceId| #[trigger] ids.contains(k) <==> s.contains(k),
    ensures
        ids.len() == s.len(),
{
    assert(ids.to_set() =~= s);
    ids.unique_seq_to_set();
}

impl XAuthorityRuntime {
    /// Ends a window's lifetime: its record goes (its children become root
    /// children), with its pictures, shapes, background, visual, GLX
    /// aliases and any namespace focus on it. Answers the surface the
    /// compositor must remove.
    pub fn destroy_window(&mut self, namespace: NamespaceId, window: XResourceId) -> (r: Result<
        SurfaceId,
        XAuthorityRuntimeError,
    >)
        requires
            old(self).wf(),
        ensures
            final(self).wf(),
            match old(self).spec_window(namespace, window) {
                Err(e) => r == Err::<SurfaceId, XAuthorityRuntimeError>(e) && *final(self) == *old(self),
                Ok(rec) => {
                    &&& r == Ok::<SurfaceId, XAuthorityRuntimeError>(rec.surface)
                    &&& final(self).windows.view() == spec_destroyed(old(self).windows.view(), window)
                    &&& spec_kept_unless(
                        old(self).resources.view(),
                        final(self).resources.view(),
                        |k: XResourceId, v: XResourceRecord|
                            k == window || (old(self).render_pictures.view().contains_key(k) && old(self).render_pictures.view()[k].drawable == window),
                    )
                    &&& spec_kept_unless(
                        old(self).render_pictures.view(),
                        final(self).render_pictures.view(),
                        |k: XResourceId, v: XRenderPictureRecord| v.drawable == window,
                    )
                    &&& spec_kept_unless(
                        old(self).glx_drawables.view(),
                        final(self).glx_drawables.view(),
                        |k: XResourceId, v: XGlxDrawableRecord|
                            v.backing == XGlxDrawableBacking::Window(window),
                    )
                    &&& final(self).retired_selection_ownerships@ == old(self).retired_selection_ownerships@
                        + spec_clear_updates(
                        old(self).selections.owners.entries@,
                        window,
                        old(self).selections.generation,
                        XSelectionChangeKind::SelectionWindowDestroyed,
                    )
                    &&& final(self).selections.view().dom() == old(self).selections.view().dom()
                    &&& forall|k: XSelectionKey| #[trigger]
                        old(self).selections.view().contains_key(k) && old(self).selections.view()[k].owner != Some(
                            window,
                        ) ==> final(self).selections.view()[k] == old(self).selections.view()[k]
                    &&& forall|k: XSelectionKey| #[trigger]
                        final(self).selections.view().contains_key(k) ==> final(self).selections.view()[k].owner
                            != Some(window)
                    &&& final(self).window_shapes.view() == old(self).window_shapes.view().remove(window)
                    &&& forall|k: crate::runtime::shape::XShapeSelectionKey| #[trigger]
                        final(self).shape_selections.view().contains_key(k) <==> (old(
                            self,
                        ).shape_selections.view().contains_key(k) && k.window != window)
                    &&& final(self).window_background_pixels.view() == old(self).window_background_pixels.view().remove(window)
                    &&& final(self).window_visuals.view() == old(self).window_visuals.view().remove(
                        window,
                    )
                    &&& final(self).software_buffers.buffers.view() == old(self).software_buffers.buffers.view().remove(window)
                    &&& final(self).software_buffers.presentations.view() == old(self).software_buffers.presentations.view().remove(window)
                    &&& final(self).software_buffers.next_handle == old(self).software_buffers.next_handle
                    &&& final(self).software_buffers.export_damage == old(self).software_buffers.export_damage
                    &&& final(self).input_focus.view() == if old(self).input_focus.view().contains_key(
                        namespace,
                    ) && old(self).input_focus.view()[namespace] == window {
                        old(self).input_focus.view().remove(namespace)
                    } else {
                        old(self).input_focus.view()
                    }
                    &&& *final(self) == (XAuthorityRuntime {
                        resources: final(self).resources,
                        windows: final(self).windows,
                        render_pictures: final(self).render_pictures,
                        glx_drawables: final(self).glx_drawables,
                        window_shapes: final(self).window_shapes,
                        shape_selections: final(self).shape_selections,
                        window_background_pixels: final(self).window_background_pixels,
                        window_visuals: final(self).window_visuals,
                        input_focus: final(self).input_focus,
                        selections: final(self).selections,
                        retired_selection_ownerships: final(self).retired_selection_ownerships,
                        software_buffers: final(self).software_buffers,
                        ..*old(self)
                    })
                },
            },
    {
        let rec = match self.window_record(namespace, window) {
            Err(e) => {
                return Err(e);
            },
            Ok(rec) => rec,
        };
        let mut ended = self.selections.clear_window_owner(
            window,
            &self.windows,
            XSelectionChangeKind::SelectionWindowDestroyed,
        );
        self.retired_selection_ownerships.append(&mut ended);
        let ghost pre = *self;
        let _ = self.windows.apply(XWindowLifecycleEvent::Destroyed { id: window });
        let mut dead = self.render_pictures.keys_where(&OfDrawable { drawable: window });
        let ghost d0 = dead@;
        self.render_pictures.remove_keys(&dead);
        dead.push(window);
        self.resources.remove_keys(&dead);
        proof {
            assert forall|k: XResourceId| #[trigger]
                dead@.contains(k) <==> (k == window || (pre.render_pictures.view().contains_key(k)
                    && pre.render_pictures.view()[k].drawable == window)) by {
                assert(dead@ == d0.push(window));
                if dead@.contains(k) {
                    let a = choose|a: int| 0 <= a < dead@.len() && dead@[a] == k;
                    if a < d0.len() {
                        assert(d0[a] == k);
                    }
                }
                if d0.contains(k) {
                    let a = choose|a: int| 0 <= a < d0.len() && d0[a] == k;
                    assert(dead@[a] == k);
                }
                if k == window {
                    assert(dead@[dead@.len() - 1] == k);
                }
            }
        }
        let aliases = self.glx_drawables.keys_where(&BackedByWindow { window });
        self.glx_drawables.remove_keys(&aliases);
        self.forget_window_shapes(window);
        self.window_background_pixels.remove(&window);
        self.window_visuals.remove(&window);
        let _ = self.software_buffers.remove(window);
        let focused = match self.input_focus.get(&namespace) {
            Some(w) => *w == window,
            None => false,
        };
        if focused {
            self.input_focus.remove(&namespace);
        }
        Ok(rec.surface)
    }
}

impl XAuthorityRuntime {
    /// Reclaims every resource a disconnected client created from its id
    /// range: GLX contexts and drawables, graphics contexts, MIT-SHM
    /// segments, then each resource in turn, windows destroyed with
    /// everything hanging off them.
    #[verifier::rlimit(60)]
    pub fn release_client_resource_range(&mut self, namespace: NamespaceId, range: XWireClientResourceRange) -> (r:
        Result<XAuthorityClientResourceRelease, XAuthorityRuntimeError>)
        requires
            old(self).wf(),
        ensures
            final(self).wf(),
            !namespace.spec_is_valid() ==> r is Err && r->Err_0 == XAuthorityRuntimeError::InvalidNamespace
                && *final(self) == *old(self),
            namespace.spec_is_valid() && r is Err ==> r->Err_0 == XAuthorityRuntimeError::UnknownResource,
            namespace.spec_is_valid() && (forall|k: XResourceId|
                #[trigger] old(self).resources.view().contains_key(k) && old(self).resources.view()[k].owner_namespace
                    == namespace && spec_in_client_range(range, k) && old(self).resources.view()[k].kind
                    == XResourceKind::Window ==> old(self).windows.view().contains_key(k)) ==> r is Ok,
            r is Ok ==> {
                let rel = r->Ok_0;
                let owned_ctx = |k: XResourceId, v: XGlxContextRecord|
                    v.owner == namespace && spec_in_client_range(range, k);
                let owned_gc = |k: XResourceId, v: XGraphicsContextRecord|
                    v.owner == namespace && spec_in_client_range(range, k);
                let owned_shm = |k: XResourceId, v: XShmSegmentRecord|
                    v.owner == namespace && spec_in_client_range(range, k);
                &&& spec_kept_unless(old(self).glx_contexts.view(), final(self).glx_contexts.view(), owned_ctx)
                &&& spec_kept_unless(
                    old(self).graphics_contexts.view(),
                    final(self).graphics_contexts.view(),
                    owned_gc,
                )
                &&& spec_kept_unless(old(self).shm_segments.view(), final(self).shm_segments.view(), owned_shm)
                &&& forall|k: XResourceId| #[trigger]
                    final(self).glx_drawables.view().contains_key(k) ==> old(self).glx_drawables.view().contains_key(k)
                        && !(old(self).glx_drawables.view()[k].owner == namespace
                        && spec_in_client_range(range, k))
                &&& forall|k: XResourceId| #[trigger]
                    final(self).resources.view().contains_key(k) ==> old(self).resources.view().contains_key(k)
                        && !(old(self).resources.view()[k].owner_namespace == namespace
                        && spec_in_client_range(range, k))
                &&& forall|k: XResourceId| #[trigger]
                    old(self).resources.view().contains_key(k) && !(old(self).resources.view()[k].owner_namespace
                        == namespace && spec_in_client_range(range, k)) && !old(self).render_pictures.view().contains_key(k)
                        ==> final(self).resources.view().contains_key(k)
                &&& rel.released_glx_contexts == spec_owned_keys(old(self).glx_contexts.view(), namespace, range).len()
                &&& rel.released_glx_drawables == spec_owned_keys(old(self).glx_drawables.view(), namespace, range).len()
                &&& rel.released_graphics_contexts == spec_owned_keys(
                    old(self).graphics_contexts.view(),
                    namespace,
                    range,
                ).len()
                &&& rel.released_shm_segments == spec_owned_keys(old(self).shm_segments.view(), namespace, range).len()
                &&& forall|w: XResourceId| #[trigger]
                    rel.destroyed_windows@.contains(w) ==> old(self).resources.view().contains_key(w)
                        && old(self).resources.view()[w].owner_namespace == namespace
                        && spec_in_client_range(range, w) && old(self).resources.view()[w].kind
                        == XResourceKind::Window
                &&& rel.destroyed_windows@.len() == rel.removed_surfaces@.len()
                &&& forall|i: int|
                    0 <= i < rel.destroyed_windows@.len() ==> old(self).windows.view().contains_key(
                        #[trigger] rel.destroyed_windows@[i],
                    ) && rel.removed_surfaces@[i] == old(self).windows.view()[rel.destroyed_windows@[i]].surface
                &&& old(self).spec_pictures_named() ==> {
                    &&& forall|w: XResourceId| #[trigger]
                        rel.destroyed_windows@.contains(w) <== spec_owned_of_kind(
                            old(self).resources.view(),
                            namespace,
                            range,
                            XResourceKind::Window,
                        ).contains(w)
                    &&& forall|k: XResourceId| #[trigger]
                        old(self).resources.view().contains_key(k) && old(self).resources.view()[k].owner_namespace
                            == namespace && spec_in_client_range(range, k) ==> {
                            let kind = old(self).resources.view()[k].kind;
                            &&& kind == XResourceKind::Window ==> !final(self).windows.view().contains_key(k)
                            &&& kind == XResourceKind::Pixmap ==> !final(self).pixmaps.view().contains_key(k)
                            &&& kind == XResourceKind::Font ==> !final(self).fonts.view().contains_key(k)
                            &&& kind == XResourceKind::Cursor ==> !final(self).render_cursor_images.view().contains_key(k)
                            &&& kind == XResourceKind::Region ==> !final(self).xfixes_regions.view().contains_key(k)
                            &&& kind == XResourceKind::GlyphSet ==> !final(self).render_glyphsets.view().contains_key(k)
                        }
                    &&& rel.released_pixmaps == spec_owned_of_kind(
                        old(self).resources.view(),
                        namespace,
                        range,
                        XResourceKind::Pixmap,
                    ).len()
                    &&& rel.released_fonts == spec_owned_of_kind(
                        old(self).resources.view(),
                        namespace,
                        range,
                        XResourceKind::Font,
                    ).len()
                    &&& rel.released_cursors == spec_owned_of_kind(
                        old(self).resources.view(),
                        namespace,
                        range,
                        XResourceKind::Cursor,
                    ).len()
                    &&& rel.released_colormaps == spec_owned_of_kind(
                        old(self).resources.view(),
                        namespace,
                        range,
                        XResourceKind::Colormap,
                    ).len()
                }
            },
    {
        if !namespace.is_valid() {
            return Err(XAuthorityRuntimeError::InvalidNamespace);
        }
        let ghost o = *self;
        let pred = OwnedInRange { namespace, range };
        let ctxs = self.glx_contexts.keys_where(&pred);
        self.glx_contexts.remove_keys(&ctxs);
        let drws = self.glx_drawables.keys_where(&pred);
        self.glx_drawables.remove_keys(&drws);
        let gcs = self.graphics_contexts.records.keys_where(&pred);
        self.graphics_contexts.records.remove_keys(&gcs);
        let segs = self.shm_segments.keys_where(&pred);
        self.shm_segments.remove_keys(&segs);
        proof {
            lemma_enumeration_len(ctxs@, spec_owned_keys(o.glx_contexts.view(), namespace, range));
            lemma_enumeration_len(drws@, spec_owned_keys(o.glx_drawables.view(), namespace, range));
            lemma_enumeration_len(gcs@, spec_owned_keys(o.graphics_contexts.view(), namespace, range));
            lemma_enumeration_len(segs@, spec_owned_keys(o.shm_segments.view(), namespace, range));
        }
        let ids = self.resources.records.keys_where(&pred);
        let mut rel = XAuthorityClientResourceRelease {
            released_glx_contexts: ctxs.len(),
            released_glx_drawables: drws.len(),
            released_graphics_contexts: gcs.len(),
            released_shm_segments: segs.len(),
            released_pixmaps: 0,
            released_fonts: 0,
            released_cursors: 0,
            released_colormaps: 0,
            destroyed_windows: Vec::new(),
            removed_surfaces: Vec::new(),
            released_fences: Vec::new(),
        };
        let ghost c1 = self.glx_contexts;
        let ghost g1 = self.graphics_contexts;
        let ghost s1 = self.shm_segments;
        let ghost d1 = self.glx_drawables.view();
        let ghost p = o.spec_pictures_named();
        let ghost mut pix: Seq<XResourceId> = Seq::empty();
        let ghost mut fnt: Seq<XResourceId> = Seq::empty();
        let ghost mut cur: Seq<XResourceId> = Seq::empty();
        let ghost mut cmap: Seq<XResourceId> = Seq::empty();
        proof {
            assert forall|j: int| 0 <= j < ids@.len() implies o.resources.view().contains_key(#[trigger] ids@[j]) by {
                assert(ids@.contains(ids@[j]));
            }
        }
        let mut t: usize = 0;
        while t < ids.len()
            invariant
                self.wf(),
                o == *old(self),
                namespace.spec_is_valid(),
                t <= ids@.len(),
                ids@.no_duplicates(),
                forall|k: XResourceId| #[trigger]
                    ids@.contains(k) <==> (o.resources.view().contains_key(k) && o.resources.view()[k].owner_namespace
                        == namespace && spec_in_client_range(range, k)),
                forall|k: XResourceId| #[trigger]
                    self.resources.view().contains_key(k) ==> o.resources.view().contains_key(k)
                        && self.resources.view()[k] == o.resources.view()[k],
                forall|j: int| 0 <= j < t ==> !self.resources.view().contains_key(#[trigger] ids@[j]),
                forall|k: XResourceId| #[trigger]
                    o.resources.view().contains_key(k) && !(o.resources.view()[k].owner_namespace
                        == namespace && spec_in_client_range(range, k)) && !o.render_pictures.view().contains_key(k)
                        ==> self.resources.view().contains_key(k),
                forall|k: XResourceId| #[trigger]
                    self.render_pictures.view().contains_key(k) ==> o.render_pictures.view().contains_key(k),
                forall|k: XResourceId| #[trigger]
                    self.glx_drawables.view().contains_key(k) ==> d1.contains_key(k),
                self.glx_contexts == c1,
                self.graphics_contexts == g1,
                self.shm_segments == s1,
                forall|j: int|
                    t <= j < ids@.len() ==> (self.windows.view().contains_key(#[trigger] ids@[j])
                        <==> o.windows.view().contains_key(ids@[j])),
                rel.released_glx_contexts == ctxs@.len(),
                rel.released_glx_drawables == drws@.len(),
                rel.released_graphics_contexts == gcs@.len(),
                rel.released_shm_segments == segs@.len(),
                rel.released_pixmaps <= t,
                rel.released_fonts <= t,
                rel.released_cursors <= t,
                rel.released_colormaps <= t,
                rel.destroyed_windows@.len() == rel.removed_surfaces@.len(),
                forall|w: XResourceId| #[trigger]
                    rel.destroyed_windows@.contains(w) ==> o.resources.view().contains_key(w)
                        && o.resources.view()[w].owner_namespace == namespace
                        && spec_in_client_range(range, w) && o.resources.view()[w].kind
                        == XResourceKind::Window,
                p == o.spec_pictures_named(),
                forall|k: XResourceId| #[trigger]
                    self.windows.view().contains_key(k) ==> o.windows.view().contains_key(k)
                        && self.windows.view()[k].surface == o.windows.view()[k].surface,
                forall|i: int|
                    0 <= i < rel.destroyed_windows@.len() ==> o.windows.view().contains_key(
                        #[trigger] rel.destroyed_windows@[i],
                    ) && rel.removed_surfaces@[i] == o.windows.view()[rel.destroyed_windows@[i]].surface,
                forall|k: XResourceId| #[trigger] self.pixmaps.view().contains_key(k) ==> o.pixmaps.view().contains_key(k),
                p ==> forall|j: int|
                    t <= j < ids@.len() && o.resources.view()[#[trigger] ids@[j]].kind != XResourceKind::Picture
                        ==> self.resources.view().contains_key(ids@[j]),
                p ==> forall|j: int|
                    0 <= j < t ==> {
                        let kind = o.resources.view()[#[trigger] ids@[j]].kind;
                        &&& kind == XResourceKind::Window ==> rel.destroyed_windows@.contains(ids@[j])
                            && !self.windows.view().contains_key(ids@[j])
                        &&& kind == XResourceKind::Pixmap ==> !self.pixmaps.view().contains_key(ids@[j])
                        &&& kind == XResourceKind::Font ==> !self.fonts.view().contains_key(ids@[j])
                        &&& kind == XResourceKind::Cursor ==> !self.render_cursor_images.view().contains_key(ids@[j])
                        &&& kind == XResourceKind::Region ==> !self.xfixes_regions.view().contains_key(ids@[j])
                        &&& kind == XResourceKind::GlyphSet ==> !self.render_glyphsets.view().contains_key(ids@[j])
                        &&& kind == XResourceKind::Pixmap ==> pix.contains(ids@[j])
                        &&& kind == XResourceKind::Font ==> fnt.contains(ids@[j])
                        &&& kind == XResourceKind::Cursor ==> cur.contains(ids@[j])
                        &&& kind == XResourceKind::Colormap ==> cmap.contains(ids@[j])
                    },
                rel.released_pixmaps == pix.len(),
                rel.released_fonts == fnt.len(),
                rel.released_cursors == cur.len(),
                rel.released_colormaps == cmap.len(),
                pix.no_duplicates(),
                fnt.no_duplicates(),
                cur.no_duplicates(),
                cmap.no_duplicates(),
                forall|k: XResourceId| #[trigger]
                    pix.contains(k) ==> (exists|j: int| 0 <= j < t && ids@[j] == k) && o.resources.view()[k].kind
                        == XResourceKind::Pixmap,
                forall|k: XResourceId| #[trigger]
                    fnt.contains(k) ==> (exists|j: int| 0 <= j < t && ids@[j] == k) && o.resources.view()[k].kind
                        == XResourceKind::Font,
                forall|k: XResourceId| #[trigger]
                    cur.contains(k) ==> (exists|j: int| 0 <= j < t && ids@[j] == k) && o.resources.view()[k].kind
                        == XResourceKind::Cursor,
                forall|k: XResourceId| #[trigger]
                    cmap.contains(k) ==> (exists|j: int| 0 <= j < t && ids@[j] == k) && o.resources.view()[k].kind
                        == XResourceKind::Colormap,
            decreases ids@.len() - t,
        {
            let id = ids[t];
            let ghost before = *self;
            let ghost pix0 = pix;
            let ghost fnt0 = fnt;
            let ghost cur0 = cur;
            let ghost cmap0 = cmap;
            let ghost dw0 = rel.destroyed_windows@;
            proof {
                assert(ids@.contains(id));
                assert forall|j: int| t < j < ids@.len() implies ids@[j] != id by {
                    assert(ids@[t as int] == id);
                }
            }
            let kind = match self.resources.get(id) {
                None => None,
                Some(rec) => Some(rec.kind),
            };
            match kind {
                None => {},
                Some(XResourceKind::Window) => {
                    proof {
                        assert(before.resources.view().contains_key(id));
                        assert(before.resources.view()[id] == o.resources.view()[id]);
                        assert(ids@[t as int] == id);
                    }
                    match self.destroy_window(namespace, id) {
                        Err(e) => {
                            proof {
                                assert(o.resources.view()[id].owner_namespace == namespace);
                                assert(before.spec_access(namespace, id, XResourceKind::Window) is None);
                                assert(!before.windows.view().contains_key(id));
                                assert(!o.windows.view().contains_key(id));
                                assert(old(self).resources.view().contains_key(id));
                            }
                            return Err(e);
                        },
                        Ok(surface) => {
                            let ghost dw = rel.destroyed_windows@;
                            rel.destroyed_windows.push(id);
                            rel.removed_surfaces.push(surface);
                            proof {
                                assert(o.resources.view()[id].kind == XResourceKind::Window);
                                assert(o.resources.view().contains_key(id)
                                    && o.resources.view()[id].owner_namespace == namespace
                                    && spec_in_client_range(range, id));
                                assert forall|w: XResourceId| #[trigger]
                                    rel.destroyed_windows@.contains(w) implies o.resources.view().contains_key(w)
                                        && o.resources.view()[w].owner_namespace == namespace
                                        && spec_in_client_range(range, w) && o.resources.view()[w].kind
                                        == XResourceKind::Window by {
                                    assert(rel.destroyed_windows@ == dw.push(id));
                                    if w != id {
                                        let a = choose|a: int| 0 <= a < rel.destroyed_windows@.len() && rel.destroyed_windows@[a] == w;
                                        assert(dw[a] == w);
                                        assert(dw.contains(w));
                                    }
                                }
                            }
                        },
                    }
                },
                Some(XResourceKind::Pixmap) => {
                    self.resources.remove(id);
                    self.pixmaps.remove(&id);
                    self.shm_pixmaps.remove(&id);
                    let _ = self.software_buffers.remove(id);
                    rel.released_pixmaps = rel.released_pixmaps + 1;
                    proof {
                        pix = pix.push(id);
                    }
                },
                Some(XResourceKind::Font) => {
                    self.resources.remove(id);
                    self.fonts.remove(&id);
                    rel.released_fonts = rel.released_fonts + 1;
                    proof {
                        fnt = fnt.push(id);
                    }
                },
                Some(XResourceKind::Cursor) => {
                    self.resources.remove(id);
                    self.render_cursor_images.remove(&id);
                    rel.released_cursors = rel.released_cursors + 1;
                    proof {
                        cur = cur.push(id);
                    }
                },
                Some(XResourceKind::Colormap) => {
                    self.resources.remove(id);
                    rel.released_colormaps = rel.released_colormaps + 1;
                    proof {
                        cmap = cmap.push(id);
                    }
                },
                Some(XResourceKind::Fence) => {
                    self.resources.remove(id);
                    match self.dri3_fences.remove(&id) {
                        Some(h) => {
                            rel.released_fences.push(h);
                        },
                        None => {},
                    }
                },
                Some(XResourceKind::Region) => {
                    self.resources.remove(id);
                    self.xfixes_regions.remove(&id);
                },
                Some(XResourceKind::Picture) => {
                    self.resources.remove(id);
                    self.render_pictures.remove(&id);
                },
                Some(XResourceKind::GlyphSet) => {
                    self.resources.remove(id);
                    self.render_glyphsets.remove(&id);
                },
                Some(_) => {
                    self.resources.remove(id);
                },
            }
            proof {
                assert(ids@[t as int] == id);
                lemma_drawn_step(pix0, pix, ids@, t as int);
                lemma_drawn_step(fnt0, fnt, ids@, t as int);
                lemma_drawn_step(cur0, cur, ids@, t as int);
                lemma_drawn_step(cmap0, cmap, ids@, t as int);
                assert forall|k: XResourceId| #[trigger] pix.contains(k) implies o.resources.view()[k].kind
                    == XResourceKind::Pixmap by {
                    if !pix0.contains(k) {
                        assert(pix[pix0.len() as int] == id);
                    }
                }
                assert forall|k: XResourceId| #[trigger] fnt.contains(k) implies o.resources.view()[k].kind
                    == XResourceKind::Font by {
                    if !fnt0.contains(k) {
                        assert(fnt[fnt0.len() as int] == id);
                    }
                }
                assert forall|k: XResourceId| #[trigger] cur.contains(k) implies o.resources.view()[k].kind
                    == XResourceKind::Cursor by {
                    if !cur0.contains(k) {
                        assert(cur[cur0.len() as int] == id);
                    }
                }
                assert forall|k: XResourceId| #[trigger] cmap.contains(k) implies o.resources.view()[k].kind
                    == XResourceKind::Colormap by {
                    if !cmap0.contains(k) {
                        assert(cmap[cmap0.len() as int] == id);
                    }
                }
                if p {
                    assert(o.resources.view().contains_key(id));
                    assert forall|j: int|
                        t + 1 <= j < ids@.len() && o.resources.view()[#[trigger] ids@[j]].kind
                            != XResourceKind::Picture implies self.resources.view().contains_key(ids@[j]) by {
                        assert(ids@[j] != id);
                        assert(before.resources.view().contains_key(ids@[j]));
                        if before.render_pictures.view().contains_key(ids@[j]) {
                            assert(o.render_pictures.view().contains_key(ids@[j]));
                        }
                    }
                    assert forall|j: int| 0 <= j < t + 1 implies {
                        let kind = o.resources.view()[#[trigger] ids@[j]].kind;
                        &&& kind == XResourceKind::Window ==> rel.destroyed_windows@.contains(ids@[j])
                            && !self.windows.view().contains_key(ids@[j])
                        &&& kind == XResourceKind::Pixmap ==> !self.pixmaps.view().contains_key(ids@[j])
                        &&& kind == XResourceKind::Font ==> !self.fonts.view().contains_key(ids@[j])
                        &&& kind == XResourceKind::Cursor ==> !self.render_cursor_images.view().contains_key(ids@[j])
                        &&& kind == XResourceKind::Region ==> !self.xfixes_regions.view().contains_key(ids@[j])
                        &&& kind == XResourceKind::GlyphSet ==> !self.render_glyphsets.view().contains_key(ids@[j])
                        &&& kind == XResourceKind::Pixmap ==> pix.contains(ids@[j])
                        &&& kind == XResourceKind::Font ==> fnt.contains(ids@[j])
                        &&& kind == XResourceKind::Cursor ==> cur.contains(ids@[j])
                        &&& kind == XResourceKind::Colormap ==> cmap.contains(ids@[j])
                    } by {
                        if j < t {
                            if dw0.contains(ids@[j]) {
                                let a = choose|a: int| 0 <= a < dw0.len() && dw0[a] == ids@[j];
                                assert(rel.destroyed_windows@[a] == ids@[j]);
                            }
                            if pix0.contains(ids@[j]) {
                                let a = choose|a: int| 0 <= a < pix0.len() && pix0[a] == ids@[j];
                                assert(pix[a] == ids@[j]);
                            }
                            if fnt0.contains(ids@[j]) {
                                let a = choose|a: int| 0 <= a < fnt0.len() && fnt0[a] == ids@[j];
                                assert(fnt[a] == ids@[j]);
                            }
                            if cur0.contains(ids@[j]) {
                                let a = choose|a: int| 0 <= a < cur0.len() && cur0[a] == ids@[j];
                                assert(cur[a] == ids@[j]);
                            }
                            if cmap0.contains(ids@[j]) {
                                let a = choose|a: int| 0 <= a < cmap0.len() && cmap0[a] == ids@[j];
                                assert(cmap[a] == ids@[j]);
                            }
                        } else {
                            assert(ids@[j] == id);
                            if o.resources.view()[id].kind == XResourceKind::Window {
                                assert(rel.destroyed_windows@[rel.destroyed_windows@.len() - 1] == id);
                            }
                            if o.resources.view()[id].kind == XResourceKind::Pixmap {
                                assert(pix[pix.len() - 1] == id);
                            }
                            if o.resources.view()[id].kind == XResourceKind::Font {
                                assert(fnt[fnt.len() - 1] == id);
                            }
                            if o.resources.view()[id].kind == XResourceKind::Cursor {
                                assert(cur[cur.len() - 1] == id);
                            }
                            if o.resources.view()[id].kind == XResourceKind::Colormap {
                                assert(cmap[cmap.len() - 1] == id);
                            }
                        }
                    }
                }
            }
            t = t + 1;
        }
        proof {
            assert forall|k: XResourceId| #[trigger]
                self.resources.view().contains_key(k) implies o.resources.view().contains_key(k)
                && !(o.resources.view()[k].owner_namespace == namespace && spec_in_client_range(
                range,
                k,
            )) by {
                if o.resources.view()[k].owner_namespace == namespace && spec_in_client_range(range, k) {
                    assert(ids@.contains(k));
                    let j = choose|j: int| 0 <= j < ids@.len() && ids@[j] == k;
                }
            }
            if p {
                let rs = o.resources.view();
                assert forall|k: XResourceId| #[trigger]
                    spec_owned_of_kind(rs, namespace, range, XResourceKind::Window).contains(k) implies rel.destroyed_windows@.contains(k) by {
                    assert(ids@.contains(k));
                    let j = choose|j: int| 0 <= j < ids@.len() && ids@[j] == k;
                    assert(o.resources.view()[ids@[j]].kind == XResourceKind::Window);
                }
                assert forall|k: XResourceId| #[trigger]
                    rs.contains_key(k) && rs[k].owner_namespace == namespace && spec_in_client_range(range, k) implies {
                    let kind = rs[k].kind;
                    &&& kind == XResourceKind::Window ==> !self.windows.view().contains_key(k)
                    &&& kind == XResourceKind::Pixmap ==> !self.pixmaps.view().contains_key(k)
                    &&& kind == XResourceKind::Font ==> !self.fonts.view().contains_key(k)
                    &&& kind == XResourceKind::Cursor ==> !self.render_cursor_images.view().contains_key(k)
                    &&& kind == XResourceKind::Region ==> !self.xfixes_regions.view().contains_key(k)
                    &&& kind == XResourceKind::GlyphSet ==> !self.render_glyphsets.view().contains_key(k)
                } by {
                    assert(ids@.contains(k));
                    let j = choose|j: int| 0 <= j < ids@.len() && ids@[j] == k;
                    assert(o.resources.view()[ids@[j]].kind == rs[k].kind);
                }
                let owned_pix = spec_owned_of_kind(rs, namespace, range, XResourceKind::Pixmap);
                let owned_fnt = spec_owned_of_kind(rs, namespace, range, XResourceKind::Font);
                let owned_cur = spec_owned_of_kind(rs, namespace, range, XResourceKind::Cursor);
                let owned_cmap = spec_owned_of_kind(rs, namespace, range, XResourceKind::Colormap);
                assert forall|k: XResourceId| #[trigger] pix.contains(k) <==> owned_pix.contains(k) by {
                    if pix.contains(k) {
                        let j = choose|j: int| 0 <= j < t && ids@[j] == k;
                        assert(ids@.contains(k));
                    }
                    if owned_pix.contains(k) {
                        assert(ids@.contains(k));
                        let j = choose|j: int| 0 <= j < ids@.len() && ids@[j] == k;
                        assert(o.resources.view()[ids@[j]].kind == XResourceKind::Pixmap);
                    }
                }
                assert forall|k: XResourceId| #[trigger] fnt.contains(k) <==> owned_fnt.contains(k) by {
                    if fnt.contains(k) {
                        let j = choose|j: int| 0 <= j < t && ids@[j] == k;
                        assert(ids@.contains(k));
                    }
                    if owned_fnt.contains(k) {
                        assert(ids@.contains(k));
                        let j = choose|j: int| 0 <= j < ids@.len() && ids@[j] == k;
                        assert(o.resources.view()[ids@[j]].kind == XResourceKind::Font);
                    }
                }
                assert forall|k: XResourceId| #[trigger] cur.contains(k) <==> owned_cur.contains(k) by {
                    if cur.contains(k) {
                        let j = choose|j: int| 0 <= j < t && ids@[j] == k;
                        assert(ids@.contains(k));
                    }
                    if owned_cur.contains(k) {
                        assert(ids@.contains(k));
                        let j = choose|j: int| 0 <= j < ids@.len() && ids@[j] == k;
                        assert(o.resources.view()[ids@[j]].kind == XResourceKind::Cursor);
                    }
                }
                assert forall|k: XResourceId| #[trigger] cmap.contains(k) <==> owned_cmap.contains(k) by {
                    if cmap.contains(k) {
                        let j = choose|j: int| 0 <= j < t && ids@[j] == k;
                        assert(ids@.contains(k));
                    }
                    if owned_cmap.contains(k) {
                        assert(ids@.contains(k));
                        let j = choose|j: int| 0 <= j < ids@.len() && ids@[j] == k;
                        assert(o.resources.view()[ids@[j]].kind == XResourceKind::Colormap);
                    }
                }
                lemma_enumeration_len(pix, owned_pix);
                lemma_enumeration_len(fnt, owned_fnt);
                lemma_enumeration_len(cur, owned_cur);
                lemma_enumeration_len(cmap, owned_cmap);
            }
        }
        Ok(rel)
    }
}

} // verus!
