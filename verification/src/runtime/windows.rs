use vstd::prelude::*;

use crate::geometry::Rect;
use crate::ids::{
    NamespaceId, SurfaceId, X_SETUP_DEFAULT_COLORMAP, X_SETUP_DEFAULT_ROOT, X_SETUP_DEFAULT_VISUAL,
    X_SETUP_WM_CHECK_WINDOW, XResourceId,
};
use crate::resources::{XAuthorityRuntimeError, XResourceKind};
use crate::runtime::{XAuthorityRuntime, XShmSegmentRecord, XWindowGeometryUpdate, spec_setup_owned};
use crate::geometry::{sat_add_i32, saturating_add_i32};
use crate::window::{
    AuthoritySurface, SurfacePresentationRole, WindowMap, spec_presentation_role, XMapState, XWindowLifecycleEvent, XWindowRecord, XWindowTypeFacts,
    spec_apply, spec_authority_surface, spec_filter_ids, spec_presentation_walk, spec_restack,
    spec_root_position, spec_set_parent,
};

verus! {

/// What a MIT-SHM segment lookup answers.
pub open spec fn spec_shm_lookup(
    m: Map<XResourceId, XShmSegmentRecord>,
    namespace: NamespaceId,
    segment: XResourceId,
) -> Result<XShmSegmentRecord, XAuthorityRuntimeError> {
    if !namespace.spec_is_valid() {
        Err(XAuthorityRuntimeError::InvalidNamespace)
    } else if !m.contains_key(segment) {
        Err(XAuthorityRuntimeError::UnknownResource)
    } else if m[segment].owner != namespace {
        Err(XAuthorityRuntimeError::CrossNamespaceDenied)
    } else {
        Ok(m[segment])
    }
}

/// A geometry the compositor may impose: non-empty, within the core
/// protocol's 16-bit extents and positions.
pub open spec fn spec_engine_geometry_valid(g: Rect) -> bool {
    &&& !g.spec_is_empty()
    &&& g.width <= u16::MAX
    &&& g.height <= u16::MAX
    &&& i16::MIN <= g.x <= i16::MAX
    &&& i16::MIN <= g.y <= i16::MAX
}

/// The configure event that imposes a geometry at a generation.
pub open spec fn spec_engine_configure(window: XResourceId, g: Rect, generation: u64) -> XWindowLifecycleEvent {
    XWindowLifecycleEvent::Configured {
        id: window,
        x: Some(g.x as i16),
        y: Some(g.y as i16),
        width: Some(g.width as u16),
        height: Some(g.height as u16),
        generation,
    }
}

/// What a configure answers: a missing window is unknown.
pub open spec fn spec_configure_answer(r: Result<Option<AuthoritySurface>, XAuthorityRuntimeError>) -> Result<
    (),
    XAuthorityRuntimeError,
> {
    match r {
        Ok(Some(_)) => Ok(()),
        Ok(None) => Err(XAuthorityRuntimeError::UnknownResource),
        Err(e) => Err(e),
    }
}

/// The visual a window answers with when none was recorded: depth 24, the
/// default visual and colormap.
pub open spec fn spec_default_window_visual() -> (u8, u32, XResourceId) {
    (24, X_SETUP_DEFAULT_VISUAL, XResourceId { local: X_SETUP_DEFAULT_COLORMAP as u64, generation: 1 })
}

/// The event mapping `w` takes: a map, or a wait for the compositor when
/// maps are deferred and the policy manages the window.
pub open spec fn spec_map_event(m: WindowMap, w: XResourceId, defer: bool, generation: u64) -> XWindowLifecycleEvent {
    if spec_presentation_role(m[w]) == SurfacePresentationRole::ClientPositioned || !defer {
        XWindowLifecycleEvent::Mapped { id: w, generation }
    } else {
        XWindowLifecycleEvent::PolicyPending { id: w, generation }
    }
}

/// The table and the surfaces after mapping the first `n` of `kids` in
/// turn, stopping at the first failure.
pub open spec fn spec_map_children(
    m: WindowMap,
    kids: Seq<XResourceId>,
    defer: bool,
    generation: u64,
    n: int,
) -> (WindowMap, Result<Seq<AuthoritySurface>, XAuthorityRuntimeError>)
    decreases n,
{
    if n <= 0 {
        (m, Ok(Seq::empty()))
    } else {
        let (m1, r1) = spec_map_children(m, kids, defer, generation, n - 1);
        match r1 {
            Err(e) => (m1, Err(e)),
            Ok(acc) => {
                let w = kids[n - 1];
                if !m1.contains_key(w) {
                    (m1, Err(XAuthorityRuntimeError::UnknownResource))
                } else {
                    let (m2, r2) = spec_apply(m1, spec_map_event(m1, w, defer, generation));
                    match r2 {
                        Err(e) => (m2, Err(e)),
                        Ok(Some(s)) => (m2, Ok(acc.push(s))),
                        Ok(None) => (m2, Ok(acc)),
                    }
                }
            },
        }
    }
}

/// Once mapping the children has failed, mapping more of them changes
/// nothing and answers the same failure.
proof fn lemma_map_children_error_stays(
    m: WindowMap,
    kids: Seq<XResourceId>,
    defer: bool,
    generation: u64,
    k: int,
    n: int,
)
    requires
        0 <= k <= n,
        spec_map_children(m, kids, defer, generation, k).1 is Err,
    ensures
        spec_map_children(m, kids, defer, generation, n) == spec_map_children(m, kids, defer, generation, k),
    decreases n - k,
{
    if k < n {
        lemma_map_children_error_stays(m, kids, defer, generation, k, n - 1);
    }
}

impl XAuthorityRuntime {
    /// The surface that presents a transient owner: the root child the
    /// owner is drawn into, when the owner is a window of this namespace.
    pub open spec fn spec_owner_surface(&self, namespace: NamespaceId, owner: Option<XResourceId>) -> Option<
        SurfaceId,
    > {
        match owner {
            None => None,
            Some(o) => if self.spec_access(namespace, o, XResourceKind::Window) is Some {
                None
            } else {
                match spec_presentation_walk(self.windows.view(), o, 0, 0, self.windows.view().len()) {
                    Ok((root, _, _)) => if self.windows.view().contains_key(root) {
                        Some(self.windows.view()[root].surface)
                    } else {
                        None
                    },
                    Err(_) => None,
                }
            },
        }
    }

    pub fn resource_count(&self) -> (r: usize)
        requires
            self.wf(),
        ensures
            r == self.resources.view().len(),
    {
        self.resources.len()
    }

    /// Where a window's origin sits in root coordinates.
    pub fn window_root_position(&self, window: XResourceId) -> (r: Option<(i32, i32)>)
        requires
            self.wf(),
        ensures
            match (r, spec_root_position(self.windows.view(), window)) {
                (Some((x, y)), Ok((sx, sy))) => x == sx && y == sy,
                (None, Err(_)) => true,
                _ => false,
            },
    {
        match self.windows.root_position(window) {
            Ok(p) => Some(p),
            Err(_) => None,
        }
    }

    /// Whether an id is taken: by the setup's own resources, or by any
    /// table of ids a client chose.
    pub fn resource_id_in_use(&self, resource: XResourceId) -> (r: bool)
        requires
            self.wf(),
        ensures
            r == (spec_setup_owned(resource) || self.resources.view().contains_key(resource)
                || self.graphics_contexts.view().contains_key(resource)
                || self.glx_contexts.view().contains_key(resource)
                || self.glx_drawables.view().contains_key(resource)),
    {
        resource.local == X_SETUP_DEFAULT_ROOT as u64 || resource.local == X_SETUP_DEFAULT_COLORMAP as u64
            || self.resources.get(resource).is_some() || self.graphics_contexts.contains(resource)
            || self.glx_contexts.contains_key(&resource) || self.glx_drawables.contains_key(&resource)
    }

    pub fn window_count(&self) -> (r: usize)
        requires
            self.wf(),
        ensures
            r == self.windows.view().len(),
    {
        self.windows.len()
    }

    pub fn shm_segment_count(&self) -> (r: usize)
        requires
            self.wf(),
        ensures
            r == self.shm_segments.view().len(),
    {
        self.shm_segments.len()
    }

    /// Records a SysV segment a client attached.
    pub fn attach_shm_segment(
        &mut self,
        namespace: NamespaceId,
        segment: XResourceId,
        shmid: u32,
        read_only: bool,
        generation: u64,
    ) -> (r: Result<(), XAuthorityRuntimeError>)
        requires
            old(self).wf(),
        ensures
            final(self).wf(),
            !namespace.spec_is_valid() ==> r == Err::<(), XAuthorityRuntimeError>(
                XAuthorityRuntimeError::InvalidNamespace,
            ) && *final(self) == *old(self),
            namespace.spec_is_valid() && !segment.spec_is_valid() ==> r == Err::<
                (),
                XAuthorityRuntimeError,
            >(XAuthorityRuntimeError::InvalidResource) && *final(self) == *old(self),
            namespace.spec_is_valid() && segment.spec_is_valid() && old(self).shm_segments.view().contains_key(segment) ==> r == Err::<(), XAuthorityRuntimeError>(
                XAuthorityRuntimeError::DuplicateResource,
            ) && *final(self) == *old(self),
            namespace.spec_is_valid() && segment.spec_is_valid() && !old(self).shm_segments.view().contains_key(segment) ==> {
                &&& r is Ok
                &&& final(self).shm_segments.view() == old(self).shm_segments.view().insert(
                    segment,
                    XShmSegmentRecord { owner: namespace, shmid, read_only, generation },
                )
                &&& *final(self) == (XAuthorityRuntime {
                    shm_segments: final(self).shm_segments,
                    ..*old(self)
                })
            },
    {
        if !namespace.is_valid() {
            return Err(XAuthorityRuntimeError::InvalidNamespace);
        }
        if !segment.is_valid() {
            return Err(XAuthorityRuntimeError::InvalidResource);
        }
        if self.shm_segments.contains_key(&segment) {
            return Err(XAuthorityRuntimeError::DuplicateResource);
        }
        self.shm_segments.insert(
            segment,
            XShmSegmentRecord { owner: namespace, shmid, read_only, generation },
        );
        Ok(())
    }

    fn shm_lookup(&self, namespace: NamespaceId, segment: XResourceId) -> (r: Result<
        XShmSegmentRecord,
        XAuthorityRuntimeError,
    >)
        requires
            self.wf(),
        ensures
            r == spec_shm_lookup(self.shm_segments.view(), namespace, segment),
    {
        if !namespace.is_valid() {
            return Err(XAuthorityRuntimeError::InvalidNamespace);
        }
        match self.shm_segments.get(&segment) {
            None => Err(XAuthorityRuntimeError::UnknownResource),
            Some(rec) => if rec.owner != namespace {
                Err(XAuthorityRuntimeError::CrossNamespaceDenied)
            } else {
                Ok(*rec)
            },
        }
    }

    pub fn detach_shm_segment(&mut self, namespace: NamespaceId, segment: XResourceId) -> (r:
        Result<(), XAuthorityRuntimeError>)
        requires
            old(self).wf(),
        ensures
            final(self).wf(),
            match spec_shm_lookup(old(self).shm_segments.view(), namespace, segment) {
                Err(e) => r == Err::<(), XAuthorityRuntimeError>(e) && *final(self) == *old(self),
                Ok(_) => {
                    &&& r is Ok
                    &&& final(self).shm_segments.view() == old(self).shm_segments.view().remove(
                        segment,
                    )
                    &&& *final(self) == (XAuthorityRuntime {
                        shm_segments: final(self).shm_segments,
                        ..*old(self)
                    })
                },
            },
    {
        match self.shm_lookup(namespace, segment) {
            Err(e) => {
                return Err(e);
            },
            Ok(_) => {},
        }
        self.shm_segments.remove(&segment);
        Ok(())
    }

    pub fn validate_shm_segment_access(&self, namespace: NamespaceId, segment: XResourceId) -> (r:
        Result<(), XAuthorityRuntimeError>)
        requires
            self.wf(),
        ensures
            match spec_shm_lookup(self.shm_segments.view(), namespace, segment) {
                Err(e) => r == Err::<(), XAuthorityRuntimeError>(e),
                Ok(_) => r is Ok,
            },
    {
        match self.shm_lookup(namespace, segment) {
            Err(e) => Err(e),
            Ok(_) => Ok(()),
        }
    }

    /// Whether a segment refuses writes.
    pub fn shm_segment_is_read_only(&self, namespace: NamespaceId, segment: XResourceId) -> (r:
        Result<bool, XAuthorityRuntimeError>)
        requires
            self.wf(),
        ensures
            r == match spec_shm_lookup(self.shm_segments.view(), namespace, segment) {
                Err(e) => Err(e),
                Ok(rec) => Ok::<bool, XAuthorityRuntimeError>(rec.read_only),
            },
    {
        match self.shm_lookup(namespace, segment) {
            Err(e) => Err(e),
            Ok(rec) => Ok(rec.read_only),
        }
    }

    /// A window a client may name: its own, or the authority's
    /// `_NET_SUPPORTING_WM_CHECK` window, which every client may read.
    pub fn validate_window_access(&self, namespace: NamespaceId, window: XResourceId) -> (r: Result<
        (),
        XAuthorityRuntimeError,
    >)
        requires
            self.wf(),
        ensures
            window.local == X_SETUP_WM_CHECK_WINDOW ==> r is Ok,
            window.local != X_SETUP_WM_CHECK_WINDOW ==> match self.spec_access(
                namespace,
                window,
                XResourceKind::Window,
            ) {
                Some(e) => r == Err::<(), XAuthorityRuntimeError>(e),
                None => r is Ok,
            },
    {
        if window.local == X_SETUP_WM_CHECK_WINDOW as u64 {
            return Ok(());
        }
        self.access(namespace, window, XResourceKind::Window)
    }

    pub fn window_geometry(&self, namespace: NamespaceId, window: XResourceId) -> (r: Result<
        Rect,
        XAuthorityRuntimeError,
    >)
        requires
            self.wf(),
        ensures
            r == match self.spec_window(namespace, window) {
                Ok(rec) => Ok::<Rect, XAuthorityRuntimeError>(rec.geometry),
                Err(e) => Err(e),
            },
    {
        match self.window_record(namespace, window) {
            Ok(rec) => Ok(rec.geometry),
            Err(e) => Err(e),
        }
    }

    pub fn window_override_redirect(&self, namespace: NamespaceId, window: XResourceId) -> (r:
        Result<bool, XAuthorityRuntimeError>)
        requires
            self.wf(),
        ensures
            r == match self.spec_window(namespace, window) {
                Ok(rec) => Ok::<bool, XAuthorityRuntimeError>(rec.override_redirect),
                Err(e) => Err(e),
            },
    {
        match self.window_record(namespace, window) {
            Ok(rec) => Ok(rec.override_redirect),
            Err(e) => Err(e),
        }
    }

    pub fn window_map_state(&self, namespace: NamespaceId, window: XResourceId) -> (r: Result<
        XMapState,
        XAuthorityRuntimeError,
    >)
        requires
            self.wf(),
        ensures
            r == match self.spec_window(namespace, window) {
                Ok(rec) => Ok::<XMapState, XAuthorityRuntimeError>(rec.map_state),
                Err(e) => Err(e),
            },
    {
        match self.window_record(namespace, window) {
            Ok(rec) => Ok(rec.map_state),
            Err(e) => Err(e),
        }
    }

    /// Whether the window awaits the compositor's admission decision.
    pub fn window_policy_map_pending(&self, namespace: NamespaceId, window: XResourceId) -> (r:
        Result<bool, XAuthorityRuntimeError>)
        requires
            self.wf(),
        ensures
            r == match self.spec_window(namespace, window) {
                Ok(rec) => Ok::<bool, XAuthorityRuntimeError>(rec.policy_map_pending),
                Err(e) => Err(e),
            },
    {
        match self.window_record(namespace, window) {
            Ok(rec) => Ok(rec.policy_map_pending),
            Err(e) => Err(e),
        }
    }

    pub fn set_window_override_redirect(
        &mut self,
        namespace: NamespaceId,
        window: XResourceId,
        override_redirect: bool,
    ) -> (r: Result<AuthoritySurface, XAuthorityRuntimeError>)
        requires
            old(self).wf(),
        ensures
            final(self).wf(),
            match old(self).spec_access(namespace, window, XResourceKind::Window) {
                Some(e) => r == Err::<AuthoritySurface, XAuthorityRuntimeError>(e) && *final(self)
                    == *old(self),
                None => {
                    &&& *final(self) == (XAuthorityRuntime {
                        windows: final(self).windows,
                        ..*old(self)
                    })
                    &&& old(self).windows.view().contains_key(window) ==> {
                        let next = XWindowRecord {
                            override_redirect,
                            ..old(self).windows.view()[window]
                        };
                        &&& final(self).windows.view() == old(self).windows.view().insert(
                            window,
                            next,
                        )
                        &&& r == Ok::<AuthoritySurface, XAuthorityRuntimeError>(
                            spec_authority_surface(next),
                        )
                    }
                    &&& !old(self).windows.view().contains_key(window) ==> final(self).windows.view() == old(self).windows.view() && r == Err::<
                        AuthoritySurface,
                        XAuthorityRuntimeError,
                    >(XAuthorityRuntimeError::UnknownResource)
                },
            },
    {
        match self.access(namespace, window, XResourceKind::Window) {
            Err(e) => {
                return Err(e);
            },
            Ok(()) => {},
        }
        self.windows.set_override_redirect(window, override_redirect)
    }

    /// Records `WM_TRANSIENT_FOR`, reducing the owner to the surface that
    /// presents it when the owner is a window of this namespace.
    pub fn set_window_transient_for(
        &mut self,
        namespace: NamespaceId,
        window: XResourceId,
        owner: Option<XResourceId>,
    ) -> (r: Result<AuthoritySurface, XAuthorityRuntimeError>)
        requires
            old(self).wf(),
        ensures
            final(self).wf(),
            match old(self).spec_access(namespace, window, XResourceKind::Window) {
                Some(e) => r == Err::<AuthoritySurface, XAuthorityRuntimeError>(e) && *final(self)
                    == *old(self),
                None => {
                    &&& *final(self) == (XAuthorityRuntime {
                        windows: final(self).windows,
                        ..*old(self)
                    })
                    &&& old(self).windows.view().contains_key(window) ==> {
                        let rec = old(self).windows.view()[window];
                        let next = XWindowRecord {
                            transient_for: owner is Some,
                            presentation_owner: match old(self).spec_owner_surface(
                                namespace,
                                owner,
                            ) {
                                Some(o) => if owner is Some && o != rec.surface {
                                    Some(o)
                                } else {
                                    None
                                },
                                None => None,
                            },
                            ..rec
                        };
                        &&& final(self).windows.view() == old(self).windows.view().insert(
                            window,
                            next,
                        )
                        &&& r == Ok::<AuthoritySurface, XAuthorityRuntimeError>(
                            spec_authority_surface(next),
                        )
                    }
                    &&& !old(self).windows.view().contains_key(window) ==> final(self).windows.view() == old(self).windows.view() && r == Err::<
                        AuthoritySurface,
                        XAuthorityRuntimeError,
                    >(XAuthorityRuntimeError::UnknownResource)
                },
            },
    {
        match self.access(namespace, window, XResourceKind::Window) {
            Err(e) => {
                return Err(e);
            },
            Ok(()) => {},
        }
        let transient_for = owner.is_some();
        let owner_surface = match owner {
            None => None,
            Some(o) => {
                if self.access(namespace, o, XResourceKind::Window).is_err() {
                    None
                } else {
                    match self.windows.presentation_root_and_offset(o) {
                        Err(_) => None,
                        Ok((root, _, _)) => match self.windows.get(root) {
                            Some(rec) => Some(rec.surface),
                            None => None,
                        },
                    }
                }
            },
        };
        self.windows.set_transient_for(window, transient_for, owner_surface)
    }

    pub fn set_window_type_facts(
        &mut self,
        namespace: NamespaceId,
        window: XResourceId,
        facts: XWindowTypeFacts,
    ) -> (r: Result<AuthoritySurface, XAuthorityRuntimeError>)
        requires
            old(self).wf(),
        ensures
            final(self).wf(),
            match old(self).spec_access(namespace, window, XResourceKind::Window) {
                Some(e) => r == Err::<AuthoritySurface, XAuthorityRuntimeError>(e) && *final(self)
                    == *old(self),
                None => {
                    &&& *final(self) == (XAuthorityRuntime {
                        windows: final(self).windows,
                        ..*old(self)
                    })
                    &&& old(self).windows.view().contains_key(window) ==> {
                        let next = XWindowRecord {
                            window_type_kind: facts.kind,
                            window_type_placement: facts.placement_preference,
                            window_type_client_positioned: facts.client_positioned,
                            ..old(self).windows.view()[window]
                        };
                        &&& final(self).windows.view() == old(self).windows.view().insert(
                            window,
                            next,
                        )
                        &&& r == Ok::<AuthoritySurface, XAuthorityRuntimeError>(
                            spec_authority_surface(next),
                        )
                    }
                    &&& !old(self).windows.view().contains_key(window) ==> final(self).windows.view() == old(self).windows.view() && r == Err::<
                        AuthoritySurface,
                        XAuthorityRuntimeError,
                    >(XAuthorityRuntimeError::UnknownResource)
                },
            },
    {
        match self.access(namespace, window, XResourceKind::Window) {
            Err(e) => {
                return Err(e);
            },
            Ok(()) => {},
        }
        self.windows.set_window_type_facts(window, facts)
    }

    /// Reparents a window; a parent other than the root must be a window of
    /// the same namespace.
    pub fn set_window_parent(&mut self, namespace: NamespaceId, window: XResourceId, parent: XResourceId) -> (r:
        Result<(), XAuthorityRuntimeError>)
        requires
            old(self).wf(),
        ensures
            final(self).wf(),
            old(self).spec_access(namespace, window, XResourceKind::Window) is Some ==> r == Err::<
                (),
                XAuthorityRuntimeError,
            >(old(self).spec_access(namespace, window, XResourceKind::Window).unwrap())
                && *final(self) == *old(self),
            old(self).spec_access(namespace, window, XResourceKind::Window) is None && parent.local
                != X_SETUP_DEFAULT_ROOT && old(self).spec_access(
                namespace,
                parent,
                XResourceKind::Window,
            ) is Some ==> r == Err::<(), XAuthorityRuntimeError>(
                old(self).spec_access(namespace, parent, XResourceKind::Window).unwrap(),
            ) && *final(self) == *old(self),
            old(self).spec_access(namespace, window, XResourceKind::Window) is None && (parent.local
                == X_SETUP_DEFAULT_ROOT || old(self).spec_access(
                namespace,
                parent,
                XResourceKind::Window,
            ) is None) ==> {
                &&& (final(self).windows.view(), r) == spec_set_parent(
                    old(self).windows.view(),
                    window,
                    parent,
                )
                &&& r is Err ==> *final(self) == *old(self)
                &&& *final(self) == (XAuthorityRuntime {
                    windows: final(self).windows,
                    ..*old(self)
                })
            },
    {
        match self.access(namespace, window, XResourceKind::Window) {
            Err(e) => {
                return Err(e);
            },
            Ok(()) => {},
        }
        if parent.local != X_SETUP_DEFAULT_ROOT as u64 {
            match self.access(namespace, parent, XResourceKind::Window) {
                Err(e) => {
                    return Err(e);
                },
                Ok(()) => {},
            }
        }
        self.windows.set_parent(window, parent)
    }

    /// Moves a window within its siblings' stacking order; a named sibling
    /// must be a window of the same namespace.
    pub fn restack_window(
        &mut self,
        namespace: NamespaceId,
        window: XResourceId,
        sibling: Option<XResourceId>,
        stack_mode: Option<u8>,
    ) -> (r: Result<AuthoritySurface, XAuthorityRuntimeError>)
        requires
            old(self).wf(),
        ensures
            final(self).wf(),
            old(self).spec_access(namespace, window, XResourceKind::Window) is Some ==> r == Err::<
                AuthoritySurface,
                XAuthorityRuntimeError,
            >(old(self).spec_access(namespace, window, XResourceKind::Window).unwrap())
                && *final(self) == *old(self),
            old(self).spec_access(namespace, window, XResourceKind::Window) is None && sibling is Some
                && old(self).spec_access(namespace, sibling.unwrap(), XResourceKind::Window) is Some
                ==> r == Err::<AuthoritySurface, XAuthorityRuntimeError>(
                old(self).spec_access(namespace, sibling.unwrap(), XResourceKind::Window).unwrap(),
            ) && *final(self) == *old(self),
            old(self).spec_access(namespace, window, XResourceKind::Window) is None && (sibling is None
                || old(self).spec_access(namespace, sibling.unwrap(), XResourceKind::Window) is None)
                ==> {
                &&& (final(self).windows.windows.entries@, r) == spec_restack(
                    old(self).windows.windows.entries@,
                    old(self).windows.view(),
                    window,
                    sibling,
                    stack_mode,
                )
                &&& *final(self) == (XAuthorityRuntime {
                    windows: final(self).windows,
                    ..*old(self)
                })
            },
    {
        match self.access(namespace, window, XResourceKind::Window) {
            Err(e) => {
                return Err(e);
            },
            Ok(()) => {},
        }
        match sibling {
            Some(s) => match self.access(namespace, s, XResourceKind::Window) {
                Err(e) => {
                    return Err(e);
                },
                Ok(()) => {},
            },
            None => {},
        }
        self.windows.restack(window, sibling, stack_mode)
    }

    /// A window's parent and its children of this namespace; the root
    /// answers with no parent.
    pub fn window_parent_and_children(&self, namespace: NamespaceId, window: XResourceId) -> (r:
        Result<(XResourceId, Vec<XResourceId>), XAuthorityRuntimeError>)
        requires
            self.wf(),
        ensures
            window.local == X_SETUP_DEFAULT_ROOT ==> match r {
                Ok((p, c)) => p == XResourceId::spec_none() && c@ == spec_filter_ids(
                    self.windows.windows.entries@,
                    namespace,
                    Some(window),
                ),
                Err(_) => false,
            },
            window.local != X_SETUP_DEFAULT_ROOT ==> match (r, self.spec_window(namespace, window)) {
                (Ok((p, c)), Ok(rec)) => p == rec.parent && c@ == spec_filter_ids(
                    self.windows.windows.entries@,
                    namespace,
                    Some(window),
                ),
                (Err(e), Err(se)) => e == se,
                _ => false,
            },
    {
        if window.local == X_SETUP_DEFAULT_ROOT as u64 {
            return Ok((XResourceId::none(), self.windows.direct_children(namespace, window)));
        }
        match self.window_record(namespace, window) {
            Err(e) => Err(e),
            Ok(rec) => Ok((rec.parent, self.windows.direct_children(namespace, window))),
        }
    }

    pub fn set_window_visual(&mut self, window: XResourceId, depth: u8, visual: u32, colormap: XResourceId)
        requires
            old(self).wf(),
        ensures
            final(self).wf(),
            final(self).window_visuals.view() == old(self).window_visuals.view().insert(
                window,
                (depth, visual, colormap),
            ),
            *final(self) == (XAuthorityRuntime {
                window_visuals: final(self).window_visuals,
                ..*old(self)
            }),
    {
        self.window_visuals.insert(window, (depth, visual, colormap));
    }

    /// The depth, visual and colormap a window was created with.
    pub fn window_visual(&self, window: XResourceId) -> (r: (u8, u32, XResourceId))
        requires
            self.wf(),
        ensures
            r == if self.window_visuals.view().contains_key(window) {
                self.window_visuals.view()[window]
            } else {
                spec_default_window_visual()
            },
    {
        match self.window_visuals.get(&window) {
            Some(v) => *v,
            None => (24, X_SETUP_DEFAULT_VISUAL, XResourceId::new(X_SETUP_DEFAULT_COLORMAP as u64, 1)),
        }
    }

    /// Applies a client's geometry request to a window of its own.
    pub fn configure_window_geometry(
        &mut self,
        namespace: NamespaceId,
        window: XResourceId,
        update: XWindowGeometryUpdate,
    ) -> (r: Result<(), XAuthorityRuntimeError>)
        requires
            old(self).wf(),
        ensures
            final(self).wf(),
            match old(self).spec_access(namespace, window, XResourceKind::Window) {
                Some(e) => r == Err::<(), XAuthorityRuntimeError>(e) && *final(self) == *old(self),
                None => {
                    let (m, res) = spec_apply(
                        old(self).windows.view(),
                        XWindowLifecycleEvent::Configured {
                            id: window,
                            x: update.x,
                            y: update.y,
                            width: update.width,
                            height: update.height,
                            generation: update.generation,
                        },
                    );
                    &&& final(self).windows.view() == m
                    &&& r == spec_configure_answer(res)
                    &&& *final(self) == (XAuthorityRuntime {
                        windows: final(self).windows,
                        ..*old(self)
                    })
                },
            },
    {
        match self.access(namespace, window, XResourceKind::Window) {
            Err(e) => {
                return Err(e);
            },
            Ok(()) => {},
        }
        let res = self.windows.apply(
            XWindowLifecycleEvent::Configured {
                id: window,
                x: update.x,
                y: update.y,
                width: update.width,
                height: update.height,
                generation: update.generation,
            },
        );
        match res {
            Ok(Some(_)) => Ok(()),
            Ok(None) => Err(XAuthorityRuntimeError::UnknownResource),
            Err(e) => Err(e),
        }
    }

    /// Applies outer geometry the compositor decided, at the window's
    /// current generation.
    pub fn configure_window_from_engine(&mut self, namespace: NamespaceId, window: XResourceId, geometry: Rect) -> (r:
        Result<Rect, XAuthorityRuntimeError>)
        requires
            old(self).wf(),
        ensures
            final(self).wf(),
            !spec_engine_geometry_valid(geometry) ==> r == Err::<Rect, XAuthorityRuntimeError>(
                XAuthorityRuntimeError::InvalidResource,
            ) && *final(self) == *old(self),
            spec_engine_geometry_valid(geometry) && !old(self).windows.view().contains_key(window)
                ==> r == Err::<Rect, XAuthorityRuntimeError>(XAuthorityRuntimeError::UnknownResource)
                && *final(self) == *old(self),
            spec_engine_geometry_valid(geometry) && old(self).windows.view().contains_key(window)
                ==> match old(self).spec_access(namespace, window, XResourceKind::Window) {
                Some(e) => r == Err::<Rect, XAuthorityRuntimeError>(e) && *final(self) == *old(self),
                None => {
                    &&& r == Ok::<Rect, XAuthorityRuntimeError>(geometry)
                    &&& final(self).windows.view() == spec_apply(
                        old(self).windows.view(),
                        spec_engine_configure(
                            window,
                            geometry,
                            old(self).windows.view()[window].generation,
                        ),
                    ).0
                    &&& *final(self) == (XAuthorityRuntime {
                        windows: final(self).windows,
                        ..*old(self)
                    })
                },
            },
    {
        if geometry.is_empty() || geometry.width > u16::MAX as i32 || geometry.height > u16::MAX as i32
            || geometry.x < i16::MIN as i32 || geometry.x > i16::MAX as i32 || geometry.y
            < i16::MIN as i32 || geometry.y > i16::MAX as i32 {
            return Err(XAuthorityRuntimeError::InvalidResource);
        }
        let generation = match self.windows.get(window) {
            None => {
                return Err(XAuthorityRuntimeError::UnknownResource);
            },
            Some(rec) => rec.generation,
        };
        let update = XWindowGeometryUpdate {
            x: Some(geometry.x as i16),
            y: Some(geometry.y as i16),
            width: Some(geometry.width as u16),
            height: Some(geometry.height as u16),
            generation,
        };
        match self.configure_window_geometry(namespace, window, update) {
            Err(e) => Err(e),
            Ok(()) => Ok(geometry),
        }
    }

    /// Admits a window awaiting the compositor's decision: imposes the
    /// decided geometry and maps it.
    pub fn admit_window_from_engine(&mut self, namespace: NamespaceId, window: XResourceId, geometry: Rect) -> (r:
        Result<Rect, XAuthorityRuntimeError>)
        requires
            old(self).wf(),
        ensures
            final(self).wf(),
            !spec_engine_geometry_valid(geometry) ==> r == Err::<Rect, XAuthorityRuntimeError>(
                XAuthorityRuntimeError::InvalidResource,
            ) && *final(self) == *old(self),
            spec_engine_geometry_valid(geometry) ==> match old(self).spec_window(namespace, window) {
                Err(e) => r == Err::<Rect, XAuthorityRuntimeError>(e) && *final(self) == *old(self),
                Ok(rec) => if !rec.policy_map_pending || rec.map_state != XMapState::Unmapped {
                    r == Err::<Rect, XAuthorityRuntimeError>(XAuthorityRuntimeError::InvalidResource)
                        && *final(self) == *old(self)
                } else {
                    &&& r == Ok::<Rect, XAuthorityRuntimeError>(geometry)
                    &&& final(self).windows.view() == spec_apply(
                        spec_apply(
                            old(self).windows.view(),
                            spec_engine_configure(window, geometry, rec.generation),
                        ).0,
                        XWindowLifecycleEvent::Mapped { id: window, generation: rec.generation },
                    ).0
                    &&& *final(self) == (XAuthorityRuntime {
                        windows: final(self).windows,
                        ..*old(self)
                    })
                },
            },
    {
        if geometry.is_empty() || geometry.width > u16::MAX as i32 || geometry.height > u16::MAX as i32
            || geometry.x < i16::MIN as i32 || geometry.x > i16::MAX as i32 || geometry.y
            < i16::MIN as i32 || geometry.y > i16::MAX as i32 {
            return Err(XAuthorityRuntimeError::InvalidResource);
        }
        let rec = match self.window_record(namespace, window) {
            Err(e) => {
                return Err(e);
            },
            Ok(rec) => rec,
        };
        if !rec.policy_map_pending || rec.map_state != XMapState::Unmapped {
            return Err(XAuthorityRuntimeError::InvalidResource);
        }
        let generation = rec.generation;
        let update = XWindowGeometryUpdate {
            x: Some(geometry.x as i16),
            y: Some(geometry.y as i16),
            width: Some(geometry.width as u16),
            height: Some(geometry.height as u16),
            generation,
        };
        match self.configure_window_geometry(namespace, window, update) {
            Err(e) => {
                return Err(e);
            },
            Ok(()) => {},
        }
        match self.windows.apply(XWindowLifecycleEvent::Mapped { id: window, generation }) {
            Err(e) => Err(e),
            Ok(_) => Ok(geometry),
        }
    }

    pub fn unmap_window(&mut self, namespace: NamespaceId, window: XResourceId) -> (r: Result<
        Option<AuthoritySurface>,
        XAuthorityRuntimeError,
    >)
        requires
            old(self).wf(),
        ensures
            final(self).wf(),
            match old(self).spec_window(namespace, window) {
                Err(e) => r == Err::<Option<AuthoritySurface>, XAuthorityRuntimeError>(e) && *final(self) == *old(self),
                Ok(rec) => {
                    &&& (final(self).windows.view(), r) == spec_apply(
                        old(self).windows.view(),
                        XWindowLifecycleEvent::Unmapped { id: window, generation: rec.generation },
                    )
                    &&& *final(self) == (XAuthorityRuntime {
                        windows: final(self).windows,
                        ..*old(self)
                    })
                },
            },
    {
        let rec = match self.window_record(namespace, window) {
            Err(e) => {
                return Err(e);
            },
            Ok(rec) => rec,
        };
        self.windows.apply(XWindowLifecycleEvent::Unmapped { id: window, generation: rec.generation })
    }

    /// `ConfigureWindow` on a window of this namespace, answering the
    /// surface it now describes.
    pub fn configure_window_geometry_observed(
        &mut self,
        namespace: NamespaceId,
        window: XResourceId,
        update: XWindowGeometryUpdate,
    ) -> (r: Result<AuthoritySurface, XAuthorityRuntimeError>)
        requires
            old(self).wf(),
        ensures
            final(self).wf(),
            match old(self).spec_access(namespace, window, XResourceKind::Window) {
                Some(e) => r == Err::<AuthoritySurface, XAuthorityRuntimeError>(e) && *final(self)
                    == *old(self),
                None => {
                    let (m, res) = spec_apply(
                        old(self).windows.view(),
                        XWindowLifecycleEvent::Configured {
                            id: window,
                            x: update.x,
                            y: update.y,
                            width: update.width,
                            height: update.height,
                            generation: update.generation,
                        },
                    );
                    &&& final(self).windows.view() == m
                    &&& r == match res {
                        Ok(Some(s)) => Ok::<AuthoritySurface, XAuthorityRuntimeError>(s),
                        Ok(None) => Err(XAuthorityRuntimeError::UnknownResource),
                        Err(e) => Err(e),
                    }
                    &&& *final(self) == (XAuthorityRuntime { windows: final(self).windows, ..*old(self) })
                },
            },
    {
        match self.access(namespace, window, XResourceKind::Window) {
            Err(e) => {
                return Err(e);
            },
            Ok(()) => {},
        }
        match self.windows.apply(
            XWindowLifecycleEvent::Configured {
                id: window,
                x: update.x,
                y: update.y,
                width: update.width,
                height: update.height,
                generation: update.generation,
            },
        ) {
            Ok(Some(s)) => Ok(s),
            Ok(None) => Err(XAuthorityRuntimeError::UnknownResource),
            Err(e) => Err(e),
        }
    }

    /// Where a window of this namespace sits on the output: its
    /// presentation root's position plus its offset inside that root,
    /// saturating.
    pub fn window_absolute_position(&self, namespace: NamespaceId, window: XResourceId) -> (r: Result<
        (i32, i32),
        XAuthorityRuntimeError,
    >)
        requires
            self.wf(),
        ensures
            match self.spec_access(namespace, window, XResourceKind::Window) {
                Some(e) => r == Err::<(i32, i32), XAuthorityRuntimeError>(e),
                None => match spec_presentation_walk(self.windows.view(), window, 0, 0, self.windows.view().len()) {
                    Err(e) => r == Err::<(i32, i32), XAuthorityRuntimeError>(e),
                    Ok((root, dx, dy)) => if self.windows.view().contains_key(root) {
                        let g = self.windows.view()[root].geometry;
                        r == Ok::<(i32, i32), XAuthorityRuntimeError>(
                            (sat_add_i32(g.x as int, dx as int) as i32, sat_add_i32(g.y as int, dy as int) as i32),
                        )
                    } else {
                        r == Err::<(i32, i32), XAuthorityRuntimeError>(XAuthorityRuntimeError::UnknownResource)
                    },
                },
            },
    {
        match self.access(namespace, window, XResourceKind::Window) {
            Err(e) => {
                return Err(e);
            },
            Ok(()) => {},
        }
        let (root, dx, dy) = match self.windows.presentation_root_and_offset(window) {
            Err(e) => {
                return Err(e);
            },
            Ok(t) => t,
        };
        match self.windows.get(root) {
            Some(rec) => Ok((saturating_add_i32(rec.geometry.x, dx), saturating_add_i32(rec.geometry.y, dy))),
            None => Err(XAuthorityRuntimeError::UnknownResource),
        }
    }

    /// Whether the client, not the window policy, decides this window's
    /// geometry: it is not viewable, or the policy does not manage it.
    pub fn client_controls_window_geometry(&self, namespace: NamespaceId, window: XResourceId) -> (r:
        Result<bool, XAuthorityRuntimeError>)
        requires
            self.wf(),
        ensures
            r == match self.spec_window(namespace, window) {
                Ok(rec) => Ok::<bool, XAuthorityRuntimeError>(
                    rec.map_state != XMapState::Viewable || spec_presentation_role(rec)
                        != SurfacePresentationRole::PolicyManaged,
                ),
                Err(e) => Err(e),
            },
    {
        match self.window_record(namespace, window) {
            Err(e) => Err(e),
            Ok(rec) => Ok(rec.map_state != XMapState::Viewable || rec.presentation_role()
                != SurfacePresentationRole::PolicyManaged),
        }
    }

    /// Maps every direct child of `parent` this namespace owns, in table
    /// order, answering the surfaces that changed. A window the client
    /// positions maps at once; a policy-managed one waits for the
    /// compositor when maps are deferred. The first failure ends the walk.
    pub fn map_direct_subwindows(&mut self, namespace: NamespaceId, parent: XResourceId, generation: u64) -> (r:
        Result<Vec<AuthoritySurface>, XAuthorityRuntimeError>)
        requires
            old(self).wf(),
        ensures
            final(self).wf(),
            parent.local != X_SETUP_DEFAULT_ROOT && old(self).spec_access(
                namespace,
                parent,
                XResourceKind::Window,
            ) is Some ==> r == Err::<Vec<AuthoritySurface>, XAuthorityRuntimeError>(
                old(self).spec_access(namespace, parent, XResourceKind::Window).unwrap(),
            ) && *final(self) == *old(self),
            parent.local == X_SETUP_DEFAULT_ROOT || old(self).spec_access(
                namespace,
                parent,
                XResourceKind::Window,
            ) is None ==> {
                let kids = spec_filter_ids(old(self).windows.windows.entries@, namespace, Some(parent));
                let (m, res) = spec_map_children(
                    old(self).windows.view(),
                    kids,
                    old(self).defer_policy_maps,
                    generation,
                    kids.len() as int,
                );
                &&& final(self).windows.view() == m
                &&& match (r, res) {
                    (Ok(v), Ok(s)) => v@ == s,
                    (Err(e), Err(se)) => e == se,
                    _ => false,
                }
                &&& *final(self) == (XAuthorityRuntime { windows: final(self).windows, ..*old(self) })
            },
    {
        if parent.local != X_SETUP_DEFAULT_ROOT as u64 {
            match self.access(namespace, parent, XResourceKind::Window) {
                Err(e) => {
                    return Err(e);
                },
                Ok(()) => {},
            }
        }
        let kids = self.windows.direct_children(namespace, parent);
        let ghost pre = *self;
        let ghost m0 = self.windows.view();
        let mut surfaces: Vec<AuthoritySurface> = Vec::new();
        let mut i: usize = 0;
        while i < kids.len()
            invariant
                self.wf(),
                i <= kids@.len(),
                (self.windows.view(), Ok::<Seq<AuthoritySurface>, XAuthorityRuntimeError>(surfaces@))
                    == spec_map_children(m0, kids@, pre.defer_policy_maps, generation, i as int),
                *self == (XAuthorityRuntime { windows: self.windows, ..pre }),
                pre == *old(self),
                m0 == old(self).windows.view(),
                kids@ == spec_filter_ids(old(self).windows.windows.entries@, namespace, Some(parent)),
                parent.local != X_SETUP_DEFAULT_ROOT ==> old(self).spec_access(
                    namespace,
                    parent,
                    XResourceKind::Window,
                ) is None,
            decreases kids@.len() - i,
        {
            let w = kids[i];
            let role = match self.windows.get(w) {
                None => {
                    proof {
                        lemma_map_children_error_stays(m0, kids@, pre.defer_policy_maps, generation, i + 1, kids@.len() as int);
                    }
                    return Err(XAuthorityRuntimeError::UnknownResource);
                },
                Some(rec) => rec.presentation_role(),
            };
            let event = if role == SurfacePresentationRole::ClientPositioned || !self.defer_policy_maps {
                XWindowLifecycleEvent::Mapped { id: w, generation }
            } else {
                XWindowLifecycleEvent::PolicyPending { id: w, generation }
            };
            match self.windows.apply(event) {
                Err(e) => {
                    proof {
                        lemma_map_children_error_stays(m0, kids@, pre.defer_policy_maps, generation, i + 1, kids@.len() as int);
                    }
                    return Err(e);
                },
                Ok(Some(s)) => {
                    surfaces.push(s);
                },
                Ok(None) => {},
            }
            i = i + 1;
        }
        Ok(surfaces)
    }
}

} // verus!
