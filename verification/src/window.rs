use vstd::prelude::*;

use crate::geometry::{Rect, sat_add_i32, saturating_add_i32};
use crate::ids::{NamespaceId, SurfaceId, XResourceId};
use crate::resources::XAuthorityRuntimeError;
use crate::table::{XTable, XTableKey};

verus! {

/// The core protocol's three map states.
#[derive(Clone, Copy, Debug, PartialEq, Eq, Structural)]
pub enum XMapState {
    Unmapped,
    Unviewable,
    Viewable,
}

/// What kind of node a surface is in the compositor's layout.
#[derive(Clone, Copy, Debug, PartialEq, Eq, Structural)]
pub enum LayoutNodeKind {
    Toplevel,
    Dialog,
    Popup,
    Utility,
}

/// Where a surface asks to be placed.
#[derive(Clone, Copy, Debug, PartialEq, Eq, Structural)]
pub enum SurfacePlacementPreference {
    Default,
    Floating,
}

/// Who positions a surface: the window policy, or the client itself.
#[derive(Clone, Copy, Debug, PartialEq, Eq, Structural)]
pub enum SurfacePresentationRole {
    PolicyManaged,
    ClientPositioned,
}

/// Size limits a client published for its window; zero means none.
#[derive(Clone, Copy, Debug, PartialEq, Eq, Structural, Default)]
pub struct SurfaceConstraints {
    pub min_width: u32,
    pub min_height: u32,
    pub max_width: u32,
    pub max_height: u32,
}

/// What `_NET_WM_WINDOW_TYPE` reduced to.
#[derive(Clone, Copy, Debug, PartialEq, Eq, Structural)]
pub struct XWindowTypeFacts {
    pub kind: LayoutNodeKind,
    pub placement_preference: SurfacePlacementPreference,
    pub client_positioned: bool,
}

/// The compositor-facing description of one X window.
#[derive(Clone, Copy, Debug, PartialEq, Eq, Structural)]
pub struct AuthoritySurface {
    pub local_id: u64,
    pub surface: SurfaceId,
    pub namespace: Option<NamespaceId>,
    pub presentation: SurfacePresentationRole,
    pub kind: LayoutNodeKind,
    pub placement_preference: SurfacePlacementPreference,
    pub presentation_owner: Option<SurfaceId>,
    pub stack_rank: u32,
    pub mapped: bool,
    pub geometry: Rect,
    pub constraints: SurfaceConstraints,
    pub generation: u64,
}

#[derive(Clone, Copy, Debug, PartialEq, Eq, Structural)]
pub struct XWindowRecord {
    pub id: XResourceId,
    pub parent: XResourceId,
    pub surface: SurfaceId,
    pub namespace: NamespaceId,
    pub override_redirect: bool,
    /// The client published `WM_TRANSIENT_FOR`, even when its owner is the
    /// root window or cannot be reduced to a compositor surface.
    pub transient_for: bool,
    pub window_type_kind: LayoutNodeKind,
    pub window_type_placement: SurfacePlacementPreference,
    pub window_type_client_positioned: bool,
    pub presentation_owner: Option<SurfaceId>,
    /// Admission is pending for a redirected policy-managed root child. This
    /// is not an X11 map state: the window stays `Unmapped` until the
    /// compositor applies its decision.
    pub policy_map_pending: bool,
    pub map_state: XMapState,
    pub geometry: Rect,
    pub constraints: SurfaceConstraints,
    pub generation: u64,
    pub stack_rank: u32,
}

pub open spec fn spec_presentation_role(r: XWindowRecord) -> SurfacePresentationRole {
    if r.override_redirect || r.window_type_client_positioned || !r.parent.spec_is_root() {
        SurfacePresentationRole::ClientPositioned
    } else {
        SurfacePresentationRole::PolicyManaged
    }
}

pub open spec fn spec_kind(r: XWindowRecord) -> LayoutNodeKind {
    if r.transient_for && r.window_type_kind == LayoutNodeKind::Toplevel {
        LayoutNodeKind::Dialog
    } else {
        r.window_type_kind
    }
}

pub open spec fn spec_placement(r: XWindowRecord) -> SurfacePlacementPreference {
    if r.transient_for {
        SurfacePlacementPreference::Floating
    } else {
        r.window_type_placement
    }
}

pub open spec fn spec_authority_surface(r: XWindowRecord) -> AuthoritySurface {
    AuthoritySurface {
        local_id: r.id.local,
        surface: r.surface,
        namespace: Some(r.namespace),
        presentation: spec_presentation_role(r),
        kind: spec_kind(r),
        placement_preference: spec_placement(r),
        presentation_owner: r.presentation_owner,
        stack_rank: r.stack_rank,
        mapped: r.map_state == XMapState::Viewable,
        geometry: r.geometry,
        constraints: r.constraints,
        generation: r.generation,
    }
}

impl XWindowRecord {
    /// A root child that is neither override-redirect nor self-positioning is
    /// placed by the window policy; everything else positions itself.
    pub fn presentation_role(&self) -> (r: SurfacePresentationRole)
        ensures
            r == spec_presentation_role(*self),
    {
        let is_root_child = self.parent.is_root();
        if self.override_redirect || self.window_type_client_positioned || !is_root_child {
            SurfacePresentationRole::ClientPositioned
        } else {
            SurfacePresentationRole::PolicyManaged
        }
    }

    /// A transient toplevel is a dialog.
    pub fn kind(&self) -> (r: LayoutNodeKind)
        ensures
            r == spec_kind(*self),
    {
        if self.transient_for && self.window_type_kind == LayoutNodeKind::Toplevel {
            LayoutNodeKind::Dialog
        } else {
            self.window_type_kind
        }
    }

    /// A transient window floats.
    pub fn placement_preference(&self) -> (r: SurfacePlacementPreference)
        ensures
            r == spec_placement(*self),
    {
        if self.transient_for {
            SurfacePlacementPreference::Floating
        } else {
            self.window_type_placement
        }
    }

    pub fn authority_surface(&self) -> (r: AuthoritySurface)
        ensures
            r == spec_authority_surface(*self),
    {
        AuthoritySurface {
            local_id: self.id.local,
            surface: self.surface,
            namespace: Some(self.namespace),
            presentation: self.presentation_role(),
            kind: self.kind(),
            placement_preference: self.placement_preference(),
            presentation_owner: self.presentation_owner,
            stack_rank: self.stack_rank,
            mapped: self.map_state == XMapState::Viewable,
            geometry: self.geometry,
            constraints: self.constraints,
            generation: self.generation,
        }
    }
}

/// One step in a window's X11 lifetime.
#[derive(Clone, Copy, Debug, PartialEq, Eq, Structural)]
pub enum XWindowLifecycleEvent {
    Created {
        id: XResourceId,
        surface: SurfaceId,
        namespace: NamespaceId,
        geometry: Rect,
        constraints: SurfaceConstraints,
        generation: u64,
    },
    Mapped { id: XResourceId, generation: u64 },
    PolicyPending { id: XResourceId, generation: u64 },
    Unmapped { id: XResourceId, generation: u64 },
    Configured {
        id: XResourceId,
        x: Option<i16>,
        y: Option<i16>,
        width: Option<u16>,
        height: Option<u16>,
        generation: u64,
    },
    Destroyed { id: XResourceId },
}

pub type WindowMap = Map<XResourceId, XWindowRecord>;

/// Whether `w` reaches `p` by parent links within `fuel + 1` steps, every
/// window on the way (including `w`, excluding `p`) being mapped -- or, when
/// `viewable_only`, viewable.
pub open spec fn spec_linked(
    m: WindowMap,
    w: XResourceId,
    p: XResourceId,
    fuel: nat,
    viewable_only: bool,
) -> bool
    decreases fuel,
{
    &&& m.contains_key(w)
    &&& (if viewable_only {
        m[w].map_state == XMapState::Viewable
    } else {
        m[w].map_state != XMapState::Unmapped
    })
    &&& (m[w].parent == p || (fuel > 0 && spec_linked(
        m,
        m[w].parent,
        p,
        (fuel - 1) as nat,
        viewable_only,
    )))
}

/// The state a descendant moves to when its ancestor `p` becomes viewable
/// (`demote == false`) or stops being viewable (`demote == true`).
pub open spec fn spec_shifted(m: WindowMap, k: XResourceId, p: XResourceId, demote: bool) -> XWindowRecord {
    let from = if demote {
        XMapState::Viewable
    } else {
        XMapState::Unviewable
    };
    let to = if demote {
        XMapState::Unviewable
    } else {
        XMapState::Viewable
    };
    if m[k].map_state == from && spec_linked(m, k, p, m.len(), demote) {
        XWindowRecord { map_state: to, ..m[k] }
    } else {
        m[k]
    }
}

pub open spec fn spec_shift(m: WindowMap, p: XResourceId, demote: bool) -> WindowMap {
    Map::new(|k: XResourceId| m.contains_key(k), |k: XResourceId| spec_shifted(m, k, p, demote))
}

/// Whether a parent counts as viewable for a child being mapped under it.
pub open spec fn spec_parent_viewable(m: WindowMap, parent: XResourceId) -> bool {
    parent.spec_is_root() || (m.contains_key(parent) && m[parent].map_state
        == XMapState::Viewable)
}

/// The state after re-deriving viewability below a window that moved.
pub open spec fn spec_recompute(m: WindowMap, id: XResourceId) -> WindowMap {
    if !m.contains_key(id) {
        m
    } else if m[id].map_state == XMapState::Unmapped {
        spec_shift(m, id, true)
    } else {
        let pv = spec_parent_viewable(m, m[id].parent);
        let m1 = m.insert(
            id,
            XWindowRecord {
                map_state: if pv {
                    XMapState::Viewable
                } else {
                    XMapState::Unviewable
                },
                ..m[id]
            },
        );
        spec_shift(m1, id, !pv)
    }
}

pub open spec fn spec_u32_of_len(n: nat) -> u32 {
    if n <= u32::MAX {
        n as u32
    } else {
        u32::MAX
    }
}

pub open spec fn spec_new_record(
    m: WindowMap,
    id: XResourceId,
    surface: SurfaceId,
    namespace: NamespaceId,
    geometry: Rect,
    constraints: SurfaceConstraints,
    generation: u64,
) -> XWindowRecord {
    XWindowRecord {
        id,
        parent: XResourceId::spec_root(),
        surface,
        namespace,
        override_redirect: false,
        transient_for: false,
        window_type_kind: LayoutNodeKind::Toplevel,
        window_type_placement: SurfacePlacementPreference::Default,
        window_type_client_positioned: false,
        presentation_owner: None,
        policy_map_pending: false,
        map_state: XMapState::Unmapped,
        geometry,
        constraints,
        generation,
        stack_rank: spec_u32_of_len(m.len()),
    }
}

pub open spec fn spec_configured(
    r: XWindowRecord,
    x: Option<i16>,
    y: Option<i16>,
    width: Option<u16>,
    height: Option<u16>,
) -> XWindowRecord {
    XWindowRecord {
        geometry: Rect {
            x: match x {
                Some(v) => v as i32,
                None => r.geometry.x,
            },
            y: match y {
                Some(v) => v as i32,
                None => r.geometry.y,
            },
            width: match width {
                Some(v) => v as i32,
                None => r.geometry.width,
            },
            height: match height {
                Some(v) => v as i32,
                None => r.geometry.height,
            },
        },
        ..r
    }
}

/// The table after a window is destroyed: its record is gone and its
/// children become root children.
pub open spec fn spec_destroyed(m: WindowMap, id: XResourceId) -> WindowMap {
    Map::new(
        |k: XResourceId| m.contains_key(k) && k != id,
        |k: XResourceId|
            if m[k].parent == id {
                XWindowRecord { parent: XResourceId::spec_root(), ..m[k] }
            } else {
                m[k]
            },
    )
}

/// The table and the answer after one lifecycle event.
pub open spec fn spec_apply(m: WindowMap, event: XWindowLifecycleEvent) -> (
    WindowMap,
    Result<Option<AuthoritySurface>, XAuthorityRuntimeError>,
) {
    match event {
        XWindowLifecycleEvent::Created { id, surface, namespace, geometry, constraints, generation } => {
            if !id.spec_is_valid() || !surface.spec_is_valid() {
                (m, Err(XAuthorityRuntimeError::InvalidResource))
            } else if !namespace.spec_is_valid() {
                (m, Err(XAuthorityRuntimeError::InvalidNamespace))
            } else {
                let r = spec_new_record(m, id, surface, namespace, geometry, constraints, generation);
                (m.insert(id, r), Ok(Some(spec_authority_surface(r))))
            }
        },
        XWindowLifecycleEvent::Mapped { id, generation: _ } => {
            if !m.contains_key(id) {
                (m, Err(XAuthorityRuntimeError::UnknownResource))
            } else if m[id].map_state != XMapState::Unmapped {
                (m, Ok(None))
            } else {
                let pv = spec_parent_viewable(m, m[id].parent);
                let r = XWindowRecord {
                    policy_map_pending: false,
                    map_state: if pv {
                        XMapState::Viewable
                    } else {
                        XMapState::Unviewable
                    },
                    ..m[id]
                };
                let m1 = m.insert(id, r);
                (
                    if pv {
                        spec_shift(m1, id, false)
                    } else {
                        m1
                    },
                    Ok(Some(spec_authority_surface(r))),
                )
            }
        },
        XWindowLifecycleEvent::PolicyPending { id, generation: _ } => {
            if !m.contains_key(id) {
                (m, Err(XAuthorityRuntimeError::UnknownResource))
            } else if m[id].map_state != XMapState::Unmapped || m[id].policy_map_pending {
                (m, Ok(None))
            } else {
                let r = XWindowRecord { policy_map_pending: true, ..m[id] };
                (m.insert(id, r), Ok(Some(spec_authority_surface(r))))
            }
        },
        XWindowLifecycleEvent::Unmapped { id, generation: _ } => {
            if !m.contains_key(id) {
                (m, Err(XAuthorityRuntimeError::UnknownResource))
            } else if m[id].map_state == XMapState::Unmapped && !m[id].policy_map_pending {
                (m, Ok(None))
            } else {
                let r = XWindowRecord {
                    policy_map_pending: false,
                    map_state: XMapState::Unmapped,
                    ..m[id]
                };
                (spec_shift(m.insert(id, r), id, true), Ok(Some(spec_authority_surface(r))))
            }
        },
        XWindowLifecycleEvent::Configured { id, x, y, width, height, generation: _ } => {
            if !m.contains_key(id) {
                (m, Err(XAuthorityRuntimeError::UnknownResource))
            } else {
                let r = spec_configured(m[id], x, y, width, height);
                (m.insert(id, r), Ok(Some(spec_authority_surface(r))))
            }
        },
        XWindowLifecycleEvent::Destroyed { id } => (spec_destroyed(m, id), Ok(None)),
    }
}

/// Whether a record belongs to `namespace` and, when a parent is named,
/// has that parent.
pub open spec fn spec_selects(w: XWindowRecord, namespace: NamespaceId, parent: Option<XResourceId>) -> bool {
    w.namespace == namespace && match parent {
        Some(p) => w.parent == p,
        None => true,
    }
}

/// The ids of the entries `spec_selects` admits, in table order.
pub open spec fn spec_filter_ids(
    s: Seq<(XResourceId, XWindowRecord)>,
    namespace: NamespaceId,
    parent: Option<XResourceId>,
) -> Seq<XResourceId>
    decreases s.len(),
{
    if s.len() == 0 {
        Seq::empty()
    } else {
        let rest = spec_filter_ids(s.drop_last(), namespace, parent);
        if spec_selects(s.last().1, namespace, parent) {
            rest.push(s.last().0)
        } else {
            rest
        }
    }
}

/// Where a window's origin sits in root coordinates: the saturating sum of
/// the offsets from the window up to its root child.
pub open spec fn spec_root_walk(m: WindowMap, cur: XResourceId, x: int, y: int, fuel: nat) -> Result<
    (int, int),
    XAuthorityRuntimeError,
>
    decreases fuel,
{
    if !m.contains_key(cur) {
        Err(XAuthorityRuntimeError::UnknownResource)
    } else {
        let nx = sat_add_i32(x, m[cur].geometry.x as int);
        let ny = sat_add_i32(y, m[cur].geometry.y as int);
        if m[cur].parent.spec_is_root() {
            Ok((nx, ny))
        } else if fuel == 0 {
            Err(XAuthorityRuntimeError::UnknownResource)
        } else {
            spec_root_walk(m, m[cur].parent, nx, ny, (fuel - 1) as nat)
        }
    }
}

pub open spec fn spec_root_position(m: WindowMap, id: XResourceId) -> Result<
    (int, int),
    XAuthorityRuntimeError,
> {
    if id.spec_is_root() {
        Ok((0, 0))
    } else {
        spec_root_walk(m, id, 0, 0, m.len())
    }
}

/// The root child a window is drawn into, and the window's offset inside it:
/// the offsets of every window below the root child, summed saturating.
pub open spec fn spec_presentation_walk(
    m: WindowMap,
    cur: XResourceId,
    x: int,
    y: int,
    fuel: nat,
) -> Result<(XResourceId, int, int), XAuthorityRuntimeError>
    decreases fuel,
{
    if !m.contains_key(cur) {
        Err(XAuthorityRuntimeError::UnknownResource)
    } else if m[cur].parent.spec_is_root() {
        Ok((cur, x, y))
    } else if fuel == 0 {
        Err(XAuthorityRuntimeError::UnknownResource)
    } else {
        spec_presentation_walk(
            m,
            m[cur].parent,
            sat_add_i32(x, m[cur].geometry.x as int),
            sat_add_i32(y, m[cur].geometry.y as int),
            (fuel - 1) as nat,
        )
    }
}

/// Whether the ancestors of `a` (itself included) name `id` as a parent.
pub open spec fn spec_ancestor_hits(m: WindowMap, a: XResourceId, id: XResourceId, fuel: nat) -> bool
    decreases fuel,
{
    m.contains_key(a) && (m[a].parent == id || (fuel > 0 && spec_ancestor_hits(
        m,
        m[a].parent,
        id,
        (fuel - 1) as nat,
    )))
}

/// What `set_parent` answers and leaves behind.
pub open spec fn spec_set_parent(m: WindowMap, id: XResourceId, parent: XResourceId) -> (
    WindowMap,
    Result<(), XAuthorityRuntimeError>,
) {
    if id == parent || spec_ancestor_hits(m, parent, id, m.len()) {
        (m, Err(XAuthorityRuntimeError::InvalidResource))
    } else if !m.contains_key(id) {
        (m, Err(XAuthorityRuntimeError::UnknownResource))
    } else {
        (spec_recompute(m.insert(id, XWindowRecord { parent, ..m[id] }), id), Ok(()))
    }
}

/// Every window, by id, in id order.
pub struct XWindowTable {
    pub windows: XTable<XResourceId, XWindowRecord>,
}

impl XWindowTable {
    pub open spec fn wf(&self) -> bool {
        self.windows.wf()
    }

    pub open spec fn view(&self) -> WindowMap {
        self.windows.view()
    }

    pub fn new() -> (r: Self)
        ensures
            r.wf(),
            r.view() == Map::<XResourceId, XWindowRecord>::empty(),
    {
        XWindowTable { windows: XTable::new() }
    }

    pub fn len(&self) -> (r: usize)
        requires
            self.wf(),
        ensures
            r == self.view().len(),
    {
        self.windows.len()
    }

    pub fn is_empty(&self) -> (r: bool)
        requires
            self.wf(),
        ensures
            r == (self.view().len() == 0),
    {
        self.windows.len() == 0
    }

    pub fn get(&self, id: XResourceId) -> (r: Option<&XWindowRecord>)
        requires
            self.wf(),
        ensures
            match r {
                Some(rec) => self.view().contains_key(id) && *rec == self.view()[id],
                None => !self.view().contains_key(id),
            },
    {
        self.windows.get(&id)
    }

    /// Walks `w` towards the root looking for `p`; exactly `spec_linked`.
    fn linked(&self, w: XResourceId, p: XResourceId, fuel: usize, viewable_only: bool) -> (r: bool)
        requires
            self.wf(),
        ensures
            r == spec_linked(self.view(), w, p, fuel as nat, viewable_only),
    {
        let mut cur = w;
        let mut f = fuel;
        loop
            invariant
                self.wf(),
                spec_linked(self.view(), w, p, fuel as nat, viewable_only) == spec_linked(
                    self.view(),
                    cur,
                    p,
                    f as nat,
                    viewable_only,
                ),
            decreases f,
        {
            match self.windows.get(&cur) {
                None => {
                    return false;
                },
                Some(rec) => {
                    let ok = if viewable_only {
                        rec.map_state == XMapState::Viewable
                    } else {
                        rec.map_state != XMapState::Unmapped
                    };
                    if !ok {
                        return false;
                    }
                    if rec.parent == p {
                        return true;
                    }
                    if f == 0 {
                        return false;
                    }
                    cur = rec.parent;
                    f = f - 1;
                },
            }
        }
    }

    /// Moves the descendants of `p` reached through mapped windows to
    /// viewable (`demote == false`), or those reached through viewable
    /// windows to unviewable (`demote == true`).
    fn shift_descendants(&mut self, p: XResourceId, demote: bool)
        requires
            old(self).wf(),
        ensures
            final(self).wf(),
            final(self).view() == spec_shift(old(self).view(), p, demote),
    {
        let ghost m0 = self.view();
        let ghost t0 = self.windows;
        let ghost e0 = self.windows.entries@;
        let fuel = self.windows.len();
        let from = if demote {
            XMapState::Viewable
        } else {
            XMapState::Unviewable
        };
        let to = if demote {
            XMapState::Unviewable
        } else {
            XMapState::Viewable
        };
        let n = self.windows.entries.len();
        let mut flags: Vec<bool> = Vec::new();
        let mut i: usize = 0;
        while i < n
            invariant
                self.wf(),
                self.view() == m0,
                self.windows.entries@ == e0,
                n == e0.len(),
                fuel == m0.len(),
                i <= n,
                flags@.len() == i,
                forall|j: int|
                    0 <= j < i ==> #[trigger] flags@[j] == (e0[j].1.map_state == from
                        && spec_linked(m0, e0[j].0, p, m0.len(), demote)),
            decreases n - i,
        {
            let id = self.windows.entries[i].0;
            let hit = self.windows.entries[i].1.map_state == from && self.linked(
                id,
                p,
                fuel,
                demote,
            );
            flags.push(hit);
            i = i + 1;
        }
        let mut i: usize = 0;
        while i < n
            invariant
                self.wf(),
                n == e0.len(),
                self.windows.entries@.len() == n,
                flags@.len() == n,
                m0 == t0.view(),
                t0.wf(),
                t0.entries@ == e0,
                i <= n,
                forall|j: int|
                    0 <= j < i ==> #[trigger] self.windows.entries@[j] == (e0[j].0, if flags@[j] {
                        XWindowRecord { map_state: to, ..e0[j].1 }
                    } else {
                        e0[j].1
                    }),
                forall|j: int| i <= j < n ==> #[trigger] self.windows.entries@[j] == e0[j],
                forall|j: int|
                    0 <= j < n ==> #[trigger] flags@[j] == (e0[j].1.map_state == from
                        && spec_linked(m0, e0[j].0, p, m0.len(), demote)),
            decreases n - i,
        {
            if flags[i] {
                let mut rec = self.windows.entries[i].1;
                rec.map_state = to;
                self.windows.set_value_at(i, rec);
            }
            i = i + 1;
        }
        proof {
            let target = spec_shift(m0, p, demote);
            assert forall|k: XResourceId| #[trigger]
                self.view().contains_key(k) == target.contains_key(k) by {
                if self.windows.has_key(k) {
                    let j = self.windows.index_of(k);
                    t0.lemma_index(j);
                }
                if t0.has_key(k) {
                    let j = t0.index_of(k);
                    self.windows.lemma_index(j);
                }
            }
            assert forall|k: XResourceId| #[trigger]
                self.view().contains_key(k) implies self.view()[k] == target[k] by {
                let j = self.windows.index_of(k);
                self.windows.lemma_index(j);
                t0.lemma_index(j);
            }
            assert(self.view() =~= target);
        }
    }

    /// Re-derives the viewability of a window and its descendants after it
    /// moved under another parent.
    fn recompute_subtree_viewability(&mut self, id: XResourceId)
        requires
            old(self).wf(),
        ensures
            final(self).wf(),
            final(self).view() == spec_recompute(old(self).view(), id),
    {
        let rec = match self.windows.get(&id) {
            None => {
                return ;
            },
            Some(r) => *r,
        };
        if rec.map_state == XMapState::Unmapped {
            self.shift_descendants(id, true);
            return ;
        }
        let pv = self.parent_viewable(rec.parent);
        let mut next = rec;
        next.map_state = if pv {
            XMapState::Viewable
        } else {
            XMapState::Unviewable
        };
        self.windows.insert(id, next);
        self.shift_descendants(id, !pv);
    }

    fn parent_viewable(&self, parent: XResourceId) -> (r: bool)
        requires
            self.wf(),
        ensures
            r == spec_parent_viewable(self.view(), parent),
    {
        if parent.is_root() {
            return true;
        }
        match self.windows.get(&parent) {
            Some(p) => p.map_state == XMapState::Viewable,
            None => false,
        }
    }

    /// Applies one lifecycle event and answers the surface the compositor
    /// must learn about, if the event changed one.
    pub fn apply(&mut self, event: XWindowLifecycleEvent) -> (r: Result<
        Option<AuthoritySurface>,
        XAuthorityRuntimeError,
    >)
        requires
            old(self).wf(),
        ensures
            final(self).wf(),
            (final(self).view(), r) == spec_apply(old(self).view(), event),
    {
        match event {
            XWindowLifecycleEvent::Created {
                id,
                surface,
                namespace,
                geometry,
                constraints,
                generation,
            } => {
                if !id.is_valid() {
                    return Err(XAuthorityRuntimeError::InvalidResource);
                }
                if !surface.is_valid() {
                    return Err(XAuthorityRuntimeError::InvalidResource);
                }
                if !namespace.is_valid() {
                    return Err(XAuthorityRuntimeError::InvalidNamespace);
                }
                let n = self.windows.len();
                let rank: u32 = if n <= u32::MAX as usize {
                    n as u32
                } else {
                    u32::MAX
                };
                let record = XWindowRecord {
                    id,
                    parent: XResourceId::root(),
                    surface,
                    namespace,
                    override_redirect: false,
                    transient_for: false,
                    window_type_kind: LayoutNodeKind::Toplevel,
                    window_type_placement: SurfacePlacementPreference::Default,
                    window_type_client_positioned: false,
                    presentation_owner: None,
                    policy_map_pending: false,
                    map_state: XMapState::Unmapped,
                    geometry,
                    constraints,
                    generation,
                    stack_rank: rank,
                };
                let surface = record.authority_surface();
                self.windows.insert(id, record);
                Ok(Some(surface))
            },
            XWindowLifecycleEvent::Mapped { id, generation: _ } => {
                let rec = match self.windows.get(&id) {
                    None => {
                        return Err(XAuthorityRuntimeError::UnknownResource);
                    },
                    Some(r) => *r,
                };
                let pv = self.parent_viewable(rec.parent);
                if rec.map_state != XMapState::Unmapped {
                    return Ok(None);
                }
                let mut next = rec;
                next.policy_map_pending = false;
                next.map_state = if pv {
                    XMapState::Viewable
                } else {
                    XMapState::Unviewable
                };
                let surface = next.authority_surface();
                self.windows.insert(id, next);
                if pv {
                    self.shift_descendants(id, false);
                }
                Ok(Some(surface))
            },
            XWindowLifecycleEvent::PolicyPending { id, generation: _ } => {
                let rec = match self.windows.get(&id) {
                    None => {
                        return Err(XAuthorityRuntimeError::UnknownResource);
                    },
                    Some(r) => *r,
                };
                if rec.map_state != XMapState::Unmapped || rec.policy_map_pending {
                    return Ok(None);
                }
                let mut next = rec;
                next.policy_map_pending = true;
                self.windows.insert(id, next);
                Ok(Some(next.authority_surface()))
            },
            XWindowLifecycleEvent::Unmapped { id, generation: _ } => {
                let rec = match self.windows.get(&id) {
                    None => {
                        return Err(XAuthorityRuntimeError::UnknownResource);
                    },
                    Some(r) => *r,
                };
                if rec.map_state == XMapState::Unmapped && !rec.policy_map_pending {
                    return Ok(None);
                }
                let mut next = rec;
                next.policy_map_pending = false;
                next.map_state = XMapState::Unmapped;
                let surface = next.authority_surface();
                self.windows.insert(id, next);
                self.shift_descendants(id, true);
                Ok(Some(surface))
            },
            XWindowLifecycleEvent::Configured { id, x, y, width, height, generation: _ } => {
                let rec = match self.windows.get(&id) {
                    None => {
                        return Err(XAuthorityRuntimeError::UnknownResource);
                    },
                    Some(r) => *r,
                };
                let mut next = rec;
                if let Some(x) = x {
                    next.geometry.x = x as i32;
                }
                if let Some(y) = y {
                    next.geometry.y = y as i32;
                }
                if let Some(width) = width {
                    next.geometry.width = width as i32;
                }
                if let Some(height) = height {
                    next.geometry.height = height as i32;
                }
                self.windows.insert(id, next);
                Ok(Some(next.authority_surface()))
            },
            XWindowLifecycleEvent::Destroyed { id } => {
                self.destroy(id);
                Ok(None)
            },
        }
    }

    fn destroy(&mut self, id: XResourceId)
        requires
            old(self).wf(),
        ensures
            final(self).wf(),
            final(self).view() == spec_destroyed(old(self).view(), id),
    {
        let ghost m0 = self.view();
        self.windows.remove(&id);
        let ghost m1 = self.view();
        let ghost t1 = self.windows;
        let ghost e1 = self.windows.entries@;
        let n = self.windows.entries.len();
        let mut i: usize = 0;
        while i < n
            invariant
                self.wf(),
                n == e1.len(),
                self.windows.entries@.len() == n,
                m1 == t1.view(),
                t1.wf(),
                t1.entries@ == e1,
                i <= n,
                forall|j: int|
                    0 <= j < i ==> #[trigger] self.windows.entries@[j] == (e1[j].0, if e1[j].1.parent
                        == id {
                        XWindowRecord { parent: XResourceId::spec_root(), ..e1[j].1 }
                    } else {
                        e1[j].1
                    }),
                forall|j: int| i <= j < n ==> #[trigger] self.windows.entries@[j] == e1[j],
            decreases n - i,
        {
            if self.windows.entries[i].1.parent == id {
                let mut rec = self.windows.entries[i].1;
                rec.parent = XResourceId::root();
                self.windows.set_value_at(i, rec);
            }
            i = i + 1;
        }
        proof {
            let target = spec_destroyed(m0, id);
            assert forall|k: XResourceId| #[trigger]
                self.view().contains_key(k) == target.contains_key(k) by {
                assert(target.contains_key(k) == m1.contains_key(k));
                assert(m1.contains_key(k) == t1.has_key(k));
                if self.windows.has_key(k) {
                    let j = self.windows.index_of(k);
                    t1.lemma_index(j);
                }
                if t1.has_key(k) {
                    let j = t1.index_of(k);
                    self.windows.lemma_index(j);
                }
            }
            assert forall|k: XResourceId| #[trigger]
                self.view().contains_key(k) implies self.view()[k] == target[k] by {
                let j = self.windows.index_of(k);
                self.windows.lemma_index(j);
                t1.lemma_index(j);
            }
            assert(self.view() =~= target);
        }
    }
}


/// The position a restacked window takes among its siblings.
pub open spec fn spec_restack_index(mode: Option<u8>, sibling_index: Option<nat>, len: nat) -> nat {
    match (mode, sibling_index) {
        (Some(m), Some(i)) => if m == 1 || m == 3 {
            i
        } else if m == 0 || m == 2 || m == 4 {
            i + 1
        } else {
            len
        },
        (Some(m), None) => if m == 1 || m == 3 {
            0
        } else {
            len
        },
        (None, _) => len,
    }
}

/// The order siblings are stacked in: by rank, ties broken by id.
pub open spec fn spec_stack_before(a: (XResourceId, XWindowRecord), b: (XResourceId, XWindowRecord)) -> bool {
    a.1.stack_rank < b.1.stack_rank || (a.1.stack_rank == b.1.stack_rank && a.0.key_lt(b.0))
}

/// Among the first `n` entries, the windows under `parent` other than `id`
/// that stack below `w`.
pub open spec fn spec_count_below(
    s: Seq<(XResourceId, XWindowRecord)>,
    n: int,
    parent: XResourceId,
    id: XResourceId,
    w: (XResourceId, XWindowRecord),
) -> nat
    decreases n,
{
    if n <= 0 {
        0
    } else {
        let e = s[n - 1];
        spec_count_below(s, n - 1, parent, id, w) + if e.1.parent == parent && e.0 != id
            && spec_stack_before(e, w) {
            1nat
        } else {
            0nat
        }
    }
}

/// Among the first `n` entries, the windows under `parent` other than `id`.
pub open spec fn spec_count_siblings(
    s: Seq<(XResourceId, XWindowRecord)>,
    n: int,
    parent: XResourceId,
    id: XResourceId,
) -> nat
    decreases n,
{
    if n <= 0 {
        0
    } else {
        spec_count_siblings(s, n - 1, parent, id) + if s[n - 1].1.parent == parent && s[n
            - 1].0 != id {
            1nat
        } else {
            0nat
        }
    }
}

/// Where `id` lands among its siblings: the stack mode's slot next to the
/// named sibling, or the top.
pub open spec fn spec_restack_position(
    s: Seq<(XResourceId, XWindowRecord)>,
    m: WindowMap,
    id: XResourceId,
    sibling: Option<XResourceId>,
    mode: Option<u8>,
) -> nat {
    let parent = m[id].parent;
    let len = spec_count_siblings(s, s.len() as int, parent, id);
    let si = match sibling {
        Some(sb) => Some(spec_count_below(s, s.len() as int, parent, id, (sb, m[sb]))),
        None => None,
    };
    let ix = spec_restack_index(mode, si, len);
    if ix <= len {
        ix
    } else {
        len
    }
}

/// An entry after a restack: `id` takes rank `index`, a sibling keeps its
/// place among the others, moved up by one at or above `index`.
pub open spec fn spec_restacked_entry(
    s: Seq<(XResourceId, XWindowRecord)>,
    parent: XResourceId,
    id: XResourceId,
    index: nat,
    e: (XResourceId, XWindowRecord),
) -> (XResourceId, XWindowRecord) {
    (
        e.0,
        XWindowRecord {
            stack_rank: if e.0 == id {
                spec_u32_of_len(index)
            } else if e.1.parent == parent {
                let b = spec_count_below(s, s.len() as int, parent, id, e);
                spec_u32_of_len(
                    if b >= index {
                        b + 1
                    } else {
                        b
                    },
                )
            } else {
                e.1.stack_rank
            },
            ..e.1
        },
    )
}

/// The entries and the answer after restacking `id`.
pub open spec fn spec_restack(
    s: Seq<(XResourceId, XWindowRecord)>,
    m: WindowMap,
    id: XResourceId,
    sibling: Option<XResourceId>,
    mode: Option<u8>,
) -> (Seq<(XResourceId, XWindowRecord)>, Result<AuthoritySurface, XAuthorityRuntimeError>) {
    if !m.contains_key(id) {
        (s, Err(XAuthorityRuntimeError::UnknownResource))
    } else if match sibling {
        Some(sb) => sb == id || !m.contains_key(sb) || m[sb].parent != m[id].parent,
        None => false,
    } {
        (s, Err(XAuthorityRuntimeError::InvalidResource))
    } else {
        let index = spec_restack_position(s, m, id, sibling, mode);
        let parent = m[id].parent;
        (
            s.map_values(|e: (XResourceId, XWindowRecord)| spec_restacked_entry(s, parent, id, index, e)),
            Ok(spec_authority_surface(XWindowRecord { stack_rank: spec_u32_of_len(index), ..m[id] })),
        )
    }
}

/// A count as a rank, one higher when `bump`, saturating at `u32::MAX`.
fn rank_of(n: usize, bump: bool) -> (r: u32)
    ensures
        r == spec_u32_of_len(
            if bump {
                (n + 1) as nat
            } else {
                n as nat
            },
        ),
{
    if bump {
        if n < u32::MAX as usize {
            (n + 1) as u32
        } else {
            u32::MAX
        }
    } else {
        if n <= u32::MAX as usize {
            n as u32
        } else {
            u32::MAX
        }
    }
}

impl XWindowTable {
    /// The record presenting a compositor surface.
    pub fn presentation_for_surface(&self, surface: SurfaceId) -> (r: Option<&XWindowRecord>)
        requires
            self.wf(),
        ensures
            match r {
                Some(rec) => exists|i: int|
                    0 <= i < self.windows.entries@.len() && self.windows.entries@[i].1 == *rec
                        && rec.surface == surface && forall|j: int|
                        0 <= j < i ==> (#[trigger] self.windows.entries@[j]).1.surface != surface,
                None => forall|j: int|
                    0 <= j < self.windows.entries@.len() ==> (
                    #[trigger] self.windows.entries@[j]).1.surface != surface,
            },
    {
        let mut i: usize = 0;
        while i < self.windows.entries.len()
            invariant
                i <= self.windows.entries@.len(),
                forall|j: int|
                    0 <= j < i ==> (#[trigger] self.windows.entries@[j]).1.surface != surface,
            decreases self.windows.entries@.len() - i,
        {
            if self.windows.entries[i].1.surface == surface {
                return Some(&self.windows.entries[i].1);
            }
            i = i + 1;
        }
        None
    }

    /// Replaces a record by one the caller derived from it, answering its
    /// new surface.
    fn replace(&mut self, id: XResourceId, next: XWindowRecord) -> (r: AuthoritySurface)
        requires
            old(self).wf(),
        ensures
            final(self).wf(),
            final(self).view() == old(self).view().insert(id, next),
            r == spec_authority_surface(next),
    {
        self.windows.insert(id, next);
        next.authority_surface()
    }

    pub fn set_override_redirect(&mut self, id: XResourceId, override_redirect: bool) -> (r: Result<
        AuthoritySurface,
        XAuthorityRuntimeError,
    >)
        requires
            old(self).wf(),
        ensures
            final(self).wf(),
            old(self).view().contains_key(id) ==> {
                let next = XWindowRecord { override_redirect, ..old(self).view()[id] };
                &&& final(self).view() == old(self).view().insert(id, next)
                &&& r == Ok::<AuthoritySurface, XAuthorityRuntimeError>(spec_authority_surface(next))
            },
            !old(self).view().contains_key(id) ==> final(self).view() == old(self).view() && r
                == Err::<AuthoritySurface, XAuthorityRuntimeError>(
                XAuthorityRuntimeError::UnknownResource,
            ),
    {
        let mut next = match self.windows.get(&id) {
            None => {
                return Err(XAuthorityRuntimeError::UnknownResource);
            },
            Some(r) => *r,
        };
        next.override_redirect = override_redirect;
        Ok(self.replace(id, next))
    }

    pub fn set_constraints(&mut self, id: XResourceId, constraints: SurfaceConstraints) -> (r: Result<
        AuthoritySurface,
        XAuthorityRuntimeError,
    >)
        requires
            old(self).wf(),
        ensures
            final(self).wf(),
            old(self).view().contains_key(id) ==> {
                let next = XWindowRecord { constraints, ..old(self).view()[id] };
                &&& final(self).view() == old(self).view().insert(id, next)
                &&& r == Ok::<AuthoritySurface, XAuthorityRuntimeError>(spec_authority_surface(next))
            },
            !old(self).view().contains_key(id) ==> final(self).view() == old(self).view() && r
                == Err::<AuthoritySurface, XAuthorityRuntimeError>(
                XAuthorityRuntimeError::UnknownResource,
            ),
    {
        let mut next = match self.windows.get(&id) {
            None => {
                return Err(XAuthorityRuntimeError::UnknownResource);
            },
            Some(r) => *r,
        };
        next.constraints = constraints;
        Ok(self.replace(id, next))
    }

    /// Records `WM_TRANSIENT_FOR`. The owner surface is kept only while the
    /// window is transient, and never when it names the window itself.
    pub fn set_transient_for(
        &mut self,
        id: XResourceId,
        transient_for: bool,
        owner: Option<SurfaceId>,
    ) -> (r: Result<AuthoritySurface, XAuthorityRuntimeError>)
        requires
            old(self).wf(),
        ensures
            final(self).wf(),
            old(self).view().contains_key(id) ==> {
                let rec = old(self).view()[id];
                let next = XWindowRecord {
                    transient_for,
                    presentation_owner: match owner {
                        Some(o) => if transient_for && o != rec.surface {
                            Some(o)
                        } else {
                            None
                        },
                        None => None,
                    },
                    ..rec
                };
                &&& final(self).view() == old(self).view().insert(id, next)
                &&& r == Ok::<AuthoritySurface, XAuthorityRuntimeError>(spec_authority_surface(next))
            },
            !old(self).view().contains_key(id) ==> final(self).view() == old(self).view() && r
                == Err::<AuthoritySurface, XAuthorityRuntimeError>(
                XAuthorityRuntimeError::UnknownResource,
            ),
    {
        let mut next = match self.windows.get(&id) {
            None => {
                return Err(XAuthorityRuntimeError::UnknownResource);
            },
            Some(r) => *r,
        };
        next.transient_for = transient_for;
        next.presentation_owner = match owner {
            Some(o) => if transient_for && o != next.surface {
                Some(o)
            } else {
                None
            },
            None => None,
        };
        Ok(self.replace(id, next))
    }

    pub fn set_window_type_facts(&mut self, id: XResourceId, facts: XWindowTypeFacts) -> (r: Result<
        AuthoritySurface,
        XAuthorityRuntimeError,
    >)
        requires
            old(self).wf(),
        ensures
            final(self).wf(),
            old(self).view().contains_key(id) ==> {
                let next = XWindowRecord {
                    window_type_kind: facts.kind,
                    window_type_placement: facts.placement_preference,
                    window_type_client_positioned: facts.client_positioned,
                    ..old(self).view()[id]
                };
                &&& final(self).view() == old(self).view().insert(id, next)
                &&& r == Ok::<AuthoritySurface, XAuthorityRuntimeError>(spec_authority_surface(next))
            },
            !old(self).view().contains_key(id) ==> final(self).view() == old(self).view() && r
                == Err::<AuthoritySurface, XAuthorityRuntimeError>(
                XAuthorityRuntimeError::UnknownResource,
            ),
    {
        let mut next = match self.windows.get(&id) {
            None => {
                return Err(XAuthorityRuntimeError::UnknownResource);
            },
            Some(r) => *r,
        };
        next.window_type_kind = facts.kind;
        next.window_type_placement = facts.placement_preference;
        next.window_type_client_positioned = facts.client_positioned;
        Ok(self.replace(id, next))
    }

    /// Reparents a window, refusing a parent that is the window itself or
    /// one of its descendants, and re-derives viewability below it.
    pub fn set_parent(&mut self, id: XResourceId, parent: XResourceId) -> (r: Result<
        (),
        XAuthorityRuntimeError,
    >)
        requires
            old(self).wf(),
        ensures
            final(self).wf(),
            (final(self).view(), r) == spec_set_parent(old(self).view(), id, parent),
            r is Err ==> *final(self) == *old(self),
    {
        if id == parent {
            return Err(XAuthorityRuntimeError::InvalidResource);
        }
        let fuel = self.windows.len();
        let mut ancestor = parent;
        let mut f = fuel;
        loop
            invariant
                self.wf(),
                *self == *old(self),
                fuel == self.view().len(),
                spec_ancestor_hits(self.view(), parent, id, fuel as nat) == spec_ancestor_hits(
                    self.view(),
                    ancestor,
                    id,
                    f as nat,
                ),
            ensures
                self.wf(),
                *self == *old(self),
                fuel == self.view().len(),
                !spec_ancestor_hits(self.view(), parent, id, fuel as nat),
            decreases f,
        {
            match self.windows.get(&ancestor) {
                None => {
                    break ;
                },
                Some(rec) => {
                    if rec.parent == id {
                        return Err(XAuthorityRuntimeError::InvalidResource);
                    }
                    if f == 0 {
                        break ;
                    }
                    ancestor = rec.parent;
                    f = f - 1;
                },
            }
        }
        let mut next = match self.windows.get(&id) {
            None => {
                return Err(XAuthorityRuntimeError::UnknownResource);
            },
            Some(r) => *r,
        };
        next.parent = parent;
        self.windows.insert(id, next);
        self.recompute_subtree_viewability(id);
        Ok(())
    }

    /// The ids of a namespace's windows whose parent is `parent`, in id order.
    pub fn direct_children(&self, namespace: NamespaceId, parent: XResourceId) -> (r: Vec<
        XResourceId,
    >)
        requires
            self.wf(),
        ensures
            r@ == spec_filter_ids(self.windows.entries@, namespace, Some(parent)),
    {
        let ghost pred = Some(parent);
        let mut out: Vec<XResourceId> = Vec::new();
        let mut i: usize = 0;
        while i < self.windows.entries.len()
            invariant
                i <= self.windows.entries@.len(),
                out@ == spec_filter_ids(self.windows.entries@.take(i as int), namespace, pred),
                pred == Some(parent),
            decreases self.windows.entries@.len() - i,
        {
            proof {
                assert(self.windows.entries@.take(i + 1).drop_last() =~= self.windows.entries@.take(
                    i as int,
                ));
                assert(self.windows.entries@.take(i + 1).last() == self.windows.entries@[i as int]);
                let t = self.windows.entries@.take(i + 1);
                assert(spec_filter_ids(t, namespace, pred) == if spec_selects(
                    t.last().1,
                    namespace,
                    pred,
                ) {
                    spec_filter_ids(t.drop_last(), namespace, pred).push(t.last().0)
                } else {
                    spec_filter_ids(t.drop_last(), namespace, pred)
                });
            }
            let rec = &self.windows.entries[i].1;
            if rec.namespace == namespace && rec.parent == parent {
                out.push(self.windows.entries[i].0);
            }
            i = i + 1;
        }
        proof {
            assert(self.windows.entries@.take(i as int) =~= self.windows.entries@);
        }
        out
    }

    /// The ids of a namespace's windows, in id order.
    pub fn ids_for_namespace(&self, namespace: NamespaceId) -> (r: Vec<XResourceId>)
        requires
            self.wf(),
        ensures
            r@ == spec_filter_ids(self.windows.entries@, namespace, None),
    {
        let ghost pred: Option<XResourceId> = None;
        let mut out: Vec<XResourceId> = Vec::new();
        let mut i: usize = 0;
        while i < self.windows.entries.len()
            invariant
                i <= self.windows.entries@.len(),
                out@ == spec_filter_ids(self.windows.entries@.take(i as int), namespace, pred),
                pred == None::<XResourceId>,
            decreases self.windows.entries@.len() - i,
        {
            proof {
                assert(self.windows.entries@.take(i + 1).drop_last() =~= self.windows.entries@.take(
                    i as int,
                ));
                assert(self.windows.entries@.take(i + 1).last() == self.windows.entries@[i as int]);
                let t = self.windows.entries@.take(i + 1);
                assert(spec_filter_ids(t, namespace, pred) == if spec_selects(
                    t.last().1,
                    namespace,
                    pred,
                ) {
                    spec_filter_ids(t.drop_last(), namespace, pred).push(t.last().0)
                } else {
                    spec_filter_ids(t.drop_last(), namespace, pred)
                });
            }
            if self.windows.entries[i].1.namespace == namespace {
                out.push(self.windows.entries[i].0);
            }
            i = i + 1;
        }
        proof {
            assert(self.windows.entries@.take(i as int) =~= self.windows.entries@);
        }
        out
    }

    /// Where a window's origin sits in root coordinates: its own offset and
    /// every ancestor's, up to and including the root child.
    pub fn root_position(&self, id: XResourceId) -> (r: Result<(i32, i32), XAuthorityRuntimeError>)
        requires
            self.wf(),
        ensures
            match (r, spec_root_position(self.view(), id)) {
                (Ok((x, y)), Ok((sx, sy))) => x == sx && y == sy,
                (Err(e), Err(se)) => e == se,
                _ => false,
            },
    {
        if id.is_root() {
            return Ok((0, 0));
        }
        let fuel = self.windows.len();
        let mut cur = id;
        let mut x: i32 = 0;
        let mut y: i32 = 0;
        let mut f = fuel;
        loop
            invariant
                self.wf(),
                spec_root_walk(self.view(), id, 0, 0, fuel as nat) == spec_root_walk(
                    self.view(),
                    cur,
                    x as int,
                    y as int,
                    f as nat,
                ),
                fuel == self.view().len(),
                !id.spec_is_root(),
            decreases f,
        {
            let rec = match self.windows.get(&cur) {
                None => {
                    return Err(XAuthorityRuntimeError::UnknownResource);
                },
                Some(r) => r,
            };
            x = saturating_add_i32(x, rec.geometry.x);
            y = saturating_add_i32(y, rec.geometry.y);
            if rec.parent.is_root() {
                return Ok((x, y));
            }
            if f == 0 {
                return Err(XAuthorityRuntimeError::UnknownResource);
            }
            cur = rec.parent;
            f = f - 1;
        }
    }

    /// The root child that presents a window, and the window's offset in it.
    pub fn presentation_root_and_offset(&self, id: XResourceId) -> (r: Result<
        (XResourceId, i32, i32),
        XAuthorityRuntimeError,
    >)
        requires
            self.wf(),
        ensures
            match (r, spec_presentation_walk(self.view(), id, 0, 0, self.view().len())) {
                (Ok((w, x, y)), Ok((sw, sx, sy))) => w == sw && x == sx && y == sy,
                (Err(e), Err(se)) => e == se,
                _ => false,
            },
    {
        let fuel = self.windows.len();
        let mut cur = id;
        let mut x: i32 = 0;
        let mut y: i32 = 0;
        let mut f = fuel;
        loop
            invariant
                self.wf(),
                spec_presentation_walk(self.view(), id, 0, 0, fuel as nat)
                    == spec_presentation_walk(self.view(), cur, x as int, y as int, f as nat),
                fuel == self.view().len(),
            decreases f,
        {
            let rec = match self.windows.get(&cur) {
                None => {
                    return Err(XAuthorityRuntimeError::UnknownResource);
                },
                Some(r) => r,
            };
            if rec.parent.is_root() {
                return Ok((cur, x, y));
            }
            if f == 0 {
                return Err(XAuthorityRuntimeError::UnknownResource);
            }
            x = saturating_add_i32(x, rec.geometry.x);
            y = saturating_add_i32(y, rec.geometry.y);
            cur = rec.parent;
            f = f - 1;
        }
    }

    /// How many siblings of `id` under `parent` stack below `w`.
    fn count_below(
        &self,
        parent: XResourceId,
        id: XResourceId,
        key: XResourceId,
        rec: &XWindowRecord,
    ) -> (r: usize)
        requires
            self.wf(),
        ensures
            r == spec_count_below(
                self.windows.entries@,
                self.windows.entries@.len() as int,
                parent,
                id,
                (key, *rec),
            ),
    {
        let mut n: usize = 0;
        let mut i: usize = 0;
        while i < self.windows.entries.len()
            invariant
                i <= self.windows.entries@.len(),
                n <= i,
                n == spec_count_below(self.windows.entries@, i as int, parent, id, (key, *rec)),
            decreases self.windows.entries@.len() - i,
        {
            let e = &self.windows.entries[i];
            if e.1.parent == parent && !e.0.key_equal(&id) && (e.1.stack_rank < rec.stack_rank || (
            e.1.stack_rank == rec.stack_rank && e.0.key_less(&key))) {
                n = n + 1;
            }
            i = i + 1;
        }
        n
    }

    /// How many windows other than `id` sit under `parent`.
    fn count_siblings(&self, parent: XResourceId, id: XResourceId) -> (r: usize)
        requires
            self.wf(),
        ensures
            r == spec_count_siblings(
                self.windows.entries@,
                self.windows.entries@.len() as int,
                parent,
                id,
            ),
    {
        let mut n: usize = 0;
        let mut i: usize = 0;
        while i < self.windows.entries.len()
            invariant
                i <= self.windows.entries@.len(),
                n <= i,
                n == spec_count_siblings(self.windows.entries@, i as int, parent, id),
            decreases self.windows.entries@.len() - i,
        {
            let e = &self.windows.entries[i];
            if e.1.parent == parent && !e.0.key_equal(&id) {
                n = n + 1;
            }
            i = i + 1;
        }
        n
    }

    /// Moves a window within its siblings' stacking order: above or below a
    /// named sibling, per the core protocol's stack mode, or to the top.
    pub fn restack(&mut self, id: XResourceId, sibling: Option<XResourceId>, mode: Option<u8>) -> (r:
        Result<AuthoritySurface, XAuthorityRuntimeError>)
        requires
            old(self).wf(),
        ensures
            final(self).wf(),
            (final(self).windows.entries@, r) == spec_restack(
                old(self).windows.entries@,
                old(self).view(),
                id,
                sibling,
                mode,
            ),
    {
        let ghost s = self.windows.entries@;
        let ghost m = self.view();
        let rec = match self.windows.get(&id) {
            None => {
                return Err(XAuthorityRuntimeError::UnknownResource);
            },
            Some(r) => *r,
        };
        let parent = rec.parent;
        let mut sibling_index: Option<usize> = None;
        let ghost mut si: Option<nat> = None;
        match sibling {
            Some(sb) => {
                if sb == id {
                    return Err(XAuthorityRuntimeError::InvalidResource);
                }
                match self.windows.get(&sb) {
                    None => {
                        return Err(XAuthorityRuntimeError::InvalidResource);
                    },
                    Some(srec) => {
                        if srec.parent != parent {
                            return Err(XAuthorityRuntimeError::InvalidResource);
                        }
                        let b = self.count_below(parent, id, sb, srec);
                        sibling_index = Some(b);
                        proof {
                            si = Some(b as nat);
                        }
                    },
                }
            },
            None => {},
        }
        let len = self.count_siblings(parent, id);
        let raw: usize = match (mode, sibling_index) {
            (Some(md), Some(i)) => if md == 1 || md == 3 {
                i
            } else if md == 0 || md == 2 || md == 4 {
                if i < len {
                    i + 1
                } else {
                    len
                }
            } else {
                len
            },
            (Some(md), None) => if md == 1 || md == 3 {
                0
            } else {
                len
            },
            (None, _) => len,
        };
        let index = if raw <= len {
            raw
        } else {
            len
        };
        proof {
            assert(si == match sibling {
                Some(sb) => Some(spec_count_below(s, s.len() as int, parent, id, (sb, m[sb]))),
                None => None::<nat>,
            });
            assert(index == spec_restack_position(s, m, id, sibling, mode));
        }
        let mut out: Vec<(XResourceId, XWindowRecord)> = Vec::new();
        let mut i: usize = 0;
        while i < self.windows.entries.len()
            invariant
                self.wf(),
                self.windows.entries@ == s,
                i <= s.len(),
                out@.len() == i,
                forall|j: int|
                    0 <= j < i ==> out@[j] == spec_restacked_entry(s, parent, id, index as nat, s[j]),
            decreases s.len() - i,
        {
            let e = self.windows.entries[i];
            let mut next = e.1;
            if e.0.key_equal(&id) {
                next.stack_rank = rank_of(index, false);
            } else if e.1.parent == parent {
                let b = self.count_below(parent, id, e.0, &e.1);
                next.stack_rank = rank_of(b, b >= index);
            }
            out.push((e.0, next));
            i = i + 1;
        }
        proof {
            let t = s.map_values(
                |e: (XResourceId, XWindowRecord)| spec_restacked_entry(s, parent, id, index as nat, e),
            );
            assert(out@ =~= t);
            assert forall|a: int, b: int|
                #![trigger out@[a], out@[b]]
                0 <= a < b < out@.len() implies out@[a].0.key_lt(out@[b].0) by {
                assert(s[a].0.key_lt(s[b].0));
            }
        }
        self.windows.entries = out;
        Ok(XWindowRecord { stack_rank: rank_of(index, false), ..rec }.authority_surface())
    }

    /// Moves a window's content generation on by one, when the caller names
    /// the generation it holds.
    pub fn advance_generation(&mut self, id: XResourceId, expected: u64) -> (r: Result<
        u64,
        XAuthorityRuntimeError,
    >)
        requires
            old(self).wf(),
        ensures
            final(self).wf(),
            !old(self).view().contains_key(id) ==> r == Err::<u64, XAuthorityRuntimeError>(
                XAuthorityRuntimeError::UnknownResource,
            ) && final(self).view() == old(self).view(),
            old(self).view().contains_key(id) && old(self).view()[id].generation != expected ==> r
                == Err::<u64, XAuthorityRuntimeError>(XAuthorityRuntimeError::StaleGeneration)
                && final(self).view() == old(self).view(),
            old(self).view().contains_key(id) && old(self).view()[id].generation == expected
                && expected == u64::MAX ==> r == Err::<u64, XAuthorityRuntimeError>(
                XAuthorityRuntimeError::InvalidResource,
            ) && final(self).view() == old(self).view(),
            old(self).view().contains_key(id) && old(self).view()[id].generation == expected
                && expected < u64::MAX ==> r == Ok::<u64, XAuthorityRuntimeError>(
                (expected + 1) as u64,
            ) && final(self).view() == old(self).view().insert(
                id,
                XWindowRecord { generation: (expected + 1) as u64, ..old(self).view()[id] },
            ),
    {
        let mut next = match self.windows.get(&id) {
            None => {
                return Err(XAuthorityRuntimeError::UnknownResource);
            },
            Some(r) => *r,
        };
        if next.generation != expected {
            return Err(XAuthorityRuntimeError::StaleGeneration);
        }
        if expected == u64::MAX {
            return Err(XAuthorityRuntimeError::InvalidResource);
        }
        next.generation = expected + 1;
        self.windows.insert(id, next);
        Ok(expected + 1)
    }
}

} // verus!
