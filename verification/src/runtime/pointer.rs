//! `QueryPointer`: where the pointer the compositor last reported sits
//! relative to a window, and which of the window's children it is over.
use vstd::prelude::*;

use crate::geometry::{Rect, sat_add_i32, sat_sub_i32, saturating_add_i32, saturating_sub_i32};
use crate::ids::{NamespaceId, SurfaceId, X_SETUP_DEFAULT_ROOT, X_SETUP_WM_CHECK_WINDOW, XResourceId};
use crate::raster::{clip_list_contains, spec_in_clip_rect};
use crate::resources::{XAuthorityRuntimeError, XResourceKind};
use crate::runtime::XAuthorityRuntime;
use crate::window::{WindowMap, XMapState, XWindowRecord, spec_filter_ids, spec_root_position};

verus! {

/// How many levels a pointer query descends or climbs at most.
pub const X_POINTER_QUERY_DEPTH: u32 = 64;

/// Where the compositor last saw the pointer for a client: the surface and
/// the window it belongs to, the pointer in root coordinates, and its
/// position inside that surface after the compositor's transforms.
#[derive(Clone, Copy, Debug, PartialEq, Eq, Structural)]
pub struct XPointerPosition {
    pub surface_window: XResourceId,
    pub surface: SurfaceId,
    pub root_x: i16,
    pub root_y: i16,
    pub local_x: i32,
    pub local_y: i32,
}

/// The input state a pointer query reads: the button and modifier mask,
/// and the position when the pointer is over one of this client's surfaces.
#[derive(Clone, Copy, Debug, PartialEq, Eq, Structural)]
pub struct XPointerQueryState {
    pub mask: u16,
    pub position: Option<XPointerPosition>,
}

/// The `QueryPointer` answer.
#[derive(Clone, Copy, Debug, PartialEq, Eq, Structural)]
pub struct XPointerQuery {
    pub child: XResourceId,
    pub root_x: i16,
    pub root_y: i16,
    pub win_x: i16,
    pub win_y: i16,
    pub mask: u16,
}

/// Whether a shape region, when set, holds the point.
pub open spec fn spec_region_admits(region: Option<Seq<Rect>>, x: int, y: int) -> bool {
    match region {
        None => true,
        Some(rects) => exists|i: int| 0 <= i < rects.len() && spec_in_clip_rect(x, y, #[trigger] rects[i], 0, 0),
    }
}

/// A shape kind's rectangles, when it is set.
pub open spec fn spec_region_of(r: Option<Vec<Rect>>) -> Option<Seq<Rect>> {
    match r {
        Some(v) => Some(v@),
        None => None,
    }
}

proof fn lemma_admits_witness(s: Seq<Rect>, x: int, y: int, i: int)
    requires
        0 <= i < s.len(),
        spec_in_clip_rect(x, y, s[i], 0, 0),
    ensures
        spec_region_admits(Some(s), x, y),
{
    let region = Some(s);
    assert(region->Some_0 == s);
    assert(spec_in_clip_rect(x, y, region->Some_0[i], 0, 0));
}

/// A value held to the 16-bit signed range.
pub open spec fn spec_clamp_i16(v: int) -> i16 {
    if v < i16::MIN {
        i16::MIN
    } else if v > i16::MAX {
        i16::MAX
    } else {
        v as i16
    }
}

/// Whether `a` stacks above `b`: by rank, then by id.
pub open spec fn spec_stacks_above_or_equal(a: XWindowRecord, b: XWindowRecord) -> bool {
    a.stack_rank > b.stack_rank || (a.stack_rank == b.stack_rank && (a.id.local > b.id.local || (
    a.id.local == b.id.local && a.id.generation >= b.id.generation)))
}

impl XAuthorityRuntime {
    /// Whether a viewable window of this namespace covers `point` (root
    /// coordinates), within its bounds and any bounding and input shape.
    pub open spec fn spec_pointer_in_window(&self, namespace: NamespaceId, window: XResourceId, px: int, py: int) -> bool {
        let m = self.windows.view();
        &&& m.contains_key(window)
        &&& m[window].namespace == namespace
        &&& m[window].map_state == XMapState::Viewable
        &&& spec_root_position(m, window) is Ok
        &&& {
            let (ox, oy) = spec_root_position(m, window)->Ok_0;
            let x = sat_sub_i32(px, ox);
            let y = sat_sub_i32(py, oy);
            &&& 0 <= x < m[window].geometry.width
            &&& 0 <= y < m[window].geometry.height
            &&& self.window_shapes.view().contains_key(window) ==> {
                let shape = self.window_shapes.view()[window];
                &&& spec_region_admits(spec_region_of(shape.bounding), x, y)
                &&& spec_region_admits(spec_region_of(shape.input), x, y)
            }
        }
    }

    /// The topmost of the first `n` children that covers the point; among
    /// equals the later one.
    pub open spec fn spec_top_child(
        &self,
        namespace: NamespaceId,
        kids: Seq<XResourceId>,
        px: int,
        py: int,
        n: int,
    ) -> Option<XResourceId>
        decreases n,
    {
        if n <= 0 {
            None
        } else {
            let best = self.spec_top_child(namespace, kids, px, py, n - 1);
            let k = kids[n - 1];
            if self.spec_pointer_in_window(namespace, k, px, py) {
                match best {
                    None => Some(k),
                    Some(b) => if spec_stacks_above_or_equal(self.windows.view()[k], self.windows.view()[b]) {
                        Some(k)
                    } else {
                        Some(b)
                    },
                }
            } else {
                best
            }
        }
    }

    /// The deepest window reached from `cur` by stepping into the topmost
    /// child under the point, at most `fuel` times.
    pub open spec fn spec_deepest(&self, namespace: NamespaceId, cur: XResourceId, px: int, py: int, fuel: nat) -> XResourceId
        decreases fuel,
    {
        if fuel == 0 {
            cur
        } else {
            let kids = spec_filter_ids(self.windows.windows.entries@, namespace, Some(cur));
            match self.spec_top_child(namespace, kids, px, py, kids.len() as int) {
                None => cur,
                Some(c) => self.spec_deepest(namespace, c, px, py, (fuel - 1) as nat),
            }
        }
    }

    /// The child of `window` on the way up from `cand`, climbing through
    /// viewable windows of this namespace at most `fuel` times; none when
    /// the climb leaves them or reaches the root first.
    pub open spec fn spec_child_on_path(
        &self,
        namespace: NamespaceId,
        window: XResourceId,
        cand: XResourceId,
        fuel: nat,
    ) -> XResourceId
        decreases fuel,
    {
        let m = self.windows.view();
        if fuel == 0 || !m.contains_key(cand) || m[cand].namespace != namespace || m[cand].map_state
            != XMapState::Viewable {
            XResourceId::spec_none()
        } else if m[cand].parent == window {
            cand
        } else if m[cand].parent == XResourceId::spec_root() {
            XResourceId::spec_none()
        } else {
            self.spec_child_on_path(namespace, window, m[cand].parent, (fuel - 1) as nat)
        }
    }

    /// The pointer as the client's own window tree places it: the surface
    /// window's position plus the local position the compositor computed,
    /// when the surface still belongs to that window; else the root
    /// position.
    pub open spec fn spec_logical_pointer(&self, namespace: NamespaceId, p: XPointerPosition) -> (int, int) {
        let m = self.windows.view();
        if m.contains_key(p.surface_window) && m[p.surface_window].namespace == namespace
            && m[p.surface_window].surface == p.surface && spec_root_position(m, p.surface_window) is Ok {
            let (x, y) = spec_root_position(m, p.surface_window)->Ok_0;
            (sat_add_i32(x, p.local_x as int), sat_add_i32(y, p.local_y as int))
        } else {
            (p.root_x as int, p.root_y as int)
        }
    }

    /// What `QueryPointer` on `window` answers for this input state.
    pub open spec fn spec_query_pointer(
        &self,
        namespace: NamespaceId,
        window: XResourceId,
        state: XPointerQueryState,
    ) -> Result<XPointerQuery, XAuthorityRuntimeError> {
        let m = self.windows.view();
        let root = XResourceId::spec_root();
        if window != root && window.local != X_SETUP_WM_CHECK_WINDOW && self.spec_access(
            namespace,
            window,
            XResourceKind::Window,
        ) is Some {
            Err(self.spec_access(namespace, window, XResourceKind::Window).unwrap())
        } else {
            let empty = XPointerQuery {
                child: XResourceId::spec_none(),
                root_x: 0,
                root_y: 0,
                win_x: 0,
                win_y: 0,
                mask: state.mask,
            };
            match state.position {
                None => Ok(empty),
                Some(p) => {
                    let (lx, ly) = self.spec_logical_pointer(namespace, p);
                    let (win_x, win_y) = if window == root {
                        (p.root_x, p.root_y)
                    } else if spec_root_position(m, window) is Ok {
                        let (x, y) = spec_root_position(m, window)->Ok_0;
                        (spec_clamp_i16(sat_sub_i32(lx, x)), spec_clamp_i16(sat_sub_i32(ly, y)))
                    } else {
                        (0i16, 0i16)
                    };
                    let placed = XPointerQuery { root_x: p.root_x, root_y: p.root_y, win_x, win_y, ..empty };
                    if !m.contains_key(p.surface_window) || m[p.surface_window].surface != p.surface
                        || !self.spec_pointer_in_window(namespace, p.surface_window, lx, ly) {
                        Ok(placed)
                    } else {
                        let deepest = self.spec_deepest(
                            namespace,
                            p.surface_window,
                            lx,
                            ly,
                            X_POINTER_QUERY_DEPTH as nat,
                        );
                        Ok(
                            XPointerQuery {
                                child: self.spec_child_on_path(
                                    namespace,
                                    window,
                                    deepest,
                                    X_POINTER_QUERY_DEPTH as nat,
                                ),
                                ..placed
                            },
                        )
                    }
                },
            }
        }
    }

    /// Whether a viewable window of this namespace covers `point`, given in
    /// root coordinates.
    pub fn pointer_window_contains(&self, namespace: NamespaceId, window: XResourceId, point: (i32, i32)) -> (r:
        bool)
        requires
            self.wf(),
        ensures
            r == self.spec_pointer_in_window(namespace, window, point.0 as int, point.1 as int),
    {
        let record = match self.windows.get(window) {
            None => {
                return false;
            },
            Some(rec) => rec,
        };
        if record.namespace != namespace || record.map_state != XMapState::Viewable {
            return false;
        }
        let origin = match self.window_root_position(window) {
            None => {
                return false;
            },
            Some(o) => o,
        };
        let x = saturating_sub_i32(point.0, origin.0);
        let y = saturating_sub_i32(point.1, origin.1);
        if x < 0 || y < 0 || x >= record.geometry.width || y >= record.geometry.height {
            return false;
        }
        match self.window_shapes.get(&window) {
            None => true,
            Some(shape) => {
                region_admits(&shape.bounding, x, y) && region_admits(&shape.input, x, y)
            },
        }
    }

    /// The topmost direct child of `parent` under the point.
    fn top_child_under(&self, namespace: NamespaceId, parent: XResourceId, point: (i32, i32)) -> (r: Option<
        XResourceId,
    >)
        requires
            self.wf(),
        ensures
            ({
                let kids = spec_filter_ids(self.windows.windows.entries@, namespace, Some(parent));
                r == self.spec_top_child(namespace, kids, point.0 as int, point.1 as int, kids.len() as int)
            }),
    {
        let kids = self.windows.direct_children(namespace, parent);
        let mut best: Option<XResourceId> = None;
        let mut i: usize = 0;
        while i < kids.len()
            invariant
                self.wf(),
                i <= kids@.len(),
                kids@ == spec_filter_ids(self.windows.windows.entries@, namespace, Some(parent)),
                best == self.spec_top_child(namespace, kids@, point.0 as int, point.1 as int, i as int),
                best is Some ==> self.windows.view().contains_key(best.unwrap()),
            decreases kids@.len() - i,
        {
            let k = kids[i];
            if self.pointer_window_contains(namespace, k, point) {
                let kr = *self.windows.get(k).unwrap();
                best = match best {
                    None => Some(k),
                    Some(b) => {
                        let br = *self.windows.get(b).unwrap();
                        if kr.stack_rank > br.stack_rank || (kr.stack_rank == br.stack_rank && (kr.id.local
                            > br.id.local || (kr.id.local == br.id.local && kr.id.generation
                            >= br.id.generation))) {
                            Some(k)
                        } else {
                            Some(b)
                        }
                    },
                };
            }
            i = i + 1;
        }
        best
    }

    /// `QueryPointer`: the pointer in root coordinates, relative to
    /// `window`, and the child of `window` it is over, refined only inside
    /// the surface the compositor chose.
    #[verifier::loop_isolation(false)]
    pub fn query_pointer(&self, namespace: NamespaceId, window: XResourceId, state: XPointerQueryState) -> (r:
        Result<XPointerQuery, XAuthorityRuntimeError>)
        requires
            self.wf(),
        ensures
            r == self.spec_query_pointer(namespace, window, state),
    {
        let root = XResourceId::root();
        if window != root {
            match self.validate_window_access(namespace, window) {
                Err(e) => {
                    return Err(e);
                },
                Ok(()) => {},
            }
        }
        let mut query = XPointerQuery {
            child: XResourceId::none(),
            root_x: 0,
            root_y: 0,
            win_x: 0,
            win_y: 0,
            mask: state.mask,
        };
        let p = match state.position {
            None => {
                return Ok(query);
            },
            Some(p) => p,
        };
        query.root_x = p.root_x;
        query.root_y = p.root_y;
        let logical: (i32, i32) = match self.windows.get(p.surface_window) {
            Some(rec) => if rec.namespace == namespace && rec.surface == p.surface {
                match self.window_root_position(p.surface_window) {
                    Some((x, y)) => (saturating_add_i32(x, p.local_x), saturating_add_i32(y, p.local_y)),
                    None => (p.root_x as i32, p.root_y as i32),
                }
            } else {
                (p.root_x as i32, p.root_y as i32)
            },
            None => (p.root_x as i32, p.root_y as i32),
        };
        if window == root {
            query.win_x = p.root_x;
            query.win_y = p.root_y;
        } else {
            match self.window_root_position(window) {
                Some((x, y)) => {
                    query.win_x = clamp_i16(saturating_sub_i32(logical.0, x));
                    query.win_y = clamp_i16(saturating_sub_i32(logical.1, y));
                },
                None => {},
            }
        }
        let refine = match self.windows.get(p.surface_window) {
            None => false,
            Some(rec) => rec.surface == p.surface,
        };
        if !refine || !self.pointer_window_contains(namespace, p.surface_window, logical) {
            return Ok(query);
        }
        let mut deepest = p.surface_window;
        let mut fuel: u32 = X_POINTER_QUERY_DEPTH;
        while fuel > 0
            invariant
                self.wf(),
                self.spec_deepest(namespace, p.surface_window, logical.0 as int, logical.1 as int, X_POINTER_QUERY_DEPTH as nat)
                    == self.spec_deepest(namespace, deepest, logical.0 as int, logical.1 as int, fuel as nat),
            decreases fuel,
        {
            match self.top_child_under(namespace, deepest, logical) {
                None => {
                    fuel = 0;
                },
                Some(c) => {
                    deepest = c;
                    fuel = fuel - 1;
                },
            }
        }
        let mut candidate = deepest;
        let mut child = XResourceId::none();
        let mut climb: u32 = X_POINTER_QUERY_DEPTH;
        let ghost target = self.spec_child_on_path(namespace, window, deepest, X_POINTER_QUERY_DEPTH as nat);
        while climb > 0
            invariant
                self.wf(),
                climb > 0 ==> child == XResourceId::spec_none() && target == self.spec_child_on_path(
                    namespace,
                    window,
                    candidate,
                    climb as nat,
                ),
                climb == 0 ==> child == target,
            decreases climb,
        {
            match self.windows.get(candidate) {
                None => {
                    climb = 0;
                },
                Some(rec) => {
                    if rec.namespace != namespace || rec.map_state != XMapState::Viewable {
                        climb = 0;
                    } else if rec.parent == window {
                        child = candidate;
                        climb = 0;
                    } else if rec.parent == root {
                        climb = 0;
                    } else {
                        candidate = rec.parent;
                        climb = climb - 1;
                        proof {
                            assert(target == self.spec_child_on_path(namespace, window, candidate, climb as nat));
                            assert(self.spec_child_on_path(namespace, window, candidate, 0) == XResourceId::spec_none());
                        }
                    }
                },
            }
        }
        query.child = child;
        proof {
            assert(deepest == self.spec_deepest(
                namespace,
                p.surface_window,
                logical.0 as int,
                logical.1 as int,
                X_POINTER_QUERY_DEPTH as nat,
            ));
            assert(logical.0 as int == self.spec_logical_pointer(namespace, p).0);
            assert(logical.1 as int == self.spec_logical_pointer(namespace, p).1);
            assert(query.child == target);
        }
        Ok(query)
    }
}

/// Whether a shape kind, when set, holds the point.
fn region_admits(region: &Option<Vec<Rect>>, x: i32, y: i32) -> (r: bool)
    ensures
        r == spec_region_admits(spec_region_of(*region), x as int, y as int),
{
    let admits = match region {
        None => true,
        Some(rects) => clip_list_contains(x, y, rects, 0, 0),
    };
    proof {
        if (*region) is None {
            assert(spec_region_of(*region) == None::<Seq<Rect>>);
            assert(admits);
            assert(admits == spec_region_admits(spec_region_of(*region), x as int, y as int));
        } else {
            let s = (*region)->Some_0@;
            assert(spec_region_of(*region) == Some(s));
            if admits {
                let i = choose|i: int|
                    0 <= i < s.len() && spec_in_clip_rect(x as int, y as int, #[trigger] s[i], 0i32 as int, 0i32 as int);
                assert(spec_in_clip_rect(x as int, y as int, s[i], 0, 0));
                lemma_admits_witness(s, x as int, y as int, i);
                assert(spec_region_admits(spec_region_of(*region), x as int, y as int));
            } else {
                assert forall|i: int| 0 <= i < s.len() implies !spec_in_clip_rect(
                    x as int,
                    y as int,
                    #[trigger] s[i],
                    0,
                    0,
                ) by {
                    assert(!spec_in_clip_rect(x as int, y as int, s[i], 0i32 as int, 0i32 as int));
                }
            }
        }
    }
    admits
}

/// A value held to the 16-bit signed range.
fn clamp_i16(v: i32) -> (r: i16)
    ensures
        r == spec_clamp_i16(v as int),
{
    if v < i16::MIN as i32 {
        i16::MIN
    } else if v > i16::MAX as i32 {
        i16::MAX
    } else {
        v as i16
    }
}

} // verus!
