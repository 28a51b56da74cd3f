use vstd::prelude::*;

use crate::gc::copy_rects;
use crate::geometry::Rect;
use crate::ids::{NamespaceId, X_SETUP_WM_CHECK_WINDOW, XResourceId};
use crate::resources::{XAuthorityRuntimeError, XResourceKind};
use crate::runtime::{XAuthorityRuntime, XWindowShapeState};
use crate::table::{XEntryPredicate, XTableKey};

verus! {

pub const X_SHAPE_KIND_BOUNDING: u8 = 0;
pub const X_SHAPE_KIND_CLIP: u8 = 1;
pub const X_SHAPE_KIND_INPUT: u8 = 2;

/// Why a SHAPE request was refused.
#[derive(Clone, Copy, Debug, PartialEq, Eq, Structural)]
pub enum XShapeError {
    UnknownWindow,
    UnknownPixmap,
    /// A kind, operation, or ordering the protocol does not define.
    InvalidValue,
    /// A mask source that is not a depth-1 pixmap.
    NotABitmap,
}

/// A client's interest in one window's shape events; ordered by client,
/// then by window.
#[derive(Clone, Copy, Debug, PartialEq, Eq, Structural)]
pub struct XShapeSelectionKey {
    pub client: u64,
    pub window: XResourceId,
}

impl XTableKey for XShapeSelectionKey {
    open spec fn key_lt(self, other: Self) -> bool {
        self.client < other.client || (self.client == other.client && (self.window.local < other.window.local
            || (self.window.local == other.window.local && self.window.generation < other.window.generation)))
    }

    proof fn lemma_key_order(a: Self, b: Self, c: Self) {
    }

    fn key_less(&self, other: &Self) -> (r: bool) {
        self.client < other.client || (self.client == other.client && (self.window.local < other.window.local
            || (self.window.local == other.window.local && self.window.generation < other.window.generation)))
    }

    fn key_equal(&self, other: &Self) -> (r: bool) {
        self.client == other.client && self.window.local == other.window.local && self.window.generation
            == other.window.generation
    }
}

/// Selections naming one window.
pub struct SelectsWindow {
    pub window: XResourceId,
}

impl XEntryPredicate<XShapeSelectionKey, ()> for SelectsWindow {
    open spec fn holds(&self, k: XShapeSelectionKey, v: ()) -> bool {
        k.window == self.window
    }

    fn test(&self, k: &XShapeSelectionKey, v: &()) -> (r: bool) {
        k.window == self.window
    }
}

/// The stored value of one kind; an undefined kind reads as bounding.
pub open spec fn spec_shape_kind(state: XWindowShapeState, kind: u8) -> Option<Vec<Rect>> {
    if kind == X_SHAPE_KIND_CLIP {
        state.clip
    } else if kind == X_SHAPE_KIND_INPUT {
        state.input
    } else {
        state.bounding
    }
}

impl XWindowShapeState {
    pub fn kind(&self, kind: u8) -> (r: &Option<Vec<Rect>>)
        ensures
            *r == spec_shape_kind(*self, kind),
    {
        if kind == X_SHAPE_KIND_CLIP {
            &self.clip
        } else if kind == X_SHAPE_KIND_INPUT {
            &self.input
        } else {
            &self.bounding
        }
    }

    /// Whether no kind is set.
    pub fn is_empty(&self) -> (r: bool)
        ensures
            r == (self.bounding is None && self.clip is None && self.input is None),
    {
        self.bounding.is_none() && self.clip.is_none() && self.input.is_none()
    }
}

/// Whether a kind names one of the three shapes.
pub open spec fn spec_shape_kind_is_valid(kind: u8) -> bool {
    kind == X_SHAPE_KIND_BOUNDING || kind == X_SHAPE_KIND_CLIP || kind == X_SHAPE_KIND_INPUT
}

pub fn shape_kind_is_valid(kind: u8) -> (r: bool)
    ensures
        r == spec_shape_kind_is_valid(kind),
{
    kind == X_SHAPE_KIND_BOUNDING || kind == X_SHAPE_KIND_CLIP || kind == X_SHAPE_KIND_INPUT
}

impl XAuthorityRuntime {
    /// A kind's stored rectangles, when the window has set it.
    pub open spec fn spec_stored_shape(&self, window: XResourceId, kind: u8) -> Option<Seq<Rect>> {
        if self.window_shapes.view().contains_key(window) {
            match spec_shape_kind(self.window_shapes.view()[window], kind) {
                Some(v) => Some(v@),
                None => None,
            }
        } else {
            None
        }
    }

    /// The window's own bounds at its origin, which every kind defaults to.
    pub open spec fn spec_shape_default_region(&self, window: XResourceId) -> Option<Rect> {
        if self.windows.view().contains_key(window) {
            Some(
                Rect {
                    x: 0,
                    y: 0,
                    width: self.windows.view()[window].geometry.width,
                    height: self.windows.view()[window].geometry.height,
                },
            )
        } else {
            None
        }
    }

    pub fn shape_default_region(&self, window: XResourceId) -> (r: Option<Rect>)
        requires
            self.wf(),
        ensures
            r == self.spec_shape_default_region(window),
    {
        match self.windows.get(window) {
            Some(rec) => Some(Rect { x: 0, y: 0, width: rec.geometry.width, height: rec.geometry.height }),
            None => None,
        }
    }

    /// Whether a kind is set, and the rectangles it effectively covers: the
    /// stored ones, or the window's live bounds when unset (none when the
    /// window has no area).
    pub fn effective_shape(&self, window: XResourceId, kind: u8) -> (r: (bool, Vec<Rect>))
        requires
            self.wf(),
        ensures
            match self.spec_stored_shape(window, kind) {
                Some(s) => r.0 && r.1@ == s,
                None => !r.0 && r.1@ == match self.spec_shape_default_region(window) {
                    Some(rect) => if rect.spec_is_empty() {
                        Seq::<Rect>::empty()
                    } else {
                        seq![rect]
                    },
                    None => Seq::<Rect>::empty(),
                },
            },
    {
        match self.window_shapes.get(&window) {
            Some(state) => match state.kind(kind) {
                Some(v) => {
                    return (true, copy_rects(v));
                },
                None => {},
            },
            None => {},
        }
        let mut out: Vec<Rect> = Vec::new();
        match self.shape_default_region(window) {
            Some(rect) => if !rect.is_empty() {
                out.push(rect);
            },
            None => {},
        }
        proof {
            match self.spec_shape_default_region(window) {
                Some(rect) => if !rect.spec_is_empty() {
                    assert(out@ =~= seq![rect]);
                },
                None => {},
            }
        }
        (false, out)
    }

    /// Whether an operation names one SHAPE defines.
    pub fn shape_op_is_valid(op: u8) -> (r: bool)
        ensures
            r == (op <= 4),
    {
        op <= 4
    }

    /// Turns a client's shape events for a window of its namespace on or
    /// off.
    pub fn select_shape_input(&mut self, namespace: NamespaceId, client: u64, window: XResourceId, enable: bool) -> (r:
        Result<(), XShapeError>)
        requires
            old(self).wf(),
        ensures
            final(self).wf(),
            window.local != X_SETUP_WM_CHECK_WINDOW && old(self).spec_access(namespace, window, XResourceKind::Window)
                is Some ==> r == Err::<(), XShapeError>(XShapeError::UnknownWindow) && *final(self) == *old(self),
            window.local == X_SETUP_WM_CHECK_WINDOW || old(self).spec_access(namespace, window, XResourceKind::Window)
                is None ==> {
                let key = XShapeSelectionKey { client, window };
                &&& r is Ok
                &&& final(self).shape_selections.view() == if enable {
                    old(self).shape_selections.view().insert(key, ())
                } else {
                    old(self).shape_selections.view().remove(key)
                }
                &&& *final(self) == (XAuthorityRuntime { shape_selections: final(self).shape_selections, ..*old(self) })
            },
    {
        if self.validate_window_access(namespace, window).is_err() {
            return Err(XShapeError::UnknownWindow);
        }
        let key = XShapeSelectionKey { client, window };
        if enable {
            self.shape_selections.insert(key, ());
        } else {
            let _ = self.shape_selections.remove(&key);
        }
        Ok(())
    }

    /// Whether a client asked for a window's shape events.
    pub fn shape_input_selected(&self, namespace: NamespaceId, client: u64, window: XResourceId) -> (r: Result<
        bool,
        XShapeError,
    >)
        requires
            self.wf(),
        ensures
            window.local != X_SETUP_WM_CHECK_WINDOW && self.spec_access(namespace, window, XResourceKind::Window)
                is Some ==> r == Err::<bool, XShapeError>(XShapeError::UnknownWindow),
            window.local == X_SETUP_WM_CHECK_WINDOW || self.spec_access(namespace, window, XResourceKind::Window)
                is None ==> r == Ok::<bool, XShapeError>(
                self.shape_selections.view().contains_key(XShapeSelectionKey { client, window }),
            ),
    {
        if self.validate_window_access(namespace, window).is_err() {
            return Err(XShapeError::UnknownWindow);
        }
        Ok(self.shape_selections.contains_key(&XShapeSelectionKey { client, window }))
    }
}


impl XAuthorityRuntime {
    /// Drops a window's shapes and every subscription to them.
    pub fn forget_window_shapes(&mut self, window: XResourceId)
        requires
            old(self).wf(),
        ensures
            final(self).wf(),
            final(self).window_shapes.view() == old(self).window_shapes.view().remove(window),
            forall|k: XShapeSelectionKey| #[trigger]
                final(self).shape_selections.view().contains_key(k) <==> (old(self).shape_selections.view().contains_key(
                    k,
                ) && k.window != window),
            *final(self) == (XAuthorityRuntime {
                window_shapes: final(self).window_shapes,
                shape_selections: final(self).shape_selections,
                ..*old(self)
            }),
    {
        self.window_shapes.remove(&window);
        let selections = self.shape_selections.keys_where(&SelectsWindow { window });
        self.shape_selections.remove_keys(&selections);
    }
}
} // verus!
