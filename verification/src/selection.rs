use vstd::prelude::*;

use crate::ids::{NamespaceId, XResourceId};
use crate::table::{XTable, XTableKey};
use crate::window::XWindowTable;

verus! {

pub type XAtom = u32;

pub type XTimestamp = u32;

/// Why a selection's owner changed.
#[derive(Clone, Copy, Debug, PartialEq, Eq, Structural)]
pub enum XSelectionChangeKind {
    SetOwner,
    ClearOwner,
    SelectionWindowDestroyed,
    SelectionClientClosed,
    Unknown,
}

/// A selection owner change a client or the authority asked for.
#[derive(Clone, Copy, Debug, PartialEq, Eq, Structural)]
pub struct XSelectionEvent {
    pub selection: XAtom,
    pub owner: Option<XResourceId>,
    pub timestamp: XTimestamp,
    pub selection_timestamp: XTimestamp,
    pub kind: XSelectionChangeKind,
}

/// Who owns a selection within a namespace, and since when.
#[derive(Clone, Copy, Debug, PartialEq, Eq, Structural)]
pub struct XSelectionOwnerRecord {
    pub selection: XAtom,
    pub namespace: Option<NamespaceId>,
    pub owner: Option<XResourceId>,
    pub generation: u64,
    pub timestamp: XTimestamp,
    pub selection_timestamp: XTimestamp,
}

/// One owner change: the record it replaced and the one now in force.
#[derive(Clone, Copy, Debug, PartialEq, Eq, Structural)]
pub struct XSelectionOwnerUpdate {
    pub previous: Option<XSelectionOwnerRecord>,
    pub current: XSelectionOwnerRecord,
    pub kind: XSelectionChangeKind,
}

/// A selection within a namespace; ordered by selection, then by
/// namespace with no namespace first.
#[derive(Clone, Copy, Debug, PartialEq, Eq, Structural)]
pub struct XSelectionKey {
    pub selection: XAtom,
    pub namespace: Option<NamespaceId>,
}

pub open spec fn spec_ns_rank(n: Option<NamespaceId>) -> int {
    match n {
        None => -1,
        Some(ns) => ns.raw as int,
    }
}

impl XTableKey for XSelectionKey {
    open spec fn key_lt(self, other: Self) -> bool {
        self.selection < other.selection || (self.selection == other.selection && spec_ns_rank(
            self.namespace,
        ) < spec_ns_rank(other.namespace))
    }

    proof fn lemma_key_order(a: Self, b: Self, c: Self) {
    }

    fn key_less(&self, other: &Self) -> (r: bool) {
        if self.selection != other.selection {
            return self.selection < other.selection;
        }
        match (self.namespace, other.namespace) {
            (None, Some(_)) => true,
            (Some(a), Some(b)) => a.raw < b.raw,
            _ => false,
        }
    }

    fn key_equal(&self, other: &Self) -> (r: bool) {
        *self == *other
    }
}

/// The first namespace, in key order, holding an owned `selection`.
pub open spec fn spec_existing_namespace(
    s: Seq<(XSelectionKey, XSelectionOwnerRecord)>,
    selection: XAtom,
    n: int,
) -> Option<NamespaceId>
    decreases n,
{
    if n <= 0 {
        None
    } else {
        match spec_existing_namespace(s, selection, n - 1) {
            Some(ns) => Some(ns),
            None => if s[n - 1].0.selection == selection && s[n - 1].1.owner is Some {
                s[n - 1].0.namespace
            } else {
                None
            },
        }
    }
}

/// The owned record of `selection` with the highest generation, the last
/// in key order among equals.
pub open spec fn spec_current_owner(
    s: Seq<(XSelectionKey, XSelectionOwnerRecord)>,
    selection: XAtom,
    n: int,
) -> Option<XSelectionOwnerRecord>
    decreases n,
{
    if n <= 0 {
        None
    } else {
        let best = spec_current_owner(s, selection, n - 1);
        let e = s[n - 1].1;
        if e.selection == selection && e.owner is Some {
            match best {
                None => Some(e),
                Some(b) => if e.generation >= b.generation {
                    Some(e)
                } else {
                    Some(b)
                },
            }
        } else {
            best
        }
    }
}

/// Selection owners across namespaces.
pub struct XSelectionMonitor {
    pub owners: XTable<XSelectionKey, XSelectionOwnerRecord>,
    pub generation: u64,
}

impl XSelectionMonitor {
    /// Each record sits under its own selection and namespace, and no record
    /// is newer than the monitor's generation.
    pub open spec fn wf(&self) -> bool {
        &&& self.owners.wf()
        &&& forall|k: XSelectionKey| #[trigger]
            self.view().contains_key(k) ==> {
                &&& self.view()[k].selection == k.selection
                &&& self.view()[k].namespace == k.namespace
                &&& self.view()[k].generation <= self.generation
            }
    }

    pub open spec fn view(&self) -> Map<XSelectionKey, XSelectionOwnerRecord> {
        self.owners.view()
    }

    /// The namespace an event lands in: the owner window's, else the one
    /// named, else the first one already holding the selection.
    pub open spec fn spec_event_namespace(
        &self,
        event: XSelectionEvent,
        windows: Map<XResourceId, crate::window::XWindowRecord>,
        namespace: Option<NamespaceId>,
    ) -> Option<NamespaceId> {
        let from_owner = match event.owner {
            Some(o) => if windows.contains_key(o) {
                Some(windows[o].namespace)
            } else {
                None
            },
            None => None,
        };
        match from_owner {
            Some(n) => Some(n),
            None => match namespace {
                Some(n) => Some(n),
                None => spec_existing_namespace(
                    self.owners.entries@,
                    event.selection,
                    self.owners.entries@.len() as int,
                ),
            },
        }
    }

    pub fn new() -> (r: Self)
        ensures
            r.wf(),
            r.view() == Map::<XSelectionKey, XSelectionOwnerRecord>::empty(),
            r.generation == 0,
    {
        XSelectionMonitor { owners: XTable::new(), generation: 0 }
    }

    pub fn owner(&self, selection: XAtom, namespace: Option<NamespaceId>) -> (r: Option<
        XSelectionOwnerRecord,
    >)
        requires
            self.wf(),
        ensures
            r == if self.view().contains_key(XSelectionKey { selection, namespace }) {
                Some(self.view()[XSelectionKey { selection, namespace }])
            } else {
                None
            },
    {
        match self.owners.get(&XSelectionKey { selection, namespace }) {
            Some(r) => Some(*r),
            None => None,
        }
    }

    /// The most recently set owner of a selection across namespaces.
    pub fn current_owner_for_selection(&self, selection: XAtom) -> (r: Option<XSelectionOwnerRecord>)
        requires
            self.wf(),
        ensures
            r == spec_current_owner(self.owners.entries@, selection, self.owners.entries@.len() as int),
    {
        let mut best: Option<XSelectionOwnerRecord> = None;
        let mut i: usize = 0;
        while i < self.owners.entries.len()
            invariant
                i <= self.owners.entries@.len(),
                best == spec_current_owner(self.owners.entries@, selection, i as int),
            decreases self.owners.entries@.len() - i,
        {
            let e = self.owners.entries[i].1;
            if e.selection == selection && e.owner.is_some() {
                best = match best {
                    None => Some(e),
                    Some(b) => if e.generation >= b.generation {
                        Some(e)
                    } else {
                        Some(b)
                    },
                };
            }
            i = i + 1;
        }
        best
    }

    fn namespace_for_existing_selection(&self, selection: XAtom) -> (r: Option<NamespaceId>)
        requires
            self.wf(),
        ensures
            r == spec_existing_namespace(
                self.owners.entries@,
                selection,
                self.owners.entries@.len() as int,
            ),
    {
        let mut i: usize = 0;
        while i < self.owners.entries.len()
            invariant
                i <= self.owners.entries@.len(),
                spec_existing_namespace(self.owners.entries@, selection, i as int) is None,
            decreases self.owners.entries@.len() - i,
        {
            let e = &self.owners.entries[i];
            if e.0.selection == selection && e.1.owner.is_some() {
                match e.0.namespace {
                    Some(ns) => {
                        proof {
                            lemma_existing_namespace_stable(
                                self.owners.entries@,
                                selection,
                                i + 1,
                                self.owners.entries@.len() as int,
                            );
                        }
                        return Some(ns);
                    },
                    None => {},
                }
            }
            i = i + 1;
        }
        None
    }

    /// Records an owner change in the namespace it lands in, under a new
    /// generation.
    pub fn apply_event_in_namespace(
        &mut self,
        event: XSelectionEvent,
        windows: &XWindowTable,
        namespace: Option<NamespaceId>,
    ) -> (r: XSelectionOwnerUpdate)
        requires
            old(self).wf(),
            windows.wf(),
        ensures
            final(self).wf(),
            ({
                let ns = old(self).spec_event_namespace(event, windows.view(), namespace);
                let key = XSelectionKey { selection: event.selection, namespace: ns };
                let generation = if old(self).generation == u64::MAX {
                    u64::MAX
                } else {
                    (old(self).generation + 1) as u64
                };
                let current = XSelectionOwnerRecord {
                    selection: event.selection,
                    namespace: ns,
                    owner: event.owner,
                    generation,
                    timestamp: event.timestamp,
                    selection_timestamp: event.selection_timestamp,
                };
                &&& final(self).generation == generation
                &&& final(self).view() == old(self).view().insert(key, current)
                &&& r == (XSelectionOwnerUpdate {
                    previous: if old(self).view().contains_key(key) {
                        Some(old(self).view()[key])
                    } else {
                        None
                    },
                    current,
                    kind: event.kind,
                })
            }),
    {
        let from_owner = match event.owner {
            Some(o) => match windows.get(o) {
                Some(w) => Some(w.namespace),
                None => None,
            },
            None => None,
        };
        let ns = match from_owner {
            Some(n) => Some(n),
            None => match namespace {
                Some(n) => Some(n),
                None => self.namespace_for_existing_selection(event.selection),
            },
        };
        let key = XSelectionKey { selection: event.selection, namespace: ns };
        let previous = match self.owners.get(&key) {
            Some(p) => Some(*p),
            None => None,
        };
        self.generation = if self.generation == u64::MAX {
            u64::MAX
        } else {
            self.generation + 1
        };
        let current = XSelectionOwnerRecord {
            selection: event.selection,
            namespace: ns,
            owner: event.owner,
            generation: self.generation,
            timestamp: event.timestamp,
            selection_timestamp: event.selection_timestamp,
        };
        self.owners.insert(key, current);
        XSelectionOwnerUpdate { previous, current, kind: event.kind }
    }

    /// Records an owner change in the namespace the owner window belongs
    /// to, or the one already holding the selection, under a new generation.
    pub fn apply_event(&mut self, event: XSelectionEvent, windows: &XWindowTable) -> (r:
        XSelectionOwnerUpdate)
        requires
            old(self).wf(),
            windows.wf(),
        ensures
            final(self).wf(),
            ({
                let ns = old(self).spec_event_namespace(event, windows.view(), None);
                let key = XSelectionKey { selection: event.selection, namespace: ns };
                let generation = if old(self).generation == u64::MAX {
                    u64::MAX
                } else {
                    (old(self).generation + 1) as u64
                };
                let current = XSelectionOwnerRecord {
                    selection: event.selection,
                    namespace: ns,
                    owner: event.owner,
                    generation,
                    timestamp: event.timestamp,
                    selection_timestamp: event.selection_timestamp,
                };
                &&& final(self).generation == generation
                &&& final(self).view() == old(self).view().insert(key, current)
                &&& r == (XSelectionOwnerUpdate {
                    previous: if old(self).view().contains_key(key) {
                        Some(old(self).view()[key])
                    } else {
                        None
                    },
                    current,
                    kind: event.kind,
                })
            }),
    {
        self.apply_event_in_namespace(event, windows, None)
    }

    /// Ends every ownership `window` holds, in key order, answering the
    /// changes owed to watchers: each record the window owns is replaced,
    /// under its own selection and namespace, by one without an owner under
    /// the next generation, keeping the timestamps of the ownership it ends.
    pub fn clear_window_owner(
        &mut self,
        window: XResourceId,
        windows: &XWindowTable,
        kind: XSelectionChangeKind,
    ) -> (r: Vec<XSelectionOwnerUpdate>)
        requires
            old(self).wf(),
            windows.wf(),
        ensures
            final(self).wf(),
            r@.len() == spec_count_owned_by(old(self).owners.entries@, window, old(self).owners.entries@.len() as int),
            forall|i: int|
                0 <= i < r@.len() ==> #[trigger] r@[i] == spec_ended(
                    spec_owned_records(old(self).owners.entries@, window, old(self).owners.entries@.len() as int)[i],
                    spec_generation_after(old(self).generation, i + 1),
                    kind,
                ),
            r@ == spec_clear_updates(old(self).owners.entries@, window, old(self).generation, kind),
            final(self).generation == spec_generation_after(old(self).generation, r@.len() as int),
            final(self).view().dom() == old(self).view().dom(),
            forall|k: XSelectionKey| #[trigger]
                old(self).view().contains_key(k) && old(self).view()[k].owner != Some(window) ==> final(self).view()[k] == old(self).view()[k],
            forall|k: XSelectionKey| #[trigger]
                old(self).view().contains_key(k) && old(self).view()[k].owner == Some(window) ==> exists|i: int|
                    0 <= i < r@.len() && #[trigger] r@[i].previous == Some(old(self).view()[k])
                        && final(self).view()[k] == r@[i].current,
            forall|k: XSelectionKey| #[trigger]
                final(self).view().contains_key(k) ==> final(self).view()[k].owner != Some(window),
    {
        let ghost be = self.owners.entries@;
        let ghost g0 = self.generation;
        let mut cleared: Vec<XSelectionOwnerUpdate> = Vec::new();
        let mut i: usize = 0;
        while i < self.owners.entries.len()
            invariant
                self.wf(),
                self.owners.entries@.len() == be.len(),
                be == old(self).owners.entries@,
                g0 == old(self).generation,
                i <= be.len(),
                forall|idx: int| 0 <= idx < be.len() ==> #[trigger] self.owners.entries@[idx].0 == be[idx].0,
                forall|idx: int| i <= idx < be.len() ==> #[trigger] self.owners.entries@[idx].1 == be[idx].1,
                forall|idx: int|
                    0 <= idx < i && be[idx].1.owner != Some(window) ==> #[trigger] self.owners.entries@[idx].1
                        == be[idx].1,
                forall|idx: int|
                    0 <= idx < i && be[idx].1.owner == Some(window) ==> exists|j: int|
                        0 <= j < cleared@.len() && #[trigger] cleared@[j].previous == Some(be[idx].1)
                            && self.owners.entries@[idx].1 == cleared@[j].current,
                cleared@.len() == spec_count_owned_by(be, window, i as int),
                cleared@.len() == spec_owned_records(be, window, i as int).len(),
                forall|j: int|
                    0 <= j < cleared@.len() ==> #[trigger] cleared@[j] == spec_ended(
                        spec_owned_records(be, window, i as int)[j],
                        spec_generation_after(g0, j + 1),
                        kind,
                    ),
                self.generation == spec_generation_after(g0, cleared@.len() as int),
            decreases be.len() - i,
        {
            let e = self.owners.entries[i].1;
            proof {
                self.owners.lemma_index(i as int);
            }
            let ghost prev = cleared@;
            if e.owner == Some(window) {
                self.generation = if self.generation == u64::MAX {
                    u64::MAX
                } else {
                    self.generation + 1
                };
                let current = XSelectionOwnerRecord {
                    selection: e.selection,
                    namespace: e.namespace,
                    owner: None,
                    generation: self.generation,
                    timestamp: e.timestamp,
                    selection_timestamp: e.selection_timestamp,
                };
                self.owners.set_value_at(i, current);
                cleared.push(XSelectionOwnerUpdate { previous: Some(e), current, kind });
                proof {
                    assert(spec_owned_records(be, window, i + 1) == spec_owned_records(be, window, i as int).push(
                        be[i as int].1,
                    ));
                    assert forall|j: int| 0 <= j < cleared@.len() implies #[trigger] cleared@[j] == spec_ended(
                        spec_owned_records(be, window, i + 1)[j],
                        spec_generation_after(g0, j + 1),
                        kind,
                    ) by {
                        if j < prev.len() {
                            assert(cleared@[j] == prev[j]);
                        }
                    }
                    assert forall|idx: int|
                        0 <= idx < i + 1 && be[idx].1.owner == Some(window) implies exists|j: int|
                            0 <= j < cleared@.len() && #[trigger] cleared@[j].previous == Some(be[idx].1)
                                && self.owners.entries@[idx].1 == cleared@[j].current by {
                        if idx < i {
                            let j = choose|j: int|
                                0 <= j < prev.len() && #[trigger] prev[j].previous == Some(be[idx].1)
                                    && self.owners.entries@[idx].1 == prev[j].current;
                            assert(cleared@[j] == prev[j]);
                        } else {
                            assert(cleared@[prev.len() as int].previous == Some(be[idx].1));
                        }
                    }
                }
            } else {
                proof {
                    assert(spec_owned_records(be, window, i + 1) == spec_owned_records(be, window, i as int));
                }
            }
            i = i + 1;
        }
        proof {
            let bt = old(self).owners;
            assert forall|k: XSelectionKey| #[trigger] self.view().contains_key(k) implies old(self).view().contains_key(k) by {
                let idx = self.owners.index_of(k);
                assert(self.owners.entries@[idx].0 == k);
                assert(bt.entries@[idx].0 == k);
                assert(bt.has_key(k));
            }
            assert forall|k: XSelectionKey| #[trigger] old(self).view().contains_key(k) implies {
                &&& self.view().contains_key(k)
                &&& old(self).view()[k].owner != Some(window) ==> self.view()[k] == old(self).view()[k]
                &&& old(self).view()[k].owner == Some(window) ==> exists|j: int|
                    0 <= j < cleared@.len() && #[trigger] cleared@[j].previous == Some(old(self).view()[k])
                        && self.view()[k] == cleared@[j].current
            } by {
                let idx = bt.index_of(k);
                bt.lemma_index(idx);
                assert(self.owners.entries@[idx].0 == k);
                self.owners.lemma_index(idx);
            }
            assert(self.view().dom() =~= old(self).view().dom());
            assert(cleared@ =~= spec_clear_updates(be, window, g0, kind));
            assert forall|k: XSelectionKey| #[trigger] self.view().contains_key(k) implies self.view()[k].owner
                != Some(window) by {
                if old(self).view()[k].owner == Some(window) {
                    let j = choose|j: int|
                        0 <= j < cleared@.len() && #[trigger] cleared@[j].previous == Some(old(self).view()[k])
                            && self.view()[k] == cleared@[j].current;
                    assert(cleared@[j].current.owner is None);
                }
            }
        }
        cleared
    }
}

/// The generation `n` steps after `g`, held at the top.
pub open spec fn spec_generation_after(g: u64, n: int) -> u64 {
    if g + n > u64::MAX {
        u64::MAX
    } else {
        (g + n) as u64
    }
}

/// The changes that end, in key order, every ownership `window` holds
/// among `entries`, the first under the generation after `g`.
pub open spec fn spec_clear_updates(
    entries: Seq<(XSelectionKey, XSelectionOwnerRecord)>,
    window: XResourceId,
    g: u64,
    kind: XSelectionChangeKind,
) -> Seq<XSelectionOwnerUpdate> {
    let owned = spec_owned_records(entries, window, entries.len() as int);
    Seq::new(owned.len(), |i: int| spec_ended(owned[i], spec_generation_after(g, i + 1), kind))
}

/// The change that ends `ended` under `generation`: the same selection,
/// namespace and timestamps, and no owner.
pub open spec fn spec_ended(ended: XSelectionOwnerRecord, generation: u64, kind: XSelectionChangeKind) -> XSelectionOwnerUpdate {
    XSelectionOwnerUpdate {
        previous: Some(ended),
        current: XSelectionOwnerRecord { owner: None, generation, ..ended },
        kind,
    }
}

/// The records of the first `n` entries that `window` owns, in order.
pub open spec fn spec_owned_records(
    s: Seq<(XSelectionKey, XSelectionOwnerRecord)>,
    window: XResourceId,
    n: int,
) -> Seq<XSelectionOwnerRecord>
    decreases n,
{
    if n <= 0 {
        Seq::empty()
    } else if s[n - 1].1.owner == Some(window) {
        spec_owned_records(s, window, n - 1).push(s[n - 1].1)
    } else {
        spec_owned_records(s, window, n - 1)
    }
}

/// The key a record sits under.
pub open spec fn spec_record_key(r: XSelectionOwnerRecord) -> XSelectionKey {
    XSelectionKey { selection: r.selection, namespace: r.namespace }
}

/// How many of the first `n` records `window` owns.
pub open spec fn spec_count_owned_by(
    s: Seq<(XSelectionKey, XSelectionOwnerRecord)>,
    window: XResourceId,
    n: int,
) -> nat
    decreases n,
{
    if n <= 0 {
        0
    } else {
        spec_count_owned_by(s, window, n - 1) + if s[n - 1].1.owner == Some(window) {
            1nat
        } else {
            0nat
        }
    }
}

proof fn lemma_existing_namespace_stable(
    s: Seq<(XSelectionKey, XSelectionOwnerRecord)>,
    selection: XAtom,
    a: int,
    b: int,
)
    requires
        0 <= a <= b,
        spec_existing_namespace(s, selection, a) is Some,
    ensures
        spec_existing_namespace(s, selection, b) == spec_existing_namespace(s, selection, a),
    decreases b - a,
{
    if a < b {
        lemma_existing_namespace_stable(s, selection, a, b - 1);
    }
}

} // verus!
