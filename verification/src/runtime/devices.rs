use vstd::prelude::*;

use crate::ids::{NamespaceId, X_SETUP_DEFAULT_ROOT, XResourceId};
use crate::resources::{XAuthorityRuntimeError, XResourceKind};
use crate::ids::SurfaceId;
use crate::runtime::{
    XAuthorityRuntime, XDeviceBundle, XDmaBufImportFormat, XDrmDeviceHint, XRenderDeviceIdentity,
    XWindowAllocationPreference, XWindowAllocationPreferences, XWindowAllocationUpdate,
};
use crate::table::{XTable, XTableKey};

verus! {

/// The modifiers an import inventory lists for a format; none when the
/// format is absent or there is no inventory.
pub open spec fn spec_inventory_modifiers(t: Option<XTable<u32, Vec<u64>>>, format: u32) -> Seq<u64> {
    match t {
        Some(t) => if t.view().contains_key(format) {
            t.view()[format]@
        } else {
            Seq::empty()
        },
        None => Seq::empty(),
    }
}

fn inventory_modifiers(t: &Option<XTable<u32, Vec<u64>>>, format: u32) -> (r: &[u64])
    requires
        match t {
            Some(t) => t.wf(),
            None => true,
        },
    ensures
        r@ == spec_inventory_modifiers(*t, format),
{
    match t {
        Some(t) => match t.get(&format) {
            Some(v) => v.as_slice(),
            None => &[],
        },
        None => &[],
    }
}

/// The first format row for `format` among the first `n` rows.
pub open spec fn spec_first_row(rows: Seq<XDmaBufImportFormat>, format: u32, n: int) -> Option<int>
    decreases n,
{
    if n <= 0 {
        None
    } else {
        match spec_first_row(rows, format, n - 1) {
            Some(i) => Some(i),
            None => if rows[n - 1].format == format {
                Some(n - 1)
            } else {
                None
            },
        }
    }
}

/// The modifiers of a row a window may be allocated with: those the screen
/// also offers, and only the linear one unless the client renders on the
/// same device.
pub open spec fn spec_allowed_modifiers(s: Seq<u64>, screen: Seq<u64>, same_device: bool) -> Seq<u64>
    decreases s.len(),
{
    if s.len() == 0 {
        Seq::empty()
    } else {
        let rest = spec_allowed_modifiers(s.drop_last(), screen, same_device);
        let m = s.last();
        if screen.contains(m) && (same_device || m == 0) {
            rest.push(m)
        } else {
            rest
        }
    }
}

impl XAuthorityRuntime {
    /// The fixed provider's modifiers for a format.
    pub fn dma_buf_import_modifiers(&self, format: u32) -> (r: &[u64])
        requires
            self.wf(),
        ensures
            r@ == spec_inventory_modifiers(self.dma_buf_import_formats, format),
    {
        inventory_modifiers(&self.dma_buf_import_formats, format)
    }

    /// The modifiers a client may import for a format: its pinned device's,
    /// none for a pinned absent device, the fixed provider's for a client
    /// with no pin.
    pub fn dma_buf_import_modifiers_for_client(&self, client_id: u64, format: u32) -> (r: &[u64])
        requires
            self.wf(),
            forall|c: u64|
                #![trigger self.device_connections.view()[c]]
                self.device_connections.view().contains_key(c) ==> match self.device_connections.view()[c] {
                    Some(b) => b.import_formats.wf(),
                    None => true,
                },
        ensures
            r@ == if self.device_connections.view().contains_key(client_id) {
                match self.device_connections.view()[client_id] {
                    Some(b) => spec_inventory_modifiers(Some(b.import_formats), format),
                    None => Seq::empty(),
                }
            } else {
                spec_inventory_modifiers(self.dma_buf_import_formats, format)
            },
    {
        match self.device_connections.get(&client_id) {
            Some(Some(bundle)) => match bundle.import_formats.get(&format) {
                Some(v) => v.as_slice(),
                None => &[],
            },
            Some(None) => &[],
            None => inventory_modifiers(&self.dma_buf_import_formats, format),
        }
    }

    /// Records the render device a client hinted for a window of its own;
    /// the root takes no hint.
    pub fn set_window_render_device_hint(
        &mut self,
        namespace: NamespaceId,
        window: XResourceId,
        hint: XDrmDeviceHint,
    ) -> (r: Result<(), XAuthorityRuntimeError>)
        requires
            old(self).wf(),
        ensures
            final(self).wf(),
            window.local == X_SETUP_DEFAULT_ROOT ==> r is Ok && *final(self) == *old(self),
            window.local != X_SETUP_DEFAULT_ROOT ==> match old(self).spec_window(namespace, window) {
                Err(e) => r == Err::<(), XAuthorityRuntimeError>(e) && *final(self) == *old(self),
                Ok(rec) => {
                    &&& r is Ok
                    &&& final(self).window_allocation.hints.view() == old(self).window_allocation.hints.view().insert(rec.surface, hint)
                    &&& final(self).window_allocation.preferences == old(self).window_allocation.preferences
                    &&& final(self).window_allocation.generation == old(self).window_allocation.generation
                    &&& final(self).window_allocation.topology_generation == old(self).window_allocation.topology_generation
                    &&& *final(self) == (XAuthorityRuntime {
                        window_allocation: final(self).window_allocation,
                        ..*old(self)
                    })
                },
            },
    {
        if window.local == X_SETUP_DEFAULT_ROOT as u64 {
            return Ok(());
        }
        let rec = match self.window_record(namespace, window) {
            Err(e) => {
                return Err(e);
            },
            Ok(rec) => rec,
        };
        self.window_allocation.hints.insert(rec.surface, hint);
        Ok(())
    }

    /// The identity of the device a client renders on, when it is pinned
    /// to an available one.
    pub open spec fn spec_client_identity(&self, client_id: u64) -> Option<XRenderDeviceIdentity> {
        if self.device_connections.view().contains_key(client_id) {
            match self.device_connections.view()[client_id] {
                Some(b) => if b.available {
                    b.identity
                } else {
                    None
                },
                None => None,
            }
        } else {
            None
        }
    }

    /// The modifiers a window may be allocated with for a format, given
    /// what the screen offers: empty unless the window is this namespace's,
    /// the preferences match the current topology, the surface has
    /// preferences, and any device hint agrees with them.
    #[verifier::loop_isolation(false)]
    pub fn window_allocation_modifiers(
        &self,
        namespace: NamespaceId,
        client_id: u64,
        window: XResourceId,
        format: u32,
        screen_modifiers: &[u64],
    ) -> (r: Vec<u64>)
        requires
            self.wf(),
        ensures
            spec_sorted_set(r@),
            r@ == {
                let pref_map = self.window_allocation.preferences.view();
                let hints = self.window_allocation.hints.view();
                if self.spec_access(namespace, window, XResourceKind::Window) is Some
                    || self.window_allocation.topology_generation != self.topology_generation
                    || !self.windows.view().contains_key(window) || !pref_map.contains_key(
                    self.windows.view()[window].surface,
                ) {
                    Seq::empty()
                } else {
                    let surface = self.windows.view()[window].surface;
                    let pref = pref_map[surface];
                    if hints.contains_key(surface) && hints[surface] != pref.device {
                        Seq::empty()
                    } else {
                        let identity = self.spec_client_identity(client_id);
                        let same_device = identity is Some && identity == pref.identity;
                        match spec_first_row(pref.formats@, format, pref.formats@.len() as int) {
                            Some(i) => spec_allowed_modifiers(
                                pref.formats@[i].modifiers@,
                                screen_modifiers@,
                                same_device,
                            ),
                            None => Seq::empty(),
                        }
                    }
                }
            },
    {
        if self.access(namespace, window, XResourceKind::Window).is_err()
            || self.window_allocation.topology_generation != self.topology_generation {
            return Vec::new();
        }
        let surface = match self.windows.get(window) {
            None => {
                return Vec::new();
            },
            Some(rec) => rec.surface,
        };
        let pref = match self.window_allocation.preferences.get(&surface) {
            None => {
                return Vec::new();
            },
            Some(p) => p,
        };
        match self.window_allocation.hints.get(&surface) {
            Some(h) => if *h != pref.device {
                return Vec::new();
            },
            None => {},
        }
        let identity: Option<XRenderDeviceIdentity> = match self.device_connections.get(&client_id) {
            Some(Some(bundle)) => if bundle.available {
                bundle.identity
            } else {
                None
            },
            _ => None,
        };
        let same_device = match (identity, pref.identity) {
            (Some(a), Some(b)) => a == b,
            _ => false,
        };
        let ghost rows = pref.formats@;
        let mut i: usize = 0;
        while i < pref.formats.len()
            invariant
                rows == pref.formats@,
                i <= rows.len(),
                spec_first_row(rows, format, i as int) is None,
            decreases rows.len() - i,
        {
            if pref.formats[i].format == format {
                proof {
                    assert(spec_first_row(rows, format, i + 1) == Some(i as int));
                    lemma_first_row_stable(rows, format, i + 1, rows.len() as int);
                    assert(self.window_allocation.preferences.view().contains_key(surface));
                    assert(spec_sorted_set(pref.formats@[i as int].modifiers@));
                    lemma_allowed_sorted(pref.formats@[i as int].modifiers@, screen_modifiers@, same_device);
                }
                return filter_modifiers(&pref.formats[i].modifiers, screen_modifiers, same_device);
            }
            i = i + 1;
        }
        Vec::new()
    }
}

/// Once found, the first row stays the first row.
proof fn lemma_first_row_stable(rows: Seq<XDmaBufImportFormat>, format: u32, a: int, b: int)
    requires
        0 <= a <= b,
        spec_first_row(rows, format, a) is Some,
    ensures
        spec_first_row(rows, format, b) == spec_first_row(rows, format, a),
    decreases b - a,
{
    if a < b {
        lemma_first_row_stable(rows, format, a, b - 1);
    }
}

fn contains_u64(s: &[u64], m: u64) -> (r: bool)
    ensures
        r == s@.contains(m),
{
    let mut i: usize = 0;
    while i < s.len()
        invariant
            i <= s@.len(),
            forall|j: int| 0 <= j < i ==> s@[j] != m,
        decreases s@.len() - i,
    {
        if s[i] == m {
            return true;
        }
        i = i + 1;
    }
    false
}

fn filter_modifiers(s: &Vec<u64>, screen: &[u64], same_device: bool) -> (r: Vec<u64>)
    ensures
        r@ == spec_allowed_modifiers(s@, screen@, same_device),
{
    let mut out: Vec<u64> = Vec::new();
    let mut i: usize = 0;
    while i < s.len()
        invariant
            i <= s@.len(),
            out@ == spec_allowed_modifiers(s@.take(i as int), screen@, same_device),
        decreases s@.len() - i,
    {
        proof {
            assert(s@.take(i + 1).drop_last() =~= s@.take(i as int));
            assert(s@.take(i + 1).last() == s@[i as int]);
        }
        let m = s[i];
        if contains_u64(screen, m) && (same_device || m == 0) {
            out.push(m);
        }
        i = i + 1;
    }
    proof {
        assert(s@.take(i as int) =~= s@);
    }
    out
}

/// The modifier that names no layout.
pub const DRM_FORMAT_MOD_INVALID: u64 = 0x00ff_ffff_ffff_ffff;
pub const DMA_BUF_IMPORT_MAX_FORMATS: usize = 512;
pub const DMA_BUF_IMPORT_MAX_MODIFIERS: usize = 16384;

/// A modifier that names a real layout.
pub open spec fn spec_valid_modifier(m: u64) -> bool {
    m != DRM_FORMAT_MOD_INVALID && m != u64::MAX
}

/// How many modifiers the first `n` rows list, repeats included.
pub open spec fn spec_total_modifiers(rows: Seq<XDmaBufImportFormat>, n: int) -> int
    decreases n,
{
    if n <= 0 {
        0
    } else {
        spec_total_modifiers(rows, n - 1) + rows[n - 1].modifiers@.len()
    }
}

proof fn lemma_total_monotone(rows: Seq<XDmaBufImportFormat>, a: int, b: int)
    requires
        0 <= a <= b,
    ensures
        spec_total_modifiers(rows, a) <= spec_total_modifiers(rows, b),
    decreases b - a,
{
    if a < b {
        lemma_total_monotone(rows, a, b - 1);
    }
}

/// Whether one of the first `n` rows lists `format`.
pub open spec fn spec_listed(rows: Seq<XDmaBufImportFormat>, format: u32, n: int) -> bool {
    exists|j: int| 0 <= j < n && #[trigger] rows[j].format == format
}

/// Whether one of the first `n` rows lists `m` for `format`.
pub open spec fn spec_offered(rows: Seq<XDmaBufImportFormat>, format: u32, m: u64, n: int) -> bool {
    exists|j: int| 0 <= j < n && #[trigger] rows[j].format == format && rows[j].modifiers@.contains(m)
}

/// Every row of a preference lists its modifiers as a sorted set.
pub open spec fn spec_pref_rows_sorted(p: XWindowAllocationPreference) -> bool {
    forall|k: int| 0 <= k < p.formats@.len() ==> spec_sorted_set(#[trigger] p.formats@[k].modifiers@)
}

/// The modifiers a row allows are some of its own, in its order, so a
/// sorted row allows a sorted set.
proof fn lemma_allowed_sorted(s: Seq<u64>, screen: Seq<u64>, same_device: bool)
    requires
        spec_sorted_set(s),
    ensures
        spec_sorted_set(spec_allowed_modifiers(s, screen, same_device)),
        forall|x: u64| #[trigger] spec_allowed_modifiers(s, screen, same_device).contains(x) ==> s.contains(x),
    decreases s.len(),
{
    if s.len() > 0 {
        let init = s.drop_last();
        assert forall|i: int, j: int| 0 <= i < j < init.len() implies init[i] < init[j] by {
            assert(init[i] == s[i] && init[j] == s[j]);
        }
        lemma_allowed_sorted(init, screen, same_device);
        let rest = spec_allowed_modifiers(init, screen, same_device);
        let out = spec_allowed_modifiers(s, screen, same_device);
        assert forall|x: u64| #[trigger] out.contains(x) implies s.contains(x) by {
            if rest.contains(x) {
                let k = choose|k: int| 0 <= k < init.len() && init[k] == x;
                assert(s[k] == x);
            } else {
                assert(x == s.last());
                assert(s[s.len() - 1] == x);
            }
        }
        if out != rest {
            assert forall|i: int, j: int| 0 <= i < j < out.len() implies out[i] < out[j] by {
                if j == out.len() - 1 {
                    assert(rest.contains(out[i]));
                    assert(init.contains(out[i]));
                    let k = choose|k: int| 0 <= k < init.len() && init[k] == out[i];
                    assert(s[k] == out[i]);
                } else {
                    assert(out[i] == rest[i] && out[j] == rest[j]);
                }
            }
        }
    }
}

/// A strictly increasing sequence: sorted, each value once.
pub open spec fn spec_sorted_set(s: Seq<u64>) -> bool {
    forall|i: int, j: int| 0 <= i < j < s.len() ==> s[i] < s[j]
}

/// An inventory holds each listed format once, with the sorted set of the
/// valid modifiers every row for it lists.
pub open spec fn spec_canonical_inventory(t: XTable<u32, Vec<u64>>, rows: Seq<XDmaBufImportFormat>) -> bool {
    &&& forall|f: u32| #[trigger] t.view().contains_key(f) <==> spec_listed(rows, f, rows.len() as int)
    &&& forall|f: u32|
        #[trigger] t.view().contains_key(f) ==> spec_sorted_set(t.view()[f]@) && forall|m: u64|
            t.view()[f]@.contains(m) <==> (spec_valid_modifier(m) && spec_offered(
                rows,
                f,
                m,
                rows.len() as int,
            ))
}

/// A per-format modifier set built over the first `n` rows.
pub open spec fn spec_inner_ok(t: XTable<u64, ()>, rows: Seq<XDmaBufImportFormat>, format: u32, n: int) -> bool {
    &&& t.wf()
    &&& forall|m: u64|
        #[trigger] t.view().contains_key(m) <==> (spec_valid_modifier(m) && spec_offered(
            rows,
            format,
            m,
            n,
        ))
}

/// Whether the rows fit the inventory's bounds.
fn modifier_total_within(formats: &Vec<XDmaBufImportFormat>) -> (r: bool)
    ensures
        r == (spec_total_modifiers(formats@, formats@.len() as int) <= DMA_BUF_IMPORT_MAX_MODIFIERS),
{
    let mut total: usize = 0;
    let mut i: usize = 0;
    while i < formats.len()
        invariant
            i <= formats@.len(),
            total == spec_total_modifiers(formats@, i as int),
            total <= DMA_BUF_IMPORT_MAX_MODIFIERS,
        decreases formats@.len() - i,
    {
        let n = formats[i].modifiers.len();
        if n > DMA_BUF_IMPORT_MAX_MODIFIERS - total {
            proof {
                lemma_total_monotone(formats@, i + 1, formats@.len() as int);
            }
            return false;
        }
        total = total + n;
        i = i + 1;
    }
    true
}

/// Builds the canonical inventory of a bounded row list.
fn canonical_inventory(formats: &Vec<XDmaBufImportFormat>) -> (r: XTable<u32, Vec<u64>>)
    ensures
        r.wf(),
        spec_canonical_inventory(r, formats@),
{
    let ghost rows = formats@;
    let mut sets: XTable<u32, XTable<u64, ()>> = XTable::new();
    let mut i: usize = 0;
    while i < formats.len()
        invariant
            rows == formats@,
            i <= rows.len(),
            sets.wf(),
            forall|f: u32| #[trigger] sets.view().contains_key(f) <==> spec_listed(rows, f, i as int),
            forall|f: u32|
                #[trigger] sets.view().contains_key(f) ==> spec_inner_ok(
                    sets.view()[f],
                    rows,
                    f,
                    i as int,
                ),
        decreases rows.len() - i,
    {
        let f = formats[i].format;
        let ghost pre = sets.view();
        let mut inner: XTable<u64, ()> = match sets.remove(&f) {
            Some(t) => t,
            None => XTable::new(),
        };
        proof {
            assert forall|m: u64| #[trigger]
                inner.view().contains_key(m) <==> (spec_valid_modifier(m) && spec_offered(
                    rows,
                    f,
                    m,
                    i as int,
                )) by {
                if !pre.contains_key(f) && spec_offered(rows, f, m, i as int) {
                    let j = choose|j: int|
                        0 <= j < i && #[trigger] rows[j].format == f && rows[j].modifiers@.contains(m);
                    assert(spec_listed(rows, f, i as int));
                }
            }
        }
        let mut k: usize = 0;
        while k < formats[i].modifiers.len()
            invariant
                rows == formats@,
                i < rows.len(),
                f == rows[i as int].format,
                k <= rows[i as int].modifiers@.len(),
                inner.wf(),
                forall|m: u64| #[trigger]
                    inner.view().contains_key(m) <==> (spec_valid_modifier(m) && (spec_offered(
                        rows,
                        f,
                        m,
                        i as int,
                    ) || rows[i as int].modifiers@.take(k as int).contains(m))),
            decreases rows[i as int].modifiers@.len() - k,
        {
            let m = formats[i].modifiers[k];
            let ghost before = inner.view();
            if m != DRM_FORMAT_MOD_INVALID && m != u64::MAX {
                inner.insert(m, ());
            }
            proof {
                let t0 = rows[i as int].modifiers@.take(k as int);
                let t1 = rows[i as int].modifiers@.take(k + 1);
                assert(t1 =~= t0.push(m));
                assert forall|x: u64| #[trigger] t1.contains(x) <==> (t0.contains(x) || x == m) by {
                    if t1.contains(x) {
                        let a = choose|a: int| 0 <= a < t1.len() && t1[a] == x;
                        if a < t0.len() {
                            assert(t0[a] == x);
                        }
                    }
                    if t0.contains(x) {
                        let a = choose|a: int| 0 <= a < t0.len() && t0[a] == x;
                        assert(t1[a] == x);
                    }
                    if x == m {
                        assert(t1[k as int] == x);
                    }
                }
            }
            k = k + 1;
        }
        proof {
            assert(rows[i as int].modifiers@.take(k as int) =~= rows[i as int].modifiers@);
            assert forall|m: u64| #[trigger]
                inner.view().contains_key(m) <==> (spec_valid_modifier(m) && spec_offered(
                    rows,
                    f,
                    m,
                    i + 1,
                )) by {
                if rows[i as int].modifiers@.contains(m) {
                    assert(rows[i as int].format == f);
                }
                if spec_offered(rows, f, m, i + 1) && !spec_offered(rows, f, m, i as int) {
                    let j = choose|j: int|
                        0 <= j < i + 1 && #[trigger] rows[j].format == f && rows[j].modifiers@.contains(m);
                    assert(j == i);
                }
            }
        }
        let ghost mid = sets.view();
        sets.insert(f, inner);
        proof {
            assert forall|g: u32| #[trigger] sets.view().contains_key(g) <==> spec_listed(rows, g, i + 1) by {
                if g == f {
                    assert(rows[i as int].format == f);
                } else {
                    if spec_listed(rows, g, i + 1) {
                        let j = choose|j: int| 0 <= j < i + 1 && #[trigger] rows[j].format == g;
                        assert(j != i);
                        assert(spec_listed(rows, g, i as int));
                    }
                }
            }
            assert forall|g: u32| #[trigger]
                sets.view().contains_key(g) implies spec_inner_ok(sets.view()[g], rows, g, i + 1) by {
                if g != f {
                    assert(sets.view()[g] == pre[g]);
                    assert forall|m: u64| #[trigger]
                        sets.view()[g].view().contains_key(m) <==> (spec_valid_modifier(m)
                            && spec_offered(rows, g, m, i + 1)) by {
                        if spec_offered(rows, g, m, i + 1) {
                            let j = choose|j: int|
                                0 <= j < i + 1 && #[trigger] rows[j].format == g
                                    && rows[j].modifiers@.contains(m);
                            assert(j != i);
                            assert(spec_offered(rows, g, m, i as int));
                        }
                    }
                }
            }
        }
        i = i + 1;
    }
    let mut canonical: XTable<u32, Vec<u64>> = XTable::new();
    let mut c: usize = 0;
    while c < sets.entries.len()
        invariant
            rows == formats@,
            sets.wf(),
            canonical.wf(),
            c <= sets.entries@.len(),
            forall|f: u32| #[trigger] sets.view().contains_key(f) <==> spec_listed(rows, f, rows.len() as int),
            forall|f: u32|
                #[trigger] sets.view().contains_key(f) ==> spec_inner_ok(
                    sets.view()[f],
                    rows,
                    f,
                    rows.len() as int,
                ),
            forall|f: u32| #[trigger]
                canonical.view().contains_key(f) <==> exists|j: int|
                    0 <= j < c && sets.entries@[j].0 == f,
            forall|j: int|
                0 <= j < c ==> canonical.view()[#[trigger] sets.entries@[j].0]@
                    == sets.entries@[j].1.keys_seq(),
        decreases sets.entries@.len() - c,
    {
        let f = sets.entries[c].0;
        proof {
            sets.lemma_index(c as int);
        }
        let ks = sets.entries[c].1.keys();
        proof {
            assert forall|j: int| 0 <= j < c implies sets.entries@[j].0 != f by {
                sets.lemma_keys_distinct(j, c as int);
            }
        }
        canonical.insert(f, ks);
        proof {
            assert forall|g: u32| #[trigger]
                canonical.view().contains_key(g) <==> exists|j: int|
                    0 <= j < c + 1 && sets.entries@[j].0 == g by {
                if g == f {
                    assert(sets.entries@[c as int].0 == g);
                }
            }
        }
        c = c + 1;
    }
    proof {
        assert forall|f: u32| #[trigger] canonical.view().contains_key(f) <==> spec_listed(
            rows,
            f,
            rows.len() as int,
        ) by {
            if canonical.view().contains_key(f) {
                let j = choose|j: int| 0 <= j < c && sets.entries@[j].0 == f;
                sets.lemma_index(j);
            }
            if spec_listed(rows, f, rows.len() as int) {
                assert(sets.view().contains_key(f));
                let j = sets.index_of(f);
                sets.lemma_index(j);
            }
        }
        assert forall|f: u32| #[trigger]
            canonical.view().contains_key(f) implies spec_sorted_set(canonical.view()[f]@)
            && forall|m: u64|
            canonical.view()[f]@.contains(m) <==> (spec_valid_modifier(m) && spec_offered(
                rows,
                f,
                m,
                rows.len() as int,
            )) by {
            let j = choose|j: int| 0 <= j < c && sets.entries@[j].0 == f;
            sets.lemma_index(j);
            let inner = sets.view()[f];
            assert(spec_inner_ok(inner, rows, f, rows.len() as int));
            inner.lemma_dom();
            assert(canonical.view()[f]@ == inner.keys_seq());
            assert forall|a: int, b: int|
                0 <= a < b < inner.keys_seq().len() implies inner.keys_seq()[a] < inner.keys_seq()[b] by {
                assert(inner.entries@[a].0.key_lt(inner.entries@[b].0));
            }
            assert forall|m: u64|
                canonical.view()[f]@.contains(m) <==> (spec_valid_modifier(m) && spec_offered(
                    rows,
                    f,
                    m,
                    rows.len() as int,
                )) by {
                assert(inner.view().dom().contains(m) == inner.keys_seq().to_set().contains(m));
            }
        }
    }
    canonical
}

impl XAuthorityRuntime {
    /// Latches the fixed provider's import inventory, once: each listed
    /// format with the sorted set of its valid modifiers, or no format at
    /// all when the list exceeds its bounds.
    pub fn set_dma_buf_import_formats(&mut self, formats: Vec<XDmaBufImportFormat>)
        requires
            old(self).wf(),
        ensures
            final(self).wf(),
            old(self).dma_buf_import_formats is Some ==> *final(self) == *old(self),
            old(self).dma_buf_import_formats is None ==> {
                &&& final(self).dma_buf_import_formats is Some
                &&& *final(self) == (XAuthorityRuntime {
                    dma_buf_import_formats: final(self).dma_buf_import_formats,
                    ..*old(self)
                })
                &&& (formats@.len() <= DMA_BUF_IMPORT_MAX_FORMATS && spec_total_modifiers(
                    formats@,
                    formats@.len() as int,
                ) <= DMA_BUF_IMPORT_MAX_MODIFIERS) ==> spec_canonical_inventory(
                    final(self).dma_buf_import_formats.unwrap(),
                    formats@,
                )
                &&& !(formats@.len() <= DMA_BUF_IMPORT_MAX_FORMATS && spec_total_modifiers(
                    formats@,
                    formats@.len() as int,
                ) <= DMA_BUF_IMPORT_MAX_MODIFIERS) ==> final(self).dma_buf_import_formats.unwrap().view().dom() == Set::<u32>::empty()
            },
    {
        if self.dma_buf_import_formats.is_some() {
            return ;
        }
        if formats.len() <= DMA_BUF_IMPORT_MAX_FORMATS && modifier_total_within(&formats) {
            self.dma_buf_import_formats = Some(canonical_inventory(&formats));
        } else {
            let empty: XTable<u32, Vec<u64>> = XTable::new();
            proof {
                assert(empty.view().dom() =~= Set::<u32>::empty());
            }
            self.dma_buf_import_formats = Some(empty);
        }
    }
}

pub const DRM_FORMAT_XRGB8888: u32 = 0x3432_5258;
pub const DRM_FORMAT_ARGB8888: u32 = 0x3432_5241;
/// The most surfaces one preference snapshot may name.
pub const WINDOW_ALLOCATION_MAX_ROWS: usize = 4096;

/// The major number of a Linux device number: bits 8..20 and 44..64.
pub open spec fn spec_dev_major(dev: u64) -> u32 {
    (((dev >> 32u64) & 0xffff_f000u64) | ((dev >> 8u64) & 0x0000_0fffu64)) as u32
}

/// The minor number of a Linux device number: bits 0..8 and 20..44.
pub open spec fn spec_dev_minor(dev: u64) -> u32 {
    (((dev >> 12u64) & 0xffff_ff00u64) | (dev & 0x0000_00ffu64)) as u32
}

/// `rustix::fs::major`: on Linux, the major number of a device number,
/// computed from its bits as `spec_dev_major` states.
#[verifier::external_body]
fn dev_major(dev: u64) -> (r: u32)
    ensures
        r == spec_dev_major(dev),
{
    rustix::fs::major(dev)
}

/// `rustix::fs::minor`: on Linux, the minor number of a device number,
/// computed from its bits as `spec_dev_minor` states.
#[verifier::external_body]
fn dev_minor(dev: u64) -> (r: u32)
    ensures
        r == spec_dev_minor(dev),
{
    rustix::fs::minor(dev)
}

/// Whether a format rows' formats are pairwise distinct.
pub open spec fn spec_rows_distinct(rows: Seq<XDmaBufImportFormat>) -> bool {
    forall|a: int, b: int| 0 <= a < b < rows.len() ==> rows[a].format != rows[b].format
}

/// A row a window preference may carry: an 8888 format with real layouts.
pub open spec fn spec_pref_row_valid(row: XDmaBufImportFormat) -> bool {
    &&& (row.format == DRM_FORMAT_XRGB8888 || row.format == DRM_FORMAT_ARGB8888)
    &&& forall|k: int| 0 <= k < row.modifiers@.len() ==> spec_valid_modifier(#[trigger] row.modifiers@[k])
}

/// A surface's preference is admissible: a live surface, a device identity
/// that agrees with the hint it carries, valid and distinct format rows.
pub open spec fn spec_window_pref_valid(w: XWindowAllocationPreference) -> bool {
    &&& w.surface.spec_is_valid()
    &&& match w.identity {
        Some(id) => spec_dev_major(id.device_number) == w.device.major && spec_dev_minor(
            id.device_number,
        ) == w.device.minor,
        None => true,
    }
    &&& forall|k: int| 0 <= k < w.formats@.len() ==> spec_pref_row_valid(#[trigger] w.formats@[k])
    &&& spec_rows_distinct(w.formats@)
}

pub open spec fn spec_surfaces_distinct(ws: Seq<XWindowAllocationPreference>) -> bool {
    forall|a: int, b: int| 0 <= a < b < ws.len() ==> ws[a].surface != ws[b].surface
}

/// The modifiers the first `n` preferences list, repeats included.
pub open spec fn spec_pref_modifier_total(ws: Seq<XWindowAllocationPreference>, n: int) -> int
    decreases n,
{
    if n <= 0 {
        0
    } else {
        spec_pref_modifier_total(ws, n - 1) + spec_total_modifiers(
            ws[n - 1].formats@,
            ws[n - 1].formats@.len() as int,
        )
    }
}

/// The format rows the first `n` preferences carry.
pub open spec fn spec_pref_row_total(ws: Seq<XWindowAllocationPreference>, n: int) -> int
    decreases n,
{
    if n <= 0 {
        0
    } else {
        spec_pref_row_total(ws, n - 1) + ws[n - 1].formats@.len()
    }
}

proof fn lemma_pref_totals_monotone(ws: Seq<XWindowAllocationPreference>, a: int, b: int)
    requires
        0 <= a <= b,
    ensures
        spec_pref_modifier_total(ws, a) <= spec_pref_modifier_total(ws, b),
        spec_pref_row_total(ws, a) <= spec_pref_row_total(ws, b),
    decreases b - a,
{
    if a < b {
        lemma_pref_totals_monotone(ws, a, b - 1);
        lemma_total_nonneg(ws[b - 1].formats@, ws[b - 1].formats@.len() as int);
    }
}

proof fn lemma_total_nonneg(rows: Seq<XDmaBufImportFormat>, n: int)
    ensures
        spec_total_modifiers(rows, n) >= 0,
    decreases n,
{
    if n > 0 {
        lemma_total_nonneg(rows, n - 1);
    }
}

/// The rows' modifier count, when it is at most `budget`.
fn bounded_total_modifiers(rows: &Vec<XDmaBufImportFormat>, budget: usize) -> (r: Option<usize>)
    ensures
        match r {
            Some(n) => n == spec_total_modifiers(rows@, rows@.len() as int) && n <= budget,
            None => spec_total_modifiers(rows@, rows@.len() as int) > budget,
        },
{
    let mut total: usize = 0;
    let mut i: usize = 0;
    while i < rows.len()
        invariant
            i <= rows@.len(),
            total == spec_total_modifiers(rows@, i as int),
            total <= budget,
        decreases rows@.len() - i,
    {
        let n = rows[i].modifiers.len();
        if n > budget - total {
            proof {
                lemma_total_monotone(rows@, i + 1, rows@.len() as int);
            }
            return None;
        }
        total = total + n;
        i = i + 1;
    }
    Some(total)
}

/// Whether a snapshot fits the bounds on modifiers and format rows.
fn preference_totals_within(ws: &Vec<XWindowAllocationPreference>) -> (r: bool)
    ensures
        r == (spec_pref_modifier_total(ws@, ws@.len() as int) <= DMA_BUF_IMPORT_MAX_MODIFIERS
            && spec_pref_row_total(ws@, ws@.len() as int) <= DMA_BUF_IMPORT_MAX_FORMATS),
{
    let mut modifiers: usize = 0;
    let mut rows: usize = 0;
    let mut i: usize = 0;
    while i < ws.len()
        invariant
            i <= ws@.len(),
            modifiers == spec_pref_modifier_total(ws@, i as int),
            rows == spec_pref_row_total(ws@, i as int),
            modifiers <= DMA_BUF_IMPORT_MAX_MODIFIERS,
            rows <= DMA_BUF_IMPORT_MAX_FORMATS,
        decreases ws@.len() - i,
    {
        let n = ws[i].formats.len();
        if n > DMA_BUF_IMPORT_MAX_FORMATS - rows {
            proof {
                lemma_pref_totals_monotone(ws@, i + 1, ws@.len() as int);
            }
            return false;
        }
        match bounded_total_modifiers(&ws[i].formats, DMA_BUF_IMPORT_MAX_MODIFIERS - modifiers) {
            None => {
                proof {
                    lemma_pref_totals_monotone(ws@, i + 1, ws@.len() as int);
                }
                return false;
            },
            Some(m) => {
                modifiers = modifiers + m;
            },
        }
        rows = rows + n;
        i = i + 1;
    }
    true
}

#[verifier::loop_isolation(false)]
fn window_preference_valid(w: &XWindowAllocationPreference) -> (r: bool)
    ensures
        r == spec_window_pref_valid(*w),
{
    if !w.surface.is_valid() {
        return false;
    }
    match w.identity {
        Some(id) => {
            if dev_major(id.device_number) != w.device.major || dev_minor(id.device_number)
                != w.device.minor {
                return false;
            }
        },
        None => {},
    }
    let mut a: usize = 0;
    while a < w.formats.len()
        invariant
            a <= w.formats@.len(),
            forall|k: int| 0 <= k < a ==> spec_pref_row_valid(#[trigger] w.formats@[k]),
            forall|x: int, y: int| 0 <= x < y < a ==> w.formats@[x].format != w.formats@[y].format,
        decreases w.formats@.len() - a,
    {
        let row = &w.formats[a];
        if row.format != DRM_FORMAT_XRGB8888 && row.format != DRM_FORMAT_ARGB8888 {
            return false;
        }
        let mut b: usize = 0;
        while b < a
            invariant
                a < w.formats@.len(),
                b <= a,
                forall|x: int| 0 <= x < b ==> w.formats@[x].format != w.formats@[a as int].format,
            decreases a - b,
        {
            if w.formats[b].format == w.formats[a].format {
                proof {
                    assert(w.formats@[b as int].format == w.formats@[a as int].format);
                    assert(!spec_rows_distinct(w.formats@));
                }
                return false;
            }
            b = b + 1;
        }
        let mut k: usize = 0;
        while k < row.modifiers.len()
            invariant
                k <= row.modifiers@.len(),
                forall|j: int| 0 <= j < k ==> spec_valid_modifier(#[trigger] row.modifiers@[j]),
            decreases row.modifiers@.len() - k,
        {
            let m = row.modifiers[k];
            if m == DRM_FORMAT_MOD_INVALID || m == u64::MAX {
                return false;
            }
            k = k + 1;
        }
        a = a + 1;
    }
    true
}

/// A list's values as a sorted set.
fn canonical_modifiers(v: &Vec<u64>) -> (r: Vec<u64>)
    ensures
        spec_sorted_set(r@),
        forall|m: u64| r@.contains(m) <==> v@.contains(m),
{
    let mut set: XTable<u64, ()> = XTable::new();
    let mut i: usize = 0;
    while i < v.len()
        invariant
            i <= v@.len(),
            set.wf(),
            forall|m: u64| #[trigger] set.view().contains_key(m) <==> v@.take(i as int).contains(m),
        decreases v@.len() - i,
    {
        set.insert(v[i], ());
        proof {
            let t0 = v@.take(i as int);
            let t1 = v@.take(i + 1);
            assert forall|m: u64| #[trigger] set.view().contains_key(m) <==> t1.contains(m) by {
                if t1.contains(m) {
                    let a = choose|a: int| 0 <= a < t1.len() && t1[a] == m;
                    if a < i {
                        assert(t0[a] == m);
                    }
                }
                if t0.contains(m) {
                    let a = choose|a: int| 0 <= a < t0.len() && t0[a] == m;
                    assert(t1[a] == m);
                }
                if m == v@[i as int] {
                    assert(t1[i as int] == m);
                }
            }
        }
        i = i + 1;
    }
    let r = set.keys();
    proof {
        assert(v@.take(i as int) =~= v@);
        set.lemma_dom();
        assert forall|a: int, b: int| 0 <= a < b < r@.len() implies r@[a] < r@[b] by {
            assert(set.entries@[a].0.key_lt(set.entries@[b].0));
        }
        assert forall|m: u64| r@.contains(m) <==> v@.contains(m) by {
            assert(set.view().dom().contains(m) == set.keys_seq().to_set().contains(m));
        }
    }
    r
}

/// A canonical copy of a preference: the same surface, device and
/// identity, each row's modifiers as a sorted set.
pub open spec fn spec_canonical_pref(p: XWindowAllocationPreference, w: XWindowAllocationPreference) -> bool {
    &&& p.surface == w.surface
    &&& p.device == w.device
    &&& p.identity == w.identity
    &&& p.formats@.len() == w.formats@.len()
    &&& forall|k: int|
        0 <= k < w.formats@.len() ==> {
            &&& (#[trigger] p.formats@[k]).format == w.formats@[k].format
            &&& spec_sorted_set(p.formats@[k].modifiers@)
            &&& forall|m: u64| p.formats@[k].modifiers@.contains(m) <==> w.formats@[k].modifiers@.contains(m)
        }
}

fn canonical_preference(w: &XWindowAllocationPreference) -> (r: XWindowAllocationPreference)
    ensures
        spec_canonical_pref(r, *w),
{
    let mut formats: Vec<XDmaBufImportFormat> = Vec::new();
    let mut k: usize = 0;
    while k < w.formats.len()
        invariant
            k <= w.formats@.len(),
            formats@.len() == k,
            forall|j: int|
                0 <= j < k ==> {
                    &&& (#[trigger] formats@[j]).format == w.formats@[j].format
                    &&& spec_sorted_set(formats@[j].modifiers@)
                    &&& forall|m: u64| formats@[j].modifiers@.contains(m) <==> w.formats@[j].modifiers@.contains(m)
                },
        decreases w.formats@.len() - k,
    {
        let modifiers = canonical_modifiers(&w.formats[k].modifiers);
        formats.push(XDmaBufImportFormat { format: w.formats[k].format, modifiers });
        k = k + 1;
    }
    XWindowAllocationPreference {
        surface: w.surface,
        device: w.device,
        identity: w.identity,
        formats,
    }
}

impl XAuthorityRuntime {
    /// Replaces every window's allocation preferences with a newer snapshot
    /// for the current topology; hints stay. A snapshot that is not newer
    /// or names another topology is stale, one that breaks a bound or names
    /// a bad row or a surface twice is invalid, and neither changes anything.
    #[verifier::loop_isolation(false)]
    pub fn update_window_allocation_preferences(&mut self, snapshot: XWindowAllocationPreferences) -> (r:
        XWindowAllocationUpdate)
        requires
            old(self).wf(),
        ensures
            final(self).wf(),
            snapshot.generation <= old(self).window_allocation.generation
                || snapshot.topology_generation != old(self).topology_generation ==> r
                == XWindowAllocationUpdate::Stale && *final(self) == *old(self),
            !(snapshot.generation <= old(self).window_allocation.generation
                || snapshot.topology_generation != old(self).topology_generation) ==> {
                let ws = snapshot.windows@;
                let admissible = ws.len() <= WINDOW_ALLOCATION_MAX_ROWS && spec_pref_modifier_total(
                    ws,
                    ws.len() as int,
                ) <= DMA_BUF_IMPORT_MAX_MODIFIERS && spec_pref_row_total(ws, ws.len() as int)
                    <= DMA_BUF_IMPORT_MAX_FORMATS && (forall|i: int|
                    0 <= i < ws.len() ==> spec_window_pref_valid(#[trigger] ws[i]))
                    && spec_surfaces_distinct(ws);
                &&& !admissible ==> r == XWindowAllocationUpdate::Invalid && *final(self) == *old(self)
                &&& admissible ==> {
                    &&& r == XWindowAllocationUpdate::Applied
                    &&& final(self).window_allocation.generation == snapshot.generation
                    &&& final(self).window_allocation.topology_generation
                        == snapshot.topology_generation
                    &&& final(self).window_allocation.hints == old(self).window_allocation.hints
                    &&& forall|s: SurfaceId| #[trigger]
                        final(self).window_allocation.preferences.view().contains_key(s) <==> exists|
                            i: int,
                        | 0 <= i < ws.len() && ws[i].surface == s
                    &&& forall|i: int|
                        0 <= i < ws.len() ==> spec_canonical_pref(
                            final(self).window_allocation.preferences.view()[#[trigger] ws[i].surface],
                            ws[i],
                        )
                    &&& *final(self) == (XAuthorityRuntime {
                        window_allocation: final(self).window_allocation,
                        ..*old(self)
                    })
                }
            },
    {
        if snapshot.generation <= self.window_allocation.generation || snapshot.topology_generation
            != self.topology_generation {
            return XWindowAllocationUpdate::Stale;
        }
        let ghost ws = snapshot.windows@;
        if snapshot.windows.len() > WINDOW_ALLOCATION_MAX_ROWS || !preference_totals_within(
            &snapshot.windows,
        ) {
            return XWindowAllocationUpdate::Invalid;
        }
        let mut replacement: XTable<SurfaceId, XWindowAllocationPreference> = XTable::new();
        let mut i: usize = 0;
        while i < snapshot.windows.len()
            invariant
                ws == snapshot.windows@,
                i <= ws.len(),
                replacement.wf(),
                forall|j: int| 0 <= j < i ==> spec_window_pref_valid(#[trigger] ws[j]),
                forall|a: int, b: int| 0 <= a < b < i ==> ws[a].surface != ws[b].surface,
                forall|s: SurfaceId| #[trigger]
                    replacement.view().contains_key(s) <==> exists|j: int|
                        0 <= j < i && ws[j].surface == s,
                forall|j: int|
                    0 <= j < i ==> spec_canonical_pref(
                        replacement.view()[#[trigger] ws[j].surface],
                        ws[j],
                    ),
                forall|sf: SurfaceId| #[trigger]
                    replacement.view().contains_key(sf) ==> spec_pref_rows_sorted(replacement.view()[sf]),
            decreases ws.len() - i,
        {
            let w = &snapshot.windows[i];
            if !window_preference_valid(w) || replacement.contains_key(&w.surface) {
                proof {
                    if replacement.view().contains_key(ws[i as int].surface) {
                        let j = choose|j: int| 0 <= j < i && ws[j].surface == ws[i as int].surface;
                        assert(!spec_surfaces_distinct(ws));
                    }
                }
                return XWindowAllocationUpdate::Invalid;
            }
            let p = canonical_preference(w);
            let ghost before = replacement.view();
            replacement.insert(w.surface, p);
            proof {
                assert forall|s: SurfaceId| #[trigger]
                    replacement.view().contains_key(s) <==> exists|j: int|
                        0 <= j < i + 1 && ws[j].surface == s by {
                    if s == ws[i as int].surface {
                        assert(ws[i as int].surface == s);
                    }
                }
                assert forall|j: int|
                    0 <= j < i + 1 implies spec_canonical_pref(
                    replacement.view()[#[trigger] ws[j].surface],
                    ws[j],
                ) by {
                    if j < i {
                        assert(ws[j].surface != ws[i as int].surface);
                        assert(replacement.view()[ws[j].surface] == before[ws[j].surface]);
                    }
                }
                assert forall|sf: SurfaceId| #[trigger]
                    replacement.view().contains_key(sf) implies spec_pref_rows_sorted(replacement.view()[sf]) by {
                    if sf == w.surface {
                        assert(spec_canonical_pref(p, *w));
                    } else {
                        assert(before.contains_key(sf));
                    }
                }
            }
            i = i + 1;
        }
        self.window_allocation.generation = snapshot.generation;
        self.window_allocation.topology_generation = snapshot.topology_generation;
        self.window_allocation.preferences = replacement;
        XWindowAllocationUpdate::Applied
    }
}

} // verus!
