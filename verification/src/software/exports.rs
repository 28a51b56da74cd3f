//! Damage tracking for drawables whose pixels are exported: what changed
//! since the receiver last took patches, kept within the patch batch bound
//! and never more bytes than the drawable holds.
use vstd::prelude::*;

use crate::geometry::{Rect, Size};
use crate::ids::XResourceId;
use crate::runtime::resources::{clipped_present_rect, spec_clipped_present_rect};
use crate::software::spec_clipped_bounds;
use crate::software::store::{
    XPixmapExportDamage, XSoftwareBufferStore, spec_export_list, spec_export_rect,
};
use crate::software::update::{
    X_AUTHORITY_CPU_PATCH_BATCH_MAX_RECTS, XAuthorityCpuBufferPatchRegion, coalesce_damage, spec_coalesced,
    spec_group_box, spec_groups, spec_packed_bytes, spec_sat, spec_sorted, spec_union_rect, lemma_groups_len,
    lemma_sorted_from, lemma_sorted_len, packed_patch_region,
};

verus! {

/// The whole of a drawable of `size`.
pub open spec fn spec_full_rect(size: Size) -> Rect {
    Rect { x: 0, y: 0, width: size.width, height: size.height }
}

/// Bytes the first `n` rectangles cover at four bytes a pixel, added
/// saturating at the largest `usize`.
pub open spec fn spec_export_bytes(rects: Seq<Rect>, n: int) -> int
    decreases n,
{
    if n <= 0 {
        0
    } else {
        let s = spec_export_bytes(rects, n - 1) + rects[n - 1].width * rects[n - 1].height * 4;
        if s > usize::MAX {
            usize::MAX as int
        } else {
            s
        }
    }
}

/// A damage list after noting a change to a drawable of `size`: the whole
/// drawable when it was replaced, else the part of `rect` inside it (no
/// change when there is none, or no such part). The list is merged down
/// to the batch bound when longer, and becomes the whole drawable when it
/// would cover more bytes than the drawable holds.
pub open spec fn spec_noted(rects: Seq<Rect>, size: Size, replaced: bool, rect: Option<Rect>) -> Seq<Rect> {
    let full = spec_full_rect(size);
    let added = if replaced {
        Some(full)
    } else {
        match rect {
            None => None,
            Some(q) => spec_clipped_present_rect(size, q),
        }
    };
    match added {
        None => rects,
        Some(r) => {
            let pushed = rects.push(r);
            let merged = if pushed.len() > X_AUTHORITY_CPU_PATCH_BATCH_MAX_RECTS {
                spec_coalesced(pushed, X_AUTHORITY_CPU_PATCH_BATCH_MAX_RECTS as int)
            } else {
                pushed
            };
            if spec_export_bytes(merged, merged.len() as int) > size.width * size.height * 4 {
                seq![full]
            } else {
                merged
            }
        },
    }
}

/// A damage list after noting each of the first `n` rectangles in turn.
pub open spec fn spec_restored(rects: Seq<Rect>, size: Size, noted: Seq<Rect>, n: int) -> Seq<Rect>
    decreases n,
{
    if n <= 0 {
        rects
    } else {
        spec_noted(spec_restored(rects, size, noted, n - 1), size, false, Some(noted[n - 1]))
    }
}

/// Export damage lists, each read as its rectangles.
pub open spec fn spec_export_views(m: Map<XResourceId, XPixmapExportDamage>) -> Map<XResourceId, Seq<Rect>> {
    m.map_values(|d: XPixmapExportDamage| d.rects@)
}

proof fn lemma_union_keeps_export(a: Rect, b: Rect)
    requires
        spec_export_rect(a),
        spec_export_rect(b),
    ensures
        spec_export_rect(spec_union_rect(a, b)),
{
}

proof fn lemma_group_box_export(s: Seq<Rect>, start: int, end: int)
    requires
        0 <= start < end <= s.len(),
        forall|k: int| 0 <= k < s.len() ==> spec_export_rect(#[trigger] s[k]),
    ensures
        spec_export_rect(spec_group_box(s, start, end)),
    decreases end - start,
{
    if end > start + 1 {
        lemma_group_box_export(s, start, end - 1);
        lemma_union_keeps_export(spec_group_box(s, start, end - 1), s[end - 1]);
    }
}

proof fn lemma_groups_export(s: Seq<Rect>, total: int, limit: int, g: int)
    requires
        0 < limit < total,
        total == s.len(),
        total <= 0x8000,
        0 <= g <= limit,
        forall|k: int| 0 <= k < s.len() ==> spec_export_rect(#[trigger] s[k]),
    ensures
        forall|k: int|
            0 <= k < spec_groups(s, total, limit, g).len() ==> spec_export_rect(
                #[trigger] spec_groups(s, total, limit, g)[k],
            ),
    decreases g,
{
    if g > 0 {
        lemma_groups_export(s, total, limit, g - 1);
        let prior = spec_groups(s, total, limit, g - 1);
        assert(0 <= (g - 1) * total <= 0x8000 * 0x8000) by (nonlinear_arith)
            requires
                0 < g <= limit,
                limit < total,
                total <= 0x8000,
        ;
        assert(0 <= g * total <= 0x8000 * 0x8000) by (nonlinear_arith)
            requires
                0 < g <= limit,
                limit < total,
                total <= 0x8000,
        ;
        assert(spec_sat(g) == g);
        assert(spec_sat(g * total) == g * total);
        assert(spec_sat((g - 1) * total) == (g - 1) * total);
        let start = ((g - 1) * total) / limit;
        let end = (g * total) / limit;
        assert(start >= 0) by (nonlinear_arith)
            requires
                start == ((g - 1) * total) / limit,
                g >= 1,
                total >= 0,
                limit > 0,
        ;
        assert(end <= total) by (nonlinear_arith)
            requires
                end == (g * total) / limit,
                g <= limit,
                limit > 0,
                total > 0,
        ;
        if start < end {
            lemma_group_box_export(s, start, end);
            let out = spec_groups(s, total, limit, g);
            assert(out == prior.push(spec_group_box(s, start, end)));
            assert forall|k: int| 0 <= k < out.len() implies spec_export_rect(#[trigger] out[k]) by {
                if k < prior.len() {
                    assert(out[k] == prior[k]);
                }
            }
        }
    }
}

/// Merging a damage list keeps its rectangles as export tracking keeps
/// them, and within the bound.
proof fn lemma_coalesced_export(rects: Seq<Rect>, limit: int)
    requires
        0 < limit,
        rects.len() <= 0x8000,
        forall|k: int| 0 <= k < rects.len() ==> spec_export_rect(#[trigger] rects[k]),
    ensures
        spec_coalesced(rects, limit).len() <= if rects.len() <= limit {
            rects.len() as int
        } else {
            limit
        },
        forall|k: int|
            0 <= k < spec_coalesced(rects, limit).len() ==> spec_export_rect(#[trigger] spec_coalesced(rects, limit)[k]),
{
    if rects.len() > limit {
        let total = rects.len() as int;
        let sorted = spec_sorted(rects, total);
        lemma_sorted_len(rects, total);
        assert forall|k: int| 0 <= k < sorted.len() implies spec_export_rect(#[trigger] sorted[k]) by {
            assert(sorted.contains(sorted[k]));
            lemma_sorted_from(rects, total, sorted[k]);
        }
        lemma_groups_export(sorted, total, limit, limit);
        lemma_groups_len(sorted, total, limit, limit);
    }
}

/// Noting a change keeps a damage list as export tracking keeps it.
proof fn lemma_noted_export(rects: Seq<Rect>, size: Size, replaced: bool, rect: Option<Rect>)
    requires
        spec_export_list(rects),
        size.width >= 0,
        size.height >= 0,
    ensures
        spec_export_list(spec_noted(rects, size, replaced, rect)),
{
    let full = spec_full_rect(size);
    let added = if replaced {
        Some(full)
    } else {
        match rect {
            None => None,
            Some(q) => spec_clipped_present_rect(size, q),
        }
    };
    match added {
        None => {},
        Some(r) => {
            assert(spec_export_rect(r));
            let pushed = rects.push(r);
            assert forall|k: int| 0 <= k < pushed.len() implies spec_export_rect(#[trigger] pushed[k]) by {
                if k < rects.len() {
                    assert(pushed[k] == rects[k]);
                }
            }
            if pushed.len() > X_AUTHORITY_CPU_PATCH_BATCH_MAX_RECTS {
                lemma_coalesced_export(pushed, X_AUTHORITY_CPU_PATCH_BATCH_MAX_RECTS as int);
            }
        },
    }
}

/// Sums the bytes a damage list covers, as `spec_export_bytes` says.
fn export_bytes(rects: &Vec<Rect>) -> (r: u128)
    requires
        forall|k: int| 0 <= k < rects@.len() ==> spec_export_rect(#[trigger] rects@[k]),
    ensures
        r == spec_export_bytes(rects@, rects@.len() as int),
{
    let mut sum: u128 = 0;
    let mut k: usize = 0;
    while k < rects.len()
        invariant
            k <= rects@.len(),
            sum == spec_export_bytes(rects@, k as int),
            sum <= usize::MAX,
            forall|j: int| 0 <= j < rects@.len() ==> spec_export_rect(#[trigger] rects@[j]),
        decreases rects@.len() - k,
    {
        let r = rects[k];
        assert(spec_export_rect(rects@[k as int]));
        proof {
            assert((r.width as int) * (r.height as int) <= 0x7fff_ffff * 0x7fff_ffff) by (nonlinear_arith)
                requires
                    0 <= r.width <= 0x7fff_ffff,
                    0 <= r.height <= 0x7fff_ffff,
            ;
            assert(0 <= (r.width as int) * (r.height as int)) by (nonlinear_arith)
                requires
                    0 <= r.width,
                    0 <= r.height,
            ;
        }
        let area: u128 = (r.width as u128) * (r.height as u128) * 4;
        let s = sum + area;
        sum = if s > usize::MAX as u128 {
            usize::MAX as u128
        } else {
            s
        };
        k = k + 1;
    }
    sum
}

impl XSoftwareBufferStore {
    /// Starts tracking what changes in an exported drawable, the whole of
    /// it pending when it has pixels; a drawable already watched keeps its
    /// damage.
    pub fn begin_export_tracking(&mut self, drawable: XResourceId)
        requires
            old(self).wf(),
        ensures
            final(self).wf(),
            final(self).buffers == old(self).buffers,
            final(self).presentations == old(self).presentations,
            final(self).next_handle == old(self).next_handle,
            spec_export_views(final(self).export_damage.view()) == if old(self).export_damage.view().contains_key(
                drawable,
            ) {
                spec_export_views(old(self).export_damage.view())
            } else {
                spec_export_views(old(self).export_damage.view()).insert(
                    drawable,
                    if old(self).buffers.view().contains_key(drawable) {
                        seq![spec_full_rect(old(self).buffers.view()[drawable].size)]
                    } else {
                        Seq::<Rect>::empty()
                    },
                )
            },
    {
        if self.export_damage.contains_key(&drawable) {
            return;
        }
        let mut rects: Vec<Rect> = Vec::new();
        match self.buffers.get(&drawable) {
            Some(buffer) => {
                rects.push(Rect { x: 0, y: 0, width: buffer.size.width, height: buffer.size.height });
            },
            None => {},
        }
        let ghost added = rects@;
        let ghost pre = self.export_damage.view();
        self.export_damage.insert(drawable, XPixmapExportDamage { rects });
        proof {
            assert(spec_export_views(self.export_damage.view()) =~= spec_export_views(pre).insert(drawable, added));
            if self.buffers.view().contains_key(drawable) {
                assert(added =~= seq![spec_full_rect(self.buffers.view()[drawable].size)]);
            }
        }
    }

    /// Stops tracking an exported drawable.
    pub fn end_export_tracking(&mut self, drawable: XResourceId)
        requires
            old(self).wf(),
        ensures
            final(self).wf(),
            final(self).buffers == old(self).buffers,
            final(self).presentations == old(self).presentations,
            final(self).next_handle == old(self).next_handle,
            final(self).export_damage.view() == old(self).export_damage.view().remove(drawable),
    {
        let _ = self.export_damage.remove(&drawable);
    }

    /// The generation of a drawable's pixels; zero when it has none.
    pub fn export_generation(&self, drawable: XResourceId) -> (r: u64)
        requires
            self.wf(),
        ensures
            r == if self.buffers.view().contains_key(drawable) {
                self.buffers.view()[drawable].generation
            } else {
                0
            },
    {
        match self.buffers.get(&drawable) {
            Some(buffer) => buffer.generation,
            None => 0,
        }
    }

    /// Whether an exported drawable has changed since its last patches.
    pub fn export_has_damage(&self, drawable: XResourceId) -> (r: bool)
        requires
            self.wf(),
        ensures
            r == (self.export_damage.view().contains_key(drawable)
                && self.export_damage.view()[drawable].rects@.len() > 0),
    {
        match self.export_damage.get(&drawable) {
            Some(damage) => damage.rects.len() > 0,
            None => false,
        }
    }

    /// The generation of an exported drawable's pixels and a patch of each
    /// damaged rectangle, which then counts as delivered; none, and no
    /// change, when the drawable is not watched, has no pixels, or a
    /// damaged rectangle lies outside its pixels.
    pub fn take_export_patches(&mut self, drawable: XResourceId) -> (r: Option<(u64, Vec<XAuthorityCpuBufferPatchRegion>)>)
        requires
            old(self).wf(),
        ensures
            final(self).wf(),
            final(self).buffers == old(self).buffers,
            final(self).presentations == old(self).presentations,
            final(self).next_handle == old(self).next_handle,
            ({
                let watched = old(self).export_damage.view().contains_key(drawable);
                let held = old(self).buffers.view().contains_key(drawable);
                let rects = old(self).export_damage.view()[drawable].rects@;
                let b = old(self).buffers.view()[drawable]@;
                if !watched || !held || exists|k: int|
                    0 <= k < rects.len() && spec_clipped_bounds(b.size, #[trigger] rects[k]) is None {
                    r is None && final(self).export_damage == old(self).export_damage
                } else {
                    &&& r is Some
                    &&& r->Some_0.0 == b.generation
                    &&& r->Some_0.1@.len() == rects.len()
                    &&& forall|k: int|
                        0 <= k < rects.len() ==> {
                            let (l, t, rt, bt) = spec_clipped_bounds(b.size, rects[k])->Some_0;
                            &&& (#[trigger] r->Some_0.1@[k]).rect == (Rect {
                                x: l as i32,
                                y: t as i32,
                                width: (rt - l) as i32,
                                height: (bt - t) as i32,
                            })
                            &&& r->Some_0.1@[k].bytes@ == spec_packed_bytes(b, l, t, rt, bt)
                        }
                    &&& spec_export_views(final(self).export_damage.view()) == spec_export_views(
                        old(self).export_damage.view(),
                    ).insert(drawable, Seq::<Rect>::empty())
                }
            }),
    {
        let i = match self.export_damage.find(&drawable) {
            None => {
                return None;
            },
            Some(i) => i,
        };
        proof {
            self.export_damage.lemma_index(i as int);
        }
        let buffer = match self.buffers.get(&drawable) {
            None => {
                return None;
            },
            Some(b) => b,
        };
        let ghost rects = self.export_damage.view()[drawable].rects@;
        let mut patches: Vec<XAuthorityCpuBufferPatchRegion> = Vec::new();
        let mut k: usize = 0;
        while k < self.export_damage.entries[i].1.rects.len()
            invariant
                self.wf(),
                i < self.export_damage.entries@.len(),
                self.export_damage.entries@[i as int].0 == drawable,
                self.export_damage.entries@[i as int].1.rects@ == rects,
                buffer.wf(),
                self.buffers.view().contains_key(drawable),
                *buffer == self.buffers.view()[drawable],
                k <= rects.len(),
                patches@.len() == k,
                forall|j: int| 0 <= j < k ==> spec_clipped_bounds(buffer.size, #[trigger] rects[j]) is Some,
                forall|j: int|
                    0 <= j < k ==> {
                        let (l, t, rt, bt) = spec_clipped_bounds(buffer.size, rects[j])->Some_0;
                        &&& (#[trigger] patches@[j]).rect == (Rect {
                            x: l as i32,
                            y: t as i32,
                            width: (rt - l) as i32,
                            height: (bt - t) as i32,
                        })
                        &&& patches@[j].bytes@ == spec_packed_bytes(buffer@, l, t, rt, bt)
                    },
            decreases rects.len() - k,
        {
            let rect = self.export_damage.entries[i].1.rects[k];
            match packed_patch_region(buffer, rect) {
                None => {
                    return None;
                },
                Some(p) => {
                    patches.push(p);
                },
            }
            k = k + 1;
        }
        let generation = buffer.generation;
        let ghost pre = self.export_damage.view();
        self.export_damage.set_value_at(i, XPixmapExportDamage { rects: Vec::new() });
        proof {
            assert(spec_export_views(self.export_damage.view()) =~= spec_export_views(pre).insert(
                drawable,
                Seq::<Rect>::empty(),
            ));
        }
        Some((generation, patches))
    }

    /// Notes each rectangle as damage again, as a failed delivery does.
    pub fn restore_export_damage(&mut self, drawable: XResourceId, rects: &[Rect])
        requires
            old(self).wf(),
        ensures
            final(self).wf(),
            final(self).buffers == old(self).buffers,
            final(self).presentations == old(self).presentations,
            final(self).next_handle == old(self).next_handle,
            !old(self).export_damage.view().contains_key(drawable) || !old(self).buffers.view().contains_key(
                drawable,
            ) ==> final(self).export_damage == old(self).export_damage,
            old(self).export_damage.view().contains_key(drawable) && old(self).buffers.view().contains_key(drawable)
                ==> spec_export_views(final(self).export_damage.view()) == spec_export_views(
                old(self).export_damage.view(),
            ).insert(
                drawable,
                spec_restored(
                    old(self).export_damage.view()[drawable].rects@,
                    old(self).buffers.view()[drawable].size,
                    rects@,
                    rects@.len() as int,
                ),
            ),
    {
        let ghost pre = self.export_damage.view();
        let ghost watched = pre.contains_key(drawable) && self.buffers.view().contains_key(drawable);
        let mut k: usize = 0;
        while k < rects.len()
            invariant
                self.wf(),
                k <= rects@.len(),
                self.buffers == old(self).buffers,
                self.presentations == old(self).presentations,
                self.next_handle == old(self).next_handle,
                pre == old(self).export_damage.view(),
                watched == (pre.contains_key(drawable) && self.buffers.view().contains_key(drawable)),
                !watched ==> self.export_damage == old(self).export_damage,
                watched ==> spec_export_views(self.export_damage.view()) == spec_export_views(pre).insert(
                    drawable,
                    spec_restored(pre[drawable].rects@, self.buffers.view()[drawable].size, rects@, k as int),
                ),
            decreases rects@.len() - k,
        {
            let ghost before = spec_export_views(self.export_damage.view());
            let ghost kk = k as int;
            let ghost prior = spec_restored(pre[drawable].rects@, self.buffers.view()[drawable].size, rects@, kk);
            proof {
                if watched {
                    assert(before.contains_key(drawable));
                    assert(before.dom() == self.export_damage.view().dom());
                    assert(self.export_damage.view().contains_key(drawable));
                    assert(before[drawable] == prior);
                    assert(self.export_damage.view()[drawable].rects@ == prior);
                }
            }
            self.note_export_damage(drawable, false, Some(rects[k]));
            k = k + 1;
            proof {
                if watched {
                    assert(spec_restored(pre[drawable].rects@, self.buffers.view()[drawable].size, rects@, kk + 1)
                        == spec_noted(prior, self.buffers.view()[drawable].size, false, Some(rects@[kk])));
                    assert(spec_export_views(self.export_damage.view()) =~= spec_export_views(pre).insert(
                        drawable,
                        spec_restored(pre[drawable].rects@, self.buffers.view()[drawable].size, rects@, k as int),
                    ));
                }
            }
        }
    }

    /// Notes a change to an exported drawable: the whole of it when it was
    /// replaced, else the part of `rect` inside it. Nothing changes when
    /// the drawable is not watched or has no pixels.
    pub fn note_export_damage(&mut self, drawable: XResourceId, replaced: bool, rect: Option<Rect>)
        requires
            old(self).wf(),
        ensures
            final(self).wf(),
            final(self).buffers == old(self).buffers,
            final(self).presentations == old(self).presentations,
            final(self).next_handle == old(self).next_handle,
            !old(self).export_damage.view().contains_key(drawable) || !old(self).buffers.view().contains_key(
                drawable,
            ) ==> final(self).export_damage == old(self).export_damage,
            old(self).export_damage.view().contains_key(drawable) && old(self).buffers.view().contains_key(drawable)
                ==> spec_export_views(final(self).export_damage.view()) == spec_export_views(
                old(self).export_damage.view(),
            ).insert(
                drawable,
                spec_noted(
                    old(self).export_damage.view()[drawable].rects@,
                    old(self).buffers.view()[drawable].size,
                    replaced,
                    rect,
                ),
            ),
    {
        let i = match self.export_damage.find(&drawable) {
            None => {
                return;
            },
            Some(i) => i,
        };
        proof {
            self.export_damage.lemma_index(i as int);
        }
        let size = match self.buffers.get(&drawable) {
            None => {
                return;
            },
            Some(b) => b.size,
        };
        let ghost pre = self.export_damage.view();
        let ghost old_rects = pre[drawable].rects@;
        let full = Rect { x: 0, y: 0, width: size.width, height: size.height };
        let added = if replaced {
            full
        } else {
            match rect {
                None => {
                    return;
                },
                Some(q) => match clipped_present_rect(size, q) {
                    None => {
                        return;
                    },
                    Some(c) => c,
                },
            }
        };
        let (_, damage) = self.export_damage.remove_at(i);
        let mut list = damage.rects;
        proof {
            lemma_noted_export(old_rects, size, replaced, rect);
            assert(spec_export_list(old_rects));
        }
        list.push(added);
        let ghost pushed = list@;
        proof {
            assert(spec_export_rect(added));
            assert forall|k: int| 0 <= k < pushed.len() implies spec_export_rect(#[trigger] pushed[k]) by {
                if k < old_rects.len() {
                    assert(pushed[k] == old_rects[k]);
                }
            }
        }
        if list.len() > X_AUTHORITY_CPU_PATCH_BATCH_MAX_RECTS {
            proof {
                lemma_coalesced_export(pushed, X_AUTHORITY_CPU_PATCH_BATCH_MAX_RECTS as int);
            }
            list = coalesce_damage(list, X_AUTHORITY_CPU_PATCH_BATCH_MAX_RECTS);
        }
        let bytes = export_bytes(&list);
        proof {
            assert(0 <= size.width * size.height) by (nonlinear_arith)
                requires
                    size.width >= 0,
                    size.height >= 0,
            ;
            assert(size.width * size.height <= 0x7fff_ffff * 0x7fff_ffff) by (nonlinear_arith)
                requires
                    0 <= size.width <= 0x7fff_ffff,
                    0 <= size.height <= 0x7fff_ffff,
            ;
        }
        let held: u128 = (size.width as u128) * (size.height as u128) * 4;
        if bytes > held {
            list = Vec::new();
            list.push(full);
            proof {
                assert(list@ =~= seq![full]);
            }
        }
        self.export_damage.insert(drawable, XPixmapExportDamage { rects: list });
        proof {
            assert(spec_export_views(self.export_damage.view()) =~= spec_export_views(pre).insert(
                drawable,
                spec_noted(old_rects, size, replaced, rect),
            ));
        }
    }
}

} // verus!
