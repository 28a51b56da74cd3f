//! Freed pixmaps that GLX pixmaps still bind. Freeing the id moves the
//! backing under a private key above the ids a client can name, so a later
//! pixmap under the same id cannot stand in for it, and the GLX pixmaps are
//! rebound to that key; the backing goes when the last of them does.
use vstd::prelude::*;

use crate::ids::{NamespaceId, XResourceId};
use crate::resources::XAuthorityRuntimeError;
use crate::runtime::{
    XAuthorityRuntime, XGlxDrawableBacking, XGlxDrawableRecord, XRetainedPixmapBacking,
};

verus! {

/// Whether a GLX drawable is a GLX pixmap over `pixmap`.
pub open spec fn spec_bound_to(rec: XGlxDrawableRecord, pixmap: XResourceId) -> bool {
    match rec.backing {
        XGlxDrawableBacking::Pixmap { pixmap: p, .. } => p == pixmap,
        _ => false,
    }
}

/// How many of the first `n` GLX drawables are GLX pixmaps over `pixmap`.
pub open spec fn spec_glx_bound_count(s: Seq<(XResourceId, XGlxDrawableRecord)>, pixmap: XResourceId, n: int) -> nat
    decreases n,
{
    if n <= 0 {
        0
    } else {
        spec_glx_bound_count(s, pixmap, n - 1) + if spec_bound_to(s[n - 1].1, pixmap) {
            1nat
        } else {
            0nat
        }
    }
}

/// A GLX drawable with a binding to `from` moved to `to`.
pub open spec fn spec_rebound(rec: XGlxDrawableRecord, from: XResourceId, to: XResourceId) -> XGlxDrawableRecord {
    match rec.backing {
        XGlxDrawableBacking::Pixmap { pixmap, texture } => if pixmap == from {
            XGlxDrawableRecord { backing: XGlxDrawableBacking::Pixmap { pixmap: to, texture }, ..rec }
        } else {
            rec
        },
        _ => rec,
    }
}

/// Every GLX pixmap over `from` rebound to `to`.
pub open spec fn spec_rewired(
    m: Map<XResourceId, XGlxDrawableRecord>,
    from: XResourceId,
    to: XResourceId,
) -> Map<XResourceId, XGlxDrawableRecord> {
    Map::new(|k: XResourceId| m.contains_key(k), |k: XResourceId| spec_rebound(m[k], from, to))
}

/// The private key a retained backing is filed under.
pub open spec fn spec_backing_id(key: u64) -> XResourceId {
    XResourceId { local: key, generation: 1 }
}

impl XAuthorityRuntime {
    /// The key a backing takes when the search starts at `next`: the first
    /// not in use and not already retained, each key tried spent; none when
    /// the search reaches the last key.
    pub open spec fn spec_backing_key(&self, next: u64) -> Option<u64>
        decreases u64::MAX - next,
    {
        if next == u64::MAX {
            None
        } else if !self.spec_id_in_use(spec_backing_id(next))
            && !self.retained_pixmap_backings.view().contains_key(spec_backing_id(next)) {
            Some(next)
        } else {
            self.spec_backing_key((next + 1) as u64)
        }
    }

    /// The key the search settles on lies past where it started, below the
    /// last key, and is neither in use nor retained.
    pub proof fn lemma_backing_key_below_last(&self, next: u64)
        ensures
            self.spec_backing_key(next) matches Some(k) ==> next <= k < u64::MAX && !self.spec_id_in_use(
                spec_backing_id(k),
            ) && !self.retained_pixmap_backings.view().contains_key(spec_backing_id(k)),
        decreases u64::MAX - next,
    {
        if next < u64::MAX {
            self.lemma_backing_key_below_last((next + 1) as u64);
        }
    }

    fn glx_bound_count(&self, pixmap: XResourceId) -> (r: u64)
        ensures
            r == spec_glx_bound_count(self.glx_drawables.entries@, pixmap, self.glx_drawables.entries@.len() as int),
    {
        let mut n: u64 = 0;
        let mut i: usize = 0;
        while i < self.glx_drawables.entries.len()
            invariant
                i <= self.glx_drawables.entries@.len(),
                n == spec_glx_bound_count(self.glx_drawables.entries@, pixmap, i as int),
                n <= i,
            decreases self.glx_drawables.entries@.len() - i,
        {
            let bound = match self.glx_drawables.entries[i].1.backing {
                XGlxDrawableBacking::Pixmap { pixmap: p, .. } => p == pixmap,
                _ => false,
            };
            if bound {
                n = n + 1;
            }
            i = i + 1;
        }
        n
    }

    /// Rebinds every GLX pixmap over `from` to `to`.
    fn rewire_glx_pixmaps(&mut self, from: XResourceId, to: XResourceId)
        requires
            old(self).wf(),
        ensures
            final(self).wf(),
            final(self).glx_drawables.view() == spec_rewired(old(self).glx_drawables.view(), from, to),
            *final(self) == (XAuthorityRuntime { glx_drawables: final(self).glx_drawables, ..*old(self) }),
    {
        let ghost be = self.glx_drawables.entries@;
        let mut i: usize = 0;
        while i < self.glx_drawables.entries.len()
            invariant
                self.wf(),
                *self == (XAuthorityRuntime { glx_drawables: self.glx_drawables, ..*old(self) }),
                be == old(self).glx_drawables.entries@,
                self.glx_drawables.entries@.len() == be.len(),
                i <= be.len(),
                forall|idx: int| 0 <= idx < be.len() ==> #[trigger] self.glx_drawables.entries@[idx].0 == be[idx].0,
                forall|idx: int|
                    0 <= idx < be.len() ==> #[trigger] self.glx_drawables.entries@[idx].1 == if idx < i {
                        spec_rebound(be[idx].1, from, to)
                    } else {
                        be[idx].1
                    },
            decreases be.len() - i,
        {
            let rec = self.glx_drawables.entries[i].1;
            match rec.backing {
                XGlxDrawableBacking::Pixmap { pixmap, texture } => {
                    if pixmap == from {
                        self.glx_drawables.set_value_at(
                            i,
                            XGlxDrawableRecord { backing: XGlxDrawableBacking::Pixmap { pixmap: to, texture }, ..rec },
                        );
                    }
                },
                _ => {},
            }
            i = i + 1;
        }
        proof {
            let bt = old(self).glx_drawables;
            assert forall|k: XResourceId| #[trigger] self.glx_drawables.view().contains_key(k) implies bt.view().contains_key(
                k,
            ) by {
                let idx = self.glx_drawables.index_of(k);
                assert(self.glx_drawables.entries@[idx].0 == k);
                assert(bt.entries@[idx].0 == k);
                assert(bt.has_key(k));
            }
            assert forall|k: XResourceId| #[trigger] bt.view().contains_key(k) implies self.glx_drawables.view().contains_key(
                k,
            ) && self.glx_drawables.view()[k] == spec_rebound(bt.view()[k], from, to) by {
                let idx = bt.index_of(k);
                bt.lemma_index(idx);
                assert(self.glx_drawables.entries@[idx].0 == k);
                self.glx_drawables.lemma_index(idx);
            }
            assert(self.glx_drawables.view() =~= spec_rewired(bt.view(), from, to));
        }
    }

    /// Takes the next private key for a retained backing, spending every
    /// key it tries.
    fn allocate_backing_key(&mut self) -> (r: Option<u64>)
        requires
            old(self).wf(),
        ensures
            final(self).wf(),
            r == old(self).spec_backing_key(old(self).next_render_backing),
            r matches Some(k) ==> k < u64::MAX,
            *final(self) == (XAuthorityRuntime {
                next_render_backing: match r {
                    Some(k) => (k + 1) as u64,
                    None => u64::MAX,
                },
                ..*old(self)
            }),
    {
        proof {
            old(self).lemma_backing_key_below_last(old(self).next_render_backing);
        }
        loop
            invariant
                self.wf(),
                *self == (XAuthorityRuntime { next_render_backing: self.next_render_backing, ..*old(self) }),
                old(self).spec_backing_key(old(self).next_render_backing) == old(self).spec_backing_key(
                    self.next_render_backing,
                ),
            decreases u64::MAX - self.next_render_backing,
        {
            let next = self.next_render_backing;
            if next == u64::MAX {
                return None;
            }
            let key = XResourceId { local: next, generation: 1 };
            self.next_render_backing = next + 1;
            if !self.resource_id_in_use(key) && !self.retained_pixmap_backings.contains_key(&key) {
                return Some(next);
            }
        }
    }

    /// Keeps a freed pixmap's backing while GLX pixmaps still bind it,
    /// answering whether it kept it: the pixels move under a fresh private
    /// key, the GLX pixmaps are rebound to it, and the backing counts them.
    pub fn retain_freed_pixmap(&mut self, namespace: NamespaceId, pixmap: XResourceId) -> (r: Result<
        bool,
        XAuthorityRuntimeError,
    >)
        requires
            old(self).wf(),
        ensures
            final(self).wf(),
            ({
                let n = spec_glx_bound_count(
                    old(self).glx_drawables.entries@,
                    pixmap,
                    old(self).glx_drawables.entries@.len() as int,
                );
                if n == 0 {
                    r == Ok::<bool, XAuthorityRuntimeError>(false) && *final(self) == *old(self)
                } else if !old(self).pixmaps.view().contains_key(pixmap) {
                    r == Err::<bool, XAuthorityRuntimeError>(XAuthorityRuntimeError::UnknownResource) && *final(self)
                        == *old(self)
                } else {
                    match old(self).spec_backing_key(old(self).next_render_backing) {
                        None => r == Err::<bool, XAuthorityRuntimeError>(XAuthorityRuntimeError::InvalidResource)
                            && *final(self) == (XAuthorityRuntime { next_render_backing: u64::MAX, ..*old(self) }),
                        Some(k) => {
                            let key = spec_backing_id(k);
                            &&& r == Ok::<bool, XAuthorityRuntimeError>(true)
                            &&& final(self).next_render_backing == k + 1
                            &&& final(self).retained_pixmap_backings.view() == old(self).retained_pixmap_backings.view().insert(
                                key,
                                XRetainedPixmapBacking {
                                    namespace,
                                    pixmap: old(self).pixmaps.view()[pixmap],
                                    glx_pixmaps: n as u64,
                                },
                            )
                            &&& final(self).glx_drawables.view() == spec_rewired(
                                old(self).glx_drawables.view(),
                                pixmap,
                                key,
                            )
                            &&& old(self).software_buffers.spec_rekeyed(&final(self).software_buffers, pixmap, key)
                            &&& *final(self) == (XAuthorityRuntime {
                                next_render_backing: final(self).next_render_backing,
                                retained_pixmap_backings: final(self).retained_pixmap_backings,
                                glx_drawables: final(self).glx_drawables,
                                software_buffers: final(self).software_buffers,
                                ..*old(self)
                            })
                        },
                    }
                }
            }),
    {
        let n = self.glx_bound_count(pixmap);
        if n == 0 {
            return Ok(false);
        }
        let metadata = match self.pixmaps.get(&pixmap) {
            None => {
                return Err(XAuthorityRuntimeError::UnknownResource);
            },
            Some(p) => *p,
        };
        let k = match self.allocate_backing_key() {
            None => {
                return Err(XAuthorityRuntimeError::InvalidResource);
            },
            Some(k) => k,
        };
        let key = XResourceId { local: k, generation: 1 };
        self.software_buffers.rekey_pixmap(pixmap, key);
        self.rewire_glx_pixmaps(pixmap, key);
        self.retained_pixmap_backings.insert(
            key,
            XRetainedPixmapBacking { namespace, pixmap: metadata, glx_pixmaps: n },
        );
        Ok(true)
    }

    /// Drops one GLX pixmap's hold on a retained backing, and the backing
    /// with its pixels when that was the last.
    pub fn release_retained_referent(&mut self, backing: XResourceId)
        requires
            old(self).wf(),
        ensures
            final(self).wf(),
            !old(self).retained_pixmap_backings.view().contains_key(backing) ==> *final(self) == *old(self),
            old(self).retained_pixmap_backings.view().contains_key(backing) ==> {
                let held = old(self).retained_pixmap_backings.view()[backing];
                if held.glx_pixmaps <= 1 {
                    &&& final(self).retained_pixmap_backings.view() == old(self).retained_pixmap_backings.view().remove(backing)
                    &&& final(self).software_buffers.buffers.view() == old(self).software_buffers.buffers.view().remove(backing)
                    &&& final(self).software_buffers.presentations.view() == old(self).software_buffers.presentations.view().remove(backing)
                    &&& final(self).software_buffers.next_handle == old(self).software_buffers.next_handle
                    &&& final(self).software_buffers.export_damage == old(self).software_buffers.export_damage
                    &&& *final(self) == (XAuthorityRuntime {
                        retained_pixmap_backings: final(self).retained_pixmap_backings,
                        software_buffers: final(self).software_buffers,
                        ..*old(self)
                    })
                } else {
                    &&& final(self).retained_pixmap_backings.view() == old(self).retained_pixmap_backings.view().insert(
                        backing,
                        XRetainedPixmapBacking { glx_pixmaps: (held.glx_pixmaps - 1) as u64, ..held },
                    )
                    &&& *final(self) == (XAuthorityRuntime {
                        retained_pixmap_backings: final(self).retained_pixmap_backings,
                        ..*old(self)
                    })
                }
            },
    {
        let held = match self.retained_pixmap_backings.get(&backing) {
            None => {
                return;
            },
            Some(h) => *h,
        };
        if held.glx_pixmaps <= 1 {
            let _ = self.retained_pixmap_backings.remove(&backing);
            let _ = self.software_buffers.remove(backing);
        } else {
            self.retained_pixmap_backings.insert(
                backing,
                XRetainedPixmapBacking { glx_pixmaps: held.glx_pixmaps - 1, ..held },
            );
        }
    }
}

} // verus!
