use vstd::prelude::*;

use crate::ids::{NamespaceId, XResourceId};
use crate::render::{XRenderPictFormatKind, spec_format_of};
use crate::resources::{XAuthorityRuntimeError, XResourceKind, XResourceRecord, spec_insert_error};
use crate::runtime::{XAuthorityRuntime, XRenderGlyphStore};
use crate::table::XTable;
use crate::geometry::{sat_add_i32, sat_sub_i32, saturating_add_i32, saturating_sub_i32};
use crate::render::XRenderGlyphElement;
use crate::request::XRenderGlyphElementView;

verus! {

/// Why a glyph request was refused.
#[derive(Clone, Copy, Debug, PartialEq, Eq, Structural)]
pub enum XRenderGlyphError {
    UnknownGlyphSet,
    UnknownGlyph,
    IdInUse,
    /// A format that names no format, or one a glyph set may not take.
    UnsupportedFormat,
    /// The glyph table and the image bytes disagree.
    MalformedGlyphData,
}

/// The scanline stride RENDER pads glyph rows to: A1 rows to 32 bits, A8
/// rows to 4 bytes, ARGB32 four bytes a pixel; RGB24 carries no coverage.
pub open spec fn spec_glyph_stride(format: XRenderPictFormatKind, width: u16) -> Option<usize> {
    match format {
        XRenderPictFormatKind::A1 => Some((((width + 31) / 32) * 4) as usize),
        XRenderPictFormatKind::A8 => Some((((width + 3) as usize) & !3usize) as usize),
        XRenderPictFormatKind::Argb32 => Some((width * 4) as usize),
        XRenderPictFormatKind::Rgb24 => None,
    }
}

pub fn render_glyph_stride(format: XRenderPictFormatKind, width: u16) -> (r: Option<usize>)
    ensures
        r == spec_glyph_stride(format, width),
{
    let w = width as usize;
    match format {
        XRenderPictFormatKind::A1 => Some(((w + 31) / 32) * 4),
        XRenderPictFormatKind::A8 => Some((w + 3) & !3usize),
        XRenderPictFormatKind::Argb32 => Some(w * 4),
        XRenderPictFormatKind::Rgb24 => None,
    }
}

/// The glyph set names that share a store.
pub open spec fn spec_glyph_names(m: Map<XResourceId, u64>, store: u64) -> Set<XResourceId> {
    m.dom().filter(|g: XResourceId| m[g] == store)
}

impl XAuthorityRuntime {
    /// The glyph bookkeeping is consistent: every name is a live resource
    /// naming a live store, each store counts exactly the names sharing it,
    /// and every store id is below the next one to be issued.
    pub open spec fn spec_glyph_refs_ok(&self) -> bool {
        let names = self.render_glyphsets.view();
        let stores = self.render_glyph_stores.view();
        &&& forall|g: XResourceId| #[trigger]
            names.contains_key(g) ==> stores.contains_key(names[g]) && self.resources.view().contains_key(g)
        &&& forall|s: u64| #[trigger]
            stores.contains_key(s) ==> stores[s].references == spec_glyph_names(names, s).len() && s
                < self.next_glyph_store
    }

    /// The store a glyph set of this namespace names.
    pub open spec fn spec_glyph_store_id(&self, namespace: NamespaceId, glyphset: XResourceId) -> Result<
        u64,
        XRenderGlyphError,
    > {
        if self.spec_access(namespace, glyphset, XResourceKind::GlyphSet) is Some {
            Err(XRenderGlyphError::UnknownGlyphSet)
        } else if self.render_glyphsets.view().contains_key(glyphset) {
            Ok(self.render_glyphsets.view()[glyphset])
        } else {
            Err(XRenderGlyphError::UnknownGlyphSet)
        }
    }

    pub fn render_glyph_store_id(&self, namespace: NamespaceId, glyphset: XResourceId) -> (r: Result<
        u64,
        XRenderGlyphError,
    >)
        requires
            self.wf(),
        ensures
            r == self.spec_glyph_store_id(namespace, glyphset),
    {
        if self.access(namespace, glyphset, XResourceKind::GlyphSet).is_err() {
            return Err(XRenderGlyphError::UnknownGlyphSet);
        }
        match self.render_glyphsets.get(&glyphset) {
            Some(s) => Ok(*s),
            None => Err(XRenderGlyphError::UnknownGlyphSet),
        }
    }

    /// Creates a glyph set with a store of its own, in a mask (A1, A8) or
    /// color (ARGB32) format.
    pub fn render_create_glyph_set(
        &mut self,
        namespace: NamespaceId,
        glyphset: XResourceId,
        format_id: u32,
        generation: u64,
    ) -> (r: Result<(), XRenderGlyphError>)
        requires
            old(self).wf(),
        ensures
            final(self).wf(),
            r is Err ==> *final(self) == *old(self),
            old(self).spec_id_in_use(glyphset) ==> r == Err::<(), XRenderGlyphError>(
                XRenderGlyphError::IdInUse,
            ),
            !old(self).spec_id_in_use(glyphset) ==> match spec_format_of(format_id) {
                None => r == Err::<(), XRenderGlyphError>(XRenderGlyphError::UnsupportedFormat),
                Some(format) => if format == XRenderPictFormatKind::Rgb24 {
                    r == Err::<(), XRenderGlyphError>(XRenderGlyphError::UnsupportedFormat)
                } else if spec_insert_error(old(self).resources.view(), glyphset, namespace) is Some {
                    r == Err::<(), XRenderGlyphError>(XRenderGlyphError::IdInUse)
                } else {
                    let store = old(self).next_glyph_store;
                    &&& r is Ok
                    &&& final(self).resources.view() == old(self).resources.view().insert(
                        glyphset,
                        XResourceRecord {
                            id: glyphset,
                            kind: XResourceKind::GlyphSet,
                            owner_namespace: namespace,
                            generation,
                        },
                    )
                    &&& final(self).render_glyphsets.view() == old(self).render_glyphsets.view().insert(
                        glyphset,
                        store,
                    )
                    &&& final(self).render_glyph_stores.view().dom() == old(self).render_glyph_stores.view().dom().insert(store)
                    &&& final(self).render_glyph_stores.view().remove(store) == old(self).render_glyph_stores.view().remove(store)
                    &&& final(self).render_glyph_stores.view()[store].references == 1
                    &&& final(self).render_glyph_stores.view()[store].format == format
                    &&& final(self).render_glyph_stores.view()[store].glyphs.view().len() == 0
                    &&& final(self).next_glyph_store == if store == u64::MAX {
                        u64::MAX
                    } else {
                        (store + 1) as u64
                    }
                    &&& *final(self) == (XAuthorityRuntime {
                        resources: final(self).resources,
                        render_glyphsets: final(self).render_glyphsets,
                        render_glyph_stores: final(self).render_glyph_stores,
                        next_glyph_store: final(self).next_glyph_store,
                        ..*old(self)
                    })
                },
            },
            old(self).spec_glyph_refs_ok() && old(self).next_glyph_store < u64::MAX ==> final(self).spec_glyph_refs_ok(),
    {
        if self.resource_id_in_use(glyphset) {
            return Err(XRenderGlyphError::IdInUse);
        }
        let format = match XRenderPictFormatKind::from_format_id(format_id) {
            None => {
                return Err(XRenderGlyphError::UnsupportedFormat);
            },
            Some(f) => f,
        };
        if format == XRenderPictFormatKind::Rgb24 {
            return Err(XRenderGlyphError::UnsupportedFormat);
        }
        if self.resources.check_insert(glyphset, namespace).is_some() {
            return Err(XRenderGlyphError::IdInUse);
        }
        let ghost pre = *self;
        let _ = self.resources.insert(glyphset, XResourceKind::GlyphSet, namespace, generation);
        let store = self.next_glyph_store;
        self.next_glyph_store = if store == u64::MAX {
            u64::MAX
        } else {
            store + 1
        };
        let glyphs: XTable<u32, crate::runtime::XRenderGlyph> = XTable::new();
        self.render_glyph_stores.insert(store, XRenderGlyphStore { references: 1, format, glyphs });
        self.render_glyphsets.insert(glyphset, store);
        proof {
            let stores = self.render_glyph_stores.view();
            assert(stores.dom() =~= pre.render_glyph_stores.view().dom().insert(store));
            assert(stores.remove(store) =~= pre.render_glyph_stores.view().remove(store));
            assert forall|s: u64| #[trigger] stores.contains_key(s) implies stores[s].glyphs.wf() by {
                if s != store {
                    assert(pre.render_glyph_stores.view().contains_key(s));
                }
            }
            if pre.spec_glyph_refs_ok() && pre.next_glyph_store < u64::MAX {
                lemma_names_insert_fresh(pre.render_glyphsets, glyphset, store, pre.render_glyph_stores.view());
            }
        }
        Ok(())
    }

    /// Whether an id is taken, as `resource_id_in_use` answers.
    pub open spec fn spec_id_in_use(&self, id: XResourceId) -> bool {
        crate::runtime::spec_setup_owned(id) || self.resources.view().contains_key(id)
            || self.graphics_contexts.view().contains_key(id) || self.glx_contexts.view().contains_key(
            id,
        ) || self.glx_drawables.view().contains_key(id)
    }

    /// Gives an existing glyph set a second name sharing its store.
    pub fn render_reference_glyph_set(
        &mut self,
        namespace: NamespaceId,
        glyphset: XResourceId,
        existing: XResourceId,
        generation: u64,
    ) -> (r: Result<(), XRenderGlyphError>)
        requires
            old(self).wf(),
        ensures
            final(self).wf(),
            r is Err ==> *final(self) == *old(self),
            old(self).spec_id_in_use(glyphset) ==> r == Err::<(), XRenderGlyphError>(
                XRenderGlyphError::IdInUse,
            ),
            !old(self).spec_id_in_use(glyphset) ==> match old(self).spec_glyph_store_id(namespace, existing) {
                Err(e) => r == Err::<(), XRenderGlyphError>(e),
                Ok(store) => if spec_insert_error(old(self).resources.view(), glyphset, namespace) is Some {
                    r == Err::<(), XRenderGlyphError>(XRenderGlyphError::IdInUse)
                } else {
                    &&& r is Ok
                    &&& final(self).resources.view() == old(self).resources.view().insert(
                        glyphset,
                        XResourceRecord {
                            id: glyphset,
                            kind: XResourceKind::GlyphSet,
                            owner_namespace: namespace,
                            generation,
                        },
                    )
                    &&& final(self).render_glyphsets.view() == old(self).render_glyphsets.view().insert(
                        glyphset,
                        store,
                    )
                    &&& final(self).render_glyph_stores.view().dom() == old(self).render_glyph_stores.view().dom()
                    &&& final(self).render_glyph_stores.view().remove(store) == old(self).render_glyph_stores.view().remove(store)
                    &&& old(self).render_glyph_stores.view().contains_key(store) ==> {
                        let before = old(self).render_glyph_stores.view()[store];
                        let after = final(self).render_glyph_stores.view()[store];
                        &&& after.references == if before.references == u32::MAX {
                            u32::MAX
                        } else {
                            (before.references + 1) as u32
                        }
                        &&& after.format == before.format
                        &&& after.glyphs == before.glyphs
                    }
                    &&& *final(self) == (XAuthorityRuntime {
                        resources: final(self).resources,
                        render_glyphsets: final(self).render_glyphsets,
                        render_glyph_stores: final(self).render_glyph_stores,
                        ..*old(self)
                    })
                },
            },
            old(self).spec_glyph_refs_ok() && (forall|s: u64| #[trigger]
                old(self).render_glyph_stores.view().contains_key(s) ==> old(self).render_glyph_stores.view()[s].references < u32::MAX) ==> final(self).spec_glyph_refs_ok(),
    {
        if self.resource_id_in_use(glyphset) {
            return Err(XRenderGlyphError::IdInUse);
        }
        let store = match self.render_glyph_store_id(namespace, existing) {
            Err(e) => {
                return Err(e);
            },
            Ok(s) => s,
        };
        if self.resources.check_insert(glyphset, namespace).is_some() {
            return Err(XRenderGlyphError::IdInUse);
        }
        let ghost pre = *self;
        let _ = self.resources.insert(glyphset, XResourceKind::GlyphSet, namespace, generation);
        match self.render_glyph_stores.remove(&store) {
            Some(entry) => {
                let references = if entry.references == u32::MAX {
                    u32::MAX
                } else {
                    entry.references + 1
                };
                self.render_glyph_stores.insert(
                    store,
                    XRenderGlyphStore { references, format: entry.format, glyphs: entry.glyphs },
                );
            },
            None => {},
        }
        self.render_glyphsets.insert(glyphset, store);
        proof {
            let stores = self.render_glyph_stores.view();
            let pstores = pre.render_glyph_stores.view();
            assert(stores.dom() =~= pstores.dom());
            assert(stores.remove(store) =~= pstores.remove(store));
            assert forall|s: u64| #[trigger] stores.contains_key(s) implies stores[s].glyphs.wf() by {
                assert(pstores.contains_key(s));
                if s != store {
                    assert(stores[s] == pstores[s]);
                }
            }
            if pre.spec_glyph_refs_ok() && (forall|s: u64| #[trigger]
                pstores.contains_key(s) ==> pstores[s].references < u32::MAX) {
                lemma_names_insert_shared(pre.render_glyphsets, glyphset, store, pstores, stores);
            }
        }
        Ok(())
    }

    /// Frees one name of a glyph set; the store goes with its last name.
    pub fn render_free_glyph_set(&mut self, namespace: NamespaceId, glyphset: XResourceId) -> (r: Result<
        (),
        XRenderGlyphError,
    >)
        requires
            old(self).wf(),
        ensures
            final(self).wf(),
            match old(self).spec_glyph_store_id(namespace, glyphset) {
                Err(e) => r == Err::<(), XRenderGlyphError>(e) && *final(self) == *old(self),
                Ok(store) => {
                    &&& r is Ok
                    &&& final(self).resources.view() == old(self).resources.view().remove(glyphset)
                    &&& final(self).render_glyphsets.view() == old(self).render_glyphsets.view().remove(
                        glyphset,
                    )
                    &&& final(self).render_glyph_stores.view().remove(store) == old(self).render_glyph_stores.view().remove(store)
                    &&& old(self).render_glyph_stores.view().contains_key(store) ==> {
                        let before = old(self).render_glyph_stores.view()[store];
                        if before.references <= 1 {
                            !final(self).render_glyph_stores.view().contains_key(store)
                        } else {
                            &&& final(self).render_glyph_stores.view().contains_key(store)
                            &&& final(self).render_glyph_stores.view()[store].references == (
                            before.references - 1) as u32
                            &&& final(self).render_glyph_stores.view()[store].glyphs == before.glyphs
                        }
                    }
                    &&& !old(self).render_glyph_stores.view().contains_key(store) ==> final(self).render_glyph_stores.view() == old(self).render_glyph_stores.view()
                    &&& *final(self) == (XAuthorityRuntime {
                        resources: final(self).resources,
                        render_glyphsets: final(self).render_glyphsets,
                        render_glyph_stores: final(self).render_glyph_stores,
                        ..*old(self)
                    })
                },
            },
            old(self).spec_glyph_refs_ok() ==> final(self).spec_glyph_refs_ok(),
    {
        let store = match self.render_glyph_store_id(namespace, glyphset) {
            Err(e) => {
                return Err(e);
            },
            Ok(s) => s,
        };
        let ghost pre = *self;
        self.resources.remove(glyphset);
        self.render_glyphsets.remove(&glyphset);
        match self.render_glyph_stores.remove(&store) {
            Some(entry) => {
                let references = if entry.references == 0 {
                    0
                } else {
                    entry.references - 1
                };
                if references != 0 {
                    self.render_glyph_stores.insert(
                        store,
                        XRenderGlyphStore { references, format: entry.format, glyphs: entry.glyphs },
                    );
                }
            },
            None => {},
        }
        proof {
            let stores = self.render_glyph_stores.view();
            let pstores = pre.render_glyph_stores.view();
            assert(stores.remove(store) =~= pstores.remove(store));
            if !pstores.contains_key(store) {
                assert(stores =~= pstores);
            }
            assert forall|s: u64| #[trigger] stores.contains_key(s) implies stores[s].glyphs.wf() by {
                assert(pstores.contains_key(s));
                if s != store {
                    assert(stores[s] == pstores[s]);
                }
            }
            if pre.spec_glyph_refs_ok() {
                lemma_names_remove(pre.render_glyphsets, glyphset, store, pstores, stores);
                let names2 = self.render_glyphsets.view();
                assert forall|g: XResourceId| #[trigger] names2.contains_key(g) implies stores.contains_key(
                    names2[g],
                ) && self.resources.view().contains_key(g) by {
                    assert(pre.render_glyphsets.view().contains_key(g));
                    if names2[g] == store {
                        self.render_glyphsets.lemma_len();
                        lemma_names_finite(names2, store);
                        assert(spec_glyph_names(names2, store).contains(g));
                        vstd::set::axiom_set_contains_len(spec_glyph_names(names2, store), g);
                    } else {
                        assert(pstores.contains_key(names2[g]));
                    }
                }
                assert forall|s: u64| #[trigger] stores.contains_key(s) implies stores[s].references
                    == spec_glyph_names(names2, s).len() && s < self.next_glyph_store by {
                    assert(pstores.contains_key(s));
                    if s != store {
                        assert(stores[s] == pstores[s]);
                    }
                }
            }
        }
        Ok(())
    }

    /// Removes glyphs from the store a glyph set names; absent ids are
    /// ignored.
    pub fn render_free_glyphs(&mut self, namespace: NamespaceId, glyphset: XResourceId, ids: &[u32]) -> (r:
        Result<(), XRenderGlyphError>)
        requires
            old(self).wf(),
        ensures
            final(self).wf(),
            match old(self).spec_glyph_store_id(namespace, glyphset) {
                Err(e) => r == Err::<(), XRenderGlyphError>(e) && *final(self) == *old(self),
                Ok(store) => if !old(self).render_glyph_stores.view().contains_key(store) {
                    r == Err::<(), XRenderGlyphError>(XRenderGlyphError::UnknownGlyphSet) && *final(self) == *old(self)
                } else {
                    let before = old(self).render_glyph_stores.view()[store];
                    let after = final(self).render_glyph_stores.view()[store];
                    &&& r is Ok
                    &&& final(self).render_glyph_stores.view().dom() == old(self).render_glyph_stores.view().dom()
                    &&& final(self).render_glyph_stores.view().remove(store) == old(self).render_glyph_stores.view().remove(store)
                    &&& after.references == before.references
                    &&& after.format == before.format
                    &&& forall|g: u32| #[trigger]
                        after.glyphs.view().contains_key(g) <==> (before.glyphs.view().contains_key(g)
                            && !ids@.contains(g))
                    &&& forall|g: u32| #[trigger]
                        after.glyphs.view().contains_key(g) ==> after.glyphs.view()[g]
                            == before.glyphs.view()[g]
                    &&& *final(self) == (XAuthorityRuntime {
                        render_glyph_stores: final(self).render_glyph_stores,
                        ..*old(self)
                    })
                },
            },
    {
        let store = match self.render_glyph_store_id(namespace, glyphset) {
            Err(e) => {
                return Err(e);
            },
            Ok(s) => s,
        };
        if !self.render_glyph_stores.contains_key(&store) {
            return Err(XRenderGlyphError::UnknownGlyphSet);
        }
        let ghost pre = self.render_glyph_stores.view();
        let entry = match self.render_glyph_stores.remove(&store) {
            Some(e) => e,
            None => {
                return Err(XRenderGlyphError::UnknownGlyphSet);
            },
        };
        let mut glyphs = entry.glyphs;
        let mut v: Vec<u32> = Vec::new();
        let mut i: usize = 0;
        while i < ids.len()
            invariant
                i <= ids@.len(),
                v@ == ids@.take(i as int),
            decreases ids@.len() - i,
        {
            v.push(ids[i]);
            i = i + 1;
            proof {
                assert(v@ =~= ids@.take(i as int));
            }
        }
        proof {
            assert(ids@.take(i as int) =~= ids@);
        }
        glyphs.remove_keys(&v);
        self.render_glyph_stores.insert(
            store,
            XRenderGlyphStore { references: entry.references, format: entry.format, glyphs },
        );
        proof {
            let stores = self.render_glyph_stores.view();
            assert(stores.dom() =~= pre.dom());
            assert(stores.remove(store) =~= pre.remove(store));
            assert forall|s: u64| #[trigger] stores.contains_key(s) implies stores[s].glyphs.wf() by {
                if s != store {
                    assert(stores[s] == pre[s]);
                }
            }
        }
        Ok(())
    }
}

/// One glyph pixel as premultiplied `[b, g, r, a]`, read from a glyph image
/// of `stride`-byte rows: A8 coverage, A1 bits least significant first,
/// ARGB32 bytes as they are.
pub open spec fn spec_glyph_pixel(
    format: XRenderPictFormatKind,
    stride: int,
    image: Seq<u8>,
    x: int,
    y: int,
) -> Seq<u8> {
    match format {
        XRenderPictFormatKind::A8 => seq![0u8, 0u8, 0u8, spec_byte_or_zero(image, y * stride + x)],
        XRenderPictFormatKind::A1 => seq![
            0u8,
            0u8,
            0u8,
            if spec_byte_or_zero(image, y * stride + x / 8) & (1u8 << ((x % 8) as u8)) != 0 {
                0xffu8
            } else {
                0u8
            },
        ],
        XRenderPictFormatKind::Argb32 => if 0 <= y * stride + 4 * x && y * stride + 4 * x + 4 <= image.len() {
            image.subrange(y * stride + 4 * x, y * stride + 4 * x + 4)
        } else {
            seq![0u8, 0u8, 0u8, 0u8]
        },
        XRenderPictFormatKind::Rgb24 => seq![0u8, 0u8, 0u8, 0u8],
    }
}

/// The byte at `i`, or zero past the end of the image.
pub open spec fn spec_byte_or_zero(image: Seq<u8>, i: int) -> u8 {
    if 0 <= i < image.len() {
        image[i]
    } else {
        0
    }
}

/// A glyph holds `info` and the pixels of `image`, row by row.
pub open spec fn spec_glyph_unpacked(
    g: crate::runtime::XRenderGlyph,
    format: XRenderPictFormatKind,
    info: crate::render::XRenderGlyphInfo,
    image: Seq<u8>,
) -> bool {
    let w = info.width as int;
    let stride = spec_glyph_stride(format, info.width).unwrap() as int;
    &&& g.info == info
    &&& g.pixels@.len() == w * info.height
    &&& forall|i: int|
        0 <= i < g.pixels@.len() ==> (#[trigger] g.pixels@[i])@ == spec_glyph_pixel(
            format,
            stride,
            image,
            i % w,
            i / w,
        )
}

/// Expands one glyph's padded rows into tight premultiplied pixels; a byte
/// past the end of the image reads as zero.
pub fn render_unpack_glyph(
    format: XRenderPictFormatKind,
    info: crate::render::XRenderGlyphInfo,
    stride: usize,
    image: &[u8],
) -> (r: Vec<[u8; 4]>)
    ensures
        r@.len() == info.width * info.height,
        forall|i: int|
            0 <= i < r@.len() ==> (#[trigger] r@[i])@ == spec_glyph_pixel(
                format,
                stride as int,
                image@,
                i % (info.width as int),
                i / (info.width as int),
            ),
{
    let width = info.width as usize;
    let height = info.height as usize;
    let ghost w = width as int;
    let image_len = image.len() as u128;
    let mut pixels: Vec<[u8; 4]> = Vec::new();
    let mut y: usize = 0;
    while y < height
        invariant
            width == info.width,
            height == info.height,
            w == width,
            image_len == image@.len(),
            y <= height,
            pixels@.len() == y * w,
            forall|i: int|
                0 <= i < pixels@.len() ==> (#[trigger] pixels@[i])@ == spec_glyph_pixel(
                    format,
                    stride as int,
                    image@,
                    i % w,
                    i / w,
                ),
        decreases height - y,
    {
        proof {
            assert((y as int) * (stride as int) <= 0x10000 * 0x1_0000_0000_0000_0000) by (nonlinear_arith)
                requires
                    y < 0x10000,
                    stride < 0x1_0000_0000_0000_0000,
            ;
            assert(0 <= (y as int) * (stride as int)) by (nonlinear_arith)
                requires
                    y >= 0,
                    stride >= 0,
            ;
        }
        let row: u128 = (y as u128) * (stride as u128);
        let mut x: usize = 0;
        while x < width
            invariant
                width == info.width,
                height == info.height,
                w == width,
                image_len == image@.len(),
                y < height,
                row == y * stride,
                row <= 0x10000 * 0x1_0000_0000_0000_0000,
                x <= width,
                pixels@.len() == y * w + x,
                forall|i: int|
                    0 <= i < pixels@.len() ==> (#[trigger] pixels@[i])@ == spec_glyph_pixel(
                        format,
                        stride as int,
                        image@,
                        i % w,
                        i / w,
                    ),
            decreases width - x,
        {
            let ghost idx = y * w + x;
            proof {
                vstd::arithmetic::div_mod::lemma_fundamental_div_mod_converse(idx, w, y as int, x as int);
            }
            let pixel: [u8; 4] = match format {
                XRenderPictFormatKind::A8 => {
                    let o = row + x as u128;
                    let coverage = if o < image_len {
                        image[o as usize]
                    } else {
                        0u8
                    };
                    let p = [0u8, 0u8, 0u8, coverage];
                    proof {
                        assert(p@ =~= seq![0u8, 0u8, 0u8, spec_byte_or_zero(image@, y * stride + x)]);
                    }
                    p
                },
                XRenderPictFormatKind::A1 => {
                    let o = row + (x / 8) as u128;
                    let byte = if o < image_len {
                        image[o as usize]
                    } else {
                        0u8
                    };
                    let set = byte & (1u8 << ((x % 8) as u8)) != 0;
                    let p = [0u8, 0u8, 0u8, if set {
                        0xffu8
                    } else {
                        0u8
                    }];
                    proof {
                        assert(p@ =~= seq![
                            0u8,
                            0u8,
                            0u8,
                            if spec_byte_or_zero(image@, y * stride + x / 8) & (1u8 << ((x % 8) as u8)) != 0 {
                                0xffu8
                            } else {
                                0u8
                            },
                        ]);
                    }
                    p
                },
                XRenderPictFormatKind::Argb32 => {
                    let o = row + (x as u128) * 4;
                    let p = if o + 4 <= image_len {
                        let q = [image[o as usize], image[o as usize + 1], image[o as usize + 2], image[o as usize + 3]];
                        proof {
                            assert(q@ =~= image@.subrange(o as int, o + 4));
                        }
                        q
                    } else {
                        let q = [0u8, 0u8, 0u8, 0u8];
                        proof {
                            assert(q@ =~= seq![0u8, 0u8, 0u8, 0u8]);
                        }
                        q
                    };
                    p
                },
                XRenderPictFormatKind::Rgb24 => {
                    let p = [0u8, 0u8, 0u8, 0u8];
                    proof {
                        assert(p@ =~= seq![0u8, 0u8, 0u8, 0u8]);
                    }
                    p
                },
            };
            pixels.push(pixel);
            x = x + 1;
        }
        proof {
            assert((y + 1) * w == y * w + w) by (nonlinear_arith);
        }
        y = y + 1;
    }
    proof {
        assert(height * w == info.width * info.height) by (nonlinear_arith)
            requires
                height == info.height,
                w == info.width,
        ;
    }
    pixels
}

/// The byte offset after the first `n` glyph images, each `stride * height`
/// bytes, or the error the first one that does not fit gives.
pub open spec fn spec_glyph_walk(
    format: XRenderPictFormatKind,
    glyphs: Seq<crate::render::XRenderGlyphInfo>,
    data_len: int,
    n: int,
) -> Result<int, XRenderGlyphError>
    decreases n,
{
    if n <= 0 {
        Ok(0)
    } else {
        match spec_glyph_walk(format, glyphs, data_len, n - 1) {
            Err(e) => Err(e),
            Ok(off) => match spec_glyph_stride(format, glyphs[n - 1].width) {
                None => Err(XRenderGlyphError::UnsupportedFormat),
                Some(stride) => {
                    let len = stride * glyphs[n - 1].height;
                    if len > usize::MAX || off + len > data_len {
                        Err(XRenderGlyphError::MalformedGlyphData)
                    } else {
                        Ok(off + len)
                    }
                },
            },
        }
    }
}

/// The image bytes of glyph `i`.
pub open spec fn spec_glyph_image(
    format: XRenderPictFormatKind,
    glyphs: Seq<crate::render::XRenderGlyphInfo>,
    data: Seq<u8>,
    i: int,
) -> Seq<u8> {
    let off = spec_glyph_walk(format, glyphs, data.len() as int, i)->Ok_0;
    let len = spec_glyph_stride(format, glyphs[i].width).unwrap() * glyphs[i].height;
    data.subrange(off, off + len)
}

/// The last of the first `n` positions naming `k`.
pub open spec fn spec_last_index(ids: Seq<u32>, k: u32, n: int) -> Option<int>
    decreases n,
{
    if n <= 0 {
        None
    } else if ids[n - 1] == k {
        Some(n - 1)
    } else {
        spec_last_index(ids, k, n - 1)
    }
}

proof fn lemma_walk_err_stable(
    format: XRenderPictFormatKind,
    glyphs: Seq<crate::render::XRenderGlyphInfo>,
    data_len: int,
    k: int,
    n: int,
)
    requires
        0 <= k <= n,
        spec_glyph_walk(format, glyphs, data_len, k) is Err,
    ensures
        spec_glyph_walk(format, glyphs, data_len, n) == spec_glyph_walk(format, glyphs, data_len, k),
    decreases n - k,
{
    if k < n {
        lemma_walk_err_stable(format, glyphs, data_len, k, n - 1);
    }
}

proof fn lemma_walk_prefix(
    format: XRenderPictFormatKind,
    glyphs: Seq<crate::render::XRenderGlyphInfo>,
    data_len: int,
    i: int,
    n: int,
)
    requires
        0 <= i < n,
        spec_glyph_walk(format, glyphs, data_len, n) is Ok,
    ensures
        spec_glyph_walk(format, glyphs, data_len, i) is Ok,
        spec_glyph_walk(format, glyphs, data_len, i + 1) is Ok,
        spec_glyph_stride(format, glyphs[i].width) is Some,
    decreases n - i,
{
    if i + 1 < n {
        lemma_walk_prefix(format, glyphs, data_len, i, n - 1);
    }
}

impl XAuthorityRuntime {
    /// Adds glyphs to the store a glyph set names, every image unpacked
    /// from its padded rows; a request whose bytes do not match its table
    /// leaves the set untouched.
    #[verifier::rlimit(40)]
    #[verifier::loop_isolation(false)]
    pub fn render_add_glyphs(
        &mut self,
        namespace: NamespaceId,
        glyphset: XResourceId,
        ids: &[u32],
        glyphs: &[crate::render::XRenderGlyphInfo],
        data: &[u8],
    ) -> (r: Result<(), XRenderGlyphError>)
        requires
            old(self).wf(),
        ensures
            final(self).wf(),
            r is Err ==> *final(self) == *old(self),
            match old(self).spec_glyph_store_id(namespace, glyphset) {
                Err(e) => r == Err::<(), XRenderGlyphError>(e),
                Ok(store) => if !old(self).render_glyph_stores.view().contains_key(store) {
                    r == Err::<(), XRenderGlyphError>(XRenderGlyphError::UnknownGlyphSet)
                } else if ids@.len() != glyphs@.len() {
                    r == Err::<(), XRenderGlyphError>(XRenderGlyphError::MalformedGlyphData)
                } else {
                    let before = old(self).render_glyph_stores.view()[store];
                    let after = final(self).render_glyph_stores.view()[store];
                    let format = before.format;
                    match spec_glyph_walk(format, glyphs@, data@.len() as int, glyphs@.len() as int) {
                        Err(e) => r == Err::<(), XRenderGlyphError>(e),
                        Ok(_) => {
                            &&& r is Ok
                            &&& final(self).render_glyph_stores.view().dom() == old(self).render_glyph_stores.view().dom()
                            &&& final(self).render_glyph_stores.view().remove(store) == old(self).render_glyph_stores.view().remove(store)
                            &&& after.references == before.references
                            &&& after.format == before.format
                            &&& forall|k: u32| #[trigger]
                                after.glyphs.view().contains_key(k) <==> (before.glyphs.view().contains_key(k)
                                    || ids@.contains(k))
                            &&& forall|k: u32| #[trigger]
                                after.glyphs.view().contains_key(k) ==> match spec_last_index(
                                    ids@,
                                    k,
                                    ids@.len() as int,
                                ) {
                                    Some(i) => spec_glyph_unpacked(
                                        after.glyphs.view()[k],
                                        format,
                                        glyphs@[i],
                                        spec_glyph_image(format, glyphs@, data@, i),
                                    ),
                                    None => after.glyphs.view()[k] == before.glyphs.view()[k],
                                }
                            &&& *final(self) == (XAuthorityRuntime {
                                render_glyph_stores: final(self).render_glyph_stores,
                                ..*old(self)
                            })
                        },
                    }
                },
            },
    {
        let store = match self.render_glyph_store_id(namespace, glyphset) {
            Err(e) => {
                return Err(e);
            },
            Ok(s) => s,
        };
        let format = match self.render_glyph_stores.get(&store) {
            None => {
                return Err(XRenderGlyphError::UnknownGlyphSet);
            },
            Some(entry) => entry.format,
        };
        if ids.len() != glyphs.len() {
            return Err(XRenderGlyphError::MalformedGlyphData);
        }
        let data_len = data.len();
        let mut offset: usize = 0;
        let mut i: usize = 0;
        while i < glyphs.len()
            invariant
                i <= glyphs@.len(),
                data_len == data@.len(),
                spec_glyph_walk(format, glyphs@, data@.len() as int, i as int) == Ok::<
                    int,
                    XRenderGlyphError,
                >(offset as int),
                offset <= data_len,
            decreases glyphs@.len() - i,
        {
            let stride = match render_glyph_stride(format, glyphs[i].width) {
                None => {
                    proof {
                        lemma_walk_err_stable(format, glyphs@, data@.len() as int, i + 1, glyphs@.len() as int);
                    }
                    return Err(XRenderGlyphError::UnsupportedFormat);
                },
                Some(st) => st,
            };
            let len = match stride.checked_mul(glyphs[i].height as usize) {
                None => {
                    proof {
                        lemma_walk_err_stable(format, glyphs@, data@.len() as int, i + 1, glyphs@.len() as int);
                    }
                    return Err(XRenderGlyphError::MalformedGlyphData);
                },
                Some(n) => n,
            };
            if len > data_len - offset {
                proof {
                    lemma_walk_err_stable(format, glyphs@, data@.len() as int, i + 1, glyphs@.len() as int);
                }
                return Err(XRenderGlyphError::MalformedGlyphData);
            }
            offset = offset + len;
            i = i + 1;
        }
        let ghost pre = self.render_glyph_stores.view();
        let entry = match self.render_glyph_stores.remove(&store) {
            None => {
                return Err(XRenderGlyphError::UnknownGlyphSet);
            },
            Some(e) => e,
        };
        let ghost g0 = entry.glyphs.view();
        let mut table = entry.glyphs;
        let ghost n = glyphs@.len() as int;
        let mut off: usize = 0;
        let mut j: usize = 0;
        while j < glyphs.len()
            invariant
                j <= glyphs@.len(),
                n == glyphs@.len(),
                ids@.len() == n,
                table.wf(),
                spec_glyph_walk(format, glyphs@, data@.len() as int, n) is Ok,
                spec_glyph_walk(format, glyphs@, data@.len() as int, j as int) == Ok::<
                    int,
                    XRenderGlyphError,
                >(off as int),
                off <= data@.len(),
                forall|k: u32| #[trigger]
                    table.view().contains_key(k) <==> (g0.contains_key(k) || ids@.take(j as int).contains(k)),
                forall|k: u32| #[trigger]
                    table.view().contains_key(k) ==> match spec_last_index(ids@, k, j as int) {
                        Some(i) => spec_glyph_unpacked(
                            table.view()[k],
                            format,
                            glyphs@[i],
                            spec_glyph_image(format, glyphs@, data@, i),
                        ),
                        None => table.view()[k] == g0[k],
                    },
            decreases glyphs@.len() - j,
        {
            proof {
                lemma_walk_prefix(format, glyphs@, data@.len() as int, j as int, n);
            }
            let info = glyphs[j];
            let stride = match render_glyph_stride(format, info.width) {
                None => {
                    return Err(XRenderGlyphError::UnsupportedFormat);
                },
                Some(st) => st,
            };
            let len = stride * (info.height as usize);
            let image = vstd::slice::slice_subrange(data, off, off + len);
            let pixels = render_unpack_glyph(format, info, stride, image);
            let id = ids[j];
            let ghost tv = table.view();
            table.insert(id, crate::runtime::XRenderGlyph { info, pixels });
            proof {
                let t0 = ids@.take(j as int);
                let t1 = ids@.take(j + 1);
                assert(t1 =~= t0.push(id));
                assert forall|k: u32| #[trigger] t1.contains(k) <==> (t0.contains(k) || k == id) by {
                    if t1.contains(k) {
                        let a = choose|a: int| 0 <= a < t1.len() && t1[a] == k;
                        if a < j {
                            assert(t0[a] == k);
                        }
                    }
                    if t0.contains(k) {
                        let a = choose|a: int| 0 <= a < t0.len() && t0[a] == k;
                        assert(t1[a] == k);
                    }
                    if k == id {
                        assert(t1[j as int] == k);
                    }
                }
                assert(image@ == spec_glyph_image(format, glyphs@, data@, j as int));
                assert forall|k: u32| #[trigger] table.view().contains_key(k) implies match spec_last_index(
                    ids@,
                    k,
                    j + 1,
                ) {
                    Some(i) => spec_glyph_unpacked(
                        table.view()[k],
                        format,
                        glyphs@[i],
                        spec_glyph_image(format, glyphs@, data@, i),
                    ),
                    None => table.view()[k] == g0[k],
                } by {
                    if k != id {
                        assert(tv.contains_key(k));
                    }
                }
            }
            off = off + len;
            j = j + 1;
        }
        proof {
            assert(ids@.take(n) =~= ids@);
        }
        self.render_glyph_stores.insert(
            store,
            XRenderGlyphStore { references: entry.references, format: entry.format, glyphs: table },
        );
        proof {
            let stores = self.render_glyph_stores.view();
            assert(stores.dom() =~= pre.dom().insert(store));
            assert(pre.dom().insert(store) =~= pre.dom());
            assert(stores.remove(store) =~= pre.remove(store));
            assert forall|s: u64| #[trigger] stores.contains_key(s) implies stores[s].glyphs.wf() by {
                if s != store {
                    assert(stores[s] == pre[s]);
                }
            }
        }
        Ok(())
    }
}

proof fn lemma_names_finite(m: Map<XResourceId, u64>, store: u64)
    requires
        m.dom().finite(),
    ensures
        spec_glyph_names(m, store).finite(),
{
    m.dom().lemma_len_filter(|g: XResourceId| m[g] == store);
}

/// A fresh name for a fresh store: that store counts one name, the others
/// keep theirs.
proof fn lemma_names_insert_fresh(
    names: XTable<XResourceId, u64>,
    g: XResourceId,
    store: u64,
    stores: Map<u64, XRenderGlyphStore>,
)
    requires
        names.wf(),
        !names.view().contains_key(g),
        !stores.contains_key(store),
        forall|h: XResourceId| #[trigger] names.view().contains_key(h) ==> stores.contains_key(names.view()[h]),
    ensures
        spec_glyph_names(names.view().insert(g, store), store).len() == 1,
        forall|s: u64|
            s != store ==> #[trigger] spec_glyph_names(names.view().insert(g, store), s) == spec_glyph_names(
                names.view(),
                s,
            ),
{
    let m = names.view();
    let m2 = m.insert(g, store);
    assert(spec_glyph_names(m2, store) =~= set![g]);
    assert forall|s: u64| s != store implies #[trigger] spec_glyph_names(m2, s) == spec_glyph_names(m, s) by {
        assert(spec_glyph_names(m2, s) =~= spec_glyph_names(m, s));
    }
}

/// A fresh name for a shared store: that store counts one name more.
proof fn lemma_names_insert_shared(
    names: XTable<XResourceId, u64>,
    g: XResourceId,
    store: u64,
    pstores: Map<u64, XRenderGlyphStore>,
    stores: Map<u64, XRenderGlyphStore>,
)
    requires
        names.wf(),
        !names.view().contains_key(g),
        pstores.contains_key(store),
        pstores[store].references < u32::MAX,
        pstores[store].references == spec_glyph_names(names.view(), store).len(),
        stores.dom() == pstores.dom(),
        stores.remove(store) == pstores.remove(store),
        stores[store].references == pstores[store].references + 1,
    ensures
        stores[store].references == spec_glyph_names(names.view().insert(g, store), store).len(),
        forall|s: u64|
            s != store ==> #[trigger] spec_glyph_names(names.view().insert(g, store), s) == spec_glyph_names(
                names.view(),
                s,
            ),
{
    let m = names.view();
    let m2 = m.insert(g, store);
    names.lemma_len();
    lemma_names_finite(m, store);
    assert(spec_glyph_names(m2, store) =~= spec_glyph_names(m, store).insert(g));
    assert forall|s: u64| s != store implies #[trigger] spec_glyph_names(m2, s) == spec_glyph_names(m, s) by {
        assert(spec_glyph_names(m2, s) =~= spec_glyph_names(m, s));
    }
}

/// Dropping a name: its store counts one name less.
proof fn lemma_names_remove(
    names: XTable<XResourceId, u64>,
    g: XResourceId,
    store: u64,
    pstores: Map<u64, XRenderGlyphStore>,
    stores: Map<u64, XRenderGlyphStore>,
)
    requires
        names.wf(),
        names.view().contains_key(g),
        names.view()[g] == store,
        pstores.contains_key(store),
        pstores[store].references == spec_glyph_names(names.view(), store).len(),
        stores.remove(store) == pstores.remove(store),
        pstores[store].references <= 1 ==> !stores.contains_key(store),
        pstores[store].references > 1 ==> stores.contains_key(store) && stores[store].references
            == pstores[store].references - 1,
    ensures
        stores.contains_key(store) ==> stores[store].references == spec_glyph_names(
            names.view().remove(g),
            store,
        ).len(),
        spec_glyph_names(names.view().remove(g), store).len() == 0 ==> !stores.contains_key(store),
        spec_glyph_names(names.view().remove(g), store).len() > 0 ==> stores.contains_key(store),
        forall|s: u64|
            s != store ==> #[trigger] spec_glyph_names(names.view().remove(g), s) == spec_glyph_names(
                names.view(),
                s,
            ),
{
    let m = names.view();
    let m2 = m.remove(g);
    names.lemma_len();
    lemma_names_finite(m, store);
    assert(spec_glyph_names(m, store).contains(g));
    assert(spec_glyph_names(m2, store) =~= spec_glyph_names(m, store).remove(g));
    assert forall|s: u64| s != store implies #[trigger] spec_glyph_names(m2, s) == spec_glyph_names(m, s) by {
        assert(spec_glyph_names(m2, s) =~= spec_glyph_names(m, s));
    }
}


/// Where one glyph of a composite run lands: its bitmap's top-left corner,
/// and the glyph by its store and id.
#[derive(Clone, Copy, Debug, PartialEq, Eq, Structural)]
pub struct XRenderGlyphPlacement {
    pub x: i32,
    pub y: i32,
    pub store: u64,
    pub glyph: u32,
}

/// The first `m` glyphs of one run placed from `pen` in `store`: each
/// bitmap's corner is the pen less the glyph's origin, and the pen then
/// moves by the glyph's advance, all saturating; the first glyph the store
/// lacks refuses the run.
pub open spec fn spec_place_run(
    stores: Map<u64, XRenderGlyphStore>,
    store: u64,
    pen: (i32, i32),
    glyphs: Seq<u32>,
    m: int,
) -> Result<((i32, i32), Seq<XRenderGlyphPlacement>), XRenderGlyphError>
    decreases m,
{
    if m <= 0 {
        Ok((pen, Seq::empty()))
    } else {
        match spec_place_run(stores, store, pen, glyphs, m - 1) {
            Err(e) => Err(e),
            Ok((p, placed)) => if !stores[store].glyphs.view().contains_key(glyphs[m - 1]) {
                Err(XRenderGlyphError::UnknownGlyph)
            } else {
                let info = stores[store].glyphs.view()[glyphs[m - 1]].info;
                Ok(
                    (
                        (sat_add_i32(p.0 as int, info.off_x as int) as i32, sat_add_i32(p.1 as int, info.off_y as int) as i32),
                        placed.push(
                            XRenderGlyphPlacement {
                                x: sat_sub_i32(p.0 as int, info.x as int) as i32,
                                y: sat_sub_i32(p.1 as int, info.y as int) as i32,
                                store,
                                glyph: glyphs[m - 1],
                            },
                        ),
                    ),
                )
            },
        }
    }
}

impl XAuthorityRuntime {
    /// The first `n` runs placed from `store` and `pen`: a run switching
    /// sets resolves the new one first, then moves the pen by its offset;
    /// a store that is gone refuses it as an unknown set.
    pub open spec fn spec_place_elements(
        &self,
        namespace: NamespaceId,
        store: u64,
        pen: (i32, i32),
        elements: Seq<XRenderGlyphElementView>,
        n: int,
    ) -> Result<(u64, (i32, i32), Seq<XRenderGlyphPlacement>), XRenderGlyphError>
        decreases n,
    {
        if n <= 0 {
            Ok((store, pen, Seq::empty()))
        } else {
            match self.spec_place_elements(namespace, store, pen, elements, n - 1) {
                Err(e) => Err(e),
                Ok((s, p, placed)) => {
                    let e = elements[n - 1];
                    let switched = match e.glyphset {
                        Some(g) => self.spec_glyph_store_id(namespace, g),
                        None => Ok(s),
                    };
                    match switched {
                        Err(err) => Err(err),
                        Ok(s2) => {
                            let p2 = (
                                sat_add_i32(p.0 as int, e.delta_x as int) as i32,
                                sat_add_i32(p.1 as int, e.delta_y as int) as i32,
                            );
                            if !self.render_glyph_stores.view().contains_key(s2) {
                                Err(XRenderGlyphError::UnknownGlyphSet)
                            } else {
                                match spec_place_run(self.render_glyph_stores.view(), s2, p2, e.glyphs, e.glyphs.len() as int) {
                                    Err(err) => Err(err),
                                    Ok((p3, run)) => Ok((s2, p3, placed + run)),
                                }
                            }
                        },
                    }
                },
            }
        }
    }

    /// Resolves every glyph of a composite run before anything is drawn,
    /// so a run naming a glyph or set that is not there is refused whole:
    /// where each glyph lands, from a pen that starts at the origin.
    pub fn render_glyph_placements(
        &self,
        namespace: NamespaceId,
        glyphset: XResourceId,
        elements: &[XRenderGlyphElement],
    ) -> (r: Result<Vec<XRenderGlyphPlacement>, XRenderGlyphError>)
        requires
            self.wf(),
        ensures
            match self.spec_glyph_store_id(namespace, glyphset) {
                Err(e) => r == Err::<Vec<XRenderGlyphPlacement>, XRenderGlyphError>(e),
                Ok(s) => match self.spec_place_elements(
                    namespace,
                    s,
                    (0i32, 0i32),
                    elements@.map_values(|e: XRenderGlyphElement| e@),
                    elements@.len() as int,
                ) {
                    Err(e) => r == Err::<Vec<XRenderGlyphPlacement>, XRenderGlyphError>(e),
                    Ok((_, _, placed)) => r is Ok && r->Ok_0@ == placed,
                },
            },
    {
        let ghost views = elements@.map_values(|e: XRenderGlyphElement| e@);
        let mut store = match self.render_glyph_store_id(namespace, glyphset) {
            Err(e) => {
                return Err(e);
            },
            Ok(s) => s,
        };
        let ghost s0 = store;
        let mut pen: (i32, i32) = (0, 0);
        let mut out: Vec<XRenderGlyphPlacement> = Vec::new();
        let mut k: usize = 0;
        while k < elements.len()
            invariant
                self.wf(),
                views == elements@.map_values(|e: XRenderGlyphElement| e@),
                self.spec_glyph_store_id(namespace, glyphset) == Ok::<u64, XRenderGlyphError>(s0),
                k <= elements@.len(),
                self.spec_place_elements(namespace, s0, (0i32, 0i32), views, k as int) == Ok::<
                    (u64, (i32, i32), Seq<XRenderGlyphPlacement>),
                    XRenderGlyphError,
                >((store, pen, out@)),
            decreases elements@.len() - k,
        {
            let e = &elements[k];
            let ghost sp = store;
            let ghost pp = pen;
            proof {
                assert(views[k as int] == elements@[k as int]@);
            }
            match e.glyphset {
                Some(g) => match self.render_glyph_store_id(namespace, g) {
                    Err(err) => {
                        proof {
                            lemma_place_elements_stuck(self, namespace, s0, views, k as int + 1, elements@.len() as int);
                        }
                        return Err(err);
                    },
                    Ok(s) => {
                        store = s;
                    },
                },
                None => {},
            }
            pen = (saturating_add_i32(pen.0, e.delta_x as i32), saturating_add_i32(pen.1, e.delta_y as i32));
            let st = match self.render_glyph_stores.get(&store) {
                None => {
                    proof {
                        lemma_place_elements_stuck(self, namespace, s0, views, k as int + 1, elements@.len() as int);
                    }
                    return Err(XRenderGlyphError::UnknownGlyphSet);
                },
                Some(st) => st,
            };
            let ghost p2 = pen;
            let ghost before = out@;
            proof {
                assert(out@.subrange(before.len() as int, out@.len() as int) =~= Seq::<XRenderGlyphPlacement>::empty());
                assert(out@.subrange(0, before.len() as int) =~= before);
            }
            let mut j: usize = 0;
            while j < e.glyphs.len()
                invariant
                    self.wf(),
                    k < elements@.len(),
                    views == elements@.map_values(|e: XRenderGlyphElement| e@),
                    views[k as int] == e@,
                    self.spec_glyph_store_id(namespace, glyphset) == Ok::<u64, XRenderGlyphError>(s0),
                    self.spec_place_elements(namespace, s0, (0i32, 0i32), views, k as int) == Ok::<
                        (u64, (i32, i32), Seq<XRenderGlyphPlacement>),
                        XRenderGlyphError,
                    >((sp, pp, before)),
                    match e.glyphset {
                        Some(g) => self.spec_glyph_store_id(namespace, g) == Ok::<u64, XRenderGlyphError>(store),
                        None => store == sp,
                    },
                    p2 == (sat_add_i32(pp.0 as int, e.delta_x as int) as i32, sat_add_i32(pp.1 as int, e.delta_y as int) as i32),
                    self.render_glyph_stores.view().contains_key(store),
                    *st == self.render_glyph_stores.view()[store],
                    j <= e.glyphs@.len(),
                    spec_place_run(self.render_glyph_stores.view(), store, p2, e.glyphs@, j as int) == Ok::<
                        ((i32, i32), Seq<XRenderGlyphPlacement>),
                        XRenderGlyphError,
                    >((pen, out@.subrange(before.len() as int, out@.len() as int))),
                    out@.subrange(0, before.len() as int) == before,
                    out@.len() >= before.len(),
                decreases e.glyphs@.len() - j,
            {
                let id = e.glyphs[j];
                let g = match st.glyphs.get(&id) {
                    None => {
                        proof {
                            assert(spec_place_run(self.render_glyph_stores.view(), store, p2, e.glyphs@, j as int + 1) is Err);
                            lemma_place_run_stuck(self.render_glyph_stores.view(), store, p2, e.glyphs@, j as int + 1, e.glyphs@.len() as int);
                            assert(self.spec_place_elements(namespace, s0, (0i32, 0i32), views, k as int + 1) is Err);
                            lemma_place_elements_stuck(self, namespace, s0, views, k as int + 1, elements@.len() as int);
                        }
                        return Err(XRenderGlyphError::UnknownGlyph);
                    },
                    Some(g) => g,
                };
                let ghost run0 = out@.subrange(before.len() as int, out@.len() as int);
                out.push(
                    XRenderGlyphPlacement {
                        x: saturating_sub_i32(pen.0, g.info.x as i32),
                        y: saturating_sub_i32(pen.1, g.info.y as i32),
                        store,
                        glyph: id,
                    },
                );
                pen = (saturating_add_i32(pen.0, g.info.off_x as i32), saturating_add_i32(pen.1, g.info.off_y as i32));
                j = j + 1;
                proof {
                    assert(out@.subrange(before.len() as int, out@.len() as int) =~= run0.push(out@[out@.len() - 1]));
                    assert(out@.subrange(0, before.len() as int) =~= before);
                }
            }
            proof {
                assert(out@ =~= before + out@.subrange(before.len() as int, out@.len() as int));
            }
            k = k + 1;
        }
        Ok(out)
    }
}

/// A refused run stays refused, however many runs follow.
proof fn lemma_place_elements_stuck(
    rt: &XAuthorityRuntime,
    namespace: NamespaceId,
    store: u64,
    elements: Seq<XRenderGlyphElementView>,
    a: int,
    b: int,
)
    requires
        0 <= a <= b,
        rt.spec_place_elements(namespace, store, (0i32, 0i32), elements, a) is Err,
    ensures
        rt.spec_place_elements(namespace, store, (0i32, 0i32), elements, b) == rt.spec_place_elements(
            namespace,
            store,
            (0i32, 0i32),
            elements,
            a,
        ),
    decreases b - a,
{
    if a < b {
        lemma_place_elements_stuck(rt, namespace, store, elements, a, b - 1);
    }
}

/// A refused glyph refuses the rest of its run.
proof fn lemma_place_run_stuck(
    stores: Map<u64, XRenderGlyphStore>,
    store: u64,
    pen: (i32, i32),
    glyphs: Seq<u32>,
    a: int,
    b: int,
)
    requires
        0 <= a <= b,
        spec_place_run(stores, store, pen, glyphs, a) is Err,
    ensures
        spec_place_run(stores, store, pen, glyphs, b) == spec_place_run(stores, store, pen, glyphs, a),
    decreases b - a,
{
    if a < b {
        lemma_place_run_stuck(stores, store, pen, glyphs, a, b - 1);
    }
}
} // verus!
