use vstd::prelude::*;

use crate::geometry::Rect;
use crate::ids::{NamespaceId, XResourceId};
use crate::resources::XAuthorityRuntimeError;
use crate::table::{XEntryPredicate, XTable, XTableKey};
use crate::wire::{XByteOrder, XWireClientResourceRange};

verus! {

/// The `GXcopy` raster function, the core protocol's default.
pub const X_GX_COPY: u8 = 3;

/// The metrics of a font face as text drawing lays it out.
#[derive(Clone, Copy, Debug, PartialEq, Eq, Structural)]
pub struct XFontFace {
    pub ascent: u16,
    pub descent: u16,
    pub advance: u16,
}

impl Default for XFontFace {
    /// The built-in fixed face: six pixels wide, eleven up, two down.
    fn default() -> (r: Self)
        ensures
            r.ascent == 11 && r.descent == 2 && r.advance == 6,
    {
        XFontFace { ascent: 11, descent: 2, advance: 6 }
    }
}

/// The graphics-context values core drawing reads.
#[derive(Clone, Debug)]
pub struct XGraphicsContextValues {
    pub function: u8,
    pub plane_mask: u32,
    pub foreground: u32,
    pub background: u32,
    pub line_width: u16,
    pub fill_style: u8,
    pub graphics_exposures: bool,
    pub font: Option<XResourceId>,
    pub clip_x_origin: i16,
    pub clip_y_origin: i16,
    /// A pixmap clip mask; `None` when clipping by rectangles or not at all.
    pub clip_mask: Option<XResourceId>,
    /// Clip rectangles relative to the clip origin; `None` clips nothing.
    pub clip_rectangles: Option<Vec<Rect>>,
}

/// The wire facts an accepted `PutImage` carries for deciding later
/// whether it can be replayed: format, depth, padding, byte order and the
/// context it drew with.
#[derive(Clone, Debug)]
pub struct XPutImageSemantics {
    pub format: u8,
    pub depth: u8,
    pub left_pad: u8,
    pub byte_order: XByteOrder,
    pub gc: XGraphicsContextValues,
}

/// The values with the clip list read as a sequence.
pub struct XGcValuesView {
    pub function: u8,
    pub plane_mask: u32,
    pub foreground: u32,
    pub background: u32,
    pub line_width: u16,
    pub fill_style: u8,
    pub graphics_exposures: bool,
    pub font: Option<XResourceId>,
    pub clip_x_origin: i16,
    pub clip_y_origin: i16,
    pub clip_mask: Option<XResourceId>,
    pub clip_rectangles: Option<Seq<Rect>>,
}

impl View for XGraphicsContextValues {
    type V = XGcValuesView;

    open spec fn view(&self) -> XGcValuesView {
        XGcValuesView {
            function: self.function,
            plane_mask: self.plane_mask,
            foreground: self.foreground,
            background: self.background,
            line_width: self.line_width,
            fill_style: self.fill_style,
            graphics_exposures: self.graphics_exposures,
            font: self.font,
            clip_x_origin: self.clip_x_origin,
            clip_y_origin: self.clip_y_origin,
            clip_mask: self.clip_mask,
            clip_rectangles: match self.clip_rectangles {
                Some(v) => Some(v@),
                None => None,
            },
        }
    }
}

impl Default for XGraphicsContextValues {
    /// The core protocol's initial values: `GXcopy` through every plane,
    /// black on white, thin lines, exposures on, no font and no clip.
    fn default() -> (r: Self)
        ensures
            r@ == spec_default_gc_values(),
    {
        XGraphicsContextValues {
            function: X_GX_COPY,
            plane_mask: u32::MAX,
            foreground: 0,
            background: 1,
            line_width: 0,
            fill_style: 0,
            graphics_exposures: true,
            font: None,
            clip_x_origin: 0,
            clip_y_origin: 0,
            clip_mask: None,
            clip_rectangles: None,
        }
    }
}

pub open spec fn spec_default_gc_values() -> XGcValuesView {
    XGcValuesView {
        function: X_GX_COPY,
        plane_mask: u32::MAX,
        foreground: 0,
        background: 1,
        line_width: 0,
        fill_style: 0,
        graphics_exposures: true,
        font: None,
        clip_x_origin: 0,
        clip_y_origin: 0,
        clip_mask: None,
        clip_rectangles: None,
    }
}

/// A copy of a rectangle list.
pub fn copy_rects(v: &Vec<Rect>) -> (r: Vec<Rect>)
    ensures
        r@ == v@,
{
    let mut out: Vec<Rect> = Vec::new();
    let mut i: usize = 0;
    while i < v.len()
        invariant
            i <= v@.len(),
            out@ == v@.take(i as int),
        decreases v@.len() - i,
    {
        out.push(v[i]);
        i = i + 1;
        proof {
            assert(out@ =~= v@.take(i as int));
        }
    }
    proof {
        assert(v@.take(i as int) =~= v@);
    }
    out
}

impl XGraphicsContextValues {
    /// A copy of these values.
    pub fn copy(&self) -> (r: Self)
        ensures
            r@ == self@,
    {
        XGraphicsContextValues {
            function: self.function,
            plane_mask: self.plane_mask,
            foreground: self.foreground,
            background: self.background,
            line_width: self.line_width,
            fill_style: self.fill_style,
            graphics_exposures: self.graphics_exposures,
            font: self.font,
            clip_x_origin: self.clip_x_origin,
            clip_y_origin: self.clip_y_origin,
            clip_mask: self.clip_mask,
            clip_rectangles: match &self.clip_rectangles {
                Some(v) => Some(copy_rects(v)),
                None => None,
            },
        }
    }
}

/// One graphics context and what it was created against.
#[derive(Clone, Debug)]
pub struct XGraphicsContextRecord {
    pub owner: NamespaceId,
    pub drawable: XResourceId,
    pub depth: u8,
    pub values: XGraphicsContextValues,
    pub font_face: XFontFace,
}

pub struct XGcRecordView {
    pub owner: NamespaceId,
    pub drawable: XResourceId,
    pub depth: u8,
    pub values: XGcValuesView,
    pub font_face: XFontFace,
}

impl View for XGraphicsContextRecord {
    type V = XGcRecordView;

    open spec fn view(&self) -> XGcRecordView {
        XGcRecordView {
            owner: self.owner,
            drawable: self.drawable,
            depth: self.depth,
            values: self.values@,
            font_face: self.font_face,
        }
    }
}

/// The planes a drawable of `depth` has: the low `depth` bits, none for a
/// depth of zero or past 32.
pub open spec fn spec_depth_plane_mask(depth: u8) -> u32 {
    if depth == 0 || depth > 32 {
        0
    } else {
        u32::MAX >> ((32 - depth) as u32)
    }
}

pub fn depth_plane_mask(depth: u8) -> (r: u32)
    ensures
        r == spec_depth_plane_mask(depth),
{
    if depth == 0 || depth > 32 {
        0
    } else {
        u32::MAX >> ((32 - depth) as u32)
    }
}

/// The values core drawing uses for a context: its own, with the plane
/// mask cut to the planes its depth has.
pub open spec fn spec_core_draw_values(r: XGcRecordView) -> XGcValuesView {
    XGcValuesView { plane_mask: r.values.plane_mask & spec_depth_plane_mask(r.depth), ..r.values }
}

pub fn core_draw_gc_values(record: &XGraphicsContextRecord) -> (r: XGraphicsContextValues)
    ensures
        r@ == spec_core_draw_values(record@),
{
    let mut values = record.values.copy();
    values.plane_mask = values.plane_mask & depth_plane_mask(record.depth);
    values
}

/// Whether bit `b` of a GC value mask is set.
pub open spec fn spec_mask_has(mask: u32, b: u32) -> bool {
    mask & (1u32 << b) != 0
}

/// A context's values after `ChangeGC`: each attribute the mask names takes
/// the new value; a clip mask replaces any clip rectangles.
pub open spec fn spec_changed_values(cur: XGcValuesView, mask: u32, v: XGcValuesView) -> XGcValuesView {
    XGcValuesView {
        function: if spec_mask_has(mask, 0) {
            v.function
        } else {
            cur.function
        },
        plane_mask: if spec_mask_has(mask, 1) {
            v.plane_mask
        } else {
            cur.plane_mask
        },
        foreground: if spec_mask_has(mask, 2) {
            v.foreground
        } else {
            cur.foreground
        },
        background: if spec_mask_has(mask, 3) {
            v.background
        } else {
            cur.background
        },
        line_width: if spec_mask_has(mask, 4) {
            v.line_width
        } else {
            cur.line_width
        },
        fill_style: if spec_mask_has(mask, 8) {
            v.fill_style
        } else {
            cur.fill_style
        },
        font: if spec_mask_has(mask, 14) {
            v.font
        } else {
            cur.font
        },
        graphics_exposures: if spec_mask_has(mask, 16) {
            v.graphics_exposures
        } else {
            cur.graphics_exposures
        },
        clip_x_origin: if spec_mask_has(mask, 17) {
            v.clip_x_origin
        } else {
            cur.clip_x_origin
        },
        clip_y_origin: if spec_mask_has(mask, 18) {
            v.clip_y_origin
        } else {
            cur.clip_y_origin
        },
        clip_mask: if spec_mask_has(mask, 19) {
            v.clip_mask
        } else {
            cur.clip_mask
        },
        clip_rectangles: if spec_mask_has(mask, 19) {
            None
        } else {
            cur.clip_rectangles
        },
    }
}

/// Every graphics context, by id.
pub struct XGraphicsContextTable {
    pub records: XTable<XResourceId, XGraphicsContextRecord>,
}

/// What a lookup of a context answers.
pub open spec fn spec_gc_lookup(
    m: Map<XResourceId, XGraphicsContextRecord>,
    namespace: NamespaceId,
    gc: XResourceId,
) -> Result<XGraphicsContextRecord, XAuthorityRuntimeError> {
    if !namespace.spec_is_valid() {
        Err(XAuthorityRuntimeError::InvalidNamespace)
    } else if !m.contains_key(gc) {
        Err(XAuthorityRuntimeError::UnknownResource)
    } else if m[gc].owner != namespace {
        Err(XAuthorityRuntimeError::CrossNamespaceDenied)
    } else {
        Ok(m[gc])
    }
}

/// The error a lookup gives, if any.
pub open spec fn spec_gc_error(
    m: Map<XResourceId, XGraphicsContextRecord>,
    namespace: NamespaceId,
    gc: XResourceId,
) -> Option<XAuthorityRuntimeError> {
    match spec_gc_lookup(m, namespace, gc) {
        Ok(_) => None,
        Err(e) => Some(e),
    }
}

/// The error creating a context gives, if any.
pub open spec fn spec_gc_create_error(
    m: Map<XResourceId, XGraphicsContextRecord>,
    namespace: NamespaceId,
    gc: XResourceId,
) -> Option<XAuthorityRuntimeError> {
    if !namespace.spec_is_valid() {
        Some(XAuthorityRuntimeError::InvalidNamespace)
    } else if !gc.spec_is_valid() {
        Some(XAuthorityRuntimeError::InvalidResource)
    } else if m.contains_key(gc) {
        Some(XAuthorityRuntimeError::DuplicateResource)
    } else {
        None
    }
}

impl XGraphicsContextTable {
    pub open spec fn wf(&self) -> bool {
        self.records.wf()
    }

    pub open spec fn view(&self) -> Map<XResourceId, XGraphicsContextRecord> {
        self.records.view()
    }

    pub fn new() -> (r: Self)
        ensures
            r.wf(),
            r.view() == Map::<XResourceId, XGraphicsContextRecord>::empty(),
    {
        XGraphicsContextTable { records: XTable::new() }
    }

    pub fn contains(&self, gc: XResourceId) -> (r: bool)
        requires
            self.wf(),
        ensures
            r == self.view().contains_key(gc),
    {
        self.records.contains_key(&gc)
    }

    /// The context under `gc`, when `namespace` owns it.
    pub fn get(&self, namespace: NamespaceId, gc: XResourceId) -> (r: Result<
        &XGraphicsContextRecord,
        XAuthorityRuntimeError,
    >)
        requires
            self.wf(),
        ensures
            match r {
                Ok(rec) => spec_gc_lookup(self.view(), namespace, gc) == Ok::<
                    XGraphicsContextRecord,
                    XAuthorityRuntimeError,
                >(*rec),
                Err(e) => spec_gc_lookup(self.view(), namespace, gc) == Err::<
                    XGraphicsContextRecord,
                    XAuthorityRuntimeError,
                >(e),
            },
    {
        if !namespace.is_valid() {
            return Err(XAuthorityRuntimeError::InvalidNamespace);
        }
        match self.records.get(&gc) {
            None => Err(XAuthorityRuntimeError::UnknownResource),
            Some(rec) => if rec.owner != namespace {
                Err(XAuthorityRuntimeError::CrossNamespaceDenied)
            } else {
                Ok(rec)
            },
        }
    }

    pub fn create(
        &mut self,
        namespace: NamespaceId,
        gc: XResourceId,
        drawable: XResourceId,
        depth: u8,
        values: XGraphicsContextValues,
        font_face: XFontFace,
    ) -> (r: Result<(), XAuthorityRuntimeError>)
        requires
            old(self).wf(),
        ensures
            final(self).wf(),
            match spec_gc_create_error(old(self).view(), namespace, gc) {
                Some(e) => r == Err::<(), XAuthorityRuntimeError>(e) && *final(self) == *old(self),
                None => {
                    &&& r is Ok
                    &&& final(self).view().dom() == old(self).view().dom().insert(gc)
                    &&& final(self).view().remove(gc) == old(self).view().remove(gc)
                    &&& final(self).view()[gc]@ == (XGcRecordView {
                        owner: namespace,
                        drawable,
                        depth,
                        values: values@,
                        font_face,
                    })
                },
            },
    {
        if !namespace.is_valid() {
            return Err(XAuthorityRuntimeError::InvalidNamespace);
        }
        if !gc.is_valid() {
            return Err(XAuthorityRuntimeError::InvalidResource);
        }
        if self.records.contains_key(&gc) {
            return Err(XAuthorityRuntimeError::DuplicateResource);
        }
        let ghost pre = self.view();
        self.records.insert(gc, XGraphicsContextRecord { owner: namespace, drawable, depth, values, font_face });
        proof {
            assert(self.view().remove(gc) =~= pre.remove(gc));
            assert(self.view().dom() =~= pre.dom().insert(gc));
        }
        Ok(())
    }

    /// Replaces the values of a context this namespace owns.
    fn replace_values(
        &mut self,
        namespace: NamespaceId,
        gc: XResourceId,
        values: XGraphicsContextValues,
        font_face: Option<XFontFace>,
    ) -> (r: Result<(), XAuthorityRuntimeError>)
        requires
            old(self).wf(),
        ensures
            final(self).wf(),
            match spec_gc_error(old(self).view(), namespace, gc) {
                Some(e) => r == Err::<(), XAuthorityRuntimeError>(e) && *final(self) == *old(self),
                None => {
                    &&& r is Ok
                    &&& final(self).view().dom() == old(self).view().dom()
                    &&& final(self).view().remove(gc) == old(self).view().remove(gc)
                    &&& final(self).view()[gc]@ == (XGcRecordView {
                        values: values@,
                        font_face: match font_face {
                            Some(f) => f,
                            None => old(self).view()[gc].font_face,
                        },
                        ..old(self).view()[gc]@
                    })
                },
            },
    {
        let (owner, drawable, depth, face) = match self.get(namespace, gc) {
            Err(e) => {
                return Err(e);
            },
            Ok(rec) => (rec.owner, rec.drawable, rec.depth, rec.font_face),
        };
        let ghost pre = self.view();
        let next_face = match font_face {
            Some(f) => f,
            None => face,
        };
        self.records.insert(
            gc,
            XGraphicsContextRecord { owner, drawable, depth, values, font_face: next_face },
        );
        proof {
            assert(self.view().remove(gc) =~= pre.remove(gc));
            assert(self.view().dom() =~= pre.dom());
        }
        Ok(())
    }

    /// `ChangeGC`: the attributes the mask names take their new values.
    pub fn change(
        &mut self,
        namespace: NamespaceId,
        gc: XResourceId,
        mask: u32,
        values: XGraphicsContextValues,
        font_face: Option<XFontFace>,
    ) -> (r: Result<(), XAuthorityRuntimeError>)
        requires
            old(self).wf(),
        ensures
            final(self).wf(),
            match spec_gc_error(old(self).view(), namespace, gc) {
                Some(e) => r == Err::<(), XAuthorityRuntimeError>(e) && *final(self) == *old(self),
                None => {
                    &&& r is Ok
                    &&& final(self).view().dom() == old(self).view().dom()
                    &&& final(self).view().remove(gc) == old(self).view().remove(gc)
                    &&& final(self).view()[gc]@ == (XGcRecordView {
                        values: spec_changed_values(old(self).view()[gc]@.values, mask, values@),
                        font_face: match font_face {
                            Some(f) => f,
                            None => old(self).view()[gc].font_face,
                        },
                        ..old(self).view()[gc]@
                    })
                },
            },
    {
        let mut next = match self.get(namespace, gc) {
            Err(e) => {
                return Err(e);
            },
            Ok(rec) => rec.values.copy(),
        };
        if mask & (1u32 << 0u32) != 0 {
            next.function = values.function;
        }
        if mask & (1u32 << 1u32) != 0 {
            next.plane_mask = values.plane_mask;
        }
        if mask & (1u32 << 2u32) != 0 {
            next.foreground = values.foreground;
        }
        if mask & (1u32 << 3u32) != 0 {
            next.background = values.background;
        }
        if mask & (1u32 << 4u32) != 0 {
            next.line_width = values.line_width;
        }
        if mask & (1u32 << 8u32) != 0 {
            next.fill_style = values.fill_style;
        }
        if mask & (1u32 << 14u32) != 0 {
            next.font = values.font;
        }
        if mask & (1u32 << 16u32) != 0 {
            next.graphics_exposures = values.graphics_exposures;
        }
        if mask & (1u32 << 17u32) != 0 {
            next.clip_x_origin = values.clip_x_origin;
        }
        if mask & (1u32 << 18u32) != 0 {
            next.clip_y_origin = values.clip_y_origin;
        }
        if mask & (1u32 << 19u32) != 0 {
            next.clip_mask = values.clip_mask;
            next.clip_rectangles = None;
        }
        self.replace_values(namespace, gc, next, font_face)
    }

    /// `SetClipRectangles`: the context clips to these rectangles at this
    /// origin, and any clip mask is dropped.
    pub fn set_clip_rectangles(
        &mut self,
        namespace: NamespaceId,
        gc: XResourceId,
        clip_x_origin: i16,
        clip_y_origin: i16,
        rectangles: Vec<Rect>,
    ) -> (r: Result<(), XAuthorityRuntimeError>)
        requires
            old(self).wf(),
        ensures
            final(self).wf(),
            match spec_gc_error(old(self).view(), namespace, gc) {
                Some(e) => r == Err::<(), XAuthorityRuntimeError>(e) && *final(self) == *old(self),
                None => {
                    &&& r is Ok
                    &&& final(self).view().dom() == old(self).view().dom()
                    &&& final(self).view().remove(gc) == old(self).view().remove(gc)
                    &&& final(self).view()[gc]@ == (XGcRecordView {
                        values: XGcValuesView {
                            clip_x_origin,
                            clip_y_origin,
                            clip_mask: None,
                            clip_rectangles: Some(rectangles@),
                            ..old(self).view()[gc]@.values
                        },
                        ..old(self).view()[gc]@
                    })
                },
            },
    {
        let mut next = match self.get(namespace, gc) {
            Err(e) => {
                return Err(e);
            },
            Ok(rec) => rec.values.copy(),
        };
        next.clip_x_origin = clip_x_origin;
        next.clip_y_origin = clip_y_origin;
        next.clip_mask = None;
        next.clip_rectangles = Some(rectangles);
        self.replace_values(namespace, gc, next, None)
    }

    /// `FreeGC`.
    pub fn remove(&mut self, namespace: NamespaceId, gc: XResourceId) -> (r: Result<
        (),
        XAuthorityRuntimeError,
    >)
        requires
            old(self).wf(),
        ensures
            final(self).wf(),
            match spec_gc_error(old(self).view(), namespace, gc) {
                Some(e) => r == Err::<(), XAuthorityRuntimeError>(e) && *final(self) == *old(self),
                None => r is Ok && final(self).view() == old(self).view().remove(gc),
            },
    {
        match self.get(namespace, gc) {
            Err(e) => {
                return Err(e);
            },
            Ok(_) => {},
        }
        self.records.remove(&gc);
        Ok(())
    }

    /// The contexts of a namespace whose ids fall in a client's range.
    pub fn ids_for_namespace_in_client_range(
        &self,
        namespace: NamespaceId,
        range: XWireClientResourceRange,
    ) -> (r: Vec<XResourceId>)
        requires
            self.wf(),
        ensures
            forall|k: XResourceId|
                #[trigger] r@.contains(k) <==> (self.view().contains_key(k) && self.view()[k].owner
                    == namespace && spec_in_client_range(range, k)),
            r@.no_duplicates(),
    {
        self.records.keys_where(&OwnedInRange { namespace, range })
    }
}

/// Anything a namespace owns.
pub trait XOwned {
    spec fn owner_of(&self) -> NamespaceId;

    fn owner(&self) -> (r: NamespaceId)
        ensures
            r == self.owner_of(),
    ;
}

impl XOwned for XGraphicsContextRecord {
    open spec fn owner_of(&self) -> NamespaceId {
        self.owner
    }

    fn owner(&self) -> (r: NamespaceId) {
        self.owner
    }
}

/// Entries a namespace owns under ids a client's range lets it create.
pub struct OwnedInRange {
    pub namespace: NamespaceId,
    pub range: XWireClientResourceRange,
}

impl<V: XOwned> XEntryPredicate<XResourceId, V> for OwnedInRange {
    open spec fn holds(&self, k: XResourceId, v: V) -> bool {
        v.owner_of() == self.namespace && spec_in_client_range(self.range, k)
    }

    fn test(&self, k: &XResourceId, v: &V) -> (r: bool) {
        v.owner() == self.namespace && id_in_client_range(self.range, *k)
    }
}

/// Whether an id is one a client's range lets it create: its low 32 bits,
/// when it has no others.
pub open spec fn spec_in_client_range(range: XWireClientResourceRange, id: XResourceId) -> bool {
    id.local <= u32::MAX && range.spec_owns(id.local as u32)
}

pub fn id_in_client_range(range: XWireClientResourceRange, id: XResourceId) -> (r: bool)
    ensures
        r == spec_in_client_range(range, id),
{
    id.local <= u32::MAX as u64 && range.owns_new_resource(id.local as u32)
}

} // verus!
