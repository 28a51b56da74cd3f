use vstd::prelude::*;

use crate::gc::{
    XFontFace, XGcRecordView, XGraphicsContextValues, core_draw_gc_values, spec_changed_values,
    spec_core_draw_values, spec_gc_create_error, spec_gc_error, spec_gc_lookup,
};
use crate::geometry::{Rect, Size};
use crate::ids::{NamespaceId, X_SETUP_DEFAULT_ROOT, X_SETUP_WM_CHECK_WINDOW, XResourceId};
use crate::resources::{XAuthorityRuntimeError, XResourceKind};
use crate::runtime::XAuthorityRuntime;
use crate::runtime::glx::{spec_fb_config, x_glx_fb_config};
use crate::runtime::XGlxDrawableBacking;

verus! {

/// What a drawable is, for requests that accept more than one kind.
#[derive(Clone, Copy, Debug, PartialEq, Eq, Structural)]
pub enum XDrawableKind {
    Root,
    Window,
    Pixmap,
    GlxPbuffer,
}

#[derive(Clone, Copy, Debug, PartialEq, Eq, Structural)]
pub struct XDrawableFacts {
    pub kind: XDrawableKind,
    pub geometry: Rect,
    pub depth: u8,
}

/// A buffer the authority asks the frontend to allocate for a drawable.
#[derive(Clone, Copy, Debug, PartialEq, Eq, Structural)]
pub struct XServerFrontendPixmapAllocation {
    pub size: Size,
    pub depth: u8,
    pub handle: u64,
}

impl XAuthorityRuntime {
    /// The error naming a drawable for core drawing gives, if any: the root
    /// and the authority's check window always answer; otherwise a window
    /// or pixmap this namespace owns.
    pub open spec fn spec_drawable_access(&self, namespace: NamespaceId, drawable: XResourceId) -> Option<
        XAuthorityRuntimeError,
    > {
        if drawable.local == X_SETUP_DEFAULT_ROOT || drawable.local == X_SETUP_WM_CHECK_WINDOW {
            None
        } else if !namespace.spec_is_valid() {
            Some(XAuthorityRuntimeError::InvalidNamespace)
        } else if !self.resources.view().contains_key(drawable) {
            Some(XAuthorityRuntimeError::UnknownResource)
        } else if self.resources.view()[drawable].kind != XResourceKind::Window
            && self.resources.view()[drawable].kind != XResourceKind::Pixmap {
            Some(XAuthorityRuntimeError::WrongResourceKind)
        } else if self.resources.view()[drawable].owner_namespace != namespace {
            Some(XAuthorityRuntimeError::CrossNamespaceDenied)
        } else {
            None
        }
    }

    /// The depth a drawable draws at: 24 for the root, a pixmap's own, a
    /// window's visual's.
    pub open spec fn spec_drawable_depth(&self, namespace: NamespaceId, drawable: XResourceId) -> u8 {
        if drawable.local == X_SETUP_DEFAULT_ROOT {
            24
        } else {
            match self.spec_pixmap(namespace, drawable) {
                Ok(p) => p.depth,
                Err(_) => self.spec_window_visual(drawable).0,
            }
        }
    }

    pub fn validate_drawable_access(&self, namespace: NamespaceId, drawable: XResourceId) -> (r:
        Result<(), XAuthorityRuntimeError>)
        requires
            self.wf(),
        ensures
            match self.spec_drawable_access(namespace, drawable) {
                Some(e) => r == Err::<(), XAuthorityRuntimeError>(e),
                None => r is Ok,
            },
    {
        if drawable.local == X_SETUP_DEFAULT_ROOT as u64 || drawable.local
            == X_SETUP_WM_CHECK_WINDOW as u64 {
            return Ok(());
        }
        if !namespace.is_valid() {
            return Err(XAuthorityRuntimeError::InvalidNamespace);
        }
        match self.resources.get(drawable) {
            None => Err(XAuthorityRuntimeError::UnknownResource),
            Some(rec) => if rec.kind != XResourceKind::Window && rec.kind != XResourceKind::Pixmap {
                Err(XAuthorityRuntimeError::WrongResourceKind)
            } else if rec.owner_namespace != namespace {
                Err(XAuthorityRuntimeError::CrossNamespaceDenied)
            } else {
                Ok(())
            },
        }
    }

    /// The depth of a drawable this namespace may draw into.
    pub fn drawable_depth(&self, namespace: NamespaceId, drawable: XResourceId) -> (r: Result<
        u8,
        XAuthorityRuntimeError,
    >)
        requires
            self.wf(),
        ensures
            r == match self.spec_drawable_access(namespace, drawable) {
                Some(e) => Err(e),
                None => Ok::<u8, XAuthorityRuntimeError>(self.spec_drawable_depth(namespace, drawable)),
            },
    {
        match self.validate_drawable_access(namespace, drawable) {
            Err(e) => {
                return Err(e);
            },
            Ok(()) => {},
        }
        if drawable.local == X_SETUP_DEFAULT_ROOT as u64 {
            return Ok(24);
        }
        match self.pixmap_depth(namespace, drawable) {
            Ok(d) => Ok(d),
            Err(_) => Ok(self.window_visual(drawable).0),
        }
    }

    /// What a drawable is. A miss reports the window lookup's error.
    pub open spec fn spec_drawable_facts(&self, namespace: NamespaceId, drawable: XResourceId) -> Result<
        XDrawableFacts,
        XAuthorityRuntimeError,
    > {
        if drawable.local == X_SETUP_DEFAULT_ROOT {
            match self.root_size {
                None => Err(XAuthorityRuntimeError::UnknownResource),
                Some(root) => Ok(
                    XDrawableFacts {
                        kind: XDrawableKind::Root,
                        geometry: Rect { x: 0, y: 0, width: root.width, height: root.height },
                        depth: 24,
                    },
                ),
            }
        } else {
            match self.spec_window(namespace, drawable) {
                Ok(rec) => Ok(
                    XDrawableFacts {
                        kind: XDrawableKind::Window,
                        geometry: rec.geometry,
                        depth: self.spec_window_visual(drawable).0,
                    },
                ),
                Err(window_error) => match self.spec_pixmap(namespace, drawable) {
                    Ok(p) => Ok(
                        XDrawableFacts {
                            kind: XDrawableKind::Pixmap,
                            geometry: Rect { x: 0, y: 0, width: p.size.width, height: p.size.height },
                            depth: p.depth,
                        },
                    ),
                    Err(_) => match self.spec_own_glx_drawable(namespace, drawable) {
                        Some(rec) => match (rec.backing, spec_fb_config(rec.fbconfig)) {
                            (XGlxDrawableBacking::Pbuffer(size), Some(config)) => Ok(
                                XDrawableFacts {
                                    kind: XDrawableKind::GlxPbuffer,
                                    geometry: Rect { x: 0, y: 0, width: size.width, height: size.height },
                                    depth: config.visual_depth,
                                },
                            ),
                            _ => Err(window_error),
                        },
                        None => Err(window_error),
                    },
                },
            }
        }
    }

    /// What a drawable is, for the requests that accept more than one kind:
    /// the root, a window, a pixmap or a pbuffer of this namespace.
    pub fn drawable_facts(&self, namespace: NamespaceId, drawable: XResourceId) -> (r: Result<
        XDrawableFacts,
        XAuthorityRuntimeError,
    >)
        requires
            self.wf(),
        ensures
            r == self.spec_drawable_facts(namespace, drawable),
    {
        if drawable.local == X_SETUP_DEFAULT_ROOT as u64 {
            return match self.root_size {
                None => Err(XAuthorityRuntimeError::UnknownResource),
                Some(root) => Ok(
                    XDrawableFacts {
                        kind: XDrawableKind::Root,
                        geometry: Rect { x: 0, y: 0, width: root.width, height: root.height },
                        depth: 24,
                    },
                ),
            };
        }
        let window_error = match self.window_geometry(namespace, drawable) {
            Ok(geometry) => {
                return Ok(
                    XDrawableFacts {
                        kind: XDrawableKind::Window,
                        geometry,
                        depth: self.window_visual(drawable).0,
                    },
                );
            },
            Err(e) => e,
        };
        match self.pixmap_geometry(namespace, drawable) {
            Ok((size, depth)) => {
                return Ok(
                    XDrawableFacts {
                        kind: XDrawableKind::Pixmap,
                        geometry: Rect { x: 0, y: 0, width: size.width, height: size.height },
                        depth,
                    },
                );
            },
            Err(_) => {},
        }
        match self.glx_pbuffer(namespace, drawable) {
            Ok((size, fbconfig)) => match x_glx_fb_config(fbconfig) {
                Some(config) => Ok(
                    XDrawableFacts {
                        kind: XDrawableKind::GlxPbuffer,
                        geometry: Rect { x: 0, y: 0, width: size.width, height: size.height },
                        depth: config.visual_depth,
                    },
                ),
                None => Err(window_error),
            },
            Err(_) => Err(window_error),
        }
    }

    /// Drawables a client may name when it imports buffers it allocated:
    /// any drawable `drawable_facts` knows, storage or none.
    pub fn validate_dri3_drawable_access(&self, namespace: NamespaceId, drawable: XResourceId) -> (r:
        Result<(), XAuthorityRuntimeError>)
        requires
            self.wf(),
        ensures
            r == match self.spec_drawable_facts(namespace, drawable) {
                Ok(_) => Ok::<(), XAuthorityRuntimeError>(()),
                Err(e) => Err(e),
            },
    {
        match self.drawable_facts(namespace, drawable) {
            Ok(_) => Ok(()),
            Err(e) => Err(e),
        }
    }

    /// Creates a graphics context for a drawable this namespace may draw
    /// into, at the drawable's depth, with the face of the font it names.
    pub fn create_graphics_context(
        &mut self,
        namespace: NamespaceId,
        gc: XResourceId,
        drawable: XResourceId,
        values: XGraphicsContextValues,
    ) -> (r: Result<(), XAuthorityRuntimeError>)
        requires
            old(self).wf(),
        ensures
            final(self).wf(),
            r is Err ==> *final(self) == *old(self),
            old(self).spec_drawable_access(namespace, drawable) is Some ==> r == Err::<
                (),
                XAuthorityRuntimeError,
            >(old(self).spec_drawable_access(namespace, drawable).unwrap()),
            old(self).spec_drawable_access(namespace, drawable) is None && values.font is Some
                && old(self).spec_font_face(namespace, values.font.unwrap()) is Err ==> r == Err::<
                (),
                XAuthorityRuntimeError,
            >(old(self).spec_font_face(namespace, values.font.unwrap())->Err_0),
            old(self).spec_drawable_access(namespace, drawable) is None && (values.font is None
                || old(self).spec_font_face(namespace, values.font.unwrap()) is Ok) ==> match spec_gc_create_error(
                old(self).graphics_contexts.view(),
                namespace,
                gc,
            ) {
                Some(e) => r == Err::<(), XAuthorityRuntimeError>(e),
                None => {
                    &&& r is Ok
                    &&& final(self).graphics_contexts.view().dom() == old(self).graphics_contexts.view().dom().insert(gc)
                    &&& final(self).graphics_contexts.view().remove(gc) == old(self).graphics_contexts.view().remove(gc)
                    &&& final(self).graphics_contexts.view()[gc]@ == (XGcRecordView {
                        owner: namespace,
                        drawable,
                        depth: old(self).spec_drawable_depth(namespace, drawable),
                        values: values@,
                        font_face: match values.font {
                            Some(f) => old(self).spec_font_face(namespace, f)->Ok_0,
                            None => XFontFace { ascent: 11, descent: 2, advance: 6 },
                        },
                    })
                    &&& *final(self) == (XAuthorityRuntime {
                        graphics_contexts: final(self).graphics_contexts,
                        ..*old(self)
                    })
                },
            },
    {
        match self.validate_drawable_access(namespace, drawable) {
            Err(e) => {
                return Err(e);
            },
            Ok(()) => {},
        }
        let depth = match self.drawable_depth(namespace, drawable) {
            Err(e) => {
                return Err(e);
            },
            Ok(d) => d,
        };
        let font_face = match values.font {
            Some(f) => match self.font_face(namespace, f) {
                Err(e) => {
                    return Err(e);
                },
                Ok(face) => face,
            },
            None => XFontFace::default(),
        };
        self.graphics_contexts.create(namespace, gc, drawable, depth, values, font_face)
    }

    /// The values core drawing uses for a context of this namespace.
    pub fn graphics_context_values(&self, namespace: NamespaceId, gc: XResourceId) -> (r: Result<
        XGraphicsContextValues,
        XAuthorityRuntimeError,
    >)
        requires
            self.wf(),
        ensures
            match spec_gc_lookup(self.graphics_contexts.view(), namespace, gc) {
                Ok(rec) => r is Ok && r->Ok_0@ == spec_core_draw_values(rec@),
                Err(e) => r == Err::<XGraphicsContextValues, XAuthorityRuntimeError>(e),
            },
    {
        match self.graphics_contexts.get(namespace, gc) {
            Ok(rec) => Ok(core_draw_gc_values(rec)),
            Err(e) => Err(e),
        }
    }

    /// `ChangeGC`; naming a font takes that font's face, and naming the font
    /// attribute without a font is refused.
    pub fn change_graphics_context(
        &mut self,
        namespace: NamespaceId,
        gc: XResourceId,
        mask: u32,
        values: XGraphicsContextValues,
    ) -> (r: Result<(), XAuthorityRuntimeError>)
        requires
            old(self).wf(),
        ensures
            final(self).wf(),
            r is Err ==> *final(self) == *old(self),
            mask & (1u32 << 14u32) != 0 && values.font is None ==> r == Err::<(), XAuthorityRuntimeError>(
                XAuthorityRuntimeError::InvalidResource,
            ),
            mask & (1u32 << 14u32) != 0 && values.font is Some && old(self).spec_font_face(
                namespace,
                values.font.unwrap(),
            ) is Err ==> r == Err::<(), XAuthorityRuntimeError>(
                old(self).spec_font_face(namespace, values.font.unwrap())->Err_0,
            ),
            mask & (1u32 << 14u32) == 0 || (values.font is Some && old(self).spec_font_face(
                namespace,
                values.font.unwrap(),
            ) is Ok) ==> match spec_gc_error(old(self).graphics_contexts.view(), namespace, gc) {
                Some(e) => r == Err::<(), XAuthorityRuntimeError>(e),
                None => {
                    &&& r is Ok
                    &&& final(self).graphics_contexts.view().dom() == old(self).graphics_contexts.view().dom()
                    &&& final(self).graphics_contexts.view().remove(gc) == old(self).graphics_contexts.view().remove(gc)
                    &&& final(self).graphics_contexts.view()[gc]@ == (XGcRecordView {
                        values: spec_changed_values(
                            old(self).graphics_contexts.view()[gc]@.values,
                            mask,
                            values@,
                        ),
                        font_face: if mask & (1u32 << 14u32) != 0 {
                            old(self).spec_font_face(namespace, values.font.unwrap())->Ok_0
                        } else {
                            old(self).graphics_contexts.view()[gc].font_face
                        },
                        ..old(self).graphics_contexts.view()[gc]@
                    })
                    &&& *final(self) == (XAuthorityRuntime {
                        graphics_contexts: final(self).graphics_contexts,
                        ..*old(self)
                    })
                },
            },
    {
        let font_face = if mask & (1u32 << 14u32) != 0 {
            match values.font {
                None => {
                    return Err(XAuthorityRuntimeError::InvalidResource);
                },
                Some(f) => match self.font_face(namespace, f) {
                    Err(e) => {
                        return Err(e);
                    },
                    Ok(face) => Some(face),
                },
            }
        } else {
            None
        };
        self.graphics_contexts.change(namespace, gc, mask, values, font_face)
    }

    pub fn set_graphics_context_clip_rectangles(
        &mut self,
        namespace: NamespaceId,
        gc: XResourceId,
        clip_x_origin: i16,
        clip_y_origin: i16,
        rectangles: Vec<Rect>,
    ) -> (r: Result<(), XAuthorityRuntimeError>)
        requires
            old(self).wf(),
        ensures
            final(self).wf(),
            match spec_gc_error(old(self).graphics_contexts.view(), namespace, gc) {
                Some(e) => r == Err::<(), XAuthorityRuntimeError>(e) && *final(self) == *old(self),
                None => {
                    &&& r is Ok
                    &&& final(self).graphics_contexts.view().dom() == old(self).graphics_contexts.view().dom()
                    &&& final(self).graphics_contexts.view().remove(gc) == old(self).graphics_contexts.view().remove(gc)
                    &&& final(self).graphics_contexts.view()[gc]@.values.clip_rectangles == Some(
                        rectangles@,
                    )
                    &&& final(self).graphics_contexts.view()[gc]@.values.clip_x_origin
                        == clip_x_origin
                    &&& final(self).graphics_contexts.view()[gc]@.values.clip_y_origin
                        == clip_y_origin
                    &&& final(self).graphics_contexts.view()[gc]@.values.clip_mask is None
                    &&& *final(self) == (XAuthorityRuntime {
                        graphics_contexts: final(self).graphics_contexts,
                        ..*old(self)
                    })
                },
            },
    {
        self.graphics_contexts.set_clip_rectangles(
            namespace,
            gc,
            clip_x_origin,
            clip_y_origin,
            rectangles,
        )
    }

    pub fn free_graphics_context(&mut self, namespace: NamespaceId, gc: XResourceId) -> (r: Result<
        (),
        XAuthorityRuntimeError,
    >)
        requires
            old(self).wf(),
        ensures
            final(self).wf(),
            match spec_gc_error(old(self).graphics_contexts.view(), namespace, gc) {
                Some(e) => r == Err::<(), XAuthorityRuntimeError>(e) && *final(self) == *old(self),
                None => {
                    &&& r is Ok
                    &&& final(self).graphics_contexts.view() == old(self).graphics_contexts.view().remove(gc)
                    &&& *final(self) == (XAuthorityRuntime {
                        graphics_contexts: final(self).graphics_contexts,
                        ..*old(self)
                    })
                },
            },
    {
        self.graphics_contexts.remove(namespace, gc)
    }

    /// The pixel a window's background is filled with; zero until set.
    pub fn window_background_pixel(&self, namespace: NamespaceId, window: XResourceId) -> (r: Result<
        u32,
        XAuthorityRuntimeError,
    >)
        requires
            self.wf(),
        ensures
            window.local != X_SETUP_WM_CHECK_WINDOW && self.spec_access(
                namespace,
                window,
                XResourceKind::Window,
            ) is Some ==> r == Err::<u32, XAuthorityRuntimeError>(
                self.spec_access(namespace, window, XResourceKind::Window).unwrap(),
            ),
            window.local == X_SETUP_WM_CHECK_WINDOW || self.spec_access(
                namespace,
                window,
                XResourceKind::Window,
            ) is None ==> r == Ok::<u32, XAuthorityRuntimeError>(
                if self.window_background_pixels.view().contains_key(window) {
                    self.window_background_pixels.view()[window]
                } else {
                    0
                },
            ),
    {
        match self.validate_window_access(namespace, window) {
            Err(e) => {
                return Err(e);
            },
            Ok(()) => {},
        }
        match self.window_background_pixels.get(&window) {
            Some(p) => Ok(*p),
            None => Ok(0),
        }
    }

    pub fn set_window_background_pixel(&mut self, namespace: NamespaceId, window: XResourceId, pixel: u32) -> (r:
        Result<(), XAuthorityRuntimeError>)
        requires
            old(self).wf(),
        ensures
            final(self).wf(),
            window.local != X_SETUP_WM_CHECK_WINDOW && old(self).spec_access(
                namespace,
                window,
                XResourceKind::Window,
            ) is Some ==> r == Err::<(), XAuthorityRuntimeError>(
                old(self).spec_access(namespace, window, XResourceKind::Window).unwrap(),
            ) && *final(self) == *old(self),
            window.local == X_SETUP_WM_CHECK_WINDOW || old(self).spec_access(
                namespace,
                window,
                XResourceKind::Window,
            ) is None ==> {
                &&& r is Ok
                &&& final(self).window_background_pixels.view() == old(self).window_background_pixels.view().insert(window, pixel)
                &&& *final(self) == (XAuthorityRuntime {
                    window_background_pixels: final(self).window_background_pixels,
                    ..*old(self)
                })
            },
    {
        match self.validate_window_access(namespace, window) {
            Err(e) => {
                return Err(e);
            },
            Ok(()) => {},
        }
        self.window_background_pixels.insert(window, pixel);
        Ok(())
    }

    /// The allocation a drawable a DRI3 client names is owed, if any: a
    /// window, pixmap or pbuffer this namespace may name, of its size and
    /// depth, under the next buffer handle. None when it already carries a
    /// DMA-BUF (`has_buffer`), holds pixels the CPU path drew -- a new
    /// buffer would be empty and replace them -- cannot be named, or is the
    /// root, which is the session's own output.
    pub fn dri3_pixmap_backing_request(
        &self,
        namespace: NamespaceId,
        drawable: XResourceId,
        has_buffer: bool,
    ) -> (r: Option<XServerFrontendPixmapAllocation>)
        requires
            self.wf(),
        ensures
            r == match self.spec_drawable_facts(namespace, drawable) {
                Ok(facts) => if has_buffer || self.software_buffers.buffers.view().contains_key(drawable)
                    || facts.kind == XDrawableKind::Root {
                    None
                } else {
                    Some(
                        XServerFrontendPixmapAllocation {
                            size: Size { width: facts.geometry.width, height: facts.geometry.height },
                            depth: facts.depth,
                            handle: if self.next_dma_buf_handle == 0 {
                                1
                            } else {
                                self.next_dma_buf_handle
                            },
                        },
                    )
                },
                Err(_) => None,
            },
    {
        if self.validate_dri3_drawable_access(namespace, drawable).is_err() {
            return None;
        }
        if has_buffer || self.software_buffers.has_cpu_backing(drawable) {
            return None;
        }
        let facts = match self.drawable_facts(namespace, drawable) {
            Ok(f) => f,
            Err(_) => return None,
        };
        if facts.kind == XDrawableKind::Root {
            return None;
        }
        Some(
            XServerFrontendPixmapAllocation {
                size: Size { width: facts.geometry.width, height: facts.geometry.height },
                depth: facts.depth,
                handle: self.next_dma_buf_handle(),
            },
        )
    }

    /// The face text drawn with a fontable takes: a font's own, or, when
    /// the id is no font, the face of the graphics context it names.
    pub fn fontable_face(&self, namespace: NamespaceId, fontable: XResourceId) -> (r: Result<
        XFontFace,
        XAuthorityRuntimeError,
    >)
        requires
            self.wf(),
        ensures
            r == match self.spec_font_face(namespace, fontable) {
                Ok(face) => Ok::<XFontFace, XAuthorityRuntimeError>(face),
                Err(XAuthorityRuntimeError::UnknownResource) | Err(XAuthorityRuntimeError::WrongResourceKind) =>
                    match spec_gc_lookup(self.graphics_contexts.view(), namespace, fontable) {
                        Ok(rec) => Ok(rec.font_face),
                        Err(e) => Err(e),
                    },
                Err(e) => Err(e),
            },
    {
        match self.font_face(namespace, fontable) {
            Ok(face) => Ok(face),
            Err(XAuthorityRuntimeError::UnknownResource) | Err(XAuthorityRuntimeError::WrongResourceKind) =>
                match self.graphics_contexts.get(namespace, fontable) {
                Ok(rec) => Ok(rec.font_face),
                Err(e) => Err(e),
            },
            Err(e) => Err(e),
        }
    }

    /// A context's drawable depth and the values core drawing reads.
    pub fn graphics_context_depth_and_values(&self, namespace: NamespaceId, gc: XResourceId) -> (r: Result<
        (u8, XGraphicsContextValues),
        XAuthorityRuntimeError,
    >)
        requires
            self.wf(),
        ensures
            match spec_gc_lookup(self.graphics_contexts.view(), namespace, gc) {
                Ok(rec) => r is Ok && r->Ok_0.0 == rec.depth && r->Ok_0.1@ == spec_core_draw_values(rec@),
                Err(e) => r is Err && r->Err_0 == e,
            },
    {
        match self.graphics_contexts.get(namespace, gc) {
            Ok(rec) => Ok((rec.depth, core_draw_gc_values(rec))),
            Err(e) => Err(e),
        }
    }

    /// A context's drawable depth, the values core drawing reads, and the
    /// face its text takes.
    pub fn graphics_context_depth_values_and_font(&self, namespace: NamespaceId, gc: XResourceId) -> (r: Result<
        (u8, XGraphicsContextValues, XFontFace),
        XAuthorityRuntimeError,
    >)
        requires
            self.wf(),
        ensures
            match spec_gc_lookup(self.graphics_contexts.view(), namespace, gc) {
                Ok(rec) => r is Ok && r->Ok_0.0 == rec.depth && r->Ok_0.1@ == spec_core_draw_values(rec@)
                    && r->Ok_0.2 == rec.font_face,
                Err(e) => r is Err && r->Err_0 == e,
            },
    {
        match self.graphics_contexts.get(namespace, gc) {
            Ok(rec) => Ok((rec.depth, core_draw_gc_values(rec), rec.font_face)),
            Err(e) => Err(e),
        }
    }
}

} // verus!
