use vstd::prelude::*;

use crate::geometry::Size;
use crate::ids::{NamespaceId, X_SETUP_DEFAULT_VISUAL, X_SETUP_WM_CHECK_WINDOW, XResourceId};
use crate::resources::{XAuthorityRuntimeError, XResourceKind};
use crate::gc::spec_gc_lookup;
use crate::runtime::{
    XAuthorityRuntime, XGlxContextRecord, XGlxDrawableBacking, XGlxDrawableRecord, XGlxPixmapTexture,
    XRetainedPixmapBacking,
};
use crate::runtime::windows::spec_default_window_visual;

verus! {

pub const GLX_TEXTURE_FORMAT_NONE_EXT: u32 = 0x20D8;
pub const GLX_TEXTURE_FORMAT_RGB_EXT: u32 = 0x20D9;
pub const GLX_TEXTURE_FORMAT_RGBA_EXT: u32 = 0x20DA;
pub const GLX_TEXTURE_1D_EXT: u32 = 0x20DB;
pub const GLX_TEXTURE_2D_EXT: u32 = 0x20DC;
pub const GLX_TEXTURE_RECTANGLE_EXT: u32 = 0x20DD;
pub const GLX_TEXTURE_1D_BIT_EXT: u32 = 0x1;
pub const GLX_TEXTURE_2D_BIT_EXT: u32 = 0x2;
pub const GLX_TEXTURE_RECTANGLE_BIT_EXT: u32 = 0x4;
/// Every texture target a GLX pixmap may bind as.
pub const X_GLX_TEXTURE_TARGETS_ALL: u32 = 0x7;

/// One framebuffer configuration this server advertises.
#[derive(Clone, Copy, Debug, PartialEq, Eq, Structural)]
pub struct XGlxFbConfig {
    pub id: u32,
    pub visual: u32,
    pub visual_depth: u8,
    pub red_bits: u8,
    pub green_bits: u8,
    pub blue_bits: u8,
    pub alpha_bits: u8,
    pub bind_to_texture_rgb: bool,
    pub bind_to_texture_rgba: bool,
    pub bind_to_mipmap_texture: bool,
}

pub open spec fn spec_color_bits(c: XGlxFbConfig) -> int {
    c.red_bits + c.green_bits + c.blue_bits + c.alpha_bits
}

/// The texture format a GLX pixmap binds as when the client names none:
/// RGBA where the configuration has alpha to bind, else RGB where it binds
/// RGB, else none.
pub open spec fn spec_default_texture_format(c: XGlxFbConfig) -> u32 {
    if c.alpha_bits > 0 && c.bind_to_texture_rgba {
        GLX_TEXTURE_FORMAT_RGBA_EXT
    } else if c.bind_to_texture_rgb {
        GLX_TEXTURE_FORMAT_RGB_EXT
    } else {
        GLX_TEXTURE_FORMAT_NONE_EXT
    }
}

/// Whether a configuration can bind a texture of this format.
pub open spec fn spec_admits_texture_format(c: XGlxFbConfig, format: u32) -> bool {
    if format == GLX_TEXTURE_FORMAT_RGB_EXT {
        c.bind_to_texture_rgb
    } else if format == GLX_TEXTURE_FORMAT_RGBA_EXT {
        c.bind_to_texture_rgba
    } else {
        format == GLX_TEXTURE_FORMAT_NONE_EXT
    }
}

impl XGlxFbConfig {
    /// The bits of color, alpha included.
    pub fn color_bits(&self) -> (r: u16)
        ensures
            r == spec_color_bits(*self),
    {
        self.red_bits as u16 + self.green_bits as u16 + self.blue_bits as u16 + self.alpha_bits as u16
    }

    pub fn default_texture_format(&self) -> (r: u32)
        ensures
            r == spec_default_texture_format(*self),
    {
        if self.alpha_bits > 0 && self.bind_to_texture_rgba {
            GLX_TEXTURE_FORMAT_RGBA_EXT
        } else if self.bind_to_texture_rgb {
            GLX_TEXTURE_FORMAT_RGB_EXT
        } else {
            GLX_TEXTURE_FORMAT_NONE_EXT
        }
    }

    pub fn admits_texture_format(&self, format: u32) -> (r: bool)
        ensures
            r == spec_admits_texture_format(*self, format),
    {
        if format == GLX_TEXTURE_FORMAT_RGB_EXT {
            self.bind_to_texture_rgb
        } else if format == GLX_TEXTURE_FORMAT_RGBA_EXT {
            self.bind_to_texture_rgba
        } else {
            format == GLX_TEXTURE_FORMAT_NONE_EXT
        }
    }
}

/// The advertised configurations: an opaque one on the default visual and
/// one with alpha on the 32-bit visual.
pub open spec fn spec_fb_config(id: u32) -> Option<XGlxFbConfig> {
    if id == 1 {
        Some(
            XGlxFbConfig {
                id: 1,
                visual: X_SETUP_DEFAULT_VISUAL,
                visual_depth: 24,
                red_bits: 8,
                green_bits: 8,
                blue_bits: 8,
                alpha_bits: 0,
                bind_to_texture_rgb: true,
                bind_to_texture_rgba: false,
                bind_to_mipmap_texture: false,
            },
        )
    } else if id == 2 {
        Some(
            XGlxFbConfig {
                id: 2,
                visual: X_GLX_ARGB_VISUAL,
                visual_depth: 32,
                red_bits: 8,
                green_bits: 8,
                blue_bits: 8,
                alpha_bits: 8,
                bind_to_texture_rgb: true,
                bind_to_texture_rgba: true,
                bind_to_mipmap_texture: false,
            },
        )
    } else {
        None
    }
}

/// The 32-bit visual with alpha.
pub const X_GLX_ARGB_VISUAL: u32 = 0x0000_0022;

pub fn x_glx_fb_config(id: u32) -> (r: Option<XGlxFbConfig>)
    ensures
        r == spec_fb_config(id),
{
    if id == 1 {
        Some(
            XGlxFbConfig {
                id: 1,
                visual: X_SETUP_DEFAULT_VISUAL,
                visual_depth: 24,
                red_bits: 8,
                green_bits: 8,
                blue_bits: 8,
                alpha_bits: 0,
                bind_to_texture_rgb: true,
                bind_to_texture_rgba: false,
                bind_to_mipmap_texture: false,
            },
        )
    } else if id == 2 {
        Some(
            XGlxFbConfig {
                id: 2,
                visual: X_GLX_ARGB_VISUAL,
                visual_depth: 32,
                red_bits: 8,
                green_bits: 8,
                blue_bits: 8,
                alpha_bits: 8,
                bind_to_texture_rgb: true,
                bind_to_texture_rgba: true,
                bind_to_mipmap_texture: false,
            },
        )
    } else {
        None
    }
}

/// The configuration a plain X window renders through: the one on its
/// visual, the opaque one when no configuration is on it.
pub open spec fn spec_config_for_visual(visual: u32) -> u32 {
    if visual == X_GLX_ARGB_VISUAL {
        2
    } else {
        1
    }
}

pub fn config_for_visual(visual: u32) -> (r: u32)
    ensures
        r == spec_config_for_visual(visual),
{
    if visual == X_GLX_ARGB_VISUAL {
        2
    } else {
        1
    }
}

/// The bit a named texture target takes in a target mask.
pub open spec fn spec_texture_target_bit(target: u32) -> Option<u32> {
    if target == GLX_TEXTURE_1D_EXT {
        Some(GLX_TEXTURE_1D_BIT_EXT)
    } else if target == GLX_TEXTURE_2D_EXT {
        Some(GLX_TEXTURE_2D_BIT_EXT)
    } else if target == GLX_TEXTURE_RECTANGLE_EXT {
        Some(GLX_TEXTURE_RECTANGLE_BIT_EXT)
    } else {
        None
    }
}

/// Whether a target fits an extent: a 1D texture is one row high.
pub open spec fn spec_target_admits(bit: u32, height: i32) -> bool {
    bit != GLX_TEXTURE_1D_BIT_EXT || height == 1
}

/// The texture a GLX pixmap over a `width` x `height` pixmap binds as, or
/// `None` where the request asks for one the configuration cannot bind.
pub open spec fn spec_glx_pixmap_texture(
    config: XGlxFbConfig,
    requested_target: Option<u32>,
    requested_format: Option<u32>,
    requested_mipmap: Option<bool>,
    height: i32,
) -> Option<XGlxPixmapTexture> {
    let target = match requested_target {
        Some(named) => match spec_texture_target_bit(named) {
            Some(bit) => if X_GLX_TEXTURE_TARGETS_ALL & bit != 0 && spec_target_admits(bit, height) {
                Some(bit)
            } else {
                None
            },
            None => None,
        },
        None => Some(GLX_TEXTURE_2D_BIT_EXT),
    };
    let format = match requested_format {
        Some(f) => f,
        None => spec_default_texture_format(config),
    };
    let mipmap = match requested_mipmap {
        Some(m) => m,
        None => false,
    };
    match target {
        None => None,
        Some(t) => if !spec_admits_texture_format(config, format) || (mipmap
            && !config.bind_to_mipmap_texture) {
            None
        } else {
            Some(XGlxPixmapTexture { target: t, format, mipmap })
        },
    }
}

impl XAuthorityRuntime {
    /// Whether a GLX id collides with a live resource, a graphics context or
    /// a GLX object.
    pub open spec fn spec_glx_id_taken(&self, id: XResourceId) -> bool {
        self.resources.view().contains_key(id) || self.graphics_contexts.view().contains_key(id)
            || self.glx_contexts.view().contains_key(id) || self.glx_drawables.view().contains_key(id)
    }

    pub open spec fn spec_window_visual(&self, window: XResourceId) -> (u8, u32, XResourceId) {
        if self.window_visuals.view().contains_key(window) {
            self.window_visuals.view()[window]
        } else {
            spec_default_window_visual()
        }
    }

    /// The GLX drawable of this namespace under `id`, if any.
    pub open spec fn spec_own_glx_drawable(&self, namespace: NamespaceId, id: XResourceId) -> Option<
        XGlxDrawableRecord,
    > {
        if self.glx_drawables.view().contains_key(id) && self.glx_drawables.view()[id].owner
            == namespace {
            Some(self.glx_drawables.view()[id])
        } else {
            None
        }
    }

    /// What `glx_drawable` answers.
    pub open spec fn spec_glx_drawable(&self, namespace: NamespaceId, drawable: XResourceId) -> Result<
        (XResourceId, u32),
        XAuthorityRuntimeError,
    > {
        if self.glx_drawables.view().contains_key(drawable) {
            let rec = self.glx_drawables.view()[drawable];
            if rec.owner != namespace {
                Err(XAuthorityRuntimeError::UnknownResource)
            } else {
                match rec.backing {
                    XGlxDrawableBacking::Window(w) => Ok((w, rec.fbconfig)),
                    _ => Err(XAuthorityRuntimeError::WrongResourceKind),
                }
            }
        } else if drawable.local != X_SETUP_WM_CHECK_WINDOW && self.spec_access(
            namespace,
            drawable,
            XResourceKind::Window,
        ) is Some {
            Err(self.spec_access(namespace, drawable, XResourceKind::Window).unwrap())
        } else {
            Ok((drawable, spec_config_for_visual(self.spec_window_visual(drawable).1)))
        }
    }

    fn glx_id_taken(&self, id: XResourceId) -> (r: bool)
        requires
            self.wf(),
        ensures
            r == self.spec_glx_id_taken(id),
    {
        self.resources.get(id).is_some() || self.graphics_contexts.contains(id) || self.glx_contexts.contains_key(&id)
            || self.glx_drawables.contains_key(&id)
    }

    fn own_glx_drawable(&self, namespace: NamespaceId, id: XResourceId) -> (r: Option<XGlxDrawableRecord>)
        requires
            self.wf(),
        ensures
            r == self.spec_own_glx_drawable(namespace, id),
    {
        match self.glx_drawables.get(&id) {
            Some(rec) => if rec.owner == namespace {
                Some(*rec)
            } else {
                None
            },
            None => None,
        }
    }

    pub fn create_glx_context(
        &mut self,
        namespace: NamespaceId,
        context: XResourceId,
        fbconfig: u32,
        direct: bool,
    ) -> (r: Result<(), XAuthorityRuntimeError>)
        requires
            old(self).wf(),
        ensures
            final(self).wf(),
            old(self).spec_glx_id_taken(context) ==> r == Err::<(), XAuthorityRuntimeError>(
                XAuthorityRuntimeError::InvalidResource,
            ) && *final(self) == *old(self),
            !old(self).spec_glx_id_taken(context) ==> {
                &&& r is Ok
                &&& final(self).glx_contexts.view() == old(self).glx_contexts.view().insert(
                    context,
                    XGlxContextRecord { owner: namespace, fbconfig, direct },
                )
                &&& *final(self) == (XAuthorityRuntime {
                    glx_contexts: final(self).glx_contexts,
                    ..*old(self)
                })
            },
    {
        if self.glx_id_taken(context) {
            return Err(XAuthorityRuntimeError::InvalidResource);
        }
        self.glx_contexts.insert(context, XGlxContextRecord { owner: namespace, fbconfig, direct });
        Ok(())
    }

    /// A context's configuration and directness, when this namespace owns it.
    pub fn glx_context(&self, namespace: NamespaceId, context: XResourceId) -> (r: Result<
        (u32, bool),
        XAuthorityRuntimeError,
    >)
        requires
            self.wf(),
        ensures
            r == if self.glx_contexts.view().contains_key(context)
                && self.glx_contexts.view()[context].owner == namespace {
                Ok::<(u32, bool), XAuthorityRuntimeError>(
                    (
                        self.glx_contexts.view()[context].fbconfig,
                        self.glx_contexts.view()[context].direct,
                    ),
                )
            } else {
                Err(XAuthorityRuntimeError::UnknownResource)
            },
    {
        match self.glx_contexts.get(&context) {
            Some(rec) => if rec.owner == namespace {
                Ok((rec.fbconfig, rec.direct))
            } else {
                Err(XAuthorityRuntimeError::UnknownResource)
            },
            None => Err(XAuthorityRuntimeError::UnknownResource),
        }
    }

    pub fn destroy_glx_context(&mut self, namespace: NamespaceId, context: XResourceId) -> (r:
        Result<(), XAuthorityRuntimeError>)
        requires
            old(self).wf(),
        ensures
            final(self).wf(),
            !(old(self).glx_contexts.view().contains_key(context) && old(self).glx_contexts.view()[context].owner == namespace) ==> r == Err::<
                (),
                XAuthorityRuntimeError,
            >(XAuthorityRuntimeError::UnknownResource) && *final(self) == *old(self),
            old(self).glx_contexts.view().contains_key(context) && old(self).glx_contexts.view()[context].owner == namespace ==> {
                &&& r is Ok
                &&& final(self).glx_contexts.view() == old(self).glx_contexts.view().remove(context)
                &&& *final(self) == (XAuthorityRuntime {
                    glx_contexts: final(self).glx_contexts,
                    ..*old(self)
                })
            },
    {
        match self.glx_context(namespace, context) {
            Err(e) => {
                return Err(e);
            },
            Ok(_) => {},
        }
        self.glx_contexts.remove(&context);
        Ok(())
    }

    /// Wraps a window of this namespace as a GLX drawable.
    pub fn create_glx_window(
        &mut self,
        namespace: NamespaceId,
        glx_window: XResourceId,
        window: XResourceId,
        fbconfig: u32,
    ) -> (r: Result<(), XAuthorityRuntimeError>)
        requires
            old(self).wf(),
        ensures
            final(self).wf(),
            window.local != X_SETUP_WM_CHECK_WINDOW && old(self).spec_access(
                namespace,
                window,
                XResourceKind::Window,
            ) is Some ==> r == Err::<(), XAuthorityRuntimeError>(
                old(self).spec_access(namespace, window, XResourceKind::Window).unwrap(),
            ) && *final(self) == *old(self),
            (window.local == X_SETUP_WM_CHECK_WINDOW || old(self).spec_access(
                namespace,
                window,
                XResourceKind::Window,
            ) is None) ==> if old(self).spec_glx_id_taken(glx_window) {
                r == Err::<(), XAuthorityRuntimeError>(XAuthorityRuntimeError::InvalidResource)
                    && *final(self) == *old(self)
            } else {
                &&& r is Ok
                &&& final(self).glx_drawables.view() == old(self).glx_drawables.view().insert(
                    glx_window,
                    XGlxDrawableRecord {
                        owner: namespace,
                        fbconfig,
                        backing: XGlxDrawableBacking::Window(window),
                    },
                )
                &&& *final(self) == (XAuthorityRuntime {
                    glx_drawables: final(self).glx_drawables,
                    ..*old(self)
                })
            },
    {
        match self.validate_window_access(namespace, window) {
            Err(e) => {
                return Err(e);
            },
            Ok(()) => {},
        }
        if self.glx_id_taken(glx_window) {
            return Err(XAuthorityRuntimeError::InvalidResource);
        }
        self.glx_drawables.insert(
            glx_window,
            XGlxDrawableRecord {
                owner: namespace,
                fbconfig,
                backing: XGlxDrawableBacking::Window(window),
            },
        );
        Ok(())
    }

    /// The X window behind a GLX drawable and its configuration; a plain
    /// window of this namespace answers as its own drawable, configured
    /// by its visual.
    pub fn glx_drawable(&self, namespace: NamespaceId, drawable: XResourceId) -> (r: Result<
        (XResourceId, u32),
        XAuthorityRuntimeError,
    >)
        requires
            self.wf(),
        ensures
            r == self.spec_glx_drawable(namespace, drawable),
    {
        match self.glx_drawables.get(&drawable) {
            Some(rec) => {
                if rec.owner != namespace {
                    return Err(XAuthorityRuntimeError::UnknownResource);
                }
                return match rec.backing {
                    XGlxDrawableBacking::Window(w) => Ok((w, rec.fbconfig)),
                    _ => Err(XAuthorityRuntimeError::WrongResourceKind),
                };
            },
            None => {},
        }
        match self.validate_window_access(namespace, drawable) {
            Err(e) => {
                return Err(e);
            },
            Ok(()) => {},
        }
        let visual = self.window_visual(drawable).1;
        Ok((drawable, config_for_visual(visual)))
    }

    /// Records an offscreen GLX drawable of a given extent.
    pub fn create_glx_pbuffer(
        &mut self,
        namespace: NamespaceId,
        pbuffer: XResourceId,
        fbconfig: u32,
        size: Size,
    ) -> (r: Result<(), XAuthorityRuntimeError>)
        requires
            old(self).wf(),
        ensures
            final(self).wf(),
            old(self).spec_glx_id_taken(pbuffer) ==> r == Err::<(), XAuthorityRuntimeError>(
                XAuthorityRuntimeError::InvalidResource,
            ) && *final(self) == *old(self),
            !old(self).spec_glx_id_taken(pbuffer) ==> {
                &&& r is Ok
                &&& final(self).glx_drawables.view() == old(self).glx_drawables.view().insert(
                    pbuffer,
                    XGlxDrawableRecord {
                        owner: namespace,
                        fbconfig,
                        backing: XGlxDrawableBacking::Pbuffer(size),
                    },
                )
                &&& *final(self) == (XAuthorityRuntime {
                    glx_drawables: final(self).glx_drawables,
                    ..*old(self)
                })
            },
    {
        if self.glx_id_taken(pbuffer) {
            return Err(XAuthorityRuntimeError::InvalidResource);
        }
        self.glx_drawables.insert(
            pbuffer,
            XGlxDrawableRecord {
                owner: namespace,
                fbconfig,
                backing: XGlxDrawableBacking::Pbuffer(size),
            },
        );
        Ok(())
    }

    /// The extent and configuration of a pbuffer this namespace owns.
    pub fn glx_pbuffer(&self, namespace: NamespaceId, pbuffer: XResourceId) -> (r: Result<
        (Size, u32),
        XAuthorityRuntimeError,
    >)
        requires
            self.wf(),
        ensures
            r == match self.spec_own_glx_drawable(namespace, pbuffer) {
                None => Err(XAuthorityRuntimeError::UnknownResource),
                Some(rec) => match rec.backing {
                    XGlxDrawableBacking::Pbuffer(size) => Ok::<(Size, u32), XAuthorityRuntimeError>(
                        (size, rec.fbconfig),
                    ),
                    _ => Err(XAuthorityRuntimeError::WrongResourceKind),
                },
            },
    {
        match self.own_glx_drawable(namespace, pbuffer) {
            None => Err(XAuthorityRuntimeError::UnknownResource),
            Some(rec) => match rec.backing {
                XGlxDrawableBacking::Pbuffer(size) => Ok((size, rec.fbconfig)),
                _ => Err(XAuthorityRuntimeError::WrongResourceKind),
            },
        }
    }

    /// Removes a GLX drawable of this namespace whose backing `is_kind`
    /// accepts.
    fn destroy_glx_drawable_of_kind(&mut self, namespace: NamespaceId, id: XResourceId, kind: u8) -> (r:
        Result<(), XAuthorityRuntimeError>)
        requires
            old(self).wf(),
        ensures
            final(self).wf(),
            match old(self).spec_own_glx_drawable(namespace, id) {
                None => r == Err::<(), XAuthorityRuntimeError>(
                    XAuthorityRuntimeError::UnknownResource,
                ) && *final(self) == *old(self),
                Some(rec) => if spec_backing_kind(rec.backing) != kind {
                    r == Err::<(), XAuthorityRuntimeError>(
                        XAuthorityRuntimeError::WrongResourceKind,
                    ) && *final(self) == *old(self)
                } else {
                    &&& r is Ok
                    &&& final(self).glx_drawables.view() == old(self).glx_drawables.view().remove(id)
                    &&& *final(self) == (XAuthorityRuntime {
                        glx_drawables: final(self).glx_drawables,
                        ..*old(self)
                    })
                },
            },
    {
        match self.own_glx_drawable(namespace, id) {
            None => {
                return Err(XAuthorityRuntimeError::UnknownResource);
            },
            Some(rec) => {
                let k: u8 = match rec.backing {
                    XGlxDrawableBacking::Window(_) => 0,
                    XGlxDrawableBacking::Pbuffer(_) => 1,
                    XGlxDrawableBacking::Pixmap { .. } => 2,
                };
                if k != kind {
                    return Err(XAuthorityRuntimeError::WrongResourceKind);
                }
            },
        }
        self.glx_drawables.remove(&id);
        Ok(())
    }

    pub fn destroy_glx_pbuffer(&mut self, namespace: NamespaceId, pbuffer: XResourceId) -> (r:
        Result<(), XAuthorityRuntimeError>)
        requires
            old(self).wf(),
        ensures
            final(self).wf(),
            match old(self).spec_own_glx_drawable(namespace, pbuffer) {
                None => r == Err::<(), XAuthorityRuntimeError>(
                    XAuthorityRuntimeError::UnknownResource,
                ) && *final(self) == *old(self),
                Some(rec) => if !(rec.backing is Pbuffer) {
                    r == Err::<(), XAuthorityRuntimeError>(
                        XAuthorityRuntimeError::WrongResourceKind,
                    ) && *final(self) == *old(self)
                } else {
                    &&& r is Ok
                    &&& final(self).glx_drawables.view() == old(self).glx_drawables.view().remove(
                        pbuffer,
                    )
                    &&& *final(self) == (XAuthorityRuntime {
                        glx_drawables: final(self).glx_drawables,
                        ..*old(self)
                    })
                },
            },
    {
        self.destroy_glx_drawable_of_kind(namespace, pbuffer, 1)
    }

    /// Destroys a GLX window alias; a plain X window is not one.
    pub fn destroy_glx_window(&mut self, namespace: NamespaceId, glx_window: XResourceId) -> (r:
        Result<(), XAuthorityRuntimeError>)
        requires
            old(self).wf(),
        ensures
            final(self).wf(),
            match old(self).spec_own_glx_drawable(namespace, glx_window) {
                None => r == Err::<(), XAuthorityRuntimeError>(
                    XAuthorityRuntimeError::UnknownResource,
                ) && *final(self) == *old(self),
                Some(rec) => if !(rec.backing is Window) {
                    r == Err::<(), XAuthorityRuntimeError>(
                        XAuthorityRuntimeError::WrongResourceKind,
                    ) && *final(self) == *old(self)
                } else {
                    &&& r is Ok
                    &&& final(self).glx_drawables.view() == old(self).glx_drawables.view().remove(
                        glx_window,
                    )
                    &&& *final(self) == (XAuthorityRuntime {
                        glx_drawables: final(self).glx_drawables,
                        ..*old(self)
                    })
                },
            },
    {
        self.destroy_glx_drawable_of_kind(namespace, glx_window, 0)
    }

    /// Wraps a pixmap of this namespace as a GLX pixmap bound as a texture.
    pub fn create_glx_pixmap(
        &mut self,
        namespace: NamespaceId,
        glx_pixmap: XResourceId,
        config: XGlxFbConfig,
        pixmap: XResourceId,
        requested_target: Option<u32>,
        requested_format: Option<u32>,
        requested_mipmap: Option<bool>,
    ) -> (r: Result<(), XAuthorityRuntimeError>)
        requires
            old(self).wf(),
        ensures
            final(self).wf(),
            r is Err ==> *final(self) == *old(self),
            old(self).spec_glx_id_taken(glx_pixmap) || spec_gc_lookup(
                old(self).graphics_contexts.view(),
                namespace,
                glx_pixmap,
            ) is Ok ==> r == Err::<(), XAuthorityRuntimeError>(
                XAuthorityRuntimeError::InvalidResource,
            ),
            !(old(self).spec_glx_id_taken(glx_pixmap) || spec_gc_lookup(
                old(self).graphics_contexts.view(),
                namespace,
                glx_pixmap,
            ) is Ok) ==> match old(self).spec_access(namespace, pixmap, XResourceKind::Pixmap) {
                Some(e) => r == Err::<(), XAuthorityRuntimeError>(e),
                None => if !old(self).pixmaps.view().contains_key(pixmap) {
                    r == Err::<(), XAuthorityRuntimeError>(XAuthorityRuntimeError::UnknownResource)
                } else {
                    let p = old(self).pixmaps.view()[pixmap];
                    if p.depth != config.visual_depth && p.depth != spec_color_bits(config) {
                        r == Err::<(), XAuthorityRuntimeError>(
                            XAuthorityRuntimeError::WrongResourceKind,
                        )
                    } else {
                        match spec_glx_pixmap_texture(
                            config,
                            requested_target,
                            requested_format,
                            requested_mipmap,
                            p.size.height,
                        ) {
                            None => r == Err::<(), XAuthorityRuntimeError>(
                                XAuthorityRuntimeError::InvalidResource,
                            ),
                            Some(texture) => {
                                &&& r is Ok
                                &&& final(self).glx_drawables.view() == old(self).glx_drawables.view().insert(
                                    glx_pixmap,
                                    XGlxDrawableRecord {
                                        owner: namespace,
                                        fbconfig: config.id,
                                        backing: XGlxDrawableBacking::Pixmap { pixmap, texture },
                                    },
                                )
                                &&& *final(self) == (XAuthorityRuntime {
                                    glx_drawables: final(self).glx_drawables,
                                    ..*old(self)
                                })
                            },
                        }
                    }
                },
            },
    {
        if self.glx_id_taken(glx_pixmap) || self.graphics_contexts.get(namespace, glx_pixmap).is_ok() {
            return Err(XAuthorityRuntimeError::InvalidResource);
        }
        match self.access(namespace, pixmap, XResourceKind::Pixmap) {
            Err(e) => {
                return Err(e);
            },
            Ok(()) => {},
        }
        let p = match self.pixmaps.get(&pixmap) {
            None => {
                return Err(XAuthorityRuntimeError::UnknownResource);
            },
            Some(p) => *p,
        };
        if p.depth != config.visual_depth && p.depth as u16 != config.color_bits() {
            return Err(XAuthorityRuntimeError::WrongResourceKind);
        }
        let target = match requested_target {
            Some(named) => {
                let bit = if named == GLX_TEXTURE_1D_EXT {
                    GLX_TEXTURE_1D_BIT_EXT
                } else if named == GLX_TEXTURE_2D_EXT {
                    GLX_TEXTURE_2D_BIT_EXT
                } else if named == GLX_TEXTURE_RECTANGLE_EXT {
                    GLX_TEXTURE_RECTANGLE_BIT_EXT
                } else {
                    return Err(XAuthorityRuntimeError::InvalidResource);
                };
                if X_GLX_TEXTURE_TARGETS_ALL & bit == 0 || (bit == GLX_TEXTURE_1D_BIT_EXT
                    && p.size.height != 1) {
                    return Err(XAuthorityRuntimeError::InvalidResource);
                }
                bit
            },
            None => GLX_TEXTURE_2D_BIT_EXT,
        };
        let format = match requested_format {
            Some(f) => f,
            None => config.default_texture_format(),
        };
        if !config.admits_texture_format(format) {
            return Err(XAuthorityRuntimeError::InvalidResource);
        }
        let mipmap = match requested_mipmap {
            Some(m) => m,
            None => false,
        };
        if mipmap && !config.bind_to_mipmap_texture {
            return Err(XAuthorityRuntimeError::InvalidResource);
        }
        self.glx_drawables.insert(
            glx_pixmap,
            XGlxDrawableRecord {
                owner: namespace,
                fbconfig: config.id,
                backing: XGlxDrawableBacking::Pixmap {
                    pixmap,
                    texture: XGlxPixmapTexture { target, format, mipmap },
                },
            },
        );
        Ok(())
    }

    /// The pixmap and configuration of a GLX pixmap this namespace owns.
    pub fn glx_pixmap(&self, namespace: NamespaceId, glx_pixmap: XResourceId) -> (r: Result<
        (XResourceId, u32),
        XAuthorityRuntimeError,
    >)
        requires
            self.wf(),
        ensures
            r == match self.spec_own_glx_drawable(namespace, glx_pixmap) {
                None => Err(XAuthorityRuntimeError::UnknownResource),
                Some(rec) => match rec.backing {
                    XGlxDrawableBacking::Pixmap { pixmap, .. } => Ok::<
                        (XResourceId, u32),
                        XAuthorityRuntimeError,
                    >((pixmap, rec.fbconfig)),
                    _ => Err(XAuthorityRuntimeError::WrongResourceKind),
                },
            },
    {
        match self.own_glx_drawable(namespace, glx_pixmap) {
            None => Err(XAuthorityRuntimeError::UnknownResource),
            Some(rec) => match rec.backing {
                XGlxDrawableBacking::Pixmap { pixmap, .. } => Ok((pixmap, rec.fbconfig)),
                _ => Err(XAuthorityRuntimeError::WrongResourceKind),
            },
        }
    }

    /// The configuration a drawable binds a context through: a GLX
    /// drawable's own, or a plain window's by its visual.
    pub fn glx_drawable_config(&self, namespace: NamespaceId, drawable: XResourceId) -> (r: Result<
        u32,
        XAuthorityRuntimeError,
    >)
        requires
            self.wf(),
        ensures
            r == match self.spec_own_glx_drawable(namespace, drawable) {
                Some(rec) => Ok::<u32, XAuthorityRuntimeError>(rec.fbconfig),
                None => match self.spec_glx_drawable(namespace, drawable) {
                    Ok((_, c)) => Ok::<u32, XAuthorityRuntimeError>(c),
                    Err(e) => Err(e),
                },
            },
    {
        match self.own_glx_drawable(namespace, drawable) {
            Some(rec) => Ok(rec.fbconfig),
            None => match self.glx_drawable(namespace, drawable) {
                Ok((_, c)) => Ok(c),
                Err(e) => Err(e),
            },
        }
    }

    /// A GLX pixmap's extent, configuration and texture binding.
    /// What `glx_pixmap_attributes` answers: the bound pixmap's extent (or,
    /// once freed, its retained backing's), the configuration and the
    /// texture.
    pub open spec fn spec_glx_pixmap_attributes(&self, namespace: NamespaceId, glx_pixmap: XResourceId) -> Result<
        (Size, u32, XGlxPixmapTexture),
        XAuthorityRuntimeError,
    > {
        match self.spec_own_glx_drawable(namespace, glx_pixmap) {
            None => Err(XAuthorityRuntimeError::UnknownResource),
            Some(rec) => match rec.backing {
                XGlxDrawableBacking::Pixmap { pixmap, texture } => if self.pixmaps.view().contains_key(
                    pixmap,
                ) {
                    Ok::<(Size, u32, XGlxPixmapTexture), XAuthorityRuntimeError>(
                        (self.pixmaps.view()[pixmap].size, rec.fbconfig, texture),
                    )
                } else if self.retained_pixmap_backings.view().contains_key(pixmap) {
                    Ok::<(Size, u32, XGlxPixmapTexture), XAuthorityRuntimeError>(
                        (self.retained_pixmap_backings.view()[pixmap].pixmap.size, rec.fbconfig, texture),
                    )
                } else {
                    Err(XAuthorityRuntimeError::UnknownResource)
                },
                _ => Err(XAuthorityRuntimeError::WrongResourceKind),
            },
        }
    }

    pub fn glx_pixmap_attributes(&self, namespace: NamespaceId, glx_pixmap: XResourceId) -> (r:
        Result<(Size, u32, XGlxPixmapTexture), XAuthorityRuntimeError>)
        requires
            self.wf(),
        ensures
            r == self.spec_glx_pixmap_attributes(namespace, glx_pixmap),
    {
        match self.own_glx_drawable(namespace, glx_pixmap) {
            None => Err(XAuthorityRuntimeError::UnknownResource),
            Some(rec) => match rec.backing {
                XGlxDrawableBacking::Pixmap { pixmap, texture } => match self.pixmaps.get(&pixmap) {
                    Some(p) => Ok((p.size, rec.fbconfig, texture)),
                    None => match self.retained_pixmap_backings.get(&pixmap) {
                        Some(held) => Ok((held.pixmap.size, rec.fbconfig, texture)),
                        None => Err(XAuthorityRuntimeError::UnknownResource),
                    },
                },
                _ => Err(XAuthorityRuntimeError::WrongResourceKind),
            },
        }
    }

    /// Destroys a GLX pixmap; when it bound a freed pixmap's retained
    /// backing, it drops its hold on it (see `release_retained_referent`).
    pub fn destroy_glx_pixmap(&mut self, namespace: NamespaceId, glx_pixmap: XResourceId) -> (r:
        Result<(), XAuthorityRuntimeError>)
        requires
            old(self).wf(),
        ensures
            final(self).wf(),
            match old(self).spec_own_glx_drawable(namespace, glx_pixmap) {
                None => r == Err::<(), XAuthorityRuntimeError>(
                    XAuthorityRuntimeError::UnknownResource,
                ) && *final(self) == *old(self),
                Some(rec) => match rec.backing {
                    XGlxDrawableBacking::Pixmap { pixmap: backing, .. } => {
                        let held = old(self).retained_pixmap_backings.view()[backing];
                        &&& r is Ok
                        &&& final(self).glx_drawables.view() == old(self).glx_drawables.view().remove(glx_pixmap)
                        &&& !old(self).retained_pixmap_backings.view().contains_key(backing) ==> *final(self) == (
                        XAuthorityRuntime { glx_drawables: final(self).glx_drawables, ..*old(self) })
                        &&& old(self).retained_pixmap_backings.view().contains_key(backing) && held.glx_pixmaps
                            <= 1 ==> {
                            &&& final(self).retained_pixmap_backings.view()
                                == old(self).retained_pixmap_backings.view().remove(backing)
                            &&& final(self).software_buffers.buffers.view()
                                == old(self).software_buffers.buffers.view().remove(backing)
                            &&& final(self).software_buffers.presentations.view()
                                == old(self).software_buffers.presentations.view().remove(backing)
                            &&& final(self).software_buffers.next_handle == old(self).software_buffers.next_handle
                            &&& final(self).software_buffers.export_damage == old(self).software_buffers.export_damage
                            &&& *final(self) == (XAuthorityRuntime {
                                glx_drawables: final(self).glx_drawables,
                                retained_pixmap_backings: final(self).retained_pixmap_backings,
                                software_buffers: final(self).software_buffers,
                                ..*old(self)
                            })
                        }
                        &&& old(self).retained_pixmap_backings.view().contains_key(backing) && held.glx_pixmaps
                            > 1 ==> {
                            &&& final(self).retained_pixmap_backings.view()
                                == old(self).retained_pixmap_backings.view().insert(
                                backing,
                                XRetainedPixmapBacking { glx_pixmaps: (held.glx_pixmaps - 1) as u64, ..held },
                            )
                            &&& *final(self) == (XAuthorityRuntime {
                                glx_drawables: final(self).glx_drawables,
                                retained_pixmap_backings: final(self).retained_pixmap_backings,
                                ..*old(self)
                            })
                        }
                    },
                    _ => r == Err::<(), XAuthorityRuntimeError>(XAuthorityRuntimeError::WrongResourceKind)
                        && *final(self) == *old(self),
                },
            },
    {
        let backing = match self.own_glx_drawable(namespace, glx_pixmap) {
            Some(rec) => match rec.backing {
                XGlxDrawableBacking::Pixmap { pixmap, .. } => pixmap,
                _ => {
                    return Err(XAuthorityRuntimeError::WrongResourceKind);
                },
            },
            None => {
                return Err(XAuthorityRuntimeError::UnknownResource);
            },
        };
        self.glx_drawables.remove(&glx_pixmap);
        self.release_retained_referent(backing);
        Ok(())
    }
}

/// Which kind of backing a GLX drawable has: window, pbuffer or pixmap.
pub open spec fn spec_backing_kind(b: XGlxDrawableBacking) -> u8 {
    match b {
        XGlxDrawableBacking::Window(_) => 0,
        XGlxDrawableBacking::Pbuffer(_) => 1,
        XGlxDrawableBacking::Pixmap { .. } => 2,
    }
}

} // verus!
