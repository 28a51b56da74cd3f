//! The authority's whole state: every table a client request is checked
//! against, and the requests that read and change them.
use vstd::prelude::*;

use crate::software::store::XSoftwareBufferStore;

use crate::gc::{XFontFace, XGraphicsContextTable, XOwned};
use crate::geometry::{Rect, Size};
use crate::ids::{NamespaceId, SurfaceId, X_SETUP_DEFAULT_COLORMAP, X_SETUP_DEFAULT_ROOT, XResourceId};
use crate::render::{XRenderCursorImage, XRenderGlyphInfo, XRenderPictFormatKind, XRenderPictureRecord};
use crate::resources::{XAuthorityRuntimeError, XResourceKind, XResourceRecord, XResourceTable, spec_lookup};
use crate::selection::{XSelectionChangeKind, XSelectionMonitor, XSelectionOwnerUpdate};
use crate::table::XTable;
use crate::window::{XWindowRecord, XWindowTable};

pub mod windows;
pub mod glx;
pub mod resources;
pub mod drawing;
pub mod shape;
pub mod devices;
pub mod release;
pub mod glyphs;
pub mod pictures;
pub mod pointer;
pub mod retained;
pub mod core_draw;
pub mod present;

verus! {

/// A pixmap's extent and depth.
#[derive(Clone, Copy, Debug, PartialEq, Eq, Structural)]
pub struct XPixmapRecord {
    pub size: Size,
    pub depth: u8,
}

/// A pixmap whose id was freed while GLX pixmaps still bind it: kept under
/// a private key above the ids a client can name, until the last of them
/// goes.
#[derive(Clone, Copy, Debug, PartialEq, Eq, Structural)]
pub struct XRetainedPixmapBacking {
    pub namespace: NamespaceId,
    pub pixmap: XPixmapRecord,
    pub glx_pixmaps: u64,
}

/// The first private key a retained backing takes: the ids a client can
/// name fit in 32 bits.
pub const X_AUTHORITY_FIRST_RETAINED_BACKING: u64 = 0x1_0000_0000;

/// A MIT-SHM segment a client attached.
#[derive(Clone, Copy, Debug, PartialEq, Eq, Structural)]
pub struct XShmSegmentRecord {
    pub owner: NamespaceId,
    pub shmid: u32,
    pub read_only: bool,
    pub generation: u64,
}

/// A GLX context: who made it, its configuration, whether it is direct.
#[derive(Clone, Copy, Debug, PartialEq, Eq, Structural)]
pub struct XGlxContextRecord {
    pub owner: NamespaceId,
    pub fbconfig: u32,
    pub direct: bool,
}

/// The texture a GLX pixmap binds as.
#[derive(Clone, Copy, Debug, PartialEq, Eq, Structural)]
pub struct XGlxPixmapTexture {
    pub target: u32,
    pub format: u32,
    pub mipmap: bool,
}

/// What stands behind a GLX drawable.
#[derive(Clone, Copy, Debug, PartialEq, Eq, Structural)]
pub enum XGlxDrawableBacking {
    Window(XResourceId),
    Pbuffer(Size),
    Pixmap { pixmap: XResourceId, texture: XGlxPixmapTexture },
}

#[derive(Clone, Copy, Debug, PartialEq, Eq, Structural)]
pub struct XGlxDrawableRecord {
    pub owner: NamespaceId,
    pub fbconfig: u32,
    pub backing: XGlxDrawableBacking,
}

/// The segment memory a MIT-SHM pixmap is bound to.
#[derive(Clone, Copy, Debug, PartialEq, Eq, Structural)]
pub struct XShmPixmapBinding {
    pub segment: XResourceId,
    pub offset: u32,
    pub size: Size,
}

/// An XFIXES region: a rectangle list a client can name.
#[derive(Debug)]
pub struct XRegionRecord {
    pub rects: Vec<Rect>,
}

/// The three shapes a window may carry, each unset until a client sets it.
/// Unset means the window's live bounds; set-but-empty is a different answer.
#[derive(Debug)]
pub struct XWindowShapeState {
    pub bounding: Option<Vec<Rect>>,
    pub clip: Option<Vec<Rect>>,
    pub input: Option<Vec<Rect>>,
}

/// A shape change worth telling subscribers about.
#[derive(Clone, Copy, Debug, PartialEq, Eq, Structural)]
pub struct XShapeChange {
    pub window: XResourceId,
    pub kind: u8,
    /// Whether the kind is set at all, not whether it has area.
    pub shaped: bool,
    pub extents: Rect,
}

/// A geometry request's fields, each absent when the request leaves it.
#[derive(Clone, Copy, Debug, PartialEq, Eq, Structural)]
pub struct XWindowGeometryUpdate {
    pub x: Option<i16>,
    pub y: Option<i16>,
    pub width: Option<u16>,
    pub height: Option<u16>,
    pub generation: u64,
}

/// An advisory DRM device number. It grants no device access.
#[derive(Clone, Copy, Debug, PartialEq, Eq, Structural)]
pub struct XDrmDeviceHint {
    pub major: u32,
    pub minor: u32,
}

/// The render device a client connection was opened against.
#[derive(Clone, Copy, Debug, PartialEq, Eq, Structural)]
pub struct XRenderDeviceIdentity {
    pub device_number: u64,
}

/// The formats and modifiers a device imports, canonical: each format once,
/// its modifiers strictly increasing.
pub struct XDeviceBundle {
    pub available: bool,
    pub identity: Option<XRenderDeviceIdentity>,
    pub import_formats: XTable<u32, Vec<u64>>,
}

/// One format row of an allocation preference.
#[derive(Debug)]
pub struct XDmaBufImportFormat {
    pub format: u32,
    pub modifiers: Vec<u64>,
}

/// Allocation preferences for one surface.
#[derive(Debug)]
pub struct XWindowAllocationPreference {
    pub surface: SurfaceId,
    pub device: XDrmDeviceHint,
    pub identity: Option<XRenderDeviceIdentity>,
    pub formats: Vec<XDmaBufImportFormat>,
}

/// A complete replacement of every surface's allocation preferences.
#[derive(Debug)]
pub struct XWindowAllocationPreferences {
    pub generation: u64,
    pub topology_generation: u64,
    pub windows: Vec<XWindowAllocationPreference>,
}

/// What became of a preference snapshot.
#[derive(Clone, Copy, Debug, PartialEq, Eq, Structural)]
pub enum XWindowAllocationUpdate {
    Applied,
    Stale,
    Invalid,
}

/// The preferences in force, and the hints clients published.
pub struct XWindowAllocationState {
    pub generation: u64,
    pub topology_generation: u64,
    pub hints: XTable<SurfaceId, XDrmDeviceHint>,
    pub preferences: XTable<SurfaceId, XWindowAllocationPreference>,
}

/// One glyph: its metrics and its pixels, unpacked into the tight
/// `width * height` premultiplied `[b, g, r, a]` layout compositing samples.
pub struct XRenderGlyph {
    pub info: XRenderGlyphInfo,
    pub pixels: Vec<[u8; 4]>,
}

/// A glyph set's contents, shared by every name that references it.
pub struct XRenderGlyphStore {
    /// How many glyph set names share this store.
    pub references: u32,
    pub format: XRenderPictFormatKind,
    pub glyphs: XTable<u32, XRenderGlyph>,
}

/// Every table the authority keeps.
pub struct XAuthorityRuntime {
    pub resources: XResourceTable,
    pub windows: XWindowTable,
    pub graphics_contexts: XGraphicsContextTable,
    pub pixmaps: XTable<XResourceId, XPixmapRecord>,
    pub fonts: XTable<XResourceId, XFontFace>,
    pub glx_contexts: XTable<XResourceId, XGlxContextRecord>,
    pub glx_drawables: XTable<XResourceId, XGlxDrawableRecord>,
    pub xfixes_regions: XTable<XResourceId, XRegionRecord>,
    pub shm_segments: XTable<XResourceId, XShmSegmentRecord>,
    pub shm_pixmaps: XTable<XResourceId, XShmPixmapBinding>,
    pub window_background_pixels: XTable<XResourceId, u32>,
    /// Depth, visual and colormap a window was created with.
    pub window_visuals: XTable<XResourceId, (u8, u32, XResourceId)>,
    pub window_shapes: XTable<XResourceId, XWindowShapeState>,
    /// The clients that asked for a window's shape events.
    pub shape_selections: XTable<crate::runtime::shape::XShapeSelectionKey, ()>,
    pub dri3_fences: XTable<XResourceId, u64>,
    pub next_fence_handle: u64,
    pub render_cursor_images: XTable<XResourceId, XRenderCursorImage>,
    pub render_pictures: XTable<XResourceId, XRenderPictureRecord>,
    /// Each socket client's device pin; `None` pins an absent device.
    pub device_connections: XTable<u64, Option<XDeviceBundle>>,
    /// The fixed provider's import inventory, latched once.
    pub dma_buf_import_formats: Option<XTable<u32, Vec<u64>>>,
    pub next_dma_buf_handle: u64,
    pub window_allocation: XWindowAllocationState,
    pub topology_generation: u64,
    pub root_size: Option<Size>,
    /// The window each namespace has focused.
    pub input_focus: XTable<NamespaceId, XResourceId>,
    pub selections: XSelectionMonitor,
    /// Which glyph store each glyph set name shares.
    pub render_glyphsets: XTable<XResourceId, u64>,
    pub render_glyph_stores: XTable<u64, XRenderGlyphStore>,
    pub next_glyph_store: u64,
    /// Ownership changes watchers are owed, until taken.
    pub retired_selection_ownerships: Vec<XSelectionOwnerUpdate>,
    /// Policy-managed windows a client maps wait for the compositor's
    /// decision instead of mapping at once.
    pub defer_policy_maps: bool,
    /// The pixels drawables hold on the CPU path.
    pub software_buffers: XSoftwareBufferStore,
    /// Freed pixmaps GLX pixmaps still bind, under their private keys.
    pub retained_pixmap_backings: XTable<XResourceId, XRetainedPixmapBacking>,
    /// The next private key a retained backing may take.
    pub next_render_backing: u64,
}

impl XOwned for XShmSegmentRecord {
    open spec fn owner_of(&self) -> NamespaceId {
        self.owner
    }

    fn owner(&self) -> (r: NamespaceId) {
        self.owner
    }
}

impl XOwned for XGlxContextRecord {
    open spec fn owner_of(&self) -> NamespaceId {
        self.owner
    }

    fn owner(&self) -> (r: NamespaceId) {
        self.owner
    }
}

impl XOwned for XGlxDrawableRecord {
    open spec fn owner_of(&self) -> NamespaceId {
        self.owner
    }

    fn owner(&self) -> (r: NamespaceId) {
        self.owner
    }
}

impl XAuthorityRuntime {
    pub open spec fn wf(&self) -> bool {
        &&& self.resources.wf()
        &&& self.windows.wf()
        &&& self.graphics_contexts.wf()
        &&& self.pixmaps.wf()
        &&& self.fonts.wf()
        &&& self.glx_contexts.wf()
        &&& self.glx_drawables.wf()
        &&& self.xfixes_regions.wf()
        &&& self.shm_segments.wf()
        &&& self.shm_pixmaps.wf()
        &&& self.window_background_pixels.wf()
        &&& self.window_visuals.wf()
        &&& self.window_shapes.wf()
        &&& self.shape_selections.wf()
        &&& self.dri3_fences.wf()
        &&& self.render_cursor_images.wf()
        &&& self.render_pictures.wf()
        &&& self.device_connections.wf()
        &&& (match self.dma_buf_import_formats {
            Some(t) => t.wf(),
            None => true,
        })
        &&& self.window_allocation.hints.wf()
        &&& self.window_allocation.preferences.wf()
        &&& forall|sf: SurfaceId| #[trigger]
            self.window_allocation.preferences.view().contains_key(sf) ==> crate::runtime::devices::spec_pref_rows_sorted(
                self.window_allocation.preferences.view()[sf],
            )
        &&& self.input_focus.wf()
        &&& self.selections.wf()
        &&& self.software_buffers.wf()
        &&& self.render_glyphsets.wf()
        &&& self.render_glyph_stores.wf()
        &&& self.retained_pixmap_backings.wf()
        &&& forall|s: u64| #[trigger]
            self.render_glyph_stores.view().contains_key(s) ==> self.render_glyph_stores.view()[s].glyphs.wf()
    }

    pub fn new(root_size: Option<Size>) -> (r: Self)
        ensures
            r.wf(),
            r.resources.view().len() == 0,
            r.windows.view().len() == 0,
            r.root_size == root_size,
    {
        let r = XAuthorityRuntime {
            resources: XResourceTable::new(),
            windows: XWindowTable::new(),
            graphics_contexts: XGraphicsContextTable::new(),
            pixmaps: XTable::new(),
            fonts: XTable::new(),
            glx_contexts: XTable::new(),
            glx_drawables: XTable::new(),
            xfixes_regions: XTable::new(),
            shm_segments: XTable::new(),
            shm_pixmaps: XTable::new(),
            window_background_pixels: XTable::new(),
            window_visuals: XTable::new(),
            window_shapes: XTable::new(),
            shape_selections: XTable::new(),
            dri3_fences: XTable::new(),
            next_fence_handle: 1,
            render_cursor_images: XTable::new(),
            render_pictures: XTable::new(),
            device_connections: XTable::new(),
            dma_buf_import_formats: None,
            next_dma_buf_handle: 1,
            window_allocation: XWindowAllocationState {
                generation: 0,
                topology_generation: 0,
                hints: XTable::new(),
                preferences: XTable::new(),
            },
            topology_generation: 0,
            root_size,
            input_focus: XTable::new(),
            selections: XSelectionMonitor::new(),
            render_glyphsets: XTable::new(),
            render_glyph_stores: XTable::new(),
            next_glyph_store: 1,
            retired_selection_ownerships: Vec::new(),
            defer_policy_maps: false,
            software_buffers: XSoftwareBufferStore::new(),
            retained_pixmap_backings: XTable::new(),
            next_render_backing: X_AUTHORITY_FIRST_RETAINED_BACKING,
        };
        proof {
            r.resources.records.lemma_len();
        }
        r
    }

    /// The error checking `id` as a `kind` of `namespace` gives, if any.
    pub open spec fn spec_access(&self, namespace: NamespaceId, id: XResourceId, kind: XResourceKind) -> Option<
        XAuthorityRuntimeError,
    > {
        match spec_lookup(self.resources.view(), namespace, id, kind) {
            Ok(_) => None,
            Err(e) => Some(e),
        }
    }

    /// A window of `namespace`, by its record.
    pub open spec fn spec_window(&self, namespace: NamespaceId, window: XResourceId) -> Result<
        XWindowRecord,
        XAuthorityRuntimeError,
    > {
        match self.spec_access(namespace, window, XResourceKind::Window) {
            Some(e) => Err(e),
            None => if self.windows.view().contains_key(window) {
                Ok(self.windows.view()[window])
            } else {
                Err(XAuthorityRuntimeError::UnknownResource)
            },
        }
    }

    /// Hands over the ownership changes watchers are owed, leaving none.
    pub fn take_retired_selection_ownerships(&mut self) -> (r: Vec<XSelectionOwnerUpdate>)
        ensures
            r@ == old(self).retired_selection_ownerships@,
            final(self).retired_selection_ownerships@.len() == 0,
            *final(self) == (XAuthorityRuntime {
                retired_selection_ownerships: final(self).retired_selection_ownerships,
                ..*old(self)
            }),
    {
        let mut taken: Vec<XSelectionOwnerUpdate> = Vec::new();
        std::mem::swap(&mut taken, &mut self.retired_selection_ownerships);
        taken
    }

    /// Checks `id` as a `kind` of `namespace`.
    pub fn access(&self, namespace: NamespaceId, id: XResourceId, kind: XResourceKind) -> (r: Result<
        (),
        XAuthorityRuntimeError,
    >)
        requires
            self.resources.wf(),
        ensures
            match self.spec_access(namespace, id, kind) {
                Some(e) => r == Err::<(), XAuthorityRuntimeError>(e),
                None => r is Ok,
            },
    {
        match self.resources.lookup(namespace, id, kind) {
            Ok(_) => Ok(()),
            Err(e) => Err(e),
        }
    }

    /// The record of a window this namespace owns.
    pub fn window_record(&self, namespace: NamespaceId, window: XResourceId) -> (r: Result<
        XWindowRecord,
        XAuthorityRuntimeError,
    >)
        requires
            self.wf(),
        ensures
            r == self.spec_window(namespace, window),
    {
        match self.access(namespace, window, XResourceKind::Window) {
            Err(e) => {
                return Err(e);
            },
            Ok(()) => {},
        }
        match self.windows.get(window) {
            Some(rec) => Ok(*rec),
            None => Err(XAuthorityRuntimeError::UnknownResource),
        }
    }
}

/// Whether an id's low bits name a setup-owned resource (the root window or
/// the default colormap).
pub open spec fn spec_setup_owned(id: XResourceId) -> bool {
    id.local == X_SETUP_DEFAULT_ROOT || id.local == X_SETUP_DEFAULT_COLORMAP
}

} // verus!
