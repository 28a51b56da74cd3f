//! Decoding one client request from its wire bytes: the frame, then the
//! layout its opcode (and, for an extension, its minor opcode) gives.
use vstd::prelude::*;
use vstd::utf8::{decode_utf8, valid_utf8};

use crate::gc::{XGcValuesView, XGraphicsContextValues, spec_default_gc_values};
use crate::geometry::Rect;
use crate::ids::XResourceId;
use crate::render::{
    XRenderGlyphElement, XRenderGlyphInfo, XRenderGradientGeometry, XRenderGradientStop,
    XRenderPictureValueSet, XRenderTrapezoid, XRenderTriangle, decode_render_picture_values, spec_picture_values,
    lemma_popcount_monotone, popcount_below, spec_bit, spec_popcount_below, spec_value_of,
    value_of,
};
use crate::selection::XAtom;
use crate::wire::{
    decode_render_rectangles, XByteOrder, XGlxContextConfig, XWireClientContext, XWireParseError, spec_rect_at, spec_u16_at, spec_u32_at, spec_u64_at,
};

verus! {

pub const X_DELETE_PROPERTY: u8 = 19;
pub const X_QUERY_POINTER: u8 = 38;
pub const X_OPEN_FONT: u8 = 45;
pub const X_CLOSE_FONT: u8 = 46;
pub const X_QUERY_FONT: u8 = 47;
pub const X_LIST_FONTS: u8 = 49;
pub const X_LIST_FONTS_WITH_INFO: u8 = 50;
pub const X_CREATE_PIXMAP: u8 = 53;
pub const X_FREE_PIXMAP: u8 = 54;
pub const X_CREATE_GC: u8 = 55;
pub const X_CHANGE_GC: u8 = 56;
pub const X_FREE_GC: u8 = 60;
pub const X_FREE_COLORMAP: u8 = 79;
pub const X_QUERY_BEST_SIZE: u8 = 97;
pub const X_GET_KEYBOARD_CONTROL: u8 = 103;
pub const X_BELL: u8 = 104;
pub const X_GENERIC_EVENT_MAJOR_OPCODE: u8 = 136;
pub const X_GENERIC_EVENT_QUERY_VERSION_MINOR_OPCODE: u8 = 0;
pub const X_DRI3_MAJOR_OPCODE: u8 = 137;
pub const X_DRI3_QUERY_VERSION_MINOR_OPCODE: u8 = 0;
pub const X_DRI3_OPEN_MINOR_OPCODE: u8 = 1;
pub const X_DRI3_PIXMAP_FROM_BUFFER_MINOR_OPCODE: u8 = 2;
pub const X_DRI3_BUFFER_FROM_PIXMAP_MINOR_OPCODE: u8 = 3;
pub const X_DRI3_FENCE_FROM_FD_MINOR_OPCODE: u8 = 4;
pub const X_DRI3_GET_SUPPORTED_MODIFIERS_MINOR_OPCODE: u8 = 6;
pub const X_DRI3_PIXMAP_FROM_BUFFERS_MINOR_OPCODE: u8 = 7;
pub const X_DRI3_BUFFERS_FROM_PIXMAP_MINOR_OPCODE: u8 = 8;
pub const X_GLX_MAJOR_OPCODE: u8 = 140;
pub const X_GLX_CREATE_CONTEXT_MINOR_OPCODE: u8 = 3;
pub const X_GLX_DESTROY_CONTEXT_MINOR_OPCODE: u8 = 4;
pub const X_GLX_MAKE_CURRENT_MINOR_OPCODE: u8 = 5;
pub const X_GLX_IS_DIRECT_MINOR_OPCODE: u8 = 6;
pub const X_GLX_QUERY_VERSION_MINOR_OPCODE: u8 = 7;
pub const X_GLX_CREATE_GLX_PIXMAP_MINOR_OPCODE: u8 = 13;
pub const X_GLX_GET_VISUAL_CONFIGS_MINOR_OPCODE: u8 = 14;
pub const X_GLX_DESTROY_GLX_PIXMAP_MINOR_OPCODE: u8 = 15;
pub const X_GLX_QUERY_EXTENSIONS_STRING_MINOR_OPCODE: u8 = 18;
pub const X_GLX_QUERY_SERVER_STRING_MINOR_OPCODE: u8 = 19;
pub const X_GLX_CLIENT_INFO_MINOR_OPCODE: u8 = 20;
pub const X_GLX_GET_FB_CONFIGS_MINOR_OPCODE: u8 = 21;
pub const X_GLX_CREATE_PIXMAP_MINOR_OPCODE: u8 = 22;
pub const X_GLX_DESTROY_PIXMAP_MINOR_OPCODE: u8 = 23;
pub const X_GLX_CREATE_NEW_CONTEXT_MINOR_OPCODE: u8 = 24;
pub const X_GLX_QUERY_CONTEXT_MINOR_OPCODE: u8 = 25;
pub const X_GLX_MAKE_CONTEXT_CURRENT_MINOR_OPCODE: u8 = 26;
pub const X_GLX_CREATE_PBUFFER_MINOR_OPCODE: u8 = 27;
pub const X_GLX_DESTROY_PBUFFER_MINOR_OPCODE: u8 = 28;
pub const X_GLX_GET_DRAWABLE_ATTRIBUTES_MINOR_OPCODE: u8 = 29;
pub const X_GLX_CHANGE_DRAWABLE_ATTRIBUTES_MINOR_OPCODE: u8 = 30;
pub const X_GLX_CREATE_WINDOW_MINOR_OPCODE: u8 = 31;
pub const X_GLX_DELETE_WINDOW_MINOR_OPCODE: u8 = 32;
pub const X_GLX_SET_CLIENT_INFO_ARB_MINOR_OPCODE: u8 = 33;
pub const X_GLX_CREATE_CONTEXT_ATTRIBS_ARB_MINOR_OPCODE: u8 = 34;
pub const X_GLX_SET_CLIENT_INFO_2_ARB_MINOR_OPCODE: u8 = 35;
/// `GLX_LARGEST_PBUFFER`.
pub const X_GLX_LARGEST_PBUFFER_ATTRIBUTE: u32 = 0x801C;
/// `GLX_PBUFFER_HEIGHT`.
pub const X_GLX_PBUFFER_HEIGHT_ATTRIBUTE: u32 = 0x8040;
/// `GLX_PBUFFER_WIDTH`.
pub const X_GLX_PBUFFER_WIDTH_ATTRIBUTE: u32 = 0x8041;
/// `GLX_TEXTURE_FORMAT_EXT`.
pub const X_GLX_TEXTURE_FORMAT_ATTRIBUTE: u32 = 0x20D5;
/// `GLX_TEXTURE_TARGET_EXT`.
pub const X_GLX_TEXTURE_TARGET_ATTRIBUTE: u32 = 0x20D6;
/// `GLX_MIPMAP_TEXTURE_EXT`.
pub const X_GLX_MIPMAP_TEXTURE_ATTRIBUTE: u32 = 0x20D7;
pub const X_RENDER_MAJOR_OPCODE: u8 = 144;
pub const X_RENDER_QUERY_VERSION_MINOR_OPCODE: u8 = 0;
pub const X_RENDER_QUERY_PICT_FORMATS_MINOR_OPCODE: u8 = 1;
pub const X_RENDER_CREATE_PICTURE_MINOR_OPCODE: u8 = 4;
pub const X_RENDER_CHANGE_PICTURE_MINOR_OPCODE: u8 = 5;
pub const X_RENDER_SET_PICTURE_CLIP_RECTANGLES_MINOR_OPCODE: u8 = 6;
pub const X_RENDER_FREE_PICTURE_MINOR_OPCODE: u8 = 7;
pub const X_RENDER_COMPOSITE_MINOR_OPCODE: u8 = 8;
pub const X_RENDER_TRAPEZOIDS_MINOR_OPCODE: u8 = 10;
pub const X_RENDER_TRIANGLES_MINOR_OPCODE: u8 = 11;
pub const X_RENDER_TRI_STRIP_MINOR_OPCODE: u8 = 12;
pub const X_RENDER_TRI_FAN_MINOR_OPCODE: u8 = 13;
pub const X_RENDER_CREATE_GLYPH_SET_MINOR_OPCODE: u8 = 17;
pub const X_RENDER_REFERENCE_GLYPH_SET_MINOR_OPCODE: u8 = 18;
pub const X_RENDER_FREE_GLYPH_SET_MINOR_OPCODE: u8 = 19;
pub const X_RENDER_ADD_GLYPHS_MINOR_OPCODE: u8 = 20;
pub const X_RENDER_FREE_GLYPHS_MINOR_OPCODE: u8 = 22;
pub const X_RENDER_COMPOSITE_GLYPHS_8_MINOR_OPCODE: u8 = 23;
pub const X_RENDER_COMPOSITE_GLYPHS_16_MINOR_OPCODE: u8 = 24;
pub const X_RENDER_COMPOSITE_GLYPHS_32_MINOR_OPCODE: u8 = 25;
pub const X_RENDER_FILL_RECTANGLES_MINOR_OPCODE: u8 = 26;
pub const X_RENDER_CREATE_CURSOR_MINOR_OPCODE: u8 = 27;
pub const X_RENDER_SET_PICTURE_TRANSFORM_MINOR_OPCODE: u8 = 28;
pub const X_RENDER_QUERY_FILTERS_MINOR_OPCODE: u8 = 29;
pub const X_RENDER_SET_PICTURE_FILTER_MINOR_OPCODE: u8 = 30;
pub const X_RENDER_CREATE_SOLID_FILL_MINOR_OPCODE: u8 = 33;
pub const X_RENDER_CREATE_LINEAR_GRADIENT_MINOR_OPCODE: u8 = 34;
pub const X_RENDER_CREATE_RADIAL_GRADIENT_MINOR_OPCODE: u8 = 35;
pub const X_RENDER_CREATE_CONICAL_GRADIENT_MINOR_OPCODE: u8 = 36;
/// The fixed part the trapezoid and triangle requests share: operator,
/// pictures, mask format and source origin.
pub const X_RENDER_PRIMITIVE_PREFIX_LEN: usize = 24;
/// The most planes one DMA-BUF import carries.
pub const DMA_BUF_MAX_PLANES: usize = 4;
pub const X_XFIXES_MAJOR_OPCODE: u8 = 139;
pub const X_XFIXES_QUERY_VERSION_MINOR_OPCODE: u8 = 0;
pub const X_XFIXES_SELECT_SELECTION_INPUT_MINOR_OPCODE: u8 = 2;
pub const X_XFIXES_CREATE_REGION_MINOR_OPCODE: u8 = 5;
pub const X_XFIXES_DESTROY_REGION_MINOR_OPCODE: u8 = 10;
pub const X_XFIXES_SET_REGION_MINOR_OPCODE: u8 = 11;
pub const X_XFIXES_COPY_REGION_MINOR_OPCODE: u8 = 12;
pub const X_XFIXES_UNION_REGION_MINOR_OPCODE: u8 = 13;
pub const X_XFIXES_INTERSECT_REGION_MINOR_OPCODE: u8 = 14;
pub const X_XFIXES_SUBTRACT_REGION_MINOR_OPCODE: u8 = 15;
/// What XFIXES means by inverting: a region has no complement without
/// bounds.
pub const X_XFIXES_INVERT_REGION_MINOR_OPCODE: u8 = 16;
pub const X_XFIXES_TRANSLATE_REGION_MINOR_OPCODE: u8 = 17;
pub const X_XFIXES_REGION_EXTENTS_MINOR_OPCODE: u8 = 18;
pub const X_XFIXES_FETCH_REGION_MINOR_OPCODE: u8 = 19;
pub const X_SHAPE_MAJOR_OPCODE: u8 = 145;
pub const X_SHAPE_QUERY_VERSION_MINOR_OPCODE: u8 = 0;
pub const X_SHAPE_RECTANGLES_MINOR_OPCODE: u8 = 1;
pub const X_SHAPE_MASK_MINOR_OPCODE: u8 = 2;
pub const X_SHAPE_COMBINE_MINOR_OPCODE: u8 = 3;
pub const X_SHAPE_OFFSET_MINOR_OPCODE: u8 = 4;
pub const X_SHAPE_QUERY_EXTENTS_MINOR_OPCODE: u8 = 5;
pub const X_SHAPE_SELECT_INPUT_MINOR_OPCODE: u8 = 6;
pub const X_SHAPE_INPUT_SELECTED_MINOR_OPCODE: u8 = 7;
pub const X_SHAPE_GET_RECTANGLES_MINOR_OPCODE: u8 = 8;

/// A decoded client request.
#[derive(Clone, Debug)]
pub enum XWireRequest {
    DeleteProperty { window: XResourceId, property: u32 },
    QueryPointer { window: XResourceId },
    FreeColormap { colormap: XResourceId },
    GetKeyboardControl,
    Bell,
    GeQueryVersion { major_version: u16, minor_version: u16 },
    FreeGraphicsContext { gc: XResourceId },
    CreatePixmap { depth: u8, pixmap: XResourceId, drawable: XResourceId, width: u16, height: u16 },
    OpenFont { font: XResourceId, name: String },
    CloseFont { font: XResourceId },
    QueryFont { font: XResourceId },
    ListFonts { max_names: u16, pattern: String },
    ListFontsWithInfo { max_names: u16, pattern: String },
    FreePixmap { pixmap: XResourceId },
    QueryBestSize { class: u8, drawable: XResourceId, width: u16, height: u16 },
    CreateGraphicsContext { gc: XResourceId, drawable: XResourceId, values: XGraphicsContextValues },
    ChangeGraphicsContext { gc: XResourceId, value_mask: u32, values: XGraphicsContextValues },
    ShapeQueryVersion,
    ShapeRectangles {
        op: u8,
        kind: u8,
        ordering: u8,
        destination: XResourceId,
        x_offset: i16,
        y_offset: i16,
        rectangles: Vec<Rect>,
    },
    /// A `None` source with Set returns the kind to its default.
    ShapeMask {
        op: u8,
        kind: u8,
        destination: XResourceId,
        x_offset: i16,
        y_offset: i16,
        source: Option<XResourceId>,
    },
    ShapeCombine {
        op: u8,
        kind: u8,
        source_kind: u8,
        destination: XResourceId,
        x_offset: i16,
        y_offset: i16,
        source: XResourceId,
    },
    ShapeOffset { kind: u8, destination: XResourceId, x_offset: i16, y_offset: i16 },
    ShapeQueryExtents { window: XResourceId },
    ShapeSelectInput { window: XResourceId, enable: bool },
    ShapeInputSelected { window: XResourceId },
    ShapeGetRectangles { window: XResourceId, kind: u8 },
    /// A SHAPE minor no version of the extension defines.
    ShapeUnimplemented { minor_opcode: u8 },
    XfixesQueryVersion { major_version: u32, minor_version: u32 },
    XfixesSelectSelectionInput { window: XResourceId, selection: XAtom, event_mask: u32 },
    XfixesCreateRegion { region: XResourceId, rectangles: Vec<Rect> },
    /// Copy, union, intersect and subtract; copy names its one source twice.
    XfixesCombineRegion {
        minor_opcode: u8,
        source: XResourceId,
        other: XResourceId,
        destination: XResourceId,
    },
    /// The source subtracted from bounds the client supplies.
    XfixesInvertRegion { source: XResourceId, bounds: Rect, destination: XResourceId },
    XfixesTranslateRegion { region: XResourceId, dx: i32, dy: i32 },
    XfixesRegionExtents { source: XResourceId, destination: XResourceId },
    XfixesFetchRegion { region: XResourceId },
    /// An XFIXES minor this server does not implement, decoded so that the
    /// refusal can name it.
    XfixesUnimplemented { minor_opcode: u8 },
    XfixesDestroyRegion { region: XResourceId },
    XfixesSetRegion { region: XResourceId, rectangles: Vec<Rect> },
    Dri3QueryVersion { major_version: u32, minor_version: u32 },
    Dri3Open { drawable: XResourceId, provider: u32 },
    Dri3PixmapFromBuffer {
        pixmap: XResourceId,
        drawable: XResourceId,
        size_bytes: u32,
        width: u16,
        height: u16,
        stride: u16,
        depth: u8,
        bits_per_pixel: u8,
    },
    Dri3PixmapFromBuffers {
        pixmap: XResourceId,
        window: XResourceId,
        num_buffers: u8,
        width: u16,
        height: u16,
        strides: [u32; 4],
        offsets: [u32; 4],
        depth: u8,
        bits_per_pixel: u8,
        modifier: u64,
    },
    Dri3FenceFromFd { drawable: XResourceId, fence: XResourceId, initially_triggered: bool },
    Dri3GetSupportedModifiers { window: XResourceId, depth: u8, bits_per_pixel: u8 },
    Dri3BufferFromPixmap { pixmap: XResourceId },
    Dri3BuffersFromPixmap { pixmap: XResourceId },
    /// A DRI3 request decoded but not implemented, so that the refusal is a
    /// client-visible error naming its minor opcode.
    Dri3Unimplemented { minor_opcode: u8 },
    GlxQueryVersion { major_version: u32, minor_version: u32 },
    GlxGetVisualConfigs { screen: u32 },
    GlxQueryExtensionsString,
    GlxQueryServerString { name: u32 },
    GlxGetFbConfigs { screen: u32 },
    GlxClientInfo,
    GlxCreateContext { context: XResourceId, config: XGlxContextConfig, screen: u32, share: Option<XResourceId>, direct: bool },
    GlxDestroyContext { context: XResourceId },
    GlxMakeCurrent { drawable: Option<XResourceId>, context: Option<XResourceId>, old_context_tag: u32 },
    GlxIsDirect { context: XResourceId },
    GlxCreateWindow { screen: u32, fbconfig: u32, window: XResourceId, glx_window: XResourceId },
    /// `largest`: take the largest available rather than fail.
    GlxCreatePbuffer { screen: u32, fbconfig: u32, pbuffer: XResourceId, width: u32, height: u32, largest: bool },
    /// The texture attributes the request named, if any.
    GlxCreatePixmap { screen: u32, fbconfig: u32, pixmap: XResourceId, glx_pixmap: XResourceId, target: Option<u32>, format: Option<u32>, mipmap: Option<bool> },
    GlxCreateGlxPixmap { screen: u32, visual: u32, pixmap: XResourceId, glx_pixmap: XResourceId },
    GlxDestroyPixmap { minor_opcode: u8, glx_pixmap: XResourceId },
    GlxDestroyPbuffer { pbuffer: XResourceId },
    GlxQueryContext { context: XResourceId },
    GlxChangeDrawableAttributes { drawable: XResourceId },
    GlxMakeContextCurrent { drawable: XResourceId, read_drawable: XResourceId, context: Option<XResourceId> },
    GlxDeleteWindow { glx_window: XResourceId },
    GlxGetDrawableAttributes { drawable: XResourceId },
    RenderQueryVersion { major: u32, minor: u32 },
    RenderQueryPictFormats,
    RenderCreatePicture { picture: XResourceId, drawable: XResourceId, format: u32, values: XRenderPictureValueSet },
    RenderChangePicture { picture: XResourceId, values: XRenderPictureValueSet },
    RenderSetPictureClipRectangles { picture: XResourceId, clip_x_origin: i16, clip_y_origin: i16, rectangles: Vec<Rect> },
    RenderFreePicture { picture: XResourceId },
    /// One premultiplied color through one operator.
    RenderFillRectangles { op: u8, picture: XResourceId, color: [u16; 4], rectangles: Vec<Rect> },
    /// Source, optional mask and destination pictures.
    RenderComposite { op: u8, source: XResourceId, mask: Option<XResourceId>, destination: XResourceId, source_x: i16, source_y: i16, mask_x: i16, mask_y: i16, destination_x: i16, destination_y: i16, width: u16, height: u16 },
    RenderCreateGlyphSet { glyphset: XResourceId, format: u32 },
    /// A second id for an existing set, which shares rather than copies it.
    RenderReferenceGlyphSet { glyphset: XResourceId, existing: XResourceId },
    RenderFreeGlyphSet { glyphset: XResourceId },
    RenderFreeGlyphs { glyphset: XResourceId, ids: Vec<u32> },
    RenderCreateCursor { cursor: XResourceId, source: XResourceId, hotspot_x: u16, hotspot_y: u16 },
    /// Nine 16.16 fixed-point entries, row major, mapping a destination
    /// coordinate to the source pixel.
    RenderSetPictureTransform { picture: XResourceId, matrix: [i32; 9] },
    RenderQueryFilters { drawable: XResourceId },
    /// `has_params`: the request carried filter parameters.
    RenderSetPictureFilter { picture: XResourceId, name: Vec<u8>, has_params: bool },
    RenderTrapezoids { op: u8, source: XResourceId, destination: XResourceId, mask_format: u32, source_x: i16, source_y: i16, trapezoids: Vec<XRenderTrapezoid> },
    RenderCreateSolidFill { picture: XResourceId, color: [u16; 4] },
    /// A RENDER minor this server does not implement, decoded so that the
    /// refusal can name it.
    RenderUnimplemented { minor_opcode: u8 },
    RenderAddGlyphs { glyphset: XResourceId, ids: Vec<u32>, glyphs: Vec<XRenderGlyphInfo>, data: Vec<u8> },
    /// The 8-, 16- and 32-bit glyph id widths share one variant.
    RenderCompositeGlyphs { op: u8, source: XResourceId, destination: XResourceId, mask_format: u32, glyphset: XResourceId, source_x: i16, source_y: i16, elements: Vec<XRenderGlyphElement>, minor_opcode: u8 },
    /// Triangles, strips and fans, expanded into the triangles they describe.
    RenderTriangles { op: u8, source: XResourceId, destination: XResourceId, mask_format: u32, source_x: i16, source_y: i16, triangles: Vec<XRenderTriangle>, minor_opcode: u8 },
    /// Linear, radial and conical gradients.
    RenderCreateGradient { picture: XResourceId, geometry: XRenderGradientGeometry, stops: Vec<XRenderGradientStop>, minor_opcode: u8 },
}

/// A request with its lists and strings read as sequences.
pub enum XWireRequestView {
    DeleteProperty { window: XResourceId, property: u32 },
    QueryPointer { window: XResourceId },
    FreeColormap { colormap: XResourceId },
    GetKeyboardControl,
    Bell,
    GeQueryVersion { major_version: u16, minor_version: u16 },
    FreeGraphicsContext { gc: XResourceId },
    CreatePixmap { depth: u8, pixmap: XResourceId, drawable: XResourceId, width: u16, height: u16 },
    OpenFont { font: XResourceId, name: Seq<char> },
    CloseFont { font: XResourceId },
    QueryFont { font: XResourceId },
    ListFonts { max_names: u16, pattern: Seq<char> },
    ListFontsWithInfo { max_names: u16, pattern: Seq<char> },
    FreePixmap { pixmap: XResourceId },
    QueryBestSize { class: u8, drawable: XResourceId, width: u16, height: u16 },
    CreateGraphicsContext { gc: XResourceId, drawable: XResourceId, values: XGcValuesView },
    ChangeGraphicsContext { gc: XResourceId, value_mask: u32, values: XGcValuesView },
    ShapeQueryVersion,
    ShapeRectangles {
        op: u8,
        kind: u8,
        ordering: u8,
        destination: XResourceId,
        x_offset: i16,
        y_offset: i16,
        rectangles: Seq<Rect>,
    },
    ShapeMask {
        op: u8,
        kind: u8,
        destination: XResourceId,
        x_offset: i16,
        y_offset: i16,
        source: Option<XResourceId>,
    },
    ShapeCombine {
        op: u8,
        kind: u8,
        source_kind: u8,
        destination: XResourceId,
        x_offset: i16,
        y_offset: i16,
        source: XResourceId,
    },
    ShapeOffset { kind: u8, destination: XResourceId, x_offset: i16, y_offset: i16 },
    ShapeQueryExtents { window: XResourceId },
    ShapeSelectInput { window: XResourceId, enable: bool },
    ShapeInputSelected { window: XResourceId },
    ShapeGetRectangles { window: XResourceId, kind: u8 },
    ShapeUnimplemented { minor_opcode: u8 },
    XfixesQueryVersion { major_version: u32, minor_version: u32 },
    XfixesSelectSelectionInput { window: XResourceId, selection: XAtom, event_mask: u32 },
    XfixesCreateRegion { region: XResourceId, rectangles: Seq<Rect> },
    XfixesCombineRegion {
        minor_opcode: u8,
        source: XResourceId,
        other: XResourceId,
        destination: XResourceId,
    },
    XfixesInvertRegion { source: XResourceId, bounds: Rect, destination: XResourceId },
    XfixesTranslateRegion { region: XResourceId, dx: i32, dy: i32 },
    XfixesRegionExtents { source: XResourceId, destination: XResourceId },
    XfixesFetchRegion { region: XResourceId },
    XfixesUnimplemented { minor_opcode: u8 },
    XfixesDestroyRegion { region: XResourceId },
    XfixesSetRegion { region: XResourceId, rectangles: Seq<Rect> },
    Dri3QueryVersion { major_version: u32, minor_version: u32 },
    Dri3Open { drawable: XResourceId, provider: u32 },
    Dri3PixmapFromBuffer {
        pixmap: XResourceId,
        drawable: XResourceId,
        size_bytes: u32,
        width: u16,
        height: u16,
        stride: u16,
        depth: u8,
        bits_per_pixel: u8,
    },
    Dri3PixmapFromBuffers {
        pixmap: XResourceId,
        window: XResourceId,
        num_buffers: u8,
        width: u16,
        height: u16,
        strides: Seq<u32>,
        offsets: Seq<u32>,
        depth: u8,
        bits_per_pixel: u8,
        modifier: u64,
    },
    Dri3FenceFromFd { drawable: XResourceId, fence: XResourceId, initially_triggered: bool },
    Dri3GetSupportedModifiers { window: XResourceId, depth: u8, bits_per_pixel: u8 },
    Dri3BufferFromPixmap { pixmap: XResourceId },
    Dri3BuffersFromPixmap { pixmap: XResourceId },
    Dri3Unimplemented { minor_opcode: u8 },
    GlxQueryVersion { major_version: u32, minor_version: u32 },
    GlxGetVisualConfigs { screen: u32 },
    GlxQueryExtensionsString,
    GlxQueryServerString { name: u32 },
    GlxGetFbConfigs { screen: u32 },
    GlxClientInfo,
    GlxCreateContext { context: XResourceId, config: XGlxContextConfig, screen: u32, share: Option<XResourceId>, direct: bool },
    GlxDestroyContext { context: XResourceId },
    GlxMakeCurrent { drawable: Option<XResourceId>, context: Option<XResourceId>, old_context_tag: u32 },
    GlxIsDirect { context: XResourceId },
    GlxCreateWindow { screen: u32, fbconfig: u32, window: XResourceId, glx_window: XResourceId },
    /// `largest`: take the largest available rather than fail.
    GlxCreatePbuffer { screen: u32, fbconfig: u32, pbuffer: XResourceId, width: u32, height: u32, largest: bool },
    /// The texture attributes the request named, if any.
    GlxCreatePixmap { screen: u32, fbconfig: u32, pixmap: XResourceId, glx_pixmap: XResourceId, target: Option<u32>, format: Option<u32>, mipmap: Option<bool> },
    GlxCreateGlxPixmap { screen: u32, visual: u32, pixmap: XResourceId, glx_pixmap: XResourceId },
    GlxDestroyPixmap { minor_opcode: u8, glx_pixmap: XResourceId },
    GlxDestroyPbuffer { pbuffer: XResourceId },
    GlxQueryContext { context: XResourceId },
    GlxChangeDrawableAttributes { drawable: XResourceId },
    GlxMakeContextCurrent { drawable: XResourceId, read_drawable: XResourceId, context: Option<XResourceId> },
    GlxDeleteWindow { glx_window: XResourceId },
    GlxGetDrawableAttributes { drawable: XResourceId },
    RenderQueryVersion { major: u32, minor: u32 },
    RenderQueryPictFormats,
    RenderCreatePicture { picture: XResourceId, drawable: XResourceId, format: u32, values: XRenderPictureValueSet },
    RenderChangePicture { picture: XResourceId, values: XRenderPictureValueSet },
    RenderSetPictureClipRectangles { picture: XResourceId, clip_x_origin: i16, clip_y_origin: i16, rectangles: Seq<Rect> },
    RenderFreePicture { picture: XResourceId },
    RenderFillRectangles { op: u8, picture: XResourceId, color: Seq<u16>, rectangles: Seq<Rect> },
    RenderComposite { op: u8, source: XResourceId, mask: Option<XResourceId>, destination: XResourceId, source_x: i16, source_y: i16, mask_x: i16, mask_y: i16, destination_x: i16, destination_y: i16, width: u16, height: u16 },
    RenderCreateGlyphSet { glyphset: XResourceId, format: u32 },
    RenderReferenceGlyphSet { glyphset: XResourceId, existing: XResourceId },
    RenderFreeGlyphSet { glyphset: XResourceId },
    RenderFreeGlyphs { glyphset: XResourceId, ids: Seq<u32> },
    RenderCreateCursor { cursor: XResourceId, source: XResourceId, hotspot_x: u16, hotspot_y: u16 },
    RenderSetPictureTransform { picture: XResourceId, matrix: Seq<i32> },
    RenderQueryFilters { drawable: XResourceId },
    RenderSetPictureFilter { picture: XResourceId, name: Seq<u8>, has_params: bool },
    RenderTrapezoids { op: u8, source: XResourceId, destination: XResourceId, mask_format: u32, source_x: i16, source_y: i16, trapezoids: Seq<XRenderTrapezoid> },
    RenderCreateSolidFill { picture: XResourceId, color: Seq<u16> },
    RenderUnimplemented { minor_opcode: u8 },
    RenderAddGlyphs { glyphset: XResourceId, ids: Seq<u32>, glyphs: Seq<XRenderGlyphInfo>, data: Seq<u8> },
    RenderCompositeGlyphs { op: u8, source: XResourceId, destination: XResourceId, mask_format: u32, glyphset: XResourceId, source_x: i16, source_y: i16, elements: Seq<XRenderGlyphElementView>, minor_opcode: u8 },
    RenderTriangles { op: u8, source: XResourceId, destination: XResourceId, mask_format: u32, source_x: i16, source_y: i16, triangles: Seq<XRenderTriangle>, minor_opcode: u8 },
    RenderCreateGradient { picture: XResourceId, geometry: XRenderGradientGeometry, stops: Seq<(i32, Seq<u16>)>, minor_opcode: u8 },
}

impl View for XWireRequest {
    type V = XWireRequestView;

    open spec fn view(&self) -> XWireRequestView {
        match *self {
            XWireRequest::DeleteProperty { window, property } => XWireRequestView::DeleteProperty {
                window,
                property,
            },
            XWireRequest::QueryPointer { window } => XWireRequestView::QueryPointer { window },
            XWireRequest::FreeColormap { colormap } => XWireRequestView::FreeColormap { colormap },
            XWireRequest::GetKeyboardControl => XWireRequestView::GetKeyboardControl,
            XWireRequest::Bell => XWireRequestView::Bell,
            XWireRequest::GeQueryVersion { major_version, minor_version } =>
                XWireRequestView::GeQueryVersion { major_version, minor_version },
            XWireRequest::FreeGraphicsContext { gc } => XWireRequestView::FreeGraphicsContext { gc },
            XWireRequest::CreatePixmap { depth, pixmap, drawable, width, height } =>
                XWireRequestView::CreatePixmap { depth, pixmap, drawable, width, height },
            XWireRequest::OpenFont { font, name } => XWireRequestView::OpenFont { font, name: name@ },
            XWireRequest::CloseFont { font } => XWireRequestView::CloseFont { font },
            XWireRequest::QueryFont { font } => XWireRequestView::QueryFont { font },
            XWireRequest::ListFonts { max_names, pattern } => XWireRequestView::ListFonts {
                max_names,
                pattern: pattern@,
            },
            XWireRequest::ListFontsWithInfo { max_names, pattern } =>
                XWireRequestView::ListFontsWithInfo { max_names, pattern: pattern@ },
            XWireRequest::FreePixmap { pixmap } => XWireRequestView::FreePixmap { pixmap },
            XWireRequest::QueryBestSize { class, drawable, width, height } =>
                XWireRequestView::QueryBestSize { class, drawable, width, height },
            XWireRequest::CreateGraphicsContext { gc, drawable, values } =>
                XWireRequestView::CreateGraphicsContext { gc, drawable, values: values@ },
            XWireRequest::ChangeGraphicsContext { gc, value_mask, values } =>
                XWireRequestView::ChangeGraphicsContext { gc, value_mask, values: values@ },
            XWireRequest::ShapeQueryVersion => XWireRequestView::ShapeQueryVersion,
            XWireRequest::ShapeRectangles {
                op,
                kind,
                ordering,
                destination,
                x_offset,
                y_offset,
                rectangles,
            } => XWireRequestView::ShapeRectangles {
                op,
                kind,
                ordering,
                destination,
                x_offset,
                y_offset,
                rectangles: rectangles@,
            },
            XWireRequest::ShapeMask { op, kind, destination, x_offset, y_offset, source } =>
                XWireRequestView::ShapeMask { op, kind, destination, x_offset, y_offset, source },
            XWireRequest::ShapeCombine {
                op,
                kind,
                source_kind,
                destination,
                x_offset,
                y_offset,
                source,
            } => XWireRequestView::ShapeCombine {
                op,
                kind,
                source_kind,
                destination,
                x_offset,
                y_offset,
                source,
            },
            XWireRequest::ShapeOffset { kind, destination, x_offset, y_offset } =>
                XWireRequestView::ShapeOffset { kind, destination, x_offset, y_offset },
            XWireRequest::ShapeQueryExtents { window } => XWireRequestView::ShapeQueryExtents { window },
            XWireRequest::ShapeSelectInput { window, enable } => XWireRequestView::ShapeSelectInput {
                window,
                enable,
            },
            XWireRequest::ShapeInputSelected { window } => XWireRequestView::ShapeInputSelected { window },
            XWireRequest::ShapeGetRectangles { window, kind } => XWireRequestView::ShapeGetRectangles {
                window,
                kind,
            },
            XWireRequest::ShapeUnimplemented { minor_opcode } => XWireRequestView::ShapeUnimplemented {
                minor_opcode,
            },
            XWireRequest::XfixesQueryVersion { major_version, minor_version } =>
                XWireRequestView::XfixesQueryVersion { major_version, minor_version },
            XWireRequest::XfixesSelectSelectionInput { window, selection, event_mask } =>
                XWireRequestView::XfixesSelectSelectionInput { window, selection, event_mask },
            XWireRequest::XfixesCreateRegion { region, rectangles } =>
                XWireRequestView::XfixesCreateRegion { region, rectangles: rectangles@ },
            XWireRequest::XfixesCombineRegion { minor_opcode, source, other, destination } =>
                XWireRequestView::XfixesCombineRegion { minor_opcode, source, other, destination },
            XWireRequest::XfixesInvertRegion { source, bounds, destination } =>
                XWireRequestView::XfixesInvertRegion { source, bounds, destination },
            XWireRequest::XfixesTranslateRegion { region, dx, dy } =>
                XWireRequestView::XfixesTranslateRegion { region, dx, dy },
            XWireRequest::XfixesRegionExtents { source, destination } =>
                XWireRequestView::XfixesRegionExtents { source, destination },
            XWireRequest::XfixesFetchRegion { region } => XWireRequestView::XfixesFetchRegion { region },
            XWireRequest::XfixesUnimplemented { minor_opcode } =>
                XWireRequestView::XfixesUnimplemented { minor_opcode },
            XWireRequest::XfixesDestroyRegion { region } => XWireRequestView::XfixesDestroyRegion { region },
            XWireRequest::XfixesSetRegion { region, rectangles } =>
                XWireRequestView::XfixesSetRegion { region, rectangles: rectangles@ },
            XWireRequest::Dri3QueryVersion { major_version, minor_version } =>
                XWireRequestView::Dri3QueryVersion { major_version, minor_version },
            XWireRequest::Dri3Open { drawable, provider } => XWireRequestView::Dri3Open { drawable, provider },
            XWireRequest::Dri3PixmapFromBuffer {
                pixmap,
                drawable,
                size_bytes,
                width,
                height,
                stride,
                depth,
                bits_per_pixel,
            } => XWireRequestView::Dri3PixmapFromBuffer {
                pixmap,
                drawable,
                size_bytes,
                width,
                height,
                stride,
                depth,
                bits_per_pixel,
            },
            XWireRequest::Dri3PixmapFromBuffers {
                pixmap,
                window,
                num_buffers,
                width,
                height,
                strides,
                offsets,
                depth,
                bits_per_pixel,
                modifier,
            } => XWireRequestView::Dri3PixmapFromBuffers {
                pixmap,
                window,
                num_buffers,
                width,
                height,
                strides: strides@,
                offsets: offsets@,
                depth,
                bits_per_pixel,
                modifier,
            },
            XWireRequest::Dri3FenceFromFd { drawable, fence, initially_triggered } =>
                XWireRequestView::Dri3FenceFromFd { drawable, fence, initially_triggered },
            XWireRequest::Dri3GetSupportedModifiers { window, depth, bits_per_pixel } =>
                XWireRequestView::Dri3GetSupportedModifiers { window, depth, bits_per_pixel },
            XWireRequest::Dri3BufferFromPixmap { pixmap } => XWireRequestView::Dri3BufferFromPixmap { pixmap },
            XWireRequest::Dri3BuffersFromPixmap { pixmap } => XWireRequestView::Dri3BuffersFromPixmap {
                pixmap,
            },
            XWireRequest::Dri3Unimplemented { minor_opcode } => XWireRequestView::Dri3Unimplemented {
                minor_opcode,
            },
            XWireRequest::GlxQueryVersion { major_version, minor_version } => XWireRequestView::GlxQueryVersion { major_version, minor_version },
            XWireRequest::GlxGetVisualConfigs { screen } => XWireRequestView::GlxGetVisualConfigs { screen },
            XWireRequest::GlxQueryExtensionsString => XWireRequestView::GlxQueryExtensionsString,
            XWireRequest::GlxQueryServerString { name } => XWireRequestView::GlxQueryServerString { name },
            XWireRequest::GlxGetFbConfigs { screen } => XWireRequestView::GlxGetFbConfigs { screen },
            XWireRequest::GlxClientInfo => XWireRequestView::GlxClientInfo,
            XWireRequest::GlxCreateContext { context, config, screen, share, direct } => XWireRequestView::GlxCreateContext { context, config, screen, share, direct },
            XWireRequest::GlxDestroyContext { context } => XWireRequestView::GlxDestroyContext { context },
            XWireRequest::GlxMakeCurrent { drawable, context, old_context_tag } => XWireRequestView::GlxMakeCurrent { drawable, context, old_context_tag },
            XWireRequest::GlxIsDirect { context } => XWireRequestView::GlxIsDirect { context },
            XWireRequest::GlxCreateWindow { screen, fbconfig, window, glx_window } => XWireRequestView::GlxCreateWindow { screen, fbconfig, window, glx_window },
            XWireRequest::GlxCreatePbuffer { screen, fbconfig, pbuffer, width, height, largest } => XWireRequestView::GlxCreatePbuffer { screen, fbconfig, pbuffer, width, height, largest },
            XWireRequest::GlxCreatePixmap { screen, fbconfig, pixmap, glx_pixmap, target, format, mipmap } => XWireRequestView::GlxCreatePixmap { screen, fbconfig, pixmap, glx_pixmap, target, format, mipmap },
            XWireRequest::GlxCreateGlxPixmap { screen, visual, pixmap, glx_pixmap } => XWireRequestView::GlxCreateGlxPixmap { screen, visual, pixmap, glx_pixmap },
            XWireRequest::GlxDestroyPixmap { minor_opcode, glx_pixmap } => XWireRequestView::GlxDestroyPixmap { minor_opcode, glx_pixmap },
            XWireRequest::GlxDestroyPbuffer { pbuffer } => XWireRequestView::GlxDestroyPbuffer { pbuffer },
            XWireRequest::GlxQueryContext { context } => XWireRequestView::GlxQueryContext { context },
            XWireRequest::GlxChangeDrawableAttributes { drawable } => XWireRequestView::GlxChangeDrawableAttributes { drawable },
            XWireRequest::GlxMakeContextCurrent { drawable, read_drawable, context } => XWireRequestView::GlxMakeContextCurrent { drawable, read_drawable, context },
            XWireRequest::GlxDeleteWindow { glx_window } => XWireRequestView::GlxDeleteWindow { glx_window },
            XWireRequest::GlxGetDrawableAttributes { drawable } => XWireRequestView::GlxGetDrawableAttributes { drawable },
            XWireRequest::RenderQueryVersion { major, minor } => XWireRequestView::RenderQueryVersion { major, minor },
            XWireRequest::RenderQueryPictFormats => XWireRequestView::RenderQueryPictFormats,
            XWireRequest::RenderCreatePicture { picture, drawable, format, values } => XWireRequestView::RenderCreatePicture { picture, drawable, format, values },
            XWireRequest::RenderChangePicture { picture, values } => XWireRequestView::RenderChangePicture { picture, values },
            XWireRequest::RenderSetPictureClipRectangles { picture, clip_x_origin, clip_y_origin, rectangles } => XWireRequestView::RenderSetPictureClipRectangles { picture, clip_x_origin, clip_y_origin, rectangles: rectangles@ },
            XWireRequest::RenderFreePicture { picture } => XWireRequestView::RenderFreePicture { picture },
            XWireRequest::RenderFillRectangles { op, picture, color, rectangles } => XWireRequestView::RenderFillRectangles { op, picture, color: color@, rectangles: rectangles@ },
            XWireRequest::RenderComposite { op, source, mask, destination, source_x, source_y, mask_x, mask_y, destination_x, destination_y, width, height } => XWireRequestView::RenderComposite { op, source, mask, destination, source_x, source_y, mask_x, mask_y, destination_x, destination_y, width, height },
            XWireRequest::RenderCreateGlyphSet { glyphset, format } => XWireRequestView::RenderCreateGlyphSet { glyphset, format },
            XWireRequest::RenderReferenceGlyphSet { glyphset, existing } => XWireRequestView::RenderReferenceGlyphSet { glyphset, existing },
            XWireRequest::RenderFreeGlyphSet { glyphset } => XWireRequestView::RenderFreeGlyphSet { glyphset },
            XWireRequest::RenderFreeGlyphs { glyphset, ids } => XWireRequestView::RenderFreeGlyphs { glyphset, ids: ids@ },
            XWireRequest::RenderCreateCursor { cursor, source, hotspot_x, hotspot_y } => XWireRequestView::RenderCreateCursor { cursor, source, hotspot_x, hotspot_y },
            XWireRequest::RenderSetPictureTransform { picture, matrix } => XWireRequestView::RenderSetPictureTransform { picture, matrix: matrix@ },
            XWireRequest::RenderQueryFilters { drawable } => XWireRequestView::RenderQueryFilters { drawable },
            XWireRequest::RenderSetPictureFilter { picture, name, has_params } => XWireRequestView::RenderSetPictureFilter { picture, name: name@, has_params },
            XWireRequest::RenderTrapezoids { op, source, destination, mask_format, source_x, source_y, trapezoids } => XWireRequestView::RenderTrapezoids { op, source, destination, mask_format, source_x, source_y, trapezoids: trapezoids@ },
            XWireRequest::RenderCreateSolidFill { picture, color } => XWireRequestView::RenderCreateSolidFill { picture, color: color@ },
            XWireRequest::RenderUnimplemented { minor_opcode } => XWireRequestView::RenderUnimplemented { minor_opcode },
            XWireRequest::RenderAddGlyphs { glyphset, ids, glyphs, data } => XWireRequestView::RenderAddGlyphs { glyphset, ids: ids@, glyphs: glyphs@, data: data@ },
            XWireRequest::RenderCompositeGlyphs { op, source, destination, mask_format, glyphset, source_x, source_y, elements, minor_opcode } => XWireRequestView::RenderCompositeGlyphs { op, source, destination, mask_format, glyphset, source_x, source_y, elements: spec_elements_view(elements@), minor_opcode },
            XWireRequest::RenderTriangles { op, source, destination, mask_format, source_x, source_y, triangles, minor_opcode } => XWireRequestView::RenderTriangles { op, source, destination, mask_format, source_x, source_y, triangles: triangles@, minor_opcode },
            XWireRequest::RenderCreateGradient { picture, geometry, stops, minor_opcode } => XWireRequestView::RenderCreateGradient { picture, geometry, stops: spec_stops_view(stops@), minor_opcode },
        }
    }
}

/// A glyph run with its ids read as a sequence.
pub struct XRenderGlyphElementView {
    pub glyphset: Option<XResourceId>,
    pub delta_x: i16,
    pub delta_y: i16,
    pub glyphs: Seq<u32>,
}

impl View for XRenderGlyphElement {
    type V = XRenderGlyphElementView;

    open spec fn view(&self) -> XRenderGlyphElementView {
        XRenderGlyphElementView {
            glyphset: self.glyphset,
            delta_x: self.delta_x,
            delta_y: self.delta_y,
            glyphs: self.glyphs@,
        }
    }
}

/// Glyph runs, each by its view.
pub open spec fn spec_elements_view(v: Seq<XRenderGlyphElement>) -> Seq<XRenderGlyphElementView> {
    Seq::new(v.len(), |i: int| v[i]@)
}

/// Gradient stops, each as its position and its color.
pub open spec fn spec_stops_view(v: Seq<XRenderGradientStop>) -> Seq<(i32, Seq<u16>)> {
    Seq::new(v.len(), |i: int| (v[i].position, v[i].color@))
}

/// A decoder's answer with the request taken by its view.
pub open spec fn spec_answer(r: Result<XWireRequest, XWireParseError>) -> Result<
    XWireRequestView,
    XWireParseError,
> {
    match r {
        Ok(q) => Ok(q@),
        Err(e) => Err(e),
    }
}

/// The id a request names by a 32-bit XID.
pub open spec fn spec_xid(v: u32) -> XResourceId {
    XResourceId { local: v as u64, generation: 1 }
}

fn xid(v: u32) -> (r: XResourceId)
    ensures
        r == spec_xid(v),
{
    XResourceId::new(v as u64, 1)
}

/// A length padded to the protocol's four-byte units.
pub open spec fn spec_padded_len(n: int) -> int {
    4 * ((n + 3) / 4)
}

/// Refuses a request shorter than its fixed part.
pub open spec fn spec_require_len(opcode: u8, minimum: usize, actual: usize) -> Option<XWireParseError> {
    if actual < minimum {
        Some(XWireParseError::InvalidLength { opcode, expected_at_least: minimum, actual })
    } else {
        None
    }
}

/// Refuses a request not exactly its fixed length.
pub open spec fn spec_require_exact_len(opcode: u8, expected: usize, actual: usize) -> Option<
    XWireParseError,
> {
    if actual != expected {
        Some(XWireParseError::InvalidLength { opcode, expected_at_least: expected, actual })
    } else {
        None
    }
}

fn require_len(opcode: u8, minimum: usize, actual: usize) -> (r: Result<(), XWireParseError>)
    ensures
        match spec_require_len(opcode, minimum, actual) {
            Some(e) => r == Err::<(), XWireParseError>(e),
            None => r is Ok,
        },
{
    if actual < minimum {
        Err(XWireParseError::InvalidLength { opcode, expected_at_least: minimum, actual })
    } else {
        Ok(())
    }
}

fn require_exact_len(opcode: u8, expected: usize, actual: usize) -> (r: Result<(), XWireParseError>)
    ensures
        match spec_require_exact_len(opcode, expected, actual) {
            Some(e) => r == Err::<(), XWireParseError>(e),
            None => r is Ok,
        },
{
    if actual != expected {
        Err(XWireParseError::InvalidLength { opcode, expected_at_least: expected, actual })
    } else {
        Ok(())
    }
}

/// The error a creating request's new id gives, if any.
pub open spec fn spec_new_id_error(context: XWireClientContext, id: u32) -> Option<XWireParseError> {
    match context.resource_id_range {
        Some(range) => if range.spec_owns(id) {
            None
        } else {
            Some(XWireParseError::ResourceIdOutsideClientRange { resource_id: id })
        },
        None => None,
    }
}

/// `std::str::from_utf8`, taken into an owned string: the text when the
/// bytes are well-formed UTF-8, which is then their decoding.
#[verifier::external_body]
fn utf8_text(bytes: &[u8]) -> (r: Option<String>)
    ensures
        r is Some <==> valid_utf8(bytes@),
        r is Some ==> r->Some_0@ == decode_utf8(bytes@),
{
    match std::str::from_utf8(bytes) {
        Ok(text) => Some(text.to_owned()),
        Err(_) => None,
    }
}

/// A name or pattern field: `len` bytes after a fixed part of `fixed`
/// bytes, padded, and valid UTF-8.
pub open spec fn spec_text_field(
    opcode: u8,
    fixed: usize,
    len: int,
    s: Seq<u8>,
) -> Result<Seq<char>, XWireParseError> {
    let expected = fixed + spec_padded_len(len);
    if s.len() != expected {
        Err(
            XWireParseError::InvalidLength {
                opcode,
                expected_at_least: expected as usize,
                actual: s.len() as usize,
            },
        )
    } else if !valid_utf8(s.subrange(fixed as int, fixed + len)) {
        Err(
            XWireParseError::InvalidLength {
                opcode,
                expected_at_least: expected as usize,
                actual: s.len() as usize,
            },
        )
    } else {
        Ok(decode_utf8(s.subrange(fixed as int, fixed + len)))
    }
}

fn text_field(opcode: u8, fixed: usize, len: u16, bytes: &[u8]) -> (r: Result<
    String,
    XWireParseError,
>)
    requires
        fixed <= 16,
        bytes@.len() <= usize::MAX,
    ensures
        match spec_text_field(opcode, fixed, len as int, bytes@) {
            Ok(t) => r is Ok && r->Ok_0@ == t,
            Err(e) => r == Err::<String, XWireParseError>(e),
        },
{
    let padded: usize = 4 * ((len as usize + 3) / 4);
    let expected = fixed + padded;
    if bytes.len() != expected {
        return Err(
            XWireParseError::InvalidLength {
                opcode,
                expected_at_least: expected,
                actual: bytes.len(),
            },
        );
    }
    let slice = &bytes[fixed..fixed + len as usize];
    match utf8_text(slice) {
        Some(text) => Ok(text),
        None => Err(
            XWireParseError::InvalidLength {
                opcode,
                expected_at_least: expected,
                actual: bytes.len(),
            },
        ),
    }
}


/// A value narrowed to a byte, the largest byte when it does not fit.
pub open spec fn spec_clamp_u8(v: u32) -> u8 {
    if v <= 255 {
        v as u8
    } else {
        255
    }
}

/// A value narrowed to 16 bits, the largest when it does not fit.
pub open spec fn spec_clamp_u16(v: u32) -> u16 {
    if v <= 65535 {
        v as u16
    } else {
        65535
    }
}

/// An optional resource: zero names none.
pub open spec fn spec_optional_xid(v: u32) -> Option<XResourceId> {
    if v != 0 {
        Some(spec_xid(v))
    } else {
        None
    }
}

fn optional_xid(v: u32) -> (r: Option<XResourceId>)
    ensures
        r == spec_optional_xid(v),
{
    if v != 0 {
        Some(xid(v))
    } else {
        None
    }
}

/// The values a `CreateGC` or `ChangeGC` value list sets over the initial
/// ones: one four-byte value per mask bit, in bit order; the attributes
/// this server does not keep are skipped.
pub open spec fn spec_gc_values(order: XByteOrder, s: Seq<u8>, mask: u32) -> XGcValuesView {
    let d = spec_default_gc_values();
    XGcValuesView {
        function: if spec_bit(mask, 0) {
            spec_clamp_u8(spec_value_of(order, s, mask, 0))
        } else {
            d.function
        },
        plane_mask: if spec_bit(mask, 1) {
            spec_value_of(order, s, mask, 1)
        } else {
            d.plane_mask
        },
        foreground: if spec_bit(mask, 2) {
            spec_value_of(order, s, mask, 2)
        } else {
            d.foreground
        },
        background: if spec_bit(mask, 3) {
            spec_value_of(order, s, mask, 3)
        } else {
            d.background
        },
        line_width: if spec_bit(mask, 4) {
            spec_clamp_u16(spec_value_of(order, s, mask, 4))
        } else {
            d.line_width
        },
        fill_style: if spec_bit(mask, 8) {
            spec_clamp_u8(spec_value_of(order, s, mask, 8))
        } else {
            d.fill_style
        },
        font: if spec_bit(mask, 14) {
            spec_optional_xid(spec_value_of(order, s, mask, 14))
        } else {
            d.font
        },
        graphics_exposures: if spec_bit(mask, 16) {
            spec_value_of(order, s, mask, 16) != 0
        } else {
            d.graphics_exposures
        },
        clip_x_origin: if spec_bit(mask, 17) {
            spec_value_of(order, s, mask, 17) as u16 as i16
        } else {
            d.clip_x_origin
        },
        clip_y_origin: if spec_bit(mask, 18) {
            spec_value_of(order, s, mask, 18) as u16 as i16
        } else {
            d.clip_y_origin
        },
        clip_mask: if spec_bit(mask, 19) {
            spec_optional_xid(spec_value_of(order, s, mask, 19))
        } else {
            d.clip_mask
        },
        clip_rectangles: d.clip_rectangles,
    }
}

fn decode_gc_values(order: XByteOrder, values: &[u8], mask: u32) -> (r: XGraphicsContextValues)
    requires
        values@.len() == 4 * spec_popcount_below(mask, 32),
    ensures
        r@ == spec_gc_values(order, values@, mask),
{
    let mut v = XGraphicsContextValues::default();
    if let Some(x) = value_of(order, values, mask, 0) {
        v.function = if x <= 255 {
            x as u8
        } else {
            255
        };
    }
    if let Some(x) = value_of(order, values, mask, 1) {
        v.plane_mask = x;
    }
    if let Some(x) = value_of(order, values, mask, 2) {
        v.foreground = x;
    }
    if let Some(x) = value_of(order, values, mask, 3) {
        v.background = x;
    }
    if let Some(x) = value_of(order, values, mask, 4) {
        v.line_width = if x <= 65535 {
            x as u16
        } else {
            65535
        };
    }
    if let Some(x) = value_of(order, values, mask, 8) {
        v.fill_style = if x <= 255 {
            x as u8
        } else {
            255
        };
    }
    if let Some(x) = value_of(order, values, mask, 14) {
        v.font = optional_xid(x);
    }
    if let Some(x) = value_of(order, values, mask, 16) {
        v.graphics_exposures = x != 0;
    }
    if let Some(x) = value_of(order, values, mask, 17) {
        v.clip_x_origin = x as u16 as i16;
    }
    if let Some(x) = value_of(order, values, mask, 18) {
        v.clip_y_origin = x as u16 as i16;
    }
    if let Some(x) = value_of(order, values, mask, 19) {
        v.clip_mask = optional_xid(x);
    }
    v
}

/// What a `CreateGC` request decodes to.
pub open spec fn spec_decode_create_gc(context: XWireClientContext, s: Seq<u8>) -> Result<
    XWireRequestView,
    XWireParseError,
> {
    let order = context.byte_order;
    let len = s.len() as usize;
    if let Some(e) = spec_require_len(X_CREATE_GC, 16, len) {
        Err(e)
    } else if let Some(e) = spec_new_id_error(context, spec_u32_at(order, s, 4)) {
        Err(e)
    } else {
        let mask = spec_u32_at(order, s, 12);
        let expected = 16 + 4 * spec_popcount_below(mask, 32);
        if mask & !0x007f_ffffu32 != 0 {
            Err(XWireParseError::InvalidLength { opcode: X_CREATE_GC, expected_at_least: 16, actual: len })
        } else if s.len() != expected {
            Err(
                XWireParseError::InvalidLength {
                    opcode: X_CREATE_GC,
                    expected_at_least: expected as usize,
                    actual: len,
                },
            )
        } else {
            Ok(
                XWireRequestView::CreateGraphicsContext {
                    gc: spec_xid(spec_u32_at(order, s, 4)),
                    drawable: spec_xid(spec_u32_at(order, s, 8)),
                    values: spec_gc_values(order, s.subrange(16, s.len() as int), mask),
                },
            )
        }
    }
}

fn decode_create_gc(context: XWireClientContext, bytes: &[u8]) -> (r: Result<
    XWireRequest,
    XWireParseError,
>)
    ensures
        spec_answer(r) == spec_decode_create_gc(context, bytes@),
{
    require_len(X_CREATE_GC, 16, bytes.len())?;
    let order = context.byte_order;
    let gc = order.u32_at(bytes, 4);
    context.validate_new_resource_id(gc)?;
    let mask = order.u32_at(bytes, 12);
    if mask & !0x007f_ffffu32 != 0 {
        return Err(
            XWireParseError::InvalidLength {
                opcode: X_CREATE_GC,
                expected_at_least: 16,
                actual: bytes.len(),
            },
        );
    }
    let expected = 16 + 4 * popcount_below(mask, 32);
    if bytes.len() != expected {
        return Err(
            XWireParseError::InvalidLength {
                opcode: X_CREATE_GC,
                expected_at_least: expected,
                actual: bytes.len(),
            },
        );
    }
    let values = decode_gc_values(order, &bytes[16..bytes.len()], mask);
    Ok(
        XWireRequest::CreateGraphicsContext {
            gc: xid(gc),
            drawable: xid(order.u32_at(bytes, 8)),
            values,
        },
    )
}

/// What a `ChangeGC` request decodes to.
pub open spec fn spec_decode_change_gc(context: XWireClientContext, s: Seq<u8>) -> Result<
    XWireRequestView,
    XWireParseError,
> {
    let order = context.byte_order;
    let len = s.len() as usize;
    if let Some(e) = spec_require_len(X_CHANGE_GC, 12, len) {
        Err(e)
    } else {
        let mask = spec_u32_at(order, s, 8);
        let expected = 12 + 4 * spec_popcount_below(mask, 32);
        if mask & !0x007f_ffffu32 != 0 {
            Err(XWireParseError::InvalidValue(mask))
        } else if s.len() != expected {
            Err(
                XWireParseError::InvalidLength {
                    opcode: X_CHANGE_GC,
                    expected_at_least: expected as usize,
                    actual: len,
                },
            )
        } else {
            Ok(
                XWireRequestView::ChangeGraphicsContext {
                    gc: spec_xid(spec_u32_at(order, s, 4)),
                    value_mask: mask,
                    values: spec_gc_values(order, s.subrange(12, s.len() as int), mask),
                },
            )
        }
    }
}

fn decode_change_gc(context: XWireClientContext, bytes: &[u8]) -> (r: Result<
    XWireRequest,
    XWireParseError,
>)
    ensures
        spec_answer(r) == spec_decode_change_gc(context, bytes@),
{
    require_len(X_CHANGE_GC, 12, bytes.len())?;
    let order = context.byte_order;
    let mask = order.u32_at(bytes, 8);
    if mask & !0x007f_ffffu32 != 0 {
        return Err(XWireParseError::InvalidValue(mask));
    }
    let expected = 12 + 4 * popcount_below(mask, 32);
    if bytes.len() != expected {
        return Err(
            XWireParseError::InvalidLength {
                opcode: X_CHANGE_GC,
                expected_at_least: expected,
                actual: bytes.len(),
            },
        );
    }
    let values = decode_gc_values(order, &bytes[12..bytes.len()], mask);
    Ok(
        XWireRequest::ChangeGraphicsContext {
            gc: xid(order.u32_at(bytes, 4)),
            value_mask: mask,
            values,
        },
    )
}


/// What a request naming one resource at byte 4 decodes to, given its
/// exact length.
pub open spec fn spec_decode_one_id(
    context: XWireClientContext,
    s: Seq<u8>,
    opcode: u8,
    len: usize,
    build: spec_fn(XResourceId) -> XWireRequestView,
) -> Result<XWireRequestView, XWireParseError> {
    if let Some(e) = spec_require_exact_len(opcode, len, s.len() as usize) {
        Err(e)
    } else {
        Ok(build(spec_xid(spec_u32_at(context.byte_order, s, 4))))
    }
}

/// What a `CreatePixmap` request decodes to.
pub open spec fn spec_decode_create_pixmap(context: XWireClientContext, s: Seq<u8>) -> Result<
    XWireRequestView,
    XWireParseError,
> {
    let order = context.byte_order;
    if let Some(e) = spec_require_exact_len(X_CREATE_PIXMAP, 16, s.len() as usize) {
        Err(e)
    } else if let Some(e) = spec_new_id_error(context, spec_u32_at(order, s, 4)) {
        Err(e)
    } else {
        Ok(
            XWireRequestView::CreatePixmap {
                depth: s[1],
                pixmap: spec_xid(spec_u32_at(order, s, 4)),
                drawable: spec_xid(spec_u32_at(order, s, 8)),
                width: spec_u16_at(order, s, 12),
                height: spec_u16_at(order, s, 14),
            },
        )
    }
}

fn decode_create_pixmap(context: XWireClientContext, bytes: &[u8]) -> (r: Result<
    XWireRequest,
    XWireParseError,
>)
    requires
        bytes@.len() >= 4,
    ensures
        spec_answer(r) == spec_decode_create_pixmap(context, bytes@),
{
    require_exact_len(X_CREATE_PIXMAP, 16, bytes.len())?;
    let order = context.byte_order;
    let pixmap = order.u32_at(bytes, 4);
    context.validate_new_resource_id(pixmap)?;
    Ok(
        XWireRequest::CreatePixmap {
            depth: bytes[1],
            pixmap: xid(pixmap),
            drawable: xid(order.u32_at(bytes, 8)),
            width: order.u16_at(bytes, 12),
            height: order.u16_at(bytes, 14),
        },
    )
}

/// What an `OpenFont` request decodes to: a new font id and its name.
pub open spec fn spec_decode_open_font(context: XWireClientContext, s: Seq<u8>) -> Result<
    XWireRequestView,
    XWireParseError,
> {
    let order = context.byte_order;
    if let Some(e) = spec_require_len(X_OPEN_FONT, 12, s.len() as usize) {
        Err(e)
    } else {
        match spec_text_field(X_OPEN_FONT, 12, spec_u16_at(order, s, 8) as int, s) {
            Err(e) => Err(e),
            Ok(name) => if let Some(e) = spec_new_id_error(context, spec_u32_at(order, s, 4)) {
                Err(e)
            } else {
                Ok(XWireRequestView::OpenFont { font: spec_xid(spec_u32_at(order, s, 4)), name })
            },
        }
    }
}

fn decode_open_font(context: XWireClientContext, bytes: &[u8]) -> (r: Result<
    XWireRequest,
    XWireParseError,
>)
    ensures
        spec_answer(r) == spec_decode_open_font(context, bytes@),
{
    require_len(X_OPEN_FONT, 12, bytes.len())?;
    let order = context.byte_order;
    let name = text_field(X_OPEN_FONT, 12, order.u16_at(bytes, 8), bytes)?;
    let font = order.u32_at(bytes, 4);
    context.validate_new_resource_id(font)?;
    Ok(XWireRequest::OpenFont { font: xid(font), name })
}

/// What a `ListFonts` or `ListFontsWithInfo` request decodes to: a limit
/// and a pattern.
pub open spec fn spec_decode_list_fonts(context: XWireClientContext, s: Seq<u8>, opcode: u8) -> Result<
    XWireRequestView,
    XWireParseError,
> {
    let order = context.byte_order;
    if let Some(e) = spec_require_len(opcode, 8, s.len() as usize) {
        Err(e)
    } else {
        match spec_text_field(opcode, 8, spec_u16_at(order, s, 6) as int, s) {
            Err(e) => Err(e),
            Ok(pattern) => if opcode == X_LIST_FONTS {
                Ok(XWireRequestView::ListFonts { max_names: spec_u16_at(order, s, 4), pattern })
            } else {
                Ok(XWireRequestView::ListFontsWithInfo { max_names: spec_u16_at(order, s, 4), pattern })
            },
        }
    }
}

fn decode_list_fonts(context: XWireClientContext, bytes: &[u8], opcode: u8) -> (r: Result<
    XWireRequest,
    XWireParseError,
>)
    ensures
        spec_answer(r) == spec_decode_list_fonts(context, bytes@, opcode),
{
    require_len(opcode, 8, bytes.len())?;
    let order = context.byte_order;
    let pattern = text_field(opcode, 8, order.u16_at(bytes, 6), bytes)?;
    let max_names = order.u16_at(bytes, 4);
    if opcode == X_LIST_FONTS {
        Ok(XWireRequest::ListFonts { max_names, pattern })
    } else {
        Ok(XWireRequest::ListFontsWithInfo { max_names, pattern })
    }
}

/// What a `QueryBestSize` request decodes to.
pub open spec fn spec_decode_query_best_size(context: XWireClientContext, s: Seq<u8>) -> Result<
    XWireRequestView,
    XWireParseError,
> {
    let order = context.byte_order;
    if let Some(e) = spec_require_exact_len(X_QUERY_BEST_SIZE, 12, s.len() as usize) {
        Err(e)
    } else {
        Ok(
            XWireRequestView::QueryBestSize {
                class: s[1],
                drawable: spec_xid(spec_u32_at(order, s, 4)),
                width: spec_u16_at(order, s, 8),
                height: spec_u16_at(order, s, 10),
            },
        )
    }
}

fn decode_query_best_size(context: XWireClientContext, bytes: &[u8]) -> (r: Result<
    XWireRequest,
    XWireParseError,
>)
    requires
        bytes@.len() >= 4,
    ensures
        spec_answer(r) == spec_decode_query_best_size(context, bytes@),
{
    require_exact_len(X_QUERY_BEST_SIZE, 12, bytes.len())?;
    let order = context.byte_order;
    Ok(
        XWireRequest::QueryBestSize {
            class: bytes[1],
            drawable: xid(order.u32_at(bytes, 4)),
            width: order.u16_at(bytes, 8),
            height: order.u16_at(bytes, 10),
        },
    )
}

/// The rectangles of a list: every whole eight-byte record.
pub open spec fn spec_rects(order: XByteOrder, s: Seq<u8>) -> Seq<Rect> {
    Seq::new(s.len() / 8, |i: int| spec_rect_at(order, s, 8 * i))
}

fn rects_from(order: XByteOrder, bytes: &[u8], from: usize) -> (r: Vec<Rect>)
    requires
        from <= bytes@.len(),
    ensures
        r@ == spec_rects(order, bytes@.subrange(from as int, bytes@.len() as int)),
{
    let tail = &bytes[from..bytes.len()];
    let r = decode_render_rectangles(order, tail);
    proof {
        assert(r@ =~= spec_rects(order, tail@));
    }
    r
}

/// The signed 16-bit value at `at`.
pub open spec fn spec_i16_at(order: XByteOrder, s: Seq<u8>, at: int) -> i16 {
    spec_u16_at(order, s, at) as i16
}

/// What a SHAPE request decodes to.
pub open spec fn spec_decode_shape(context: XWireClientContext, s: Seq<u8>) -> Result<
    XWireRequestView,
    XWireParseError,
> {
    let o = context.byte_order;
    let len = s.len() as usize;
    let minor = s[1];
    let exact = |n: usize| spec_require_exact_len(X_SHAPE_MAJOR_OPCODE, n, len);
    if minor == X_SHAPE_QUERY_VERSION_MINOR_OPCODE {
        if let Some(e) = exact(4) {
            Err(e)
        } else {
            Ok(XWireRequestView::ShapeQueryVersion)
        }
    } else if minor == X_SHAPE_RECTANGLES_MINOR_OPCODE {
        if let Some(e) = spec_require_len(X_SHAPE_MAJOR_OPCODE, 16, len) {
            Err(e)
        } else if (s.len() - 16) % 8 != 0 {
            Err(XWireParseError::InvalidLength { opcode: X_SHAPE_MAJOR_OPCODE, expected_at_least: 16, actual: len })
        } else {
            Ok(
                XWireRequestView::ShapeRectangles {
                    op: s[4],
                    kind: s[5],
                    ordering: s[6],
                    destination: spec_xid(spec_u32_at(o, s, 8)),
                    x_offset: spec_i16_at(o, s, 12),
                    y_offset: spec_i16_at(o, s, 14),
                    rectangles: spec_rects(o, s.subrange(16, s.len() as int)),
                },
            )
        }
    } else if minor == X_SHAPE_MASK_MINOR_OPCODE {
        if let Some(e) = exact(20) {
            Err(e)
        } else {
            Ok(
                XWireRequestView::ShapeMask {
                    op: s[4],
                    kind: s[5],
                    destination: spec_xid(spec_u32_at(o, s, 8)),
                    x_offset: spec_i16_at(o, s, 12),
                    y_offset: spec_i16_at(o, s, 14),
                    source: spec_optional_xid(spec_u32_at(o, s, 16)),
                },
            )
        }
    } else if minor == X_SHAPE_COMBINE_MINOR_OPCODE {
        if let Some(e) = exact(20) {
            Err(e)
        } else {
            Ok(
                XWireRequestView::ShapeCombine {
                    op: s[4],
                    kind: s[5],
                    source_kind: s[6],
                    destination: spec_xid(spec_u32_at(o, s, 8)),
                    x_offset: spec_i16_at(o, s, 12),
                    y_offset: spec_i16_at(o, s, 14),
                    source: spec_xid(spec_u32_at(o, s, 16)),
                },
            )
        }
    } else if minor == X_SHAPE_OFFSET_MINOR_OPCODE {
        if let Some(e) = exact(16) {
            Err(e)
        } else {
            Ok(
                XWireRequestView::ShapeOffset {
                    kind: s[4],
                    destination: spec_xid(spec_u32_at(o, s, 8)),
                    x_offset: spec_i16_at(o, s, 12),
                    y_offset: spec_i16_at(o, s, 14),
                },
            )
        }
    } else if minor == X_SHAPE_QUERY_EXTENTS_MINOR_OPCODE {
        if let Some(e) = exact(8) {
            Err(e)
        } else {
            Ok(XWireRequestView::ShapeQueryExtents { window: spec_xid(spec_u32_at(o, s, 4)) })
        }
    } else if minor == X_SHAPE_SELECT_INPUT_MINOR_OPCODE {
        if let Some(e) = exact(12) {
            Err(e)
        } else {
            Ok(XWireRequestView::ShapeSelectInput { window: spec_xid(spec_u32_at(o, s, 4)), enable: s[8] != 0 })
        }
    } else if minor == X_SHAPE_INPUT_SELECTED_MINOR_OPCODE {
        if let Some(e) = exact(8) {
            Err(e)
        } else {
            Ok(XWireRequestView::ShapeInputSelected { window: spec_xid(spec_u32_at(o, s, 4)) })
        }
    } else if minor == X_SHAPE_GET_RECTANGLES_MINOR_OPCODE {
        if let Some(e) = exact(12) {
            Err(e)
        } else {
            Ok(XWireRequestView::ShapeGetRectangles { window: spec_xid(spec_u32_at(o, s, 4)), kind: s[8] })
        }
    } else {
        Ok(XWireRequestView::ShapeUnimplemented { minor_opcode: minor })
    }
}

fn decode_shape(context: XWireClientContext, bytes: &[u8]) -> (r: Result<XWireRequest, XWireParseError>)
    requires
        bytes@.len() >= 4,
    ensures
        spec_answer(r) == spec_decode_shape(context, bytes@),
{
    let o = context.byte_order;
    let len = bytes.len();
    let minor = bytes[1];
    if minor == X_SHAPE_QUERY_VERSION_MINOR_OPCODE {
        require_exact_len(X_SHAPE_MAJOR_OPCODE, 4, len)?;
        Ok(XWireRequest::ShapeQueryVersion)
    } else if minor == X_SHAPE_RECTANGLES_MINOR_OPCODE {
        require_len(X_SHAPE_MAJOR_OPCODE, 16, len)?;
        if (len - 16) % 8 != 0 {
            return Err(
                XWireParseError::InvalidLength {
                    opcode: X_SHAPE_MAJOR_OPCODE,
                    expected_at_least: 16,
                    actual: len,
                },
            );
        }
        Ok(
            XWireRequest::ShapeRectangles {
                op: bytes[4],
                kind: bytes[5],
                ordering: bytes[6],
                destination: xid(o.u32_at(bytes, 8)),
                x_offset: o.i16_at(bytes, 12),
                y_offset: o.i16_at(bytes, 14),
                rectangles: rects_from(o, bytes, 16),
            },
        )
    } else if minor == X_SHAPE_MASK_MINOR_OPCODE {
        require_exact_len(X_SHAPE_MAJOR_OPCODE, 20, len)?;
        Ok(
            XWireRequest::ShapeMask {
                op: bytes[4],
                kind: bytes[5],
                destination: xid(o.u32_at(bytes, 8)),
                x_offset: o.i16_at(bytes, 12),
                y_offset: o.i16_at(bytes, 14),
                source: optional_xid(o.u32_at(bytes, 16)),
            },
        )
    } else if minor == X_SHAPE_COMBINE_MINOR_OPCODE {
        require_exact_len(X_SHAPE_MAJOR_OPCODE, 20, len)?;
        Ok(
            XWireRequest::ShapeCombine {
                op: bytes[4],
                kind: bytes[5],
                source_kind: bytes[6],
                destination: xid(o.u32_at(bytes, 8)),
                x_offset: o.i16_at(bytes, 12),
                y_offset: o.i16_at(bytes, 14),
                source: xid(o.u32_at(bytes, 16)),
            },
        )
    } else if minor == X_SHAPE_OFFSET_MINOR_OPCODE {
        require_exact_len(X_SHAPE_MAJOR_OPCODE, 16, len)?;
        Ok(
            XWireRequest::ShapeOffset {
                kind: bytes[4],
                destination: xid(o.u32_at(bytes, 8)),
                x_offset: o.i16_at(bytes, 12),
                y_offset: o.i16_at(bytes, 14),
            },
        )
    } else if minor == X_SHAPE_QUERY_EXTENTS_MINOR_OPCODE {
        require_exact_len(X_SHAPE_MAJOR_OPCODE, 8, len)?;
        Ok(XWireRequest::ShapeQueryExtents { window: xid(o.u32_at(bytes, 4)) })
    } else if minor == X_SHAPE_SELECT_INPUT_MINOR_OPCODE {
        require_exact_len(X_SHAPE_MAJOR_OPCODE, 12, len)?;
        Ok(XWireRequest::ShapeSelectInput { window: xid(o.u32_at(bytes, 4)), enable: bytes[8] != 0 })
    } else if minor == X_SHAPE_INPUT_SELECTED_MINOR_OPCODE {
        require_exact_len(X_SHAPE_MAJOR_OPCODE, 8, len)?;
        Ok(XWireRequest::ShapeInputSelected { window: xid(o.u32_at(bytes, 4)) })
    } else if minor == X_SHAPE_GET_RECTANGLES_MINOR_OPCODE {
        require_exact_len(X_SHAPE_MAJOR_OPCODE, 12, len)?;
        Ok(XWireRequest::ShapeGetRectangles { window: xid(o.u32_at(bytes, 4)), kind: bytes[8] })
    } else {
        Ok(XWireRequest::ShapeUnimplemented { minor_opcode: minor })
    }
}

/// Whether an XFIXES minor is one of the region combinations.
pub open spec fn spec_xfixes_combines(minor: u8) -> bool {
    minor == X_XFIXES_COPY_REGION_MINOR_OPCODE || minor == X_XFIXES_UNION_REGION_MINOR_OPCODE
        || minor == X_XFIXES_INTERSECT_REGION_MINOR_OPCODE || minor
        == X_XFIXES_SUBTRACT_REGION_MINOR_OPCODE
}

/// What an XFIXES request decodes to.
pub open spec fn spec_decode_xfixes(context: XWireClientContext, s: Seq<u8>) -> Result<
    XWireRequestView,
    XWireParseError,
> {
    let o = context.byte_order;
    let len = s.len() as usize;
    let minor = s[1];
    let exact = |n: usize| spec_require_exact_len(X_XFIXES_MAJOR_OPCODE, n, len);
    if minor == X_XFIXES_QUERY_VERSION_MINOR_OPCODE {
        if let Some(e) = exact(12) {
            Err(e)
        } else {
            Ok(
                XWireRequestView::XfixesQueryVersion {
                    major_version: spec_u32_at(o, s, 4),
                    minor_version: spec_u32_at(o, s, 8),
                },
            )
        }
    } else if minor == X_XFIXES_SELECT_SELECTION_INPUT_MINOR_OPCODE {
        if let Some(e) = exact(16) {
            Err(e)
        } else {
            Ok(
                XWireRequestView::XfixesSelectSelectionInput {
                    window: spec_xid(spec_u32_at(o, s, 4)),
                    selection: spec_u32_at(o, s, 8),
                    event_mask: spec_u32_at(o, s, 12),
                },
            )
        }
    } else if minor == X_XFIXES_CREATE_REGION_MINOR_OPCODE || minor == X_XFIXES_SET_REGION_MINOR_OPCODE {
        if let Some(e) = spec_require_len(X_XFIXES_MAJOR_OPCODE, 8, len) {
            Err(e)
        } else if (s.len() - 8) % 8 != 0 {
            Err(XWireParseError::InvalidLength { opcode: X_XFIXES_MAJOR_OPCODE, expected_at_least: 8, actual: len })
        } else if minor == X_XFIXES_SET_REGION_MINOR_OPCODE {
            Ok(
                XWireRequestView::XfixesSetRegion {
                    region: spec_xid(spec_u32_at(o, s, 4)),
                    rectangles: spec_rects(o, s.subrange(8, s.len() as int)),
                },
            )
        } else if let Some(e) = spec_new_id_error(context, spec_u32_at(o, s, 4)) {
            Err(e)
        } else {
            Ok(
                XWireRequestView::XfixesCreateRegion {
                    region: spec_xid(spec_u32_at(o, s, 4)),
                    rectangles: spec_rects(o, s.subrange(8, s.len() as int)),
                },
            )
        }
    } else if minor == X_XFIXES_DESTROY_REGION_MINOR_OPCODE {
        if let Some(e) = exact(8) {
            Err(e)
        } else {
            Ok(XWireRequestView::XfixesDestroyRegion { region: spec_xid(spec_u32_at(o, s, 4)) })
        }
    } else if spec_xfixes_combines(minor) {
        let copy = minor == X_XFIXES_COPY_REGION_MINOR_OPCODE;
        if let Some(e) = exact(if copy { 12 } else { 16 }) {
            Err(e)
        } else {
            Ok(
                XWireRequestView::XfixesCombineRegion {
                    minor_opcode: minor,
                    source: spec_xid(spec_u32_at(o, s, 4)),
                    other: spec_xid(spec_u32_at(o, s, if copy { 4 } else { 8 })),
                    destination: spec_xid(spec_u32_at(o, s, if copy { 8 } else { 12 })),
                },
            )
        }
    } else if minor == X_XFIXES_INVERT_REGION_MINOR_OPCODE {
        if let Some(e) = exact(20) {
            Err(e)
        } else {
            Ok(
                XWireRequestView::XfixesInvertRegion {
                    source: spec_xid(spec_u32_at(o, s, 4)),
                    bounds: spec_rect_at(o, s, 8),
                    destination: spec_xid(spec_u32_at(o, s, 16)),
                },
            )
        }
    } else if minor == X_XFIXES_TRANSLATE_REGION_MINOR_OPCODE {
        if let Some(e) = exact(12) {
            Err(e)
        } else {
            Ok(
                XWireRequestView::XfixesTranslateRegion {
                    region: spec_xid(spec_u32_at(o, s, 4)),
                    dx: spec_i16_at(o, s, 8) as i32,
                    dy: spec_i16_at(o, s, 10) as i32,
                },
            )
        }
    } else if minor == X_XFIXES_REGION_EXTENTS_MINOR_OPCODE {
        if let Some(e) = exact(12) {
            Err(e)
        } else {
            Ok(
                XWireRequestView::XfixesRegionExtents {
                    source: spec_xid(spec_u32_at(o, s, 4)),
                    destination: spec_xid(spec_u32_at(o, s, 8)),
                },
            )
        }
    } else if minor == X_XFIXES_FETCH_REGION_MINOR_OPCODE {
        if let Some(e) = exact(8) {
            Err(e)
        } else {
            Ok(XWireRequestView::XfixesFetchRegion { region: spec_xid(spec_u32_at(o, s, 4)) })
        }
    } else {
        Ok(XWireRequestView::XfixesUnimplemented { minor_opcode: minor })
    }
}

fn decode_xfixes(context: XWireClientContext, bytes: &[u8]) -> (r: Result<XWireRequest, XWireParseError>)
    requires
        bytes@.len() >= 4,
    ensures
        spec_answer(r) == spec_decode_xfixes(context, bytes@),
{
    let o = context.byte_order;
    let len = bytes.len();
    let minor = bytes[1];
    if minor == X_XFIXES_QUERY_VERSION_MINOR_OPCODE {
        require_exact_len(X_XFIXES_MAJOR_OPCODE, 12, len)?;
        Ok(
            XWireRequest::XfixesQueryVersion {
                major_version: o.u32_at(bytes, 4),
                minor_version: o.u32_at(bytes, 8),
            },
        )
    } else if minor == X_XFIXES_SELECT_SELECTION_INPUT_MINOR_OPCODE {
        require_exact_len(X_XFIXES_MAJOR_OPCODE, 16, len)?;
        Ok(
            XWireRequest::XfixesSelectSelectionInput {
                window: xid(o.u32_at(bytes, 4)),
                selection: o.u32_at(bytes, 8),
                event_mask: o.u32_at(bytes, 12),
            },
        )
    } else if minor == X_XFIXES_CREATE_REGION_MINOR_OPCODE || minor == X_XFIXES_SET_REGION_MINOR_OPCODE {
        require_len(X_XFIXES_MAJOR_OPCODE, 8, len)?;
        if (len - 8) % 8 != 0 {
            return Err(
                XWireParseError::InvalidLength {
                    opcode: X_XFIXES_MAJOR_OPCODE,
                    expected_at_least: 8,
                    actual: len,
                },
            );
        }
        let region = o.u32_at(bytes, 4);
        if minor == X_XFIXES_SET_REGION_MINOR_OPCODE {
            return Ok(XWireRequest::XfixesSetRegion { region: xid(region), rectangles: rects_from(o, bytes, 8) });
        }
        context.validate_new_resource_id(region)?;
        Ok(XWireRequest::XfixesCreateRegion { region: xid(region), rectangles: rects_from(o, bytes, 8) })
    } else if minor == X_XFIXES_DESTROY_REGION_MINOR_OPCODE {
        require_exact_len(X_XFIXES_MAJOR_OPCODE, 8, len)?;
        Ok(XWireRequest::XfixesDestroyRegion { region: xid(o.u32_at(bytes, 4)) })
    } else if minor == X_XFIXES_COPY_REGION_MINOR_OPCODE || minor == X_XFIXES_UNION_REGION_MINOR_OPCODE
        || minor == X_XFIXES_INTERSECT_REGION_MINOR_OPCODE || minor
        == X_XFIXES_SUBTRACT_REGION_MINOR_OPCODE {
        let copy = minor == X_XFIXES_COPY_REGION_MINOR_OPCODE;
        require_exact_len(X_XFIXES_MAJOR_OPCODE, if copy { 12 } else { 16 }, len)?;
        let source = o.u32_at(bytes, 4);
        let other = if copy {
            source
        } else {
            o.u32_at(bytes, 8)
        };
        let destination = if copy {
            o.u32_at(bytes, 8)
        } else {
            o.u32_at(bytes, 12)
        };
        Ok(
            XWireRequest::XfixesCombineRegion {
                minor_opcode: minor,
                source: xid(source),
                other: xid(other),
                destination: xid(destination),
            },
        )
    } else if minor == X_XFIXES_INVERT_REGION_MINOR_OPCODE {
        require_exact_len(X_XFIXES_MAJOR_OPCODE, 20, len)?;
        Ok(
            XWireRequest::XfixesInvertRegion {
                source: xid(o.u32_at(bytes, 4)),
                bounds: Rect {
                    x: o.i16_at(bytes, 8) as i32,
                    y: o.i16_at(bytes, 10) as i32,
                    width: o.u16_at(bytes, 12) as i32,
                    height: o.u16_at(bytes, 14) as i32,
                },
                destination: xid(o.u32_at(bytes, 16)),
            },
        )
    } else if minor == X_XFIXES_TRANSLATE_REGION_MINOR_OPCODE {
        require_exact_len(X_XFIXES_MAJOR_OPCODE, 12, len)?;
        Ok(
            XWireRequest::XfixesTranslateRegion {
                region: xid(o.u32_at(bytes, 4)),
                dx: o.i16_at(bytes, 8) as i32,
                dy: o.i16_at(bytes, 10) as i32,
            },
        )
    } else if minor == X_XFIXES_REGION_EXTENTS_MINOR_OPCODE {
        require_exact_len(X_XFIXES_MAJOR_OPCODE, 12, len)?;
        Ok(
            XWireRequest::XfixesRegionExtents {
                source: xid(o.u32_at(bytes, 4)),
                destination: xid(o.u32_at(bytes, 8)),
            },
        )
    } else if minor == X_XFIXES_FETCH_REGION_MINOR_OPCODE {
        require_exact_len(X_XFIXES_MAJOR_OPCODE, 8, len)?;
        Ok(XWireRequest::XfixesFetchRegion { region: xid(o.u32_at(bytes, 4)) })
    } else {
        Ok(XWireRequest::XfixesUnimplemented { minor_opcode: minor })
    }
}

/// What a DRI3 request decodes to.
pub open spec fn spec_decode_dri3(context: XWireClientContext, s: Seq<u8>) -> Result<
    XWireRequestView,
    XWireParseError,
> {
    let o = context.byte_order;
    let len = s.len() as usize;
    let minor = s[1];
    let exact = |n: usize| spec_require_exact_len(X_DRI3_MAJOR_OPCODE, n, len);
    if minor == X_DRI3_QUERY_VERSION_MINOR_OPCODE {
        if let Some(e) = exact(12) {
            Err(e)
        } else {
            Ok(
                XWireRequestView::Dri3QueryVersion {
                    major_version: spec_u32_at(o, s, 4),
                    minor_version: spec_u32_at(o, s, 8),
                },
            )
        }
    } else if minor == X_DRI3_OPEN_MINOR_OPCODE {
        if let Some(e) = exact(12) {
            Err(e)
        } else {
            Ok(
                XWireRequestView::Dri3Open {
                    drawable: spec_xid(spec_u32_at(o, s, 4)),
                    provider: spec_u32_at(o, s, 8),
                },
            )
        }
    } else if minor == X_DRI3_PIXMAP_FROM_BUFFER_MINOR_OPCODE {
        if let Some(e) = exact(24) {
            Err(e)
        } else if let Some(e) = spec_new_id_error(context, spec_u32_at(o, s, 4)) {
            Err(e)
        } else {
            Ok(
                XWireRequestView::Dri3PixmapFromBuffer {
                    pixmap: spec_xid(spec_u32_at(o, s, 4)),
                    drawable: spec_xid(spec_u32_at(o, s, 8)),
                    size_bytes: spec_u32_at(o, s, 12),
                    width: spec_u16_at(o, s, 16),
                    height: spec_u16_at(o, s, 18),
                    stride: spec_u16_at(o, s, 20),
                    depth: s[22],
                    bits_per_pixel: s[23],
                },
            )
        }
    } else if minor == X_DRI3_FENCE_FROM_FD_MINOR_OPCODE {
        if let Some(e) = exact(16) {
            Err(e)
        } else if let Some(e) = spec_new_id_error(context, spec_u32_at(o, s, 8)) {
            Err(e)
        } else {
            Ok(
                XWireRequestView::Dri3FenceFromFd {
                    drawable: spec_xid(spec_u32_at(o, s, 4)),
                    fence: spec_xid(spec_u32_at(o, s, 8)),
                    initially_triggered: s[12] != 0,
                },
            )
        }
    } else if minor == X_DRI3_GET_SUPPORTED_MODIFIERS_MINOR_OPCODE {
        if let Some(e) = exact(12) {
            Err(e)
        } else {
            Ok(
                XWireRequestView::Dri3GetSupportedModifiers {
                    window: spec_xid(spec_u32_at(o, s, 4)),
                    depth: s[8],
                    bits_per_pixel: s[9],
                },
            )
        }
    } else if minor == X_DRI3_PIXMAP_FROM_BUFFERS_MINOR_OPCODE {
        if let Some(e) = exact(64) {
            Err(e)
        } else if let Some(e) = spec_new_id_error(context, spec_u32_at(o, s, 4)) {
            Err(e)
        } else if s[12] == 0 || s[12] > DMA_BUF_MAX_PLANES {
            Err(XWireParseError::InvalidValue(s[12] as u32))
        } else {
            Ok(
                XWireRequestView::Dri3PixmapFromBuffers {
                    pixmap: spec_xid(spec_u32_at(o, s, 4)),
                    window: spec_xid(spec_u32_at(o, s, 8)),
                    num_buffers: s[12],
                    width: spec_u16_at(o, s, 16),
                    height: spec_u16_at(o, s, 18),
                    strides: seq![
                        spec_u32_at(o, s, 20),
                        spec_u32_at(o, s, 28),
                        spec_u32_at(o, s, 36),
                        spec_u32_at(o, s, 44),
                    ],
                    offsets: seq![
                        spec_u32_at(o, s, 24),
                        spec_u32_at(o, s, 32),
                        spec_u32_at(o, s, 40),
                        spec_u32_at(o, s, 48),
                    ],
                    depth: s[52],
                    bits_per_pixel: s[53],
                    modifier: spec_u64_at(o, s, 56),
                },
            )
        }
    } else if minor == X_DRI3_BUFFER_FROM_PIXMAP_MINOR_OPCODE {
        if let Some(e) = exact(8) {
            Err(e)
        } else {
            Ok(XWireRequestView::Dri3BufferFromPixmap { pixmap: spec_xid(spec_u32_at(o, s, 4)) })
        }
    } else if minor == X_DRI3_BUFFERS_FROM_PIXMAP_MINOR_OPCODE {
        if let Some(e) = exact(8) {
            Err(e)
        } else {
            Ok(XWireRequestView::Dri3BuffersFromPixmap { pixmap: spec_xid(spec_u32_at(o, s, 4)) })
        }
    } else {
        Ok(XWireRequestView::Dri3Unimplemented { minor_opcode: minor })
    }
}

fn decode_dri3(context: XWireClientContext, bytes: &[u8]) -> (r: Result<XWireRequest, XWireParseError>)
    requires
        bytes@.len() >= 4,
    ensures
        spec_answer(r) == spec_decode_dri3(context, bytes@),
{
    let o = context.byte_order;
    let len = bytes.len();
    let minor = bytes[1];
    if minor == X_DRI3_QUERY_VERSION_MINOR_OPCODE {
        require_exact_len(X_DRI3_MAJOR_OPCODE, 12, len)?;
        Ok(
            XWireRequest::Dri3QueryVersion {
                major_version: o.u32_at(bytes, 4),
                minor_version: o.u32_at(bytes, 8),
            },
        )
    } else if minor == X_DRI3_OPEN_MINOR_OPCODE {
        require_exact_len(X_DRI3_MAJOR_OPCODE, 12, len)?;
        Ok(XWireRequest::Dri3Open { drawable: xid(o.u32_at(bytes, 4)), provider: o.u32_at(bytes, 8) })
    } else if minor == X_DRI3_PIXMAP_FROM_BUFFER_MINOR_OPCODE {
        require_exact_len(X_DRI3_MAJOR_OPCODE, 24, len)?;
        let pixmap = o.u32_at(bytes, 4);
        context.validate_new_resource_id(pixmap)?;
        Ok(
            XWireRequest::Dri3PixmapFromBuffer {
                pixmap: xid(pixmap),
                drawable: xid(o.u32_at(bytes, 8)),
                size_bytes: o.u32_at(bytes, 12),
                width: o.u16_at(bytes, 16),
                height: o.u16_at(bytes, 18),
                stride: o.u16_at(bytes, 20),
                depth: bytes[22],
                bits_per_pixel: bytes[23],
            },
        )
    } else if minor == X_DRI3_FENCE_FROM_FD_MINOR_OPCODE {
        require_exact_len(X_DRI3_MAJOR_OPCODE, 16, len)?;
        let fence = o.u32_at(bytes, 8);
        context.validate_new_resource_id(fence)?;
        Ok(
            XWireRequest::Dri3FenceFromFd {
                drawable: xid(o.u32_at(bytes, 4)),
                fence: xid(fence),
                initially_triggered: bytes[12] != 0,
            },
        )
    } else if minor == X_DRI3_GET_SUPPORTED_MODIFIERS_MINOR_OPCODE {
        require_exact_len(X_DRI3_MAJOR_OPCODE, 12, len)?;
        Ok(
            XWireRequest::Dri3GetSupportedModifiers {
                window: xid(o.u32_at(bytes, 4)),
                depth: bytes[8],
                bits_per_pixel: bytes[9],
            },
        )
    } else if minor == X_DRI3_PIXMAP_FROM_BUFFERS_MINOR_OPCODE {
        require_exact_len(X_DRI3_MAJOR_OPCODE, 64, len)?;
        let pixmap = o.u32_at(bytes, 4);
        context.validate_new_resource_id(pixmap)?;
        let num_buffers = bytes[12];
        if num_buffers == 0 || num_buffers as usize > DMA_BUF_MAX_PLANES {
            return Err(XWireParseError::InvalidValue(num_buffers as u32));
        }
        let strides = [o.u32_at(bytes, 20), o.u32_at(bytes, 28), o.u32_at(bytes, 36), o.u32_at(bytes, 44)];
        let offsets = [o.u32_at(bytes, 24), o.u32_at(bytes, 32), o.u32_at(bytes, 40), o.u32_at(bytes, 48)];
        let r = XWireRequest::Dri3PixmapFromBuffers {
            pixmap: xid(pixmap),
            window: xid(o.u32_at(bytes, 8)),
            num_buffers,
            width: o.u16_at(bytes, 16),
            height: o.u16_at(bytes, 18),
            strides,
            offsets,
            depth: bytes[52],
            bits_per_pixel: bytes[53],
            modifier: o.u64_at(bytes, 56),
        };
        proof {
            assert(strides@ =~= seq![
                spec_u32_at(o, bytes@, 20),
                spec_u32_at(o, bytes@, 28),
                spec_u32_at(o, bytes@, 36),
                spec_u32_at(o, bytes@, 44),
            ]);
            assert(offsets@ =~= seq![
                spec_u32_at(o, bytes@, 24),
                spec_u32_at(o, bytes@, 32),
                spec_u32_at(o, bytes@, 40),
                spec_u32_at(o, bytes@, 48),
            ]);
        }
        Ok(r)
    } else if minor == X_DRI3_BUFFER_FROM_PIXMAP_MINOR_OPCODE {
        require_exact_len(X_DRI3_MAJOR_OPCODE, 8, len)?;
        Ok(XWireRequest::Dri3BufferFromPixmap { pixmap: xid(o.u32_at(bytes, 4)) })
    } else if minor == X_DRI3_BUFFERS_FROM_PIXMAP_MINOR_OPCODE {
        require_exact_len(X_DRI3_MAJOR_OPCODE, 8, len)?;
        Ok(XWireRequest::Dri3BuffersFromPixmap { pixmap: xid(o.u32_at(bytes, 4)) })
    } else {
        Ok(XWireRequest::Dri3Unimplemented { minor_opcode: minor })
    }
}

/// A length that saturates at the largest `usize`.
pub open spec fn spec_sat_usize(n: int) -> usize {
    if n > usize::MAX {
        usize::MAX
    } else {
        n as usize
    }
}

/// The length of a GLX request with a fixed part of `start` bytes and
/// `count` attribute pairs of eight bytes each.
fn pairs_len(start: usize, count: u32) -> (r: usize)
    ensures
        r == spec_sat_usize(start + 8 * count),
{
    match (count as usize).checked_mul(8) {
        Some(m) => start.saturating_add(m),
        None => usize::MAX,
    }
}

/// The value the last of the first `k` attribute pairs from `start` gives
/// `name`, if any names it.
pub open spec fn spec_attribute(o: XByteOrder, s: Seq<u8>, start: int, k: int, name: u32) -> Option<u32>
    decreases k,
{
    if k <= 0 {
        None
    } else if spec_u32_at(o, s, start + 8 * (k - 1)) == name {
        Some(spec_u32_at(o, s, start + 8 * (k - 1) + 4))
    } else {
        spec_attribute(o, s, start, k - 1, name)
    }
}

/// The attribute values a pair list from `start` to the end sets: the last
/// pair naming an attribute wins; names not asked for are skipped.
fn attributes(o: XByteOrder, bytes: &[u8], start: usize, names: [u32; 3]) -> (r: [Option<u32>; 3])
    requires
        start <= bytes@.len(),
        (bytes@.len() - start) % 8 == 0,
    ensures
        forall|i: int|
            0 <= i < 3 ==> #[trigger] r@[i] == spec_attribute(
                o,
                bytes@,
                start as int,
                (bytes@.len() - start) / 8,
                names@[i],
            ),
{
    let n = (bytes.len() - start) / 8;
    let mut found: [Option<u32>; 3] = [None, None, None];
    let mut k: usize = 0;
    while k < n
        invariant
            n == (bytes@.len() - start) / 8,
            start <= bytes@.len(),
            bytes@.len() <= usize::MAX,
            (bytes@.len() - start) % 8 == 0,
            k <= n,
            forall|i: int|
                0 <= i < 3 ==> #[trigger] found@[i] == spec_attribute(o, bytes@, start as int, k as int, names@[i]),
        decreases n - k,
    {
        proof {
            assert(start + 8 * k + 8 <= bytes@.len()) by (nonlinear_arith)
                requires
                    k < n,
                    n == (bytes@.len() - start) / 8,
                    start <= bytes@.len(),
            ;
        }
        let at = start + 8 * k;
        let name = o.u32_at(bytes, at);
        let value = o.u32_at(bytes, at + 4);
        let mut i: usize = 0;
        let ghost before = found@;
        while i < 3
            invariant
                i <= 3,
                forall|j: int| 0 <= j < i ==> #[trigger] found@[j] == (if names@[j] == name {
                    Some(value)
                } else {
                    before[j]
                }),
                forall|j: int| i <= j < 3 ==> #[trigger] found@[j] == before[j],
            decreases 3 - i,
        {
            if names[i] == name {
                found[i] = Some(value);
            }
            i = i + 1;
        }
        k = k + 1;
    }
    found
}

/// Whether a non-zero id: `None` for zero.
pub open spec fn spec_flag(v: Option<u32>) -> Option<bool> {
    match v {
        Some(x) => Some(x != 0),
        None => None,
    }
}

/// What a GLX request decodes to.
pub open spec fn spec_decode_glx(context: XWireClientContext, s: Seq<u8>) -> Result<
    XWireRequestView,
    XWireParseError,
> {
    let o = context.byte_order;
    let len = s.len() as usize;
    let minor = s[1];
    let exact = |n: usize| spec_require_exact_len(X_GLX_MAJOR_OPCODE, n, len);
    let at_least = |n: usize| spec_require_len(X_GLX_MAJOR_OPCODE, n, len);
    let id = |at: int| spec_xid(spec_u32_at(o, s, at));
    let word = |at: int| spec_u32_at(o, s, at);
    if minor == X_GLX_QUERY_VERSION_MINOR_OPCODE {
        if let Some(e) = exact(12) {
            Err(e)
        } else {
            Ok(XWireRequestView::GlxQueryVersion { major_version: word(4), minor_version: word(8) })
        }
    } else if minor == X_GLX_GET_VISUAL_CONFIGS_MINOR_OPCODE {
        if let Some(e) = exact(8) {
            Err(e)
        } else {
            Ok(XWireRequestView::GlxGetVisualConfigs { screen: word(4) })
        }
    } else if minor == X_GLX_QUERY_EXTENSIONS_STRING_MINOR_OPCODE {
        if let Some(e) = exact(8) {
            Err(e)
        } else {
            Ok(XWireRequestView::GlxQueryExtensionsString)
        }
    } else if minor == X_GLX_QUERY_SERVER_STRING_MINOR_OPCODE {
        if let Some(e) = exact(12) {
            Err(e)
        } else {
            Ok(XWireRequestView::GlxQueryServerString { name: word(8) })
        }
    } else if minor == X_GLX_GET_FB_CONFIGS_MINOR_OPCODE {
        if let Some(e) = exact(8) {
            Err(e)
        } else {
            Ok(XWireRequestView::GlxGetFbConfigs { screen: word(4) })
        }
    } else if minor == X_GLX_CLIENT_INFO_MINOR_OPCODE || minor == X_GLX_SET_CLIENT_INFO_ARB_MINOR_OPCODE
        || minor == X_GLX_SET_CLIENT_INFO_2_ARB_MINOR_OPCODE {
        if let Some(e) = at_least(16) {
            Err(e)
        } else {
            Ok(XWireRequestView::GlxClientInfo)
        }
    } else if minor == X_GLX_CREATE_CONTEXT_MINOR_OPCODE {
        if let Some(e) = exact(24) {
            Err(e)
        } else if let Some(e) = spec_new_id_error(context, word(4)) {
            Err(e)
        } else {
            Ok(
                XWireRequestView::GlxCreateContext {
                    context: id(4),
                    config: XGlxContextConfig::Visual(word(8)),
                    screen: word(12),
                    share: spec_optional_xid(word(16)),
                    direct: s[20] != 0,
                },
            )
        }
    } else if minor == X_GLX_DESTROY_CONTEXT_MINOR_OPCODE {
        if let Some(e) = exact(8) {
            Err(e)
        } else {
            Ok(XWireRequestView::GlxDestroyContext { context: id(4) })
        }
    } else if minor == X_GLX_MAKE_CURRENT_MINOR_OPCODE {
        if let Some(e) = exact(16) {
            Err(e)
        } else {
            Ok(
                XWireRequestView::GlxMakeCurrent {
                    drawable: spec_optional_xid(word(4)),
                    context: spec_optional_xid(word(8)),
                    old_context_tag: word(12),
                },
            )
        }
    } else if minor == X_GLX_IS_DIRECT_MINOR_OPCODE {
        if let Some(e) = exact(8) {
            Err(e)
        } else {
            Ok(XWireRequestView::GlxIsDirect { context: id(4) })
        }
    } else if minor == X_GLX_CREATE_NEW_CONTEXT_MINOR_OPCODE {
        if let Some(e) = exact(28) {
            Err(e)
        } else if let Some(e) = spec_new_id_error(context, word(4)) {
            Err(e)
        } else {
            Ok(
                XWireRequestView::GlxCreateContext {
                    context: id(4),
                    config: XGlxContextConfig::FbConfig(word(8)),
                    screen: word(12),
                    share: spec_optional_xid(word(20)),
                    direct: s[24] != 0,
                },
            )
        }
    } else if minor == X_GLX_CREATE_CONTEXT_ATTRIBS_ARB_MINOR_OPCODE {
        if let Some(e) = at_least(28) {
            Err(e)
        } else if let Some(e) = exact(spec_sat_usize(28 + 8 * word(24))) {
            Err(e)
        } else if let Some(e) = spec_new_id_error(context, word(4)) {
            Err(e)
        } else {
            Ok(
                XWireRequestView::GlxCreateContext {
                    context: id(4),
                    config: XGlxContextConfig::FbConfig(word(8)),
                    screen: word(12),
                    share: spec_optional_xid(word(16)),
                    direct: s[20] != 0,
                },
            )
        }
    } else if minor == X_GLX_CREATE_WINDOW_MINOR_OPCODE {
        if let Some(e) = at_least(24) {
            Err(e)
        } else if let Some(e) = exact(spec_sat_usize(24 + 8 * word(20))) {
            Err(e)
        } else if let Some(e) = spec_new_id_error(context, word(16)) {
            Err(e)
        } else {
            Ok(
                XWireRequestView::GlxCreateWindow {
                    screen: word(4),
                    fbconfig: word(8),
                    window: id(12),
                    glx_window: id(16),
                },
            )
        }
    } else if minor == X_GLX_CREATE_PBUFFER_MINOR_OPCODE {
        if let Some(e) = at_least(20) {
            Err(e)
        } else if let Some(e) = exact(spec_sat_usize(20 + 8 * word(16))) {
            Err(e)
        } else if let Some(e) = spec_new_id_error(context, word(12)) {
            Err(e)
        } else {
            let k = (s.len() - 20) / 8;
            Ok(
                XWireRequestView::GlxCreatePbuffer {
                    screen: word(4),
                    fbconfig: word(8),
                    pbuffer: id(12),
                    width: match spec_attribute(o, s, 20, k, X_GLX_PBUFFER_WIDTH_ATTRIBUTE) {
                        Some(v) => v,
                        None => 0,
                    },
                    height: match spec_attribute(o, s, 20, k, X_GLX_PBUFFER_HEIGHT_ATTRIBUTE) {
                        Some(v) => v,
                        None => 0,
                    },
                    largest: spec_flag(spec_attribute(o, s, 20, k, X_GLX_LARGEST_PBUFFER_ATTRIBUTE))
                        == Some(true),
                },
            )
        }
    } else if minor == X_GLX_CREATE_PIXMAP_MINOR_OPCODE {
        if let Some(e) = at_least(24) {
            Err(e)
        } else if let Some(e) = exact(spec_sat_usize(24 + 8 * word(20))) {
            Err(e)
        } else if let Some(e) = spec_new_id_error(context, word(16)) {
            Err(e)
        } else {
            let k = (s.len() - 24) / 8;
            Ok(
                XWireRequestView::GlxCreatePixmap {
                    screen: word(4),
                    fbconfig: word(8),
                    pixmap: id(12),
                    glx_pixmap: id(16),
                    target: spec_attribute(o, s, 24, k, X_GLX_TEXTURE_TARGET_ATTRIBUTE),
                    format: spec_attribute(o, s, 24, k, X_GLX_TEXTURE_FORMAT_ATTRIBUTE),
                    mipmap: spec_flag(spec_attribute(o, s, 24, k, X_GLX_MIPMAP_TEXTURE_ATTRIBUTE)),
                },
            )
        }
    } else if minor == X_GLX_CREATE_GLX_PIXMAP_MINOR_OPCODE {
        if let Some(e) = exact(20) {
            Err(e)
        } else if let Some(e) = spec_new_id_error(context, word(16)) {
            Err(e)
        } else {
            Ok(
                XWireRequestView::GlxCreateGlxPixmap {
                    screen: word(4),
                    visual: word(8),
                    pixmap: id(12),
                    glx_pixmap: id(16),
                },
            )
        }
    } else if minor == X_GLX_DESTROY_PIXMAP_MINOR_OPCODE || minor == X_GLX_DESTROY_GLX_PIXMAP_MINOR_OPCODE {
        if let Some(e) = exact(8) {
            Err(e)
        } else {
            Ok(XWireRequestView::GlxDestroyPixmap { minor_opcode: minor, glx_pixmap: id(4) })
        }
    } else if minor == X_GLX_DESTROY_PBUFFER_MINOR_OPCODE {
        if let Some(e) = exact(8) {
            Err(e)
        } else {
            Ok(XWireRequestView::GlxDestroyPbuffer { pbuffer: id(4) })
        }
    } else if minor == X_GLX_QUERY_CONTEXT_MINOR_OPCODE {
        if let Some(e) = exact(8) {
            Err(e)
        } else {
            Ok(XWireRequestView::GlxQueryContext { context: id(4) })
        }
    } else if minor == X_GLX_CHANGE_DRAWABLE_ATTRIBUTES_MINOR_OPCODE {
        if let Some(e) = at_least(12) {
            Err(e)
        } else if let Some(e) = exact(spec_sat_usize(12 + 8 * word(8))) {
            Err(e)
        } else {
            Ok(XWireRequestView::GlxChangeDrawableAttributes { drawable: id(4) })
        }
    } else if minor == X_GLX_MAKE_CONTEXT_CURRENT_MINOR_OPCODE {
        if let Some(e) = exact(20) {
            Err(e)
        } else {
            Ok(
                XWireRequestView::GlxMakeContextCurrent {
                    drawable: id(8),
                    read_drawable: id(12),
                    context: spec_optional_xid(word(16)),
                },
            )
        }
    } else if minor == X_GLX_DELETE_WINDOW_MINOR_OPCODE {
        if let Some(e) = exact(8) {
            Err(e)
        } else {
            Ok(XWireRequestView::GlxDeleteWindow { glx_window: id(4) })
        }
    } else if minor == X_GLX_GET_DRAWABLE_ATTRIBUTES_MINOR_OPCODE {
        if let Some(e) = exact(8) {
            Err(e)
        } else {
            Ok(XWireRequestView::GlxGetDrawableAttributes { drawable: id(4) })
        }
    } else {
        Err(XWireParseError::UnknownOpcode(minor))
    }
}

fn decode_glx(context: XWireClientContext, bytes: &[u8]) -> (r: Result<XWireRequest, XWireParseError>)
    requires
        4 <= bytes@.len() <= 4 * 0xffff,
    ensures
        spec_answer(r) == spec_decode_glx(context, bytes@),
{
    let o = context.byte_order;
    let len = bytes.len();
    let minor = bytes[1];
    let major = X_GLX_MAJOR_OPCODE;
    if minor == X_GLX_QUERY_VERSION_MINOR_OPCODE {
        require_exact_len(major, 12, len)?;
        Ok(
            XWireRequest::GlxQueryVersion {
                major_version: o.u32_at(bytes, 4),
                minor_version: o.u32_at(bytes, 8),
            },
        )
    } else if minor == X_GLX_GET_VISUAL_CONFIGS_MINOR_OPCODE {
        require_exact_len(major, 8, len)?;
        Ok(XWireRequest::GlxGetVisualConfigs { screen: o.u32_at(bytes, 4) })
    } else if minor == X_GLX_QUERY_EXTENSIONS_STRING_MINOR_OPCODE {
        require_exact_len(major, 8, len)?;
        Ok(XWireRequest::GlxQueryExtensionsString)
    } else if minor == X_GLX_QUERY_SERVER_STRING_MINOR_OPCODE {
        require_exact_len(major, 12, len)?;
        Ok(XWireRequest::GlxQueryServerString { name: o.u32_at(bytes, 8) })
    } else if minor == X_GLX_GET_FB_CONFIGS_MINOR_OPCODE {
        require_exact_len(major, 8, len)?;
        Ok(XWireRequest::GlxGetFbConfigs { screen: o.u32_at(bytes, 4) })
    } else if minor == X_GLX_CLIENT_INFO_MINOR_OPCODE || minor == X_GLX_SET_CLIENT_INFO_ARB_MINOR_OPCODE
        || minor == X_GLX_SET_CLIENT_INFO_2_ARB_MINOR_OPCODE {
        require_len(major, 16, len)?;
        Ok(XWireRequest::GlxClientInfo)
    } else if minor == X_GLX_CREATE_CONTEXT_MINOR_OPCODE {
        require_exact_len(major, 24, len)?;
        let id = o.u32_at(bytes, 4);
        context.validate_new_resource_id(id)?;
        Ok(
            XWireRequest::GlxCreateContext {
                context: xid(id),
                config: XGlxContextConfig::Visual(o.u32_at(bytes, 8)),
                screen: o.u32_at(bytes, 12),
                share: optional_xid(o.u32_at(bytes, 16)),
                direct: bytes[20] != 0,
            },
        )
    } else if minor == X_GLX_DESTROY_CONTEXT_MINOR_OPCODE {
        require_exact_len(major, 8, len)?;
        Ok(XWireRequest::GlxDestroyContext { context: xid(o.u32_at(bytes, 4)) })
    } else if minor == X_GLX_MAKE_CURRENT_MINOR_OPCODE {
        require_exact_len(major, 16, len)?;
        Ok(
            XWireRequest::GlxMakeCurrent {
                drawable: optional_xid(o.u32_at(bytes, 4)),
                context: optional_xid(o.u32_at(bytes, 8)),
                old_context_tag: o.u32_at(bytes, 12),
            },
        )
    } else if minor == X_GLX_IS_DIRECT_MINOR_OPCODE {
        require_exact_len(major, 8, len)?;
        Ok(XWireRequest::GlxIsDirect { context: xid(o.u32_at(bytes, 4)) })
    } else if minor == X_GLX_CREATE_NEW_CONTEXT_MINOR_OPCODE {
        require_exact_len(major, 28, len)?;
        let id = o.u32_at(bytes, 4);
        context.validate_new_resource_id(id)?;
        Ok(
            XWireRequest::GlxCreateContext {
                context: xid(id),
                config: XGlxContextConfig::FbConfig(o.u32_at(bytes, 8)),
                screen: o.u32_at(bytes, 12),
                share: optional_xid(o.u32_at(bytes, 20)),
                direct: bytes[24] != 0,
            },
        )
    } else if minor == X_GLX_CREATE_CONTEXT_ATTRIBS_ARB_MINOR_OPCODE {
        require_len(major, 28, len)?;
        require_exact_len(major, pairs_len(28, o.u32_at(bytes, 24)), len)?;
        let id = o.u32_at(bytes, 4);
        context.validate_new_resource_id(id)?;
        Ok(
            XWireRequest::GlxCreateContext {
                context: xid(id),
                config: XGlxContextConfig::FbConfig(o.u32_at(bytes, 8)),
                screen: o.u32_at(bytes, 12),
                share: optional_xid(o.u32_at(bytes, 16)),
                direct: bytes[20] != 0,
            },
        )
    } else if minor == X_GLX_CREATE_WINDOW_MINOR_OPCODE {
        require_len(major, 24, len)?;
        require_exact_len(major, pairs_len(24, o.u32_at(bytes, 20)), len)?;
        let glx = o.u32_at(bytes, 16);
        context.validate_new_resource_id(glx)?;
        Ok(
            XWireRequest::GlxCreateWindow {
                screen: o.u32_at(bytes, 4),
                fbconfig: o.u32_at(bytes, 8),
                window: xid(o.u32_at(bytes, 12)),
                glx_window: xid(glx),
            },
        )
    } else if minor == X_GLX_CREATE_PBUFFER_MINOR_OPCODE {
        require_len(major, 20, len)?;
        require_exact_len(major, pairs_len(20, o.u32_at(bytes, 16)), len)?;
        let pbuffer = o.u32_at(bytes, 12);
        context.validate_new_resource_id(pbuffer)?;
        let found = attributes(
            o,
            bytes,
            20,
            [X_GLX_PBUFFER_WIDTH_ATTRIBUTE, X_GLX_PBUFFER_HEIGHT_ATTRIBUTE, X_GLX_LARGEST_PBUFFER_ATTRIBUTE],
        );
        Ok(
            XWireRequest::GlxCreatePbuffer {
                screen: o.u32_at(bytes, 4),
                fbconfig: o.u32_at(bytes, 8),
                pbuffer: xid(pbuffer),
                width: match found[0] {
                    Some(v) => v,
                    None => 0,
                },
                height: match found[1] {
                    Some(v) => v,
                    None => 0,
                },
                largest: match found[2] {
                    Some(v) => v != 0,
                    None => false,
                },
            },
        )
    } else if minor == X_GLX_CREATE_PIXMAP_MINOR_OPCODE {
        require_len(major, 24, len)?;
        require_exact_len(major, pairs_len(24, o.u32_at(bytes, 20)), len)?;
        let glx_pixmap = o.u32_at(bytes, 16);
        context.validate_new_resource_id(glx_pixmap)?;
        let found = attributes(
            o,
            bytes,
            24,
            [X_GLX_TEXTURE_TARGET_ATTRIBUTE, X_GLX_TEXTURE_FORMAT_ATTRIBUTE, X_GLX_MIPMAP_TEXTURE_ATTRIBUTE],
        );
        Ok(
            XWireRequest::GlxCreatePixmap {
                screen: o.u32_at(bytes, 4),
                fbconfig: o.u32_at(bytes, 8),
                pixmap: xid(o.u32_at(bytes, 12)),
                glx_pixmap: xid(glx_pixmap),
                target: found[0],
                format: found[1],
                mipmap: match found[2] {
                    Some(v) => Some(v != 0),
                    None => None,
                },
            },
        )
    } else if minor == X_GLX_CREATE_GLX_PIXMAP_MINOR_OPCODE {
        require_exact_len(major, 20, len)?;
        let glx_pixmap = o.u32_at(bytes, 16);
        context.validate_new_resource_id(glx_pixmap)?;
        Ok(
            XWireRequest::GlxCreateGlxPixmap {
                screen: o.u32_at(bytes, 4),
                visual: o.u32_at(bytes, 8),
                pixmap: xid(o.u32_at(bytes, 12)),
                glx_pixmap: xid(glx_pixmap),
            },
        )
    } else if minor == X_GLX_DESTROY_PIXMAP_MINOR_OPCODE || minor == X_GLX_DESTROY_GLX_PIXMAP_MINOR_OPCODE {
        require_exact_len(major, 8, len)?;
        Ok(XWireRequest::GlxDestroyPixmap { minor_opcode: minor, glx_pixmap: xid(o.u32_at(bytes, 4)) })
    } else if minor == X_GLX_DESTROY_PBUFFER_MINOR_OPCODE {
        require_exact_len(major, 8, len)?;
        Ok(XWireRequest::GlxDestroyPbuffer { pbuffer: xid(o.u32_at(bytes, 4)) })
    } else if minor == X_GLX_QUERY_CONTEXT_MINOR_OPCODE {
        require_exact_len(major, 8, len)?;
        Ok(XWireRequest::GlxQueryContext { context: xid(o.u32_at(bytes, 4)) })
    } else if minor == X_GLX_CHANGE_DRAWABLE_ATTRIBUTES_MINOR_OPCODE {
        require_len(major, 12, len)?;
        require_exact_len(major, pairs_len(12, o.u32_at(bytes, 8)), len)?;
        Ok(XWireRequest::GlxChangeDrawableAttributes { drawable: xid(o.u32_at(bytes, 4)) })
    } else if minor == X_GLX_MAKE_CONTEXT_CURRENT_MINOR_OPCODE {
        require_exact_len(major, 20, len)?;
        Ok(
            XWireRequest::GlxMakeContextCurrent {
                drawable: xid(o.u32_at(bytes, 8)),
                read_drawable: xid(o.u32_at(bytes, 12)),
                context: optional_xid(o.u32_at(bytes, 16)),
            },
        )
    } else if minor == X_GLX_DELETE_WINDOW_MINOR_OPCODE {
        require_exact_len(major, 8, len)?;
        Ok(XWireRequest::GlxDeleteWindow { glx_window: xid(o.u32_at(bytes, 4)) })
    } else if minor == X_GLX_GET_DRAWABLE_ATTRIBUTES_MINOR_OPCODE {
        require_exact_len(major, 8, len)?;
        Ok(XWireRequest::GlxGetDrawableAttributes { drawable: xid(o.u32_at(bytes, 4)) })
    } else {
        Err(XWireParseError::UnknownOpcode(minor))
    }
}

/// A 16.16 fixed-point value at `at`.
pub open spec fn spec_fixed_at(o: XByteOrder, s: Seq<u8>, at: int) -> i32 {
    spec_u32_at(o, s, at) as i32
}

/// The trapezoid whose forty bytes start at `at`.
pub open spec fn spec_trapezoid_at(o: XByteOrder, s: Seq<u8>, at: int) -> XRenderTrapezoid {
    XRenderTrapezoid {
        top: spec_fixed_at(o, s, at),
        bottom: spec_fixed_at(o, s, at + 4),
        left_p1: (spec_fixed_at(o, s, at + 8), spec_fixed_at(o, s, at + 12)),
        left_p2: (spec_fixed_at(o, s, at + 16), spec_fixed_at(o, s, at + 20)),
        right_p1: (spec_fixed_at(o, s, at + 24), spec_fixed_at(o, s, at + 28)),
        right_p2: (spec_fixed_at(o, s, at + 32), spec_fixed_at(o, s, at + 36)),
    }
}

/// The `count` 32-bit words from `start`.
pub open spec fn spec_words(o: XByteOrder, s: Seq<u8>, start: int, count: int) -> Seq<u32> {
    Seq::new(count as nat, |i: int| spec_u32_at(o, s, start + 4 * i))
}

fn words(o: XByteOrder, bytes: &[u8], start: usize, count: usize) -> (r: Vec<u32>)
    requires
        start + 4 * count <= bytes@.len(),
    ensures
        r@ == spec_words(o, bytes@, start as int, count as int),
{
    let _ = bytes.len();
    let mut out: Vec<u32> = Vec::new();
    let mut i: usize = 0;
    while i < count
        invariant
            start + 4 * count <= bytes@.len(),
            bytes@.len() <= usize::MAX,
            i <= count,
            out@ == spec_words(o, bytes@, start as int, i as int),
        decreases count - i,
    {
        out.push(o.u32_at(bytes, start + 4 * i));
        i = i + 1;
        proof {
            assert(out@ =~= spec_words(o, bytes@, start as int, i as int));
        }
    }
    out
}

fn trapezoids(o: XByteOrder, bytes: &[u8], start: usize) -> (r: Vec<XRenderTrapezoid>)
    requires
        start <= bytes@.len(),
    ensures
        r@ == Seq::new(
            ((bytes@.len() - start) / 40) as nat,
            |i: int| spec_trapezoid_at(o, bytes@, start + 40 * i),
        ),
{
    let n = (bytes.len() - start) / 40;
    let mut out: Vec<XRenderTrapezoid> = Vec::new();
    let mut i: usize = 0;
    while i < n
        invariant
            n == (bytes@.len() - start) / 40,
            start <= bytes@.len() <= usize::MAX,
            i <= n,
            out@ == Seq::new(i as nat, |j: int| spec_trapezoid_at(o, bytes@, start + 40 * j)),
        decreases n - i,
    {
        proof {
            assert(start + 40 * i + 40 <= bytes@.len()) by (nonlinear_arith)
                requires
                    i < n,
                    n == (bytes@.len() - start) / 40,
                    start <= bytes@.len(),
            ;
        }
        let at = start + 40 * i;
        out.push(
            XRenderTrapezoid {
                top: o.u32_at(bytes, at) as i32,
                bottom: o.u32_at(bytes, at + 4) as i32,
                left_p1: (o.u32_at(bytes, at + 8) as i32, o.u32_at(bytes, at + 12) as i32),
                left_p2: (o.u32_at(bytes, at + 16) as i32, o.u32_at(bytes, at + 20) as i32),
                right_p1: (o.u32_at(bytes, at + 24) as i32, o.u32_at(bytes, at + 28) as i32),
                right_p2: (o.u32_at(bytes, at + 32) as i32, o.u32_at(bytes, at + 36) as i32),
            },
        );
        i = i + 1;
        proof {
            assert(out@ =~= Seq::new(i as nat, |j: int| spec_trapezoid_at(o, bytes@, start + 40 * j)));
        }
    }
    out
}

/// What the RENDER requests of fixed shape decode to; `None` for the
/// minors decoded elsewhere.
pub open spec fn spec_decode_render_simple(context: XWireClientContext, s: Seq<u8>) -> Option<
    Result<XWireRequestView, XWireParseError>,
> {
    let o = context.byte_order;
    let len = s.len() as usize;
    let minor = s[1];
    let major = X_RENDER_MAJOR_OPCODE;
    let exact = |n: usize| spec_require_exact_len(major, n, len);
    let at_least = |n: usize| spec_require_len(major, n, len);
    let id = |at: int| spec_xid(spec_u32_at(o, s, at));
    let word = |at: int| spec_u32_at(o, s, at);
    let color = |at: int| seq![
        spec_u16_at(o, s, at),
        spec_u16_at(o, s, at + 2),
        spec_u16_at(o, s, at + 4),
        spec_u16_at(o, s, at + 6),
    ];
    if minor == X_RENDER_QUERY_VERSION_MINOR_OPCODE {
        Some(
            if let Some(e) = exact(12) {
                Err(e)
            } else {
                Ok(XWireRequestView::RenderQueryVersion { major: word(4), minor: word(8) })
            },
        )
    } else if minor == X_RENDER_QUERY_PICT_FORMATS_MINOR_OPCODE {
        Some(
            if let Some(e) = exact(4) {
                Err(e)
            } else {
                Ok(XWireRequestView::RenderQueryPictFormats)
            },
        )
    } else if minor == X_RENDER_CREATE_PICTURE_MINOR_OPCODE {
        Some(
            if let Some(e) = at_least(20) {
                Err(e)
            } else if let Some(e) = spec_new_id_error(context, word(4)) {
                Err(e)
            } else {
                match spec_picture_values(o, word(16), s.subrange(20, s.len() as int)) {
                    Err(e) => Err(e),
                    Ok(values) => Ok(
                        XWireRequestView::RenderCreatePicture {
                            picture: id(4),
                            drawable: id(8),
                            format: word(12),
                            values,
                        },
                    ),
                }
            },
        )
    } else if minor == X_RENDER_CHANGE_PICTURE_MINOR_OPCODE {
        Some(
            if let Some(e) = at_least(12) {
                Err(e)
            } else {
                match spec_picture_values(o, word(8), s.subrange(12, s.len() as int)) {
                    Err(e) => Err(e),
                    Ok(values) => Ok(XWireRequestView::RenderChangePicture { picture: id(4), values }),
                }
            },
        )
    } else if minor == X_RENDER_SET_PICTURE_CLIP_RECTANGLES_MINOR_OPCODE {
        Some(
            if let Some(e) = at_least(12) {
                Err(e)
            } else if (s.len() - 12) % 8 != 0 {
                Err(XWireParseError::InvalidLength { opcode: major, expected_at_least: 12, actual: len })
            } else {
                Ok(
                    XWireRequestView::RenderSetPictureClipRectangles {
                        picture: id(4),
                        clip_x_origin: spec_i16_at(o, s, 8),
                        clip_y_origin: spec_i16_at(o, s, 10),
                        rectangles: spec_rects(o, s.subrange(12, s.len() as int)),
                    },
                )
            },
        )
    } else if minor == X_RENDER_FREE_PICTURE_MINOR_OPCODE {
        Some(
            if let Some(e) = exact(8) {
                Err(e)
            } else {
                Ok(XWireRequestView::RenderFreePicture { picture: id(4) })
            },
        )
    } else if minor == X_RENDER_FILL_RECTANGLES_MINOR_OPCODE {
        Some(
            if let Some(e) = at_least(20) {
                Err(e)
            } else if (s.len() - 20) % 8 != 0 {
                Err(XWireParseError::InvalidLength { opcode: major, expected_at_least: 20, actual: len })
            } else {
                Ok(
                    XWireRequestView::RenderFillRectangles {
                        op: s[4],
                        picture: id(8),
                        color: color(12),
                        rectangles: spec_rects(o, s.subrange(20, s.len() as int)),
                    },
                )
            },
        )
    } else if minor == X_RENDER_COMPOSITE_MINOR_OPCODE {
        Some(
            if let Some(e) = exact(36) {
                Err(e)
            } else {
                Ok(
                    XWireRequestView::RenderComposite {
                        op: s[4],
                        source: id(8),
                        mask: spec_optional_xid(word(12)),
                        destination: id(16),
                        source_x: spec_i16_at(o, s, 20),
                        source_y: spec_i16_at(o, s, 22),
                        mask_x: spec_i16_at(o, s, 24),
                        mask_y: spec_i16_at(o, s, 26),
                        destination_x: spec_i16_at(o, s, 28),
                        destination_y: spec_i16_at(o, s, 30),
                        width: spec_u16_at(o, s, 32),
                        height: spec_u16_at(o, s, 34),
                    },
                )
            },
        )
    } else if minor == X_RENDER_CREATE_GLYPH_SET_MINOR_OPCODE {
        Some(
            if let Some(e) = exact(12) {
                Err(e)
            } else if let Some(e) = spec_new_id_error(context, word(4)) {
                Err(e)
            } else {
                Ok(XWireRequestView::RenderCreateGlyphSet { glyphset: id(4), format: word(8) })
            },
        )
    } else if minor == X_RENDER_REFERENCE_GLYPH_SET_MINOR_OPCODE {
        Some(
            if let Some(e) = exact(12) {
                Err(e)
            } else if let Some(e) = spec_new_id_error(context, word(4)) {
                Err(e)
            } else {
                Ok(XWireRequestView::RenderReferenceGlyphSet { glyphset: id(4), existing: id(8) })
            },
        )
    } else if minor == X_RENDER_FREE_GLYPH_SET_MINOR_OPCODE {
        Some(
            if let Some(e) = exact(8) {
                Err(e)
            } else {
                Ok(XWireRequestView::RenderFreeGlyphSet { glyphset: id(4) })
            },
        )
    } else if minor == X_RENDER_FREE_GLYPHS_MINOR_OPCODE {
        Some(
            if let Some(e) = at_least(8) {
                Err(e)
            } else if (s.len() - 8) % 4 != 0 {
                Err(XWireParseError::InvalidLength { opcode: major, expected_at_least: 8, actual: len })
            } else {
                Ok(
                    XWireRequestView::RenderFreeGlyphs {
                        glyphset: id(4),
                        ids: spec_words(o, s, 8, (s.len() - 8) / 4),
                    },
                )
            },
        )
    } else if minor == X_RENDER_CREATE_CURSOR_MINOR_OPCODE {
        Some(
            if let Some(e) = exact(16) {
                Err(e)
            } else if let Some(e) = spec_new_id_error(context, word(4)) {
                Err(e)
            } else {
                Ok(
                    XWireRequestView::RenderCreateCursor {
                        cursor: id(4),
                        source: id(8),
                        hotspot_x: spec_u16_at(o, s, 12),
                        hotspot_y: spec_u16_at(o, s, 14),
                    },
                )
            },
        )
    } else if minor == X_RENDER_SET_PICTURE_TRANSFORM_MINOR_OPCODE {
        Some(
            if let Some(e) = exact(44) {
                Err(e)
            } else {
                Ok(
                    XWireRequestView::RenderSetPictureTransform {
                        picture: id(4),
                        matrix: Seq::new(9, |i: int| spec_fixed_at(o, s, 8 + 4 * i)),
                    },
                )
            },
        )
    } else if minor == X_RENDER_QUERY_FILTERS_MINOR_OPCODE {
        Some(
            if let Some(e) = exact(8) {
                Err(e)
            } else {
                Ok(XWireRequestView::RenderQueryFilters { drawable: id(4) })
            },
        )
    } else if minor == X_RENDER_SET_PICTURE_FILTER_MINOR_OPCODE {
        Some(
            if let Some(e) = at_least(12) {
                Err(e)
            } else {
                let name_end = 12 + spec_u16_at(o, s, 8);
                let padded_end = spec_padded_len(name_end);
                if let Some(e) = at_least(padded_end as usize) {
                    Err(e)
                } else {
                    Ok(
                        XWireRequestView::RenderSetPictureFilter {
                            picture: id(4),
                            name: s.subrange(12, name_end),
                            has_params: s.len() > padded_end,
                        },
                    )
                }
            },
        )
    } else if minor == X_RENDER_TRAPEZOIDS_MINOR_OPCODE {
        Some(
            if let Some(e) = at_least(X_RENDER_PRIMITIVE_PREFIX_LEN) {
                Err(e)
            } else if (s.len() - 24) % 40 != 0 {
                Err(XWireParseError::InvalidLength { opcode: major, expected_at_least: 24, actual: len })
            } else {
                Ok(
                    XWireRequestView::RenderTrapezoids {
                        op: s[4],
                        source: id(8),
                        destination: id(12),
                        mask_format: word(16),
                        source_x: spec_i16_at(o, s, 20),
                        source_y: spec_i16_at(o, s, 22),
                        trapezoids: Seq::new(
                            ((s.len() - 24) / 40) as nat,
                            |i: int| spec_trapezoid_at(o, s, 24 + 40 * i),
                        ),
                    },
                )
            },
        )
    } else if minor == X_RENDER_CREATE_SOLID_FILL_MINOR_OPCODE {
        Some(
            if let Some(e) = exact(16) {
                Err(e)
            } else if let Some(e) = spec_new_id_error(context, word(4)) {
                Err(e)
            } else {
                Ok(XWireRequestView::RenderCreateSolidFill { picture: id(4), color: color(8) })
            },
        )
    } else {
        None
    }
}

/// The bytes from `start` up to `end`, copied.
fn copy_bytes(bytes: &[u8], start: usize, end: usize) -> (r: Vec<u8>)
    requires
        start <= end <= bytes@.len(),
    ensures
        r@ == bytes@.subrange(start as int, end as int),
{
    let mut out: Vec<u8> = Vec::new();
    let mut i: usize = start;
    while i < end
        invariant
            start <= i <= end <= bytes@.len(),
            out@ == bytes@.subrange(start as int, i as int),
        decreases end - i,
    {
        out.push(bytes[i]);
        i = i + 1;
        proof {
            assert(out@ =~= bytes@.subrange(start as int, i as int));
        }
    }
    out
}

fn color_at(o: XByteOrder, bytes: &[u8], at: usize) -> (r: [u16; 4])
    requires
        at + 8 <= bytes@.len(),
    ensures
        r@ == seq![
            spec_u16_at(o, bytes@, at as int),
            spec_u16_at(o, bytes@, at + 2),
            spec_u16_at(o, bytes@, at + 4),
            spec_u16_at(o, bytes@, at + 6),
        ],
{
    let _ = bytes.len();
    let r = [o.u16_at(bytes, at), o.u16_at(bytes, at + 2), o.u16_at(bytes, at + 4), o.u16_at(bytes, at + 6)];
    proof {
        assert(r@ =~= seq![
            spec_u16_at(o, bytes@, at as int),
            spec_u16_at(o, bytes@, at + 2),
            spec_u16_at(o, bytes@, at + 4),
            spec_u16_at(o, bytes@, at + 6),
        ]);
    }
    r
}

fn decode_render_simple(context: XWireClientContext, bytes: &[u8]) -> (r: Option<
    Result<XWireRequest, XWireParseError>,
>)
    requires
        4 <= bytes@.len() <= 4 * 0xffff,
    ensures
        match r {
            Some(a) => spec_decode_render_simple(context, bytes@) == Some(spec_answer(a)),
            None => spec_decode_render_simple(context, bytes@) is None,
        },
{
    let o = context.byte_order;
    let len = bytes.len();
    let minor = bytes[1];
    let major = X_RENDER_MAJOR_OPCODE;
    if minor == X_RENDER_QUERY_VERSION_MINOR_OPCODE {
        Some(
            match require_exact_len(major, 12, len) {
                Err(e) => Err(e),
                Ok(()) => Ok(XWireRequest::RenderQueryVersion { major: o.u32_at(bytes, 4), minor: o.u32_at(bytes, 8) }),
            },
        )
    } else if minor == X_RENDER_QUERY_PICT_FORMATS_MINOR_OPCODE {
        Some(
            match require_exact_len(major, 4, len) {
                Err(e) => Err(e),
                Ok(()) => Ok(XWireRequest::RenderQueryPictFormats),
            },
        )
    } else if minor == X_RENDER_CREATE_PICTURE_MINOR_OPCODE {
        Some(render_create_picture(context, bytes))
    } else if minor == X_RENDER_CHANGE_PICTURE_MINOR_OPCODE {
        Some(render_change_picture(context, bytes))
    } else if minor == X_RENDER_SET_PICTURE_CLIP_RECTANGLES_MINOR_OPCODE {
        Some(
            if len < 12 {
                Err(XWireParseError::InvalidLength { opcode: major, expected_at_least: 12, actual: len })
            } else if (len - 12) % 8 != 0 {
                Err(XWireParseError::InvalidLength { opcode: major, expected_at_least: 12, actual: len })
            } else {
                Ok(
                    XWireRequest::RenderSetPictureClipRectangles {
                        picture: xid(o.u32_at(bytes, 4)),
                        clip_x_origin: o.i16_at(bytes, 8),
                        clip_y_origin: o.i16_at(bytes, 10),
                        rectangles: rects_from(o, bytes, 12),
                    },
                )
            },
        )
    } else if minor == X_RENDER_FREE_PICTURE_MINOR_OPCODE {
        Some(
            match require_exact_len(major, 8, len) {
                Err(e) => Err(e),
                Ok(()) => Ok(XWireRequest::RenderFreePicture { picture: xid(o.u32_at(bytes, 4)) }),
            },
        )
    } else if minor == X_RENDER_FILL_RECTANGLES_MINOR_OPCODE {
        Some(
            if len < 20 {
                Err(XWireParseError::InvalidLength { opcode: major, expected_at_least: 20, actual: len })
            } else if (len - 20) % 8 != 0 {
                Err(XWireParseError::InvalidLength { opcode: major, expected_at_least: 20, actual: len })
            } else {
                Ok(
                    XWireRequest::RenderFillRectangles {
                        op: bytes[4],
                        picture: xid(o.u32_at(bytes, 8)),
                        color: color_at(o, bytes, 12),
                        rectangles: rects_from(o, bytes, 20),
                    },
                )
            },
        )
    } else if minor == X_RENDER_COMPOSITE_MINOR_OPCODE {
        Some(
            match require_exact_len(major, 36, len) {
                Err(e) => Err(e),
                Ok(()) => Ok(
                    XWireRequest::RenderComposite {
                        op: bytes[4],
                        source: xid(o.u32_at(bytes, 8)),
                        mask: optional_xid(o.u32_at(bytes, 12)),
                        destination: xid(o.u32_at(bytes, 16)),
                        source_x: o.i16_at(bytes, 20),
                        source_y: o.i16_at(bytes, 22),
                        mask_x: o.i16_at(bytes, 24),
                        mask_y: o.i16_at(bytes, 26),
                        destination_x: o.i16_at(bytes, 28),
                        destination_y: o.i16_at(bytes, 30),
                        width: o.u16_at(bytes, 32),
                        height: o.u16_at(bytes, 34),
                    },
                ),
            },
        )
    } else if minor == X_RENDER_CREATE_GLYPH_SET_MINOR_OPCODE || minor == X_RENDER_REFERENCE_GLYPH_SET_MINOR_OPCODE {
        Some(
            match require_exact_len(major, 12, len) {
                Err(e) => Err(e),
                Ok(()) => {
                    let glyphset = o.u32_at(bytes, 4);
                    match context.validate_new_resource_id(glyphset) {
                        Err(e) => Err(e),
                        Ok(()) => if minor == X_RENDER_CREATE_GLYPH_SET_MINOR_OPCODE {
                            Ok(XWireRequest::RenderCreateGlyphSet { glyphset: xid(glyphset), format: o.u32_at(bytes, 8) })
                        } else {
                            Ok(
                                XWireRequest::RenderReferenceGlyphSet {
                                    glyphset: xid(glyphset),
                                    existing: xid(o.u32_at(bytes, 8)),
                                },
                            )
                        },
                    }
                },
            },
        )
    } else if minor == X_RENDER_FREE_GLYPH_SET_MINOR_OPCODE {
        Some(
            match require_exact_len(major, 8, len) {
                Err(e) => Err(e),
                Ok(()) => Ok(XWireRequest::RenderFreeGlyphSet { glyphset: xid(o.u32_at(bytes, 4)) }),
            },
        )
    } else if minor == X_RENDER_FREE_GLYPHS_MINOR_OPCODE {
        Some(
            if len < 8 {
                Err(XWireParseError::InvalidLength { opcode: major, expected_at_least: 8, actual: len })
            } else if (len - 8) % 4 != 0 {
                Err(XWireParseError::InvalidLength { opcode: major, expected_at_least: 8, actual: len })
            } else {
                Ok(
                    XWireRequest::RenderFreeGlyphs {
                        glyphset: xid(o.u32_at(bytes, 4)),
                        ids: words(o, bytes, 8, (len - 8) / 4),
                    },
                )
            },
        )
    } else if minor == X_RENDER_CREATE_CURSOR_MINOR_OPCODE {
        Some(
            match require_exact_len(major, 16, len) {
                Err(e) => Err(e),
                Ok(()) => {
                    let cursor = o.u32_at(bytes, 4);
                    match context.validate_new_resource_id(cursor) {
                        Err(e) => Err(e),
                        Ok(()) => Ok(
                            XWireRequest::RenderCreateCursor {
                                cursor: xid(cursor),
                                source: xid(o.u32_at(bytes, 8)),
                                hotspot_x: o.u16_at(bytes, 12),
                                hotspot_y: o.u16_at(bytes, 14),
                            },
                        ),
                    }
                },
            },
        )
    } else if minor == X_RENDER_SET_PICTURE_TRANSFORM_MINOR_OPCODE {
        Some(
            match require_exact_len(major, 44, len) {
                Err(e) => Err(e),
                Ok(()) => {
                    let mut matrix: [i32; 9] = [0i32; 9];
                    let mut i: usize = 0;
                    while i < 9
                        invariant
                            bytes@.len() == 44,
                            i <= 9,
                            forall|j: int| 0 <= j < i ==> #[trigger] matrix@[j] == spec_fixed_at(o, bytes@, 8 + 4 * j),
                        decreases 9 - i,
                    {
                        matrix[i] = o.u32_at(bytes, 8 + 4 * i) as i32;
                        i = i + 1;
                    }
                    proof {
                        assert(matrix@ =~= Seq::new(9, |j: int| spec_fixed_at(o, bytes@, 8 + 4 * j)));
                    }
                    Ok(XWireRequest::RenderSetPictureTransform { picture: xid(o.u32_at(bytes, 4)), matrix })
                },
            },
        )
    } else if minor == X_RENDER_QUERY_FILTERS_MINOR_OPCODE {
        Some(
            match require_exact_len(major, 8, len) {
                Err(e) => Err(e),
                Ok(()) => Ok(XWireRequest::RenderQueryFilters { drawable: xid(o.u32_at(bytes, 4)) }),
            },
        )
    } else if minor == X_RENDER_SET_PICTURE_FILTER_MINOR_OPCODE {
        Some(
            if len < 12 {
                Err(XWireParseError::InvalidLength { opcode: major, expected_at_least: 12, actual: len })
            } else {
                let name_end: usize = 12 + o.u16_at(bytes, 8) as usize;
                let padded_end: usize = 4 * ((name_end + 3) / 4);
                if len < padded_end {
                    Err(XWireParseError::InvalidLength { opcode: major, expected_at_least: padded_end, actual: len })
                } else {
                    let name = copy_bytes(bytes, 12, name_end);
                    Ok(
                        XWireRequest::RenderSetPictureFilter {
                            picture: xid(o.u32_at(bytes, 4)),
                            name,
                            has_params: len > padded_end,
                        },
                    )
                }
            },
        )
    } else if minor == X_RENDER_TRAPEZOIDS_MINOR_OPCODE {
        Some(
            if len < X_RENDER_PRIMITIVE_PREFIX_LEN {
                Err(XWireParseError::InvalidLength { opcode: major, expected_at_least: 24, actual: len })
            } else if (len - 24) % 40 != 0 {
                Err(XWireParseError::InvalidLength { opcode: major, expected_at_least: 24, actual: len })
            } else {
                Ok(
                    XWireRequest::RenderTrapezoids {
                        op: bytes[4],
                        source: xid(o.u32_at(bytes, 8)),
                        destination: xid(o.u32_at(bytes, 12)),
                        mask_format: o.u32_at(bytes, 16),
                        source_x: o.i16_at(bytes, 20),
                        source_y: o.i16_at(bytes, 22),
                        trapezoids: trapezoids(o, bytes, 24),
                    },
                )
            },
        )
    } else if minor == X_RENDER_CREATE_SOLID_FILL_MINOR_OPCODE {
        Some(
            match require_exact_len(major, 16, len) {
                Err(e) => Err(e),
                Ok(()) => {
                    let picture = o.u32_at(bytes, 4);
                    match context.validate_new_resource_id(picture) {
                        Err(e) => Err(e),
                        Ok(()) => Ok(
                            XWireRequest::RenderCreateSolidFill { picture: xid(picture), color: color_at(o, bytes, 8) },
                        ),
                    }
                },
            },
        )
    } else {
        None
    }
}

fn render_create_picture(context: XWireClientContext, bytes: &[u8]) -> (r: Result<
    XWireRequest,
    XWireParseError,
>)
    requires
        4 <= bytes@.len(),
        bytes@[1] == X_RENDER_CREATE_PICTURE_MINOR_OPCODE,
    ensures
        spec_decode_render_simple(context, bytes@) == Some(spec_answer(r)),
{
    let o = context.byte_order;
    require_len(X_RENDER_MAJOR_OPCODE, 20, bytes.len())?;
    let picture = o.u32_at(bytes, 4);
    context.validate_new_resource_id(picture)?;
    let values = decode_render_picture_values(o, o.u32_at(bytes, 16), &bytes[20..bytes.len()])?;
    Ok(
        XWireRequest::RenderCreatePicture {
            picture: xid(picture),
            drawable: xid(o.u32_at(bytes, 8)),
            format: o.u32_at(bytes, 12),
            values,
        },
    )
}

fn render_change_picture(context: XWireClientContext, bytes: &[u8]) -> (r: Result<
    XWireRequest,
    XWireParseError,
>)
    requires
        4 <= bytes@.len(),
        bytes@[1] == X_RENDER_CHANGE_PICTURE_MINOR_OPCODE,
    ensures
        spec_decode_render_simple(context, bytes@) == Some(spec_answer(r)),
{
    let o = context.byte_order;
    require_len(X_RENDER_MAJOR_OPCODE, 12, bytes.len())?;
    let values = decode_render_picture_values(o, o.u32_at(bytes, 8), &bytes[12..bytes.len()])?;
    Ok(XWireRequest::RenderChangePicture { picture: xid(o.u32_at(bytes, 4)), values })
}

/// The glyph metrics whose twelve bytes start at `at`.
pub open spec fn spec_glyph_info_at(o: XByteOrder, s: Seq<u8>, at: int) -> XRenderGlyphInfo {
    XRenderGlyphInfo {
        width: spec_u16_at(o, s, at),
        height: spec_u16_at(o, s, at + 2),
        x: spec_i16_at(o, s, at + 4),
        y: spec_i16_at(o, s, at + 6),
        off_x: spec_i16_at(o, s, at + 8),
        off_y: spec_i16_at(o, s, at + 10),
    }
}

/// What an `AddGlyphs` request decodes to: `count` ids, then `count`
/// metric records, then the glyph images.
pub open spec fn spec_decode_add_glyphs(context: XWireClientContext, s: Seq<u8>) -> Result<
    XWireRequestView,
    XWireParseError,
> {
    let o = context.byte_order;
    let len = s.len() as usize;
    let major = X_RENDER_MAJOR_OPCODE;
    if let Some(e) = spec_require_len(major, 12, len) {
        Err(e)
    } else {
        let count = spec_u32_at(o, s, 8) as int;
        let header_len = 12 + 16 * count;
        if header_len > usize::MAX {
            Err(XWireParseError::InvalidLength { opcode: major, expected_at_least: 12, actual: len })
        } else if let Some(e) = spec_require_len(major, header_len as usize, len) {
            Err(e)
        } else {
            Ok(
                XWireRequestView::RenderAddGlyphs {
                    glyphset: spec_xid(spec_u32_at(o, s, 4)),
                    ids: spec_words(o, s, 12, count),
                    glyphs: Seq::new(count as nat, |i: int| spec_glyph_info_at(o, s, 12 + 4 * count + 12 * i)),
                    data: s.subrange(header_len, s.len() as int),
                },
            )
        }
    }
}

fn decode_add_glyphs(context: XWireClientContext, bytes: &[u8]) -> (r: Result<XWireRequest, XWireParseError>)
    requires
        4 <= bytes@.len() <= 4 * 0xffff,
    ensures
        spec_answer(r) == spec_decode_add_glyphs(context, bytes@),
{
    let o = context.byte_order;
    let len = bytes.len();
    let major = X_RENDER_MAJOR_OPCODE;
    require_len(major, 12, len)?;
    let count = o.u32_at(bytes, 8) as usize;
    let too_long = XWireParseError::InvalidLength { opcode: major, expected_at_least: 12, actual: len };
    let table_len = match count.checked_mul(12) {
        Some(n) => n,
        None => return Err(too_long),
    };
    let ids_len = match count.checked_mul(4) {
        Some(n) => n,
        None => return Err(too_long),
    };
    let header_len = match 12usize.checked_add(ids_len) {
        Some(n) => match n.checked_add(table_len) {
            Some(m) => m,
            None => return Err(too_long),
        },
        None => return Err(too_long),
    };
    require_len(major, header_len, len)?;
    let ids = words(o, bytes, 12, count);
    let mut glyphs: Vec<XRenderGlyphInfo> = Vec::new();
    let mut i: usize = 0;
    while i < count
        invariant
            header_len == 12 + 16 * count,
            header_len <= bytes@.len() <= 4 * 0xffff,
            i <= count,
            glyphs@ == Seq::new(i as nat, |j: int| spec_glyph_info_at(o, bytes@, 12 + 4 * count + 12 * j)),
        decreases count - i,
    {
        let at = 12 + 4 * count + 12 * i;
        glyphs.push(
            XRenderGlyphInfo {
                width: o.u16_at(bytes, at),
                height: o.u16_at(bytes, at + 2),
                x: o.i16_at(bytes, at + 4),
                y: o.i16_at(bytes, at + 6),
                off_x: o.i16_at(bytes, at + 8),
                off_y: o.i16_at(bytes, at + 10),
            },
        );
        i = i + 1;
        proof {
            assert(glyphs@ =~= Seq::new(i as nat, |j: int| spec_glyph_info_at(o, bytes@, 12 + 4 * count + 12 * j)));
        }
    }
    let data = copy_bytes(bytes, header_len, len);
    Ok(XWireRequest::RenderAddGlyphs { glyphset: xid(o.u32_at(bytes, 4)), ids, glyphs, data })
}

/// The point whose eight bytes start at `at`.
pub open spec fn spec_point_at(o: XByteOrder, s: Seq<u8>, at: int) -> (i32, i32) {
    (spec_fixed_at(o, s, at), spec_fixed_at(o, s, at + 4))
}

/// The triangles a `Triangles`, `TriStrip` or `TriFan` body from `start`
/// describes: whole triangles; or each run of three points of a strip; or
/// the first point with each later pair of a fan.
pub open spec fn spec_triangles(o: XByteOrder, s: Seq<u8>, start: int, minor: u8) -> Seq<XRenderTriangle> {
    let body = s.len() - start;
    if minor == X_RENDER_TRIANGLES_MINOR_OPCODE {
        Seq::new(
            (body / 24) as nat,
            |i: int|
                XRenderTriangle {
                    p1: spec_point_at(o, s, start + 24 * i),
                    p2: spec_point_at(o, s, start + 24 * i + 8),
                    p3: spec_point_at(o, s, start + 24 * i + 16),
                },
        )
    } else {
        let n = body / 8;
        Seq::new(
            (if n >= 3 { n - 2 } else { 0 }) as nat,
            |i: int|
                XRenderTriangle {
                    p1: if minor == X_RENDER_TRI_STRIP_MINOR_OPCODE {
                        spec_point_at(o, s, start + 8 * i)
                    } else {
                        spec_point_at(o, s, start)
                    },
                    p2: spec_point_at(o, s, start + 8 * (i + 1)),
                    p3: spec_point_at(o, s, start + 8 * (i + 2)),
                },
        )
    }
}

fn point_at(o: XByteOrder, bytes: &[u8], at: usize) -> (r: (i32, i32))
    requires
        at + 8 <= bytes@.len(),
    ensures
        r == spec_point_at(o, bytes@, at as int),
{
    let _ = bytes.len();
    (o.u32_at(bytes, at) as i32, o.u32_at(bytes, at + 4) as i32)
}

fn triangles(o: XByteOrder, bytes: &[u8], start: usize, minor: u8) -> (r: Vec<XRenderTriangle>)
    requires
        start <= bytes@.len() <= 4 * 0xffff,
    ensures
        r@ == spec_triangles(o, bytes@, start as int, minor),
{
    let body = bytes.len() - start;
    let mut out: Vec<XRenderTriangle> = Vec::new();
    let ghost want = spec_triangles(o, bytes@, start as int, minor);
    let count: usize = if minor == X_RENDER_TRIANGLES_MINOR_OPCODE {
        body / 24
    } else if body / 8 >= 3 {
        body / 8 - 2
    } else {
        0
    };
    let mut i: usize = 0;
    while i < count
        invariant
            want == spec_triangles(o, bytes@, start as int, minor),
            want.len() == count,
            body == bytes@.len() - start,
            start <= bytes@.len() <= 4 * 0xffff,
            minor == X_RENDER_TRIANGLES_MINOR_OPCODE ==> count == body / 24,
            minor != X_RENDER_TRIANGLES_MINOR_OPCODE && body / 8 >= 3 ==> count + 2 == body / 8,
            minor != X_RENDER_TRIANGLES_MINOR_OPCODE && body / 8 < 3 ==> count == 0,
            i <= count,
            out@ == want.subrange(0, i as int),
        decreases count - i,
    {
        let t = if minor == X_RENDER_TRIANGLES_MINOR_OPCODE {
            let at = start + 24 * i;
            XRenderTriangle {
                p1: point_at(o, bytes, at),
                p2: point_at(o, bytes, at + 8),
                p3: point_at(o, bytes, at + 16),
            }
        } else {
            XRenderTriangle {
                p1: if minor == X_RENDER_TRI_STRIP_MINOR_OPCODE {
                    point_at(o, bytes, start + 8 * i)
                } else {
                    point_at(o, bytes, start)
                },
                p2: point_at(o, bytes, start + 8 * (i + 1)),
                p3: point_at(o, bytes, start + 8 * (i + 2)),
            }
        };
        out.push(t);
        proof {
            assert(out@ =~= want.subrange(0, i + 1));
        }
        i = i + 1;
    }
    proof {
        assert(out@ =~= want);
    }
    out
}

/// What a `Triangles`, `TriStrip` or `TriFan` request decodes to.
pub open spec fn spec_decode_triangles(context: XWireClientContext, s: Seq<u8>) -> Result<
    XWireRequestView,
    XWireParseError,
> {
    let o = context.byte_order;
    let len = s.len() as usize;
    let major = X_RENDER_MAJOR_OPCODE;
    let minor = s[1];
    let unit = if minor == X_RENDER_TRIANGLES_MINOR_OPCODE { 24int } else { 8int };
    if let Some(e) = spec_require_len(major, X_RENDER_PRIMITIVE_PREFIX_LEN, len) {
        Err(e)
    } else if (s.len() - 24) % unit != 0 {
        Err(XWireParseError::InvalidLength { opcode: major, expected_at_least: 24, actual: len })
    } else {
        Ok(
            XWireRequestView::RenderTriangles {
                op: s[4],
                source: spec_xid(spec_u32_at(o, s, 8)),
                destination: spec_xid(spec_u32_at(o, s, 12)),
                mask_format: spec_u32_at(o, s, 16),
                source_x: spec_i16_at(o, s, 20),
                source_y: spec_i16_at(o, s, 22),
                triangles: spec_triangles(o, s, 24, minor),
                minor_opcode: minor,
            },
        )
    }
}

fn decode_triangles(context: XWireClientContext, bytes: &[u8]) -> (r: Result<XWireRequest, XWireParseError>)
    requires
        4 <= bytes@.len() <= 4 * 0xffff,
    ensures
        spec_answer(r) == spec_decode_triangles(context, bytes@),
{
    let o = context.byte_order;
    let len = bytes.len();
    let major = X_RENDER_MAJOR_OPCODE;
    let minor = bytes[1];
    let unit: usize = if minor == X_RENDER_TRIANGLES_MINOR_OPCODE { 24 } else { 8 };
    require_len(major, X_RENDER_PRIMITIVE_PREFIX_LEN, len)?;
    if (len - 24) % unit != 0 {
        return Err(XWireParseError::InvalidLength { opcode: major, expected_at_least: 24, actual: len });
    }
    Ok(
        XWireRequest::RenderTriangles {
            op: bytes[4],
            source: xid(o.u32_at(bytes, 8)),
            destination: xid(o.u32_at(bytes, 12)),
            mask_format: o.u32_at(bytes, 16),
            source_x: o.i16_at(bytes, 20),
            source_y: o.i16_at(bytes, 22),
            triangles: triangles(o, bytes, 24, minor),
            minor_opcode: minor,
        },
    )
}

/// The fixed part of a gradient request of this minor, ending with its
/// stop count.
pub open spec fn spec_gradient_header(minor: u8) -> usize {
    if minor == X_RENDER_CREATE_LINEAR_GRADIENT_MINOR_OPCODE {
        28
    } else if minor == X_RENDER_CREATE_RADIAL_GRADIENT_MINOR_OPCODE {
        36
    } else {
        24
    }
}

/// What a gradient request decodes to: its geometry, then `count` stop
/// positions followed by `count` colors.
pub open spec fn spec_decode_gradient(context: XWireClientContext, s: Seq<u8>) -> Result<
    XWireRequestView,
    XWireParseError,
> {
    let o = context.byte_order;
    let len = s.len() as usize;
    let major = X_RENDER_MAJOR_OPCODE;
    let minor = s[1];
    let header = spec_gradient_header(minor);
    if let Some(e) = spec_require_len(major, header, len) {
        Err(e)
    } else if let Some(e) = spec_new_id_error(context, spec_u32_at(o, s, 4)) {
        Err(e)
    } else {
        let count = spec_u32_at(o, s, header - 4) as int;
        let body = header + 12 * count;
        if body > usize::MAX {
            Err(XWireParseError::InvalidLength { opcode: major, expected_at_least: header, actual: len })
        } else if let Some(e) = spec_require_len(major, body as usize, len) {
            Err(e)
        } else {
            let colors_at = header + 4 * count;
            Ok(
                XWireRequestView::RenderCreateGradient {
                    picture: spec_xid(spec_u32_at(o, s, 4)),
                    geometry: if minor == X_RENDER_CREATE_LINEAR_GRADIENT_MINOR_OPCODE {
                        XRenderGradientGeometry::Linear {
                            p1: spec_point_at(o, s, 8),
                            p2: spec_point_at(o, s, 16),
                        }
                    } else if minor == X_RENDER_CREATE_RADIAL_GRADIENT_MINOR_OPCODE {
                        XRenderGradientGeometry::Radial {
                            inner: spec_point_at(o, s, 8),
                            inner_radius: spec_fixed_at(o, s, 24),
                            outer: spec_point_at(o, s, 16),
                            outer_radius: spec_fixed_at(o, s, 28),
                        }
                    } else {
                        XRenderGradientGeometry::Conical {
                            center: spec_point_at(o, s, 8),
                            angle: spec_fixed_at(o, s, 16),
                        }
                    },
                    stops: Seq::new(
                        count as nat,
                        |i: int|
                            (
                                spec_fixed_at(o, s, header + 4 * i),
                                seq![
                                    spec_u16_at(o, s, colors_at + 8 * i),
                                    spec_u16_at(o, s, colors_at + 8 * i + 2),
                                    spec_u16_at(o, s, colors_at + 8 * i + 4),
                                    spec_u16_at(o, s, colors_at + 8 * i + 6),
                                ],
                            ),
                    ),
                    minor_opcode: minor,
                },
            )
        }
    }
}

fn decode_gradient(context: XWireClientContext, bytes: &[u8]) -> (r: Result<XWireRequest, XWireParseError>)
    requires
        4 <= bytes@.len() <= 4 * 0xffff,
    ensures
        spec_answer(r) == spec_decode_gradient(context, bytes@),
{
    let o = context.byte_order;
    let len = bytes.len();
    let major = X_RENDER_MAJOR_OPCODE;
    let minor = bytes[1];
    let header: usize = if minor == X_RENDER_CREATE_LINEAR_GRADIENT_MINOR_OPCODE {
        28
    } else if minor == X_RENDER_CREATE_RADIAL_GRADIENT_MINOR_OPCODE {
        36
    } else {
        24
    };
    require_len(major, header, len)?;
    let picture = o.u32_at(bytes, 4);
    context.validate_new_resource_id(picture)?;
    let count = o.u32_at(bytes, header - 4) as usize;
    let body = match count.checked_mul(12) {
        Some(n) => match header.checked_add(n) {
            Some(m) => m,
            None => return Err(XWireParseError::InvalidLength { opcode: major, expected_at_least: header, actual: len }),
        },
        None => return Err(XWireParseError::InvalidLength { opcode: major, expected_at_least: header, actual: len }),
    };
    require_len(major, body, len)?;
    let colors_at = header + 4 * count;
    let ghost want = Seq::new(
        count as nat,
        |i: int|
            (
                spec_fixed_at(o, bytes@, header + 4 * i),
                seq![
                    spec_u16_at(o, bytes@, colors_at + 8 * i),
                    spec_u16_at(o, bytes@, colors_at + 8 * i + 2),
                    spec_u16_at(o, bytes@, colors_at + 8 * i + 4),
                    spec_u16_at(o, bytes@, colors_at + 8 * i + 6),
                ],
            ),
    );
    let mut stops: Vec<XRenderGradientStop> = Vec::new();
    let mut i: usize = 0;
    while i < count
        invariant
            body == header + 12 * count,
            body <= bytes@.len() <= 4 * 0xffff,
            colors_at == header + 4 * count,
            i <= count,
            want.len() == count,
            want == Seq::new(
                count as nat,
                |k: int|
                    (
                        spec_fixed_at(o, bytes@, header + 4 * k),
                        seq![
                            spec_u16_at(o, bytes@, colors_at + 8 * k),
                            spec_u16_at(o, bytes@, colors_at + 8 * k + 2),
                            spec_u16_at(o, bytes@, colors_at + 8 * k + 4),
                            spec_u16_at(o, bytes@, colors_at + 8 * k + 6),
                        ],
                    ),
            ),
            stops@.len() == i,
            spec_stops_view(stops@) == want.subrange(0, i as int),
        decreases count - i,
    {
        let stop = XRenderGradientStop {
            position: o.u32_at(bytes, header + 4 * i) as i32,
            color: color_at(o, bytes, colors_at + 8 * i),
        };
        let ghost prev = stops@;
        stops.push(stop);
        proof {
            assert(prev.len() == i);
            assert(stops@ == prev.push(stop));
            assert(stop.color@ == want[i as int].1);
            assert forall|k: int| 0 <= k < i implies spec_stops_view(stops@)[k] == want[k] by {
                assert(stops@[k] == prev[k]);
                assert(spec_stops_view(prev)[k] == want.subrange(0, i as int)[k]);
            }
            assert(spec_stops_view(stops@) =~= want.subrange(0, i + 1));
        }
        i = i + 1;
    }
    proof {
        assert(spec_stops_view(stops@) =~= want);
    }
    let geometry = if minor == X_RENDER_CREATE_LINEAR_GRADIENT_MINOR_OPCODE {
        XRenderGradientGeometry::Linear { p1: point_at(o, bytes, 8), p2: point_at(o, bytes, 16) }
    } else if minor == X_RENDER_CREATE_RADIAL_GRADIENT_MINOR_OPCODE {
        XRenderGradientGeometry::Radial {
            inner: point_at(o, bytes, 8),
            inner_radius: o.u32_at(bytes, 24) as i32,
            outer: point_at(o, bytes, 16),
            outer_radius: o.u32_at(bytes, 28) as i32,
        }
    } else {
        XRenderGradientGeometry::Conical { center: point_at(o, bytes, 8), angle: o.u32_at(bytes, 16) as i32 }
    };
    Ok(XWireRequest::RenderCreateGradient { picture: xid(picture), geometry, stops, minor_opcode: minor })
}

/// A glyph id of `width` bytes at `at`.
pub open spec fn spec_glyph_id_at(o: XByteOrder, s: Seq<u8>, at: int, width: int) -> u32 {
    if width == 1 {
        s[at] as u32
    } else if width == 2 {
        spec_u16_at(o, s, at) as u32
    } else {
        spec_u32_at(o, s, at)
    }
}

/// The glyph runs of a list from `p`: a leading byte of 255 switches the
/// glyph set for the next run; any other leading byte is a run of that many
/// ids after two deltas, padded to four bytes. A malformed tail ends the
/// list.
pub open spec fn spec_glyph_elements(
    o: XByteOrder,
    s: Seq<u8>,
    p: int,
    width: int,
    pending: Option<XResourceId>,
) -> Seq<XRenderGlyphElementView>
    decreases s.len() - p,
{
    if p < 0 || width <= 0 || s.len() - p < 8 {
        Seq::empty()
    } else if s[p] == 255 {
        spec_glyph_elements(o, s, p + 8, width, Some(spec_xid(spec_u32_at(o, s, p + 4))))
    } else {
        let count = s[p] as int;
        let padded = spec_padded_len(count * width);
        if s.len() - p < 8 + padded {
            Seq::empty()
        } else {
            seq![
                XRenderGlyphElementView {
                    glyphset: pending,
                    delta_x: spec_i16_at(o, s, p + 4),
                    delta_y: spec_i16_at(o, s, p + 6),
                    glyphs: Seq::new(count as nat, |i: int| spec_glyph_id_at(o, s, p + 8 + i * width, width)),
                },
            ] + spec_glyph_elements(o, s, p + 8 + padded, width, None)
        }
    }
}

/// Walks a `CompositeGlyphs` element list whose ids are `id_width` bytes
/// wide.
pub fn decode_render_glyph_elements(byte_order: XByteOrder, bytes: &[u8], id_width: usize) -> (r: Vec<
    XRenderGlyphElement,
>)
    requires
        id_width == 1 || id_width == 2 || id_width == 4,
    ensures
        spec_elements_view(r@) == spec_glyph_elements(byte_order, bytes@, 0, id_width as int, None),
{
    let o = byte_order;
    let len = bytes.len();
    let ghost whole = spec_glyph_elements(o, bytes@, 0, id_width as int, None);
    let mut elements: Vec<XRenderGlyphElement> = Vec::new();
    let mut pending: Option<XResourceId> = None;
    let mut p: usize = 0;
    while len - p >= 8
        invariant
            len == bytes@.len(),
            p <= len,
            id_width == 1 || id_width == 2 || id_width == 4,
            spec_elements_view(elements@) + spec_glyph_elements(o, bytes@, p as int, id_width as int, pending)
                == whole,
        decreases len - p,
    {
        let count = bytes[p];
        if count == 255 {
            pending = Some(xid(o.u32_at(bytes, p + 4)));
            p = p + 8;
            continue;
        }
        proof {
            assert(count as usize * id_width <= 1020) by (nonlinear_arith)
                requires
                    count <= 255,
                    id_width <= 4,
            ;
        }
        let glyph_bytes: usize = count as usize * id_width;
        let padded: usize = 4 * ((glyph_bytes + 3) / 4);
        if len - p < 8 + padded {
            proof {
                assert(spec_elements_view(elements@) =~= whole);
                assert(spec_glyph_elements(o, bytes@, len as int, id_width as int, pending) =~= Seq::empty());
                assert(spec_elements_view(elements@) + spec_glyph_elements(o, bytes@, len as int, id_width as int, pending)
                    =~= whole);
            }
            p = len;
            continue;
        }
        let mut glyphs: Vec<u32> = Vec::new();
        let mut i: usize = 0;
        while i < count as usize
            invariant
                len == bytes@.len(),
                p + 8 + padded <= len,
                glyph_bytes == count as usize * id_width,
                padded == 4 * ((glyph_bytes + 3) / 4),
                id_width == 1 || id_width == 2 || id_width == 4,
                i <= count,
                glyphs@ == Seq::new(i as nat, |k: int| spec_glyph_id_at(o, bytes@, p + 8 + k * id_width, id_width as int)),
            decreases count - i,
        {
            proof {
                assert(i * id_width + id_width <= count * id_width) by (nonlinear_arith)
                    requires
                        i < count,
                        id_width >= 1,
                ;
            }
            let at = p + 8 + i * id_width;
            let id: u32 = if id_width == 1 {
                bytes[at] as u32
            } else if id_width == 2 {
                o.u16_at(bytes, at) as u32
            } else {
                o.u32_at(bytes, at)
            };
            glyphs.push(id);
            i = i + 1;
            proof {
                assert(glyphs@ =~= Seq::new(i as nat, |k: int| spec_glyph_id_at(o, bytes@, p + 8 + k * id_width, id_width as int)));
            }
        }
        let element = XRenderGlyphElement {
            glyphset: pending,
            delta_x: o.i16_at(bytes, p + 4),
            delta_y: o.i16_at(bytes, p + 6),
            glyphs,
        };
        let ghost prev = elements@;
        elements.push(element);
        proof {
            let rest = spec_glyph_elements(o, bytes@, (p + 8 + padded) as int, id_width as int, None);
            assert(spec_glyph_elements(o, bytes@, p as int, id_width as int, pending) == seq![element@] + rest);
            assert(spec_elements_view(elements@) =~= spec_elements_view(prev).push(element@));
            assert(spec_elements_view(prev) + (seq![element@] + rest) =~= spec_elements_view(elements@) + rest);
        }
        pending = None;
        p = p + 8 + padded;
    }
    proof {
        if len - p < 8 {
            assert(spec_elements_view(elements@) =~= whole);
        }
    }
    elements
}

/// What a `CompositeGlyphs` request decodes to.
pub open spec fn spec_decode_composite_glyphs(context: XWireClientContext, s: Seq<u8>) -> Result<
    XWireRequestView,
    XWireParseError,
> {
    let o = context.byte_order;
    let minor = s[1];
    let width = if minor == X_RENDER_COMPOSITE_GLYPHS_8_MINOR_OPCODE {
        1int
    } else if minor == X_RENDER_COMPOSITE_GLYPHS_16_MINOR_OPCODE {
        2int
    } else {
        4int
    };
    if let Some(e) = spec_require_len(X_RENDER_MAJOR_OPCODE, 28, s.len() as usize) {
        Err(e)
    } else {
        Ok(
            XWireRequestView::RenderCompositeGlyphs {
                op: s[4],
                source: spec_xid(spec_u32_at(o, s, 8)),
                destination: spec_xid(spec_u32_at(o, s, 12)),
                mask_format: spec_u32_at(o, s, 16),
                glyphset: spec_xid(spec_u32_at(o, s, 20)),
                source_x: spec_i16_at(o, s, 24),
                source_y: spec_i16_at(o, s, 26),
                elements: spec_glyph_elements(o, s.subrange(28, s.len() as int), 0, width, None),
                minor_opcode: minor,
            },
        )
    }
}

fn decode_composite_glyphs(context: XWireClientContext, bytes: &[u8]) -> (r: Result<
    XWireRequest,
    XWireParseError,
>)
    requires
        4 <= bytes@.len(),
    ensures
        spec_answer(r) == spec_decode_composite_glyphs(context, bytes@),
{
    let o = context.byte_order;
    let minor = bytes[1];
    let width: usize = if minor == X_RENDER_COMPOSITE_GLYPHS_8_MINOR_OPCODE {
        1
    } else if minor == X_RENDER_COMPOSITE_GLYPHS_16_MINOR_OPCODE {
        2
    } else {
        4
    };
    require_len(X_RENDER_MAJOR_OPCODE, 28, bytes.len())?;
    let elements = decode_render_glyph_elements(o, &bytes[28..bytes.len()], width);
    Ok(
        XWireRequest::RenderCompositeGlyphs {
            op: bytes[4],
            source: xid(o.u32_at(bytes, 8)),
            destination: xid(o.u32_at(bytes, 12)),
            mask_format: o.u32_at(bytes, 16),
            glyphset: xid(o.u32_at(bytes, 20)),
            source_x: o.i16_at(bytes, 24),
            source_y: o.i16_at(bytes, 26),
            elements,
            minor_opcode: minor,
        },
    )
}

/// What a RENDER request decodes to.
pub open spec fn spec_decode_render(context: XWireClientContext, s: Seq<u8>) -> Result<
    XWireRequestView,
    XWireParseError,
> {
    let minor = s[1];
    if let Some(a) = spec_decode_render_simple(context, s) {
        a
    } else if minor == X_RENDER_ADD_GLYPHS_MINOR_OPCODE {
        spec_decode_add_glyphs(context, s)
    } else if minor == X_RENDER_COMPOSITE_GLYPHS_8_MINOR_OPCODE || minor
        == X_RENDER_COMPOSITE_GLYPHS_16_MINOR_OPCODE || minor == X_RENDER_COMPOSITE_GLYPHS_32_MINOR_OPCODE {
        spec_decode_composite_glyphs(context, s)
    } else if minor == X_RENDER_TRIANGLES_MINOR_OPCODE || minor == X_RENDER_TRI_STRIP_MINOR_OPCODE || minor
        == X_RENDER_TRI_FAN_MINOR_OPCODE {
        spec_decode_triangles(context, s)
    } else if minor == X_RENDER_CREATE_LINEAR_GRADIENT_MINOR_OPCODE || minor
        == X_RENDER_CREATE_RADIAL_GRADIENT_MINOR_OPCODE || minor == X_RENDER_CREATE_CONICAL_GRADIENT_MINOR_OPCODE {
        spec_decode_gradient(context, s)
    } else {
        Ok(XWireRequestView::RenderUnimplemented { minor_opcode: minor })
    }
}

fn decode_render(context: XWireClientContext, bytes: &[u8]) -> (r: Result<XWireRequest, XWireParseError>)
    requires
        4 <= bytes@.len() <= 4 * 0xffff,
    ensures
        spec_answer(r) == spec_decode_render(context, bytes@),
{
    if let Some(answer) = decode_render_simple(context, bytes) {
        return answer;
    }
    let minor = bytes[1];
    if minor == X_RENDER_ADD_GLYPHS_MINOR_OPCODE {
        decode_add_glyphs(context, bytes)
    } else if minor == X_RENDER_COMPOSITE_GLYPHS_8_MINOR_OPCODE || minor
        == X_RENDER_COMPOSITE_GLYPHS_16_MINOR_OPCODE || minor == X_RENDER_COMPOSITE_GLYPHS_32_MINOR_OPCODE {
        decode_composite_glyphs(context, bytes)
    } else if minor == X_RENDER_TRIANGLES_MINOR_OPCODE || minor == X_RENDER_TRI_STRIP_MINOR_OPCODE || minor
        == X_RENDER_TRI_FAN_MINOR_OPCODE {
        decode_triangles(context, bytes)
    } else if minor == X_RENDER_CREATE_LINEAR_GRADIENT_MINOR_OPCODE || minor
        == X_RENDER_CREATE_RADIAL_GRADIENT_MINOR_OPCODE || minor == X_RENDER_CREATE_CONICAL_GRADIENT_MINOR_OPCODE {
        decode_gradient(context, bytes)
    } else {
        Ok(XWireRequest::RenderUnimplemented { minor_opcode: minor })
    }
}

/// What a core request, whose frame is already checked, decodes to.
pub open spec fn spec_decode_core(context: XWireClientContext, s: Seq<u8>) -> Result<
    XWireRequestView,
    XWireParseError,
> {
    let order = context.byte_order;
    let opcode = s[0];
    let len = s.len() as usize;
    if opcode == X_DELETE_PROPERTY {
        if let Some(e) = spec_require_exact_len(X_DELETE_PROPERTY, 12, len) {
            Err(e)
        } else {
            Ok(
                XWireRequestView::DeleteProperty {
                    window: spec_xid(spec_u32_at(order, s, 4)),
                    property: spec_u32_at(order, s, 8),
                },
            )
        }
    } else if opcode == X_QUERY_POINTER {
        spec_decode_one_id(context, s, X_QUERY_POINTER, 8, |id| XWireRequestView::QueryPointer { window: id })
    } else if opcode == X_GET_KEYBOARD_CONTROL {
        if let Some(e) = spec_require_exact_len(X_GET_KEYBOARD_CONTROL, 4, len) {
            Err(e)
        } else {
            Ok(XWireRequestView::GetKeyboardControl)
        }
    } else if opcode == X_BELL {
        if let Some(e) = spec_require_exact_len(X_BELL, 4, len) {
            Err(e)
        } else {
            Ok(XWireRequestView::Bell)
        }
    } else if opcode == X_OPEN_FONT {
        spec_decode_open_font(context, s)
    } else if opcode == X_CLOSE_FONT {
        spec_decode_one_id(context, s, X_CLOSE_FONT, 8, |id| XWireRequestView::CloseFont { font: id })
    } else if opcode == X_QUERY_FONT {
        spec_decode_one_id(context, s, X_QUERY_FONT, 8, |id| XWireRequestView::QueryFont { font: id })
    } else if opcode == X_LIST_FONTS || opcode == X_LIST_FONTS_WITH_INFO {
        spec_decode_list_fonts(context, s, opcode)
    } else if opcode == X_CREATE_PIXMAP {
        spec_decode_create_pixmap(context, s)
    } else if opcode == X_FREE_PIXMAP {
        spec_decode_one_id(context, s, X_FREE_PIXMAP, 8, |id| XWireRequestView::FreePixmap { pixmap: id })
    } else if opcode == X_CREATE_GC {
        spec_decode_create_gc(context, s)
    } else if opcode == X_CHANGE_GC {
        spec_decode_change_gc(context, s)
    } else if opcode == X_FREE_GC {
        spec_decode_one_id(context, s, X_FREE_GC, 8, |id| XWireRequestView::FreeGraphicsContext { gc: id })
    } else if opcode == X_FREE_COLORMAP {
        spec_decode_one_id(context, s, X_FREE_COLORMAP, 8, |id| XWireRequestView::FreeColormap { colormap: id })
    } else if opcode == X_QUERY_BEST_SIZE {
        spec_decode_query_best_size(context, s)
    } else if opcode == X_RENDER_MAJOR_OPCODE {
        spec_decode_render(context, s)
    } else if opcode == X_GLX_MAJOR_OPCODE {
        spec_decode_glx(context, s)
    } else if opcode == X_DRI3_MAJOR_OPCODE {
        spec_decode_dri3(context, s)
    } else if opcode == X_XFIXES_MAJOR_OPCODE {
        spec_decode_xfixes(context, s)
    } else if opcode == X_SHAPE_MAJOR_OPCODE {
        spec_decode_shape(context, s)
    } else if opcode == X_GENERIC_EVENT_MAJOR_OPCODE {
        if let Some(e) = spec_require_exact_len(X_GENERIC_EVENT_MAJOR_OPCODE, 8, len) {
            Err(e)
        } else if s[1] != X_GENERIC_EVENT_QUERY_VERSION_MINOR_OPCODE {
            Err(XWireParseError::UnknownOpcode(s[1]))
        } else {
            Ok(
                XWireRequestView::GeQueryVersion {
                    major_version: spec_u16_at(order, s, 4),
                    minor_version: spec_u16_at(order, s, 6),
                },
            )
        }
    } else {
        Err(XWireParseError::UnknownOpcode(opcode))
    }
}

/// What a request's bytes decode to: the frame's declared length, in
/// four-byte units, must be at least one unit and match the bytes exactly;
/// then the opcode decides.
pub open spec fn spec_decode_request(context: XWireClientContext, s: Seq<u8>) -> Result<
    XWireRequestView,
    XWireParseError,
> {
    if s.len() < 4 {
        Err(XWireParseError::Truncated { needed: 4, actual: s.len() as usize })
    } else {
        let declared = 4 * spec_u16_at(context.byte_order, s, 2);
        if declared < 4 {
            Err(
                XWireParseError::InvalidLength {
                    opcode: s[0],
                    expected_at_least: 4,
                    actual: declared as usize,
                },
            )
        } else if s.len() < declared {
            Err(XWireParseError::Truncated { needed: declared as usize, actual: s.len() as usize })
        } else if s.len() > declared {
            Err(XWireParseError::TrailingBytes((s.len() - declared) as usize))
        } else {
            spec_decode_core(context, s)
        }
    }
}

fn decode_one_id(context: XWireClientContext, bytes: &[u8], opcode: u8, len: usize) -> (r: Result<
    XResourceId,
    XWireParseError,
>)
    requires
        len >= 8,
    ensures
        match spec_require_exact_len(opcode, len, bytes@.len() as usize) {
            Some(e) => r == Err::<XResourceId, XWireParseError>(e),
            None => r == Ok::<XResourceId, XWireParseError>(
                spec_xid(spec_u32_at(context.byte_order, bytes@, 4)),
            ),
        },
{
    require_exact_len(opcode, len, bytes.len())?;
    Ok(xid(context.byte_order.u32_at(bytes, 4)))
}

/// Decodes one core request from its wire bytes.
pub fn decode_x11_core_request(context: XWireClientContext, bytes: &[u8]) -> (r: Result<
    XWireRequest,
    XWireParseError,
>)
    ensures
        spec_answer(r) == spec_decode_request(context, bytes@),
{
    if bytes.len() < 4 {
        return Err(XWireParseError::Truncated { needed: 4, actual: bytes.len() });
    }
    let opcode = bytes[0];
    let order = context.byte_order;
    let declared_len: usize = 4 * order.u16_at(bytes, 2) as usize;
    if declared_len < 4 {
        return Err(
            XWireParseError::InvalidLength { opcode, expected_at_least: 4, actual: declared_len },
        );
    }
    if bytes.len() < declared_len {
        return Err(XWireParseError::Truncated { needed: declared_len, actual: bytes.len() });
    }
    if bytes.len() > declared_len {
        return Err(XWireParseError::TrailingBytes(bytes.len() - declared_len));
    }
    if opcode == X_DELETE_PROPERTY {
        require_exact_len(X_DELETE_PROPERTY, 12, bytes.len())?;
        Ok(
            XWireRequest::DeleteProperty {
                window: xid(order.u32_at(bytes, 4)),
                property: order.u32_at(bytes, 8),
            },
        )
    } else if opcode == X_QUERY_POINTER {
        let window = decode_one_id(context, bytes, X_QUERY_POINTER, 8)?;
        Ok(XWireRequest::QueryPointer { window })
    } else if opcode == X_GET_KEYBOARD_CONTROL {
        require_exact_len(X_GET_KEYBOARD_CONTROL, 4, bytes.len())?;
        Ok(XWireRequest::GetKeyboardControl)
    } else if opcode == X_BELL {
        require_exact_len(X_BELL, 4, bytes.len())?;
        Ok(XWireRequest::Bell)
    } else if opcode == X_OPEN_FONT {
        decode_open_font(context, bytes)
    } else if opcode == X_CLOSE_FONT {
        let font = decode_one_id(context, bytes, X_CLOSE_FONT, 8)?;
        Ok(XWireRequest::CloseFont { font })
    } else if opcode == X_QUERY_FONT {
        let font = decode_one_id(context, bytes, X_QUERY_FONT, 8)?;
        Ok(XWireRequest::QueryFont { font })
    } else if opcode == X_LIST_FONTS || opcode == X_LIST_FONTS_WITH_INFO {
        decode_list_fonts(context, bytes, opcode)
    } else if opcode == X_CREATE_PIXMAP {
        decode_create_pixmap(context, bytes)
    } else if opcode == X_FREE_PIXMAP {
        let pixmap = decode_one_id(context, bytes, X_FREE_PIXMAP, 8)?;
        Ok(XWireRequest::FreePixmap { pixmap })
    } else if opcode == X_CREATE_GC {
        decode_create_gc(context, bytes)
    } else if opcode == X_CHANGE_GC {
        decode_change_gc(context, bytes)
    } else if opcode == X_FREE_GC {
        let gc = decode_one_id(context, bytes, X_FREE_GC, 8)?;
        Ok(XWireRequest::FreeGraphicsContext { gc })
    } else if opcode == X_FREE_COLORMAP {
        let colormap = decode_one_id(context, bytes, X_FREE_COLORMAP, 8)?;
        Ok(XWireRequest::FreeColormap { colormap })
    } else if opcode == X_QUERY_BEST_SIZE {
        decode_query_best_size(context, bytes)
    } else if opcode == X_RENDER_MAJOR_OPCODE {
        decode_render(context, bytes)
    } else if opcode == X_GLX_MAJOR_OPCODE {
        decode_glx(context, bytes)
    } else if opcode == X_DRI3_MAJOR_OPCODE {
        decode_dri3(context, bytes)
    } else if opcode == X_XFIXES_MAJOR_OPCODE {
        decode_xfixes(context, bytes)
    } else if opcode == X_SHAPE_MAJOR_OPCODE {
        decode_shape(context, bytes)
    } else if opcode == X_GENERIC_EVENT_MAJOR_OPCODE {
        require_exact_len(X_GENERIC_EVENT_MAJOR_OPCODE, 8, bytes.len())?;
        if bytes[1] != X_GENERIC_EVENT_QUERY_VERSION_MINOR_OPCODE {
            return Err(XWireParseError::UnknownOpcode(bytes[1]));
        }
        Ok(
            XWireRequest::GeQueryVersion {
                major_version: order.u16_at(bytes, 4),
                minor_version: order.u16_at(bytes, 6),
            },
        )
    } else {
        Err(XWireParseError::UnknownOpcode(opcode))
    }
}

} // verus!
