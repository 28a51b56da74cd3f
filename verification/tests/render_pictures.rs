use sophia_x_authority::geometry::{Rect, Size};
use sophia_x_authority::ids::{NamespaceId, XResourceId};
use sophia_x_authority::render::{XRenderGlyphInfo, XRenderPictFormatKind, XRenderPictureValueSet, decode_render_picture_values};
use sophia_x_authority::runtime::XAuthorityRuntime;
use sophia_x_authority::render::XRenderGlyphElement;
use sophia_x_authority::runtime::glyphs::{XRenderGlyphError, XRenderGlyphPlacement, render_glyph_stride, render_unpack_glyph};
use sophia_x_authority::runtime::pictures::{XRenderPictureError, render_translated_clip};
use sophia_x_authority::wire::{XByteOrder, XWireParseError};

fn ns(raw: u64) -> NamespaceId {
    NamespaceId { raw }
}

fn id(local: u64) -> XResourceId {
    XResourceId { local, generation: 1 }
}

fn no_values() -> XRenderPictureValueSet {
    XRenderPictureValueSet {
        repeat: None,
        clip_x_origin: None,
        clip_y_origin: None,
        component_alpha: None,
        refused_attribute: false,
        invalid_mask: false,
    }
}

fn runtime_with_pixmap() -> XAuthorityRuntime {
    let mut rt = XAuthorityRuntime::new(None);
    rt.create_pixmap(ns(1), id(0x20_0001), Size { width: 16, height: 16 }, 32, 1).unwrap();
    rt
}

#[test]
fn picture_format_must_match_the_drawable_depth() {
    let mut rt = runtime_with_pixmap();
    assert_eq!(
        rt.render_create_picture(ns(1), id(0x20_0002), id(0x20_0001), 0x27, &no_values(), 1),
        Err(XRenderPictureError::DepthMismatch)
    );
    assert_eq!(
        rt.render_create_picture(ns(1), id(0x20_0002), id(0x20_0001), 0x99, &no_values(), 1),
        Err(XRenderPictureError::UnknownFormat)
    );
    rt.render_create_picture(ns(1), id(0x20_0002), id(0x20_0001), 0x26, &no_values(), 1).unwrap();
    let record = rt.render_picture_record(ns(1), id(0x20_0002)).unwrap();
    assert_eq!(record.format, XRenderPictFormatKind::Argb32);
    assert!(!record.repeat);
    assert_eq!(
        rt.render_create_picture(ns(1), id(0x20_0002), id(0x20_0001), 0x26, &no_values(), 1),
        Err(XRenderPictureError::IdInUse)
    );
}

#[test]
fn refused_attributes_and_clip_translation() {
    let mut rt = runtime_with_pixmap();
    let mut refused = no_values();
    refused.refused_attribute = true;
    assert_eq!(
        rt.render_create_picture(ns(1), id(0x20_0002), id(0x20_0001), 0x26, &refused, 1),
        Err(XRenderPictureError::RefusedAttribute)
    );
    rt.render_create_picture(ns(1), id(0x20_0002), id(0x20_0001), 0x26, &no_values(), 1).unwrap();
    rt.render_set_picture_clip_rectangles(ns(1), id(0x20_0002), 3, 4, vec![Rect { x: 1, y: 1, width: 2, height: 2 }])
        .unwrap();
    let record = rt.render_picture_record(ns(1), id(0x20_0002)).unwrap();
    assert_eq!(render_translated_clip(&record), vec![Rect { x: 4, y: 5, width: 2, height: 2 }]);
}

#[test]
fn picture_values_follow_the_mask() {
    let mut values = Vec::new();
    values.extend_from_slice(&1u32.to_le_bytes());
    values.extend_from_slice(&0xfffeu32.to_le_bytes());
    let set = decode_render_picture_values(XByteOrder::LittleEndian, 1 | (1 << 4), &values).unwrap();
    assert_eq!(set.repeat, Some(1));
    assert_eq!(set.clip_x_origin, Some(-2));
    assert_eq!(set.clip_y_origin, None);
    assert_eq!(
        decode_render_picture_values(XByteOrder::LittleEndian, 1, &values).unwrap_err(),
        XWireParseError::InvalidLength { opcode: 144, expected_at_least: 4, actual: 8 }
    );
}

#[test]
fn glyphs_unpack_into_tight_rows() {
    assert_eq!(render_glyph_stride(XRenderPictFormatKind::A8, 2), Some(4));
    assert_eq!(render_glyph_stride(XRenderPictFormatKind::A1, 33), Some(8));
    assert_eq!(render_glyph_stride(XRenderPictFormatKind::Rgb24, 1), None);
    let info = XRenderGlyphInfo { width: 2, height: 2, x: 0, y: 0, off_x: 2, off_y: 0 };
    let pixels = render_unpack_glyph(XRenderPictFormatKind::A8, info, 4, &[0xff, 0x80, 9, 9, 1, 2, 9, 9]);
    assert_eq!(pixels, vec![[0, 0, 0, 0xff], [0, 0, 0, 0x80], [0, 0, 0, 1], [0, 0, 0, 2]]);
    let bits = render_unpack_glyph(XRenderPictFormatKind::A1, XRenderGlyphInfo { height: 1, ..info }, 4, &[0b10, 0, 0, 0]);
    assert_eq!(bits, vec![[0, 0, 0, 0], [0, 0, 0, 0xff]]);
    let short = render_unpack_glyph(XRenderPictFormatKind::A8, info, 4, &[7, 8, 9, 9, 1]);
    assert_eq!(short, vec![[0, 0, 0, 7], [0, 0, 0, 8], [0, 0, 0, 1], [0, 0, 0, 0]]);
    let argb = render_unpack_glyph(XRenderPictFormatKind::Argb32, XRenderGlyphInfo { height: 1, ..info }, 8, &[1, 2, 3, 4, 5]);
    assert_eq!(argb, vec![[1, 2, 3, 4], [0, 0, 0, 0]]);
}

#[test]
fn added_glyphs_are_kept_and_freed() {
    let mut rt = XAuthorityRuntime::new(None);
    rt.render_create_glyph_set(ns(1), id(0x20_0003), 0x28, 1).unwrap();
    let info = XRenderGlyphInfo { width: 2, height: 1, x: 0, y: 0, off_x: 2, off_y: 0 };
    assert_eq!(
        rt.render_add_glyphs(ns(1), id(0x20_0003), &[65], &[info], &[1, 2, 3]),
        Err(XRenderGlyphError::MalformedGlyphData)
    );
    rt.render_add_glyphs(ns(1), id(0x20_0003), &[65], &[info], &[1, 2, 3, 4]).unwrap();
    rt.render_free_glyphs(ns(1), id(0x20_0003), &[65]).unwrap();
    assert_eq!(rt.render_free_glyphs(ns(1), id(0x20_0003), &[65]), Ok(()));
    assert_eq!(rt.render_add_glyphs(ns(2), id(0x20_0003), &[65], &[info], &[1, 2, 3, 4]), Err(XRenderGlyphError::UnknownGlyphSet));
}

#[test]
fn glyph_runs_are_placed_before_anything_is_drawn() {
    let mut rt = XAuthorityRuntime::new(None);
    rt.render_create_glyph_set(ns(1), id(0x20_0003), 0x28, 1).unwrap();
    let info = XRenderGlyphInfo { width: 2, height: 1, x: 1, y: 3, off_x: 5, off_y: 0 };
    rt.render_add_glyphs(ns(1), id(0x20_0003), &[65, 66], &[info, info], &[0; 8]).unwrap();
    let run = |glyphs: Vec<u32>| XRenderGlyphElement { glyphset: None, delta_x: 10, delta_y: 20, glyphs };
    let placed = rt.render_glyph_placements(ns(1), id(0x20_0003), &[run(vec![65, 66])]).unwrap();
    assert_eq!(placed.len(), 2);
    assert_eq!((placed[0].x, placed[0].y, placed[0].glyph), (9, 17, 65));
    assert_eq!((placed[1].x, placed[1].y, placed[1].glyph), (14, 17, 66));
    assert_eq!(placed[0].store, placed[1].store);
    let _: XRenderGlyphPlacement = placed[0];
    assert_eq!(
        rt.render_glyph_placements(ns(1), id(0x20_0003), &[run(vec![65]), run(vec![99])]),
        Err(XRenderGlyphError::UnknownGlyph)
    );
    assert_eq!(
        rt.render_glyph_placements(ns(2), id(0x20_0003), &[run(vec![65])]),
        Err(XRenderGlyphError::UnknownGlyphSet)
    );
    let switch = XRenderGlyphElement { glyphset: Some(id(0x20_0099)), delta_x: 0, delta_y: 0, glyphs: vec![] };
    assert_eq!(
        rt.render_glyph_placements(ns(1), id(0x20_0003), &[switch]),
        Err(XRenderGlyphError::UnknownGlyphSet)
    );
    assert_eq!(rt.render_glyph_placements(ns(1), id(0x20_0003), &[]).unwrap().len(), 0);
}
