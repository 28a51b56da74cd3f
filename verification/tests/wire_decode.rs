use sophia_x_authority::ids::{NamespaceId, TransactionId, XResourceId};
use sophia_x_authority::request::{XWireRequest, decode_render_glyph_elements, decode_x11_core_request};
use sophia_x_authority::wire::{
    XByteOrder, XGlxContextConfig, XWireClientContext, XWireClientResourceRange, XWireParseError,
};

fn context(byte_order: XByteOrder) -> XWireClientContext {
    XWireClientContext {
        byte_order,
        namespace: NamespaceId { raw: 1 },
        transaction: TransactionId { raw: 7 },
        resource_id_range: Some(XWireClientResourceRange { base: 0x0020_0000, mask: 0x001f_ffff }),
    }
}

fn free_context() -> XWireClientContext {
    XWireClientContext { resource_id_range: None, ..context(XByteOrder::LittleEndian) }
}

fn le32(v: u32) -> [u8; 4] {
    v.to_le_bytes()
}

fn create_pixmap_le(pixmap: u32) -> Vec<u8> {
    let mut b = vec![53, 24, 4, 0];
    b.extend_from_slice(&le32(pixmap));
    b.extend_from_slice(&le32(0x100));
    b.extend_from_slice(&640u16.to_le_bytes());
    b.extend_from_slice(&480u16.to_le_bytes());
    b
}

fn id(v: u32) -> XResourceId {
    XResourceId { local: v as u64, generation: 1 }
}

#[test]
fn decodes_create_pixmap_in_client_range() {
    let request = decode_x11_core_request(context(XByteOrder::LittleEndian), &create_pixmap_le(0x0020_0001));
    match request {
        Ok(XWireRequest::CreatePixmap { depth, pixmap, drawable, width, height }) => {
            assert_eq!(depth, 24);
            assert_eq!(pixmap, id(0x0020_0001));
            assert_eq!(drawable, id(0x100));
            assert_eq!((width, height), (640, 480));
        },
        other => panic!("unexpected {other:?}"),
    }
}

#[test]
fn refuses_create_pixmap_outside_client_range() {
    let request = decode_x11_core_request(context(XByteOrder::LittleEndian), &create_pixmap_le(0x0040_0001));
    assert_eq!(
        request.unwrap_err(),
        XWireParseError::ResourceIdOutsideClientRange { resource_id: 0x0040_0001 }
    );
}

#[test]
fn unattached_decoding_accepts_any_new_id() {
    let request = decode_x11_core_request(free_context(), &create_pixmap_le(0x0040_0001));
    assert!(matches!(request, Ok(XWireRequest::CreatePixmap { .. })));
}

#[test]
fn big_endian_reads_the_same_request() {
    let mut b = vec![53, 24, 0, 4];
    b.extend_from_slice(&0x0020_0001u32.to_be_bytes());
    b.extend_from_slice(&0x100u32.to_be_bytes());
    b.extend_from_slice(&640u16.to_be_bytes());
    b.extend_from_slice(&480u16.to_be_bytes());
    match decode_x11_core_request(context(XByteOrder::BigEndian), &b) {
        Ok(XWireRequest::CreatePixmap { pixmap, width, height, .. }) => {
            assert_eq!(pixmap, id(0x0020_0001));
            assert_eq!((width, height), (640, 480));
        },
        other => panic!("unexpected {other:?}"),
    }
}

#[test]
fn frame_errors() {
    let ctx = context(XByteOrder::LittleEndian);
    assert_eq!(
        decode_x11_core_request(ctx, &[53, 0]).unwrap_err(),
        XWireParseError::Truncated { needed: 4, actual: 2 }
    );
    assert_eq!(
        decode_x11_core_request(ctx, &[53, 0, 0, 0]).unwrap_err(),
        XWireParseError::InvalidLength { opcode: 53, expected_at_least: 4, actual: 0 }
    );
    assert_eq!(
        decode_x11_core_request(ctx, &[53, 0, 2, 0, 0, 0]).unwrap_err(),
        XWireParseError::Truncated { needed: 8, actual: 6 }
    );
    assert_eq!(
        decode_x11_core_request(ctx, &[104, 0, 1, 0, 0, 0, 0, 0]).unwrap_err(),
        XWireParseError::TrailingBytes(4)
    );
    assert_eq!(
        decode_x11_core_request(ctx, &[2, 0, 1, 0]).unwrap_err(),
        XWireParseError::UnknownOpcode(2)
    );
}

#[test]
fn bell_and_keyboard_control_carry_nothing() {
    let ctx = context(XByteOrder::LittleEndian);
    assert!(matches!(decode_x11_core_request(ctx, &[104, 0, 1, 0]), Ok(XWireRequest::Bell)));
    assert!(matches!(decode_x11_core_request(ctx, &[103, 0, 1, 0]), Ok(XWireRequest::GetKeyboardControl)));
}

#[test]
fn exact_length_requests_refuse_other_lengths() {
    let ctx = context(XByteOrder::LittleEndian);
    assert_eq!(
        decode_x11_core_request(ctx, &[60, 0, 1, 0]).unwrap_err(),
        XWireParseError::InvalidLength { opcode: 60, expected_at_least: 8, actual: 4 }
    );
    let mut free_gc = vec![60, 0, 2, 0];
    free_gc.extend_from_slice(&le32(0x0020_0005));
    assert!(matches!(
        decode_x11_core_request(ctx, &free_gc),
        Ok(XWireRequest::FreeGraphicsContext { gc }) if gc == id(0x0020_0005)
    ));
}

#[test]
fn delete_property_reads_window_and_atom() {
    let mut b = vec![19, 0, 3, 0];
    b.extend_from_slice(&le32(0x0020_0002));
    b.extend_from_slice(&le32(39));
    match decode_x11_core_request(context(XByteOrder::LittleEndian), &b) {
        Ok(XWireRequest::DeleteProperty { window, property }) => {
            assert_eq!(window, id(0x0020_0002));
            assert_eq!(property, 39);
        },
        other => panic!("unexpected {other:?}"),
    }
}

#[test]
fn open_font_reads_padded_name() {
    let mut b = vec![45, 0, 5, 0];
    b.extend_from_slice(&le32(0x0020_0003));
    b.extend_from_slice(&5u16.to_le_bytes());
    b.extend_from_slice(&[0, 0]);
    b.extend_from_slice(b"fixed\0\0\0");
    match decode_x11_core_request(context(XByteOrder::LittleEndian), &b) {
        Ok(XWireRequest::OpenFont { font, name }) => {
            assert_eq!(font, id(0x0020_0003));
            assert_eq!(name, "fixed");
        },
        other => panic!("unexpected {other:?}"),
    }
}

#[test]
fn open_font_refuses_a_name_that_is_not_utf8() {
    let mut b = vec![45, 0, 4, 0];
    b.extend_from_slice(&le32(0x0020_0003));
    b.extend_from_slice(&2u16.to_le_bytes());
    b.extend_from_slice(&[0, 0]);
    b.extend_from_slice(&[0xff, 0xfe, 0, 0]);
    assert_eq!(
        decode_x11_core_request(context(XByteOrder::LittleEndian), &b).unwrap_err(),
        XWireParseError::InvalidLength { opcode: 45, expected_at_least: 16, actual: 16 }
    );
}

#[test]
fn list_fonts_reads_limit_and_pattern() {
    let mut b = vec![49, 0, 3, 0];
    b.extend_from_slice(&100u16.to_le_bytes());
    b.extend_from_slice(&1u16.to_le_bytes());
    b.extend_from_slice(b"*\0\0\0");
    match decode_x11_core_request(context(XByteOrder::LittleEndian), &b) {
        Ok(XWireRequest::ListFonts { max_names, pattern }) => {
            assert_eq!(max_names, 100);
            assert_eq!(pattern, "*");
        },
        other => panic!("unexpected {other:?}"),
    }
}

#[test]
fn create_gc_reads_values_in_bit_order() {
    // foreground (bit 2), line width (bit 4), font (bit 14)
    let mask: u32 = (1 << 2) | (1 << 4) | (1 << 14);
    let mut b = vec![55, 0, 7, 0];
    b.extend_from_slice(&le32(0x0020_0004));
    b.extend_from_slice(&le32(0x100));
    b.extend_from_slice(&le32(mask));
    b.extend_from_slice(&le32(0x00ff_0000));
    b.extend_from_slice(&le32(70_000));
    b.extend_from_slice(&le32(0x0020_0003));
    match decode_x11_core_request(context(XByteOrder::LittleEndian), &b) {
        Ok(XWireRequest::CreateGraphicsContext { gc, drawable, values }) => {
            assert_eq!(gc, id(0x0020_0004));
            assert_eq!(drawable, id(0x100));
            assert_eq!(values.foreground, 0x00ff_0000);
            assert_eq!(values.line_width, u16::MAX);
            assert_eq!(values.font, Some(id(0x0020_0003)));
            assert_eq!(values.background, 1);
            assert_eq!(values.function, 3);
            assert_eq!(values.plane_mask, u32::MAX);
        },
        other => panic!("unexpected {other:?}"),
    }
}

#[test]
fn create_gc_refuses_undefined_mask_bits_and_short_lists() {
    let ctx = context(XByteOrder::LittleEndian);
    let mut b = vec![55, 0, 4, 0];
    b.extend_from_slice(&le32(0x0020_0004));
    b.extend_from_slice(&le32(0x100));
    b.extend_from_slice(&le32(1 << 23));
    assert_eq!(
        decode_x11_core_request(ctx, &b).unwrap_err(),
        XWireParseError::InvalidLength { opcode: 55, expected_at_least: 16, actual: 16 }
    );
    let mut c = vec![55, 0, 4, 0];
    c.extend_from_slice(&le32(0x0020_0004));
    c.extend_from_slice(&le32(0x100));
    c.extend_from_slice(&le32(1 << 2));
    assert_eq!(
        decode_x11_core_request(ctx, &c).unwrap_err(),
        XWireParseError::InvalidLength { opcode: 55, expected_at_least: 20, actual: 16 }
    );
}

#[test]
fn change_gc_refuses_undefined_mask_bits_as_a_value() {
    let mut b = vec![56, 0, 3, 0];
    b.extend_from_slice(&le32(0x0020_0004));
    b.extend_from_slice(&le32(1 << 24));
    assert_eq!(
        decode_x11_core_request(context(XByteOrder::LittleEndian), &b).unwrap_err(),
        XWireParseError::InvalidValue(1 << 24)
    );
}

#[test]
fn generic_event_query_version() {
    let ctx = context(XByteOrder::LittleEndian);
    match decode_x11_core_request(ctx, &[136, 0, 2, 0, 1, 0, 0, 0]) {
        Ok(XWireRequest::GeQueryVersion { major_version, minor_version }) => {
            assert_eq!((major_version, minor_version), (1, 0));
        },
        other => panic!("unexpected {other:?}"),
    }
    assert_eq!(
        decode_x11_core_request(ctx, &[136, 3, 2, 0, 1, 0, 0, 0]).unwrap_err(),
        XWireParseError::UnknownOpcode(3)
    );
}

#[test]
fn shape_rectangles_reads_the_list() {
    let mut b = vec![145, 1, 6, 0, 0, 2, 0, 0];
    b.extend_from_slice(&le32(0x0020_0002));
    b.extend_from_slice(&(-3i16).to_le_bytes());
    b.extend_from_slice(&4i16.to_le_bytes());
    b.extend_from_slice(&1i16.to_le_bytes());
    b.extend_from_slice(&2i16.to_le_bytes());
    b.extend_from_slice(&30u16.to_le_bytes());
    b.extend_from_slice(&40u16.to_le_bytes());
    match decode_x11_core_request(context(XByteOrder::LittleEndian), &b) {
        Ok(XWireRequest::ShapeRectangles { op, kind, destination, x_offset, y_offset, rectangles, .. }) => {
            assert_eq!((op, kind), (0, 2));
            assert_eq!(destination, id(0x0020_0002));
            assert_eq!((x_offset, y_offset), (-3, 4));
            assert_eq!(rectangles.len(), 1);
            assert_eq!((rectangles[0].x, rectangles[0].y, rectangles[0].width, rectangles[0].height), (1, 2, 30, 40));
        },
        other => panic!("unexpected {other:?}"),
    }
}

#[test]
fn shape_mask_with_no_source_is_none_and_unknown_minor_is_named() {
    let ctx = context(XByteOrder::LittleEndian);
    let mut b = vec![145, 2, 5, 0, 0, 0, 0, 0];
    b.extend_from_slice(&le32(0x0020_0002));
    b.extend_from_slice(&[0, 0, 0, 0]);
    b.extend_from_slice(&le32(0));
    assert!(matches!(decode_x11_core_request(ctx, &b), Ok(XWireRequest::ShapeMask { source: None, .. })));
    assert!(matches!(
        decode_x11_core_request(ctx, &[145, 9, 1, 0]),
        Ok(XWireRequest::ShapeUnimplemented { minor_opcode: 9 })
    ));
}

#[test]
fn xfixes_create_region_checks_range_and_reads_rectangles() {
    let ctx = context(XByteOrder::LittleEndian);
    let mut b = vec![139, 5, 4, 0];
    b.extend_from_slice(&le32(0x0020_0009));
    b.extend_from_slice(&0i16.to_le_bytes());
    b.extend_from_slice(&0i16.to_le_bytes());
    b.extend_from_slice(&10u16.to_le_bytes());
    b.extend_from_slice(&20u16.to_le_bytes());
    match decode_x11_core_request(ctx, &b) {
        Ok(XWireRequest::XfixesCreateRegion { region, rectangles }) => {
            assert_eq!(region, id(0x0020_0009));
            assert_eq!((rectangles[0].width, rectangles[0].height), (10, 20));
        },
        other => panic!("unexpected {other:?}"),
    }
    let mut outside = vec![139, 5, 2, 0];
    outside.extend_from_slice(&le32(0x0100_0000));
    assert_eq!(
        decode_x11_core_request(ctx, &outside).unwrap_err(),
        XWireParseError::ResourceIdOutsideClientRange { resource_id: 0x0100_0000 }
    );
}

#[test]
fn xfixes_copy_names_its_source_twice() {
    let mut b = vec![139, 12, 3, 0];
    b.extend_from_slice(&le32(0x0020_0001));
    b.extend_from_slice(&le32(0x0020_0002));
    match decode_x11_core_request(context(XByteOrder::LittleEndian), &b) {
        Ok(XWireRequest::XfixesCombineRegion { minor_opcode, source, other, destination }) => {
            assert_eq!(minor_opcode, 12);
            assert_eq!(source, id(0x0020_0001));
            assert_eq!(other, id(0x0020_0001));
            assert_eq!(destination, id(0x0020_0002));
        },
        other => panic!("unexpected {other:?}"),
    }
}

#[test]
fn xfixes_unknown_minor_is_named() {
    assert!(matches!(
        decode_x11_core_request(context(XByteOrder::LittleEndian), &[139, 30, 1, 0]),
        Ok(XWireRequest::XfixesUnimplemented { minor_opcode: 30 })
    ));
}

#[test]
fn dri3_pixmap_from_buffers_refuses_plane_counts() {
    let ctx = context(XByteOrder::LittleEndian);
    let mut b = vec![137, 7, 16, 0];
    b.extend_from_slice(&le32(0x0020_0001));
    b.extend_from_slice(&le32(0x0020_0002));
    b.push(5);
    b.resize(64, 0);
    assert_eq!(decode_x11_core_request(ctx, &b).unwrap_err(), XWireParseError::InvalidValue(5));
    b[12] = 2;
    b[56..64].copy_from_slice(&0x0100_0000_0000_0002u64.to_le_bytes());
    match decode_x11_core_request(ctx, &b) {
        Ok(XWireRequest::Dri3PixmapFromBuffers { num_buffers, modifier, .. }) => {
            assert_eq!(num_buffers, 2);
            assert_eq!(modifier, 0x0100_0000_0000_0002);
        },
        other => panic!("unexpected {other:?}"),
    }
}

#[test]
fn dri3_unknown_minor_is_named() {
    assert!(matches!(
        decode_x11_core_request(context(XByteOrder::LittleEndian), &[137, 5, 1, 0]),
        Ok(XWireRequest::Dri3Unimplemented { minor_opcode: 5 })
    ));
}

#[test]
fn glx_create_pbuffer_reduces_its_attributes() {
    let mut b = vec![140, 27, 0, 0];
    b.extend_from_slice(&le32(0));
    b.extend_from_slice(&le32(1));
    b.extend_from_slice(&le32(0x0020_0007));
    b.extend_from_slice(&le32(3));
    for (name, value) in [(0x8041u32, 64u32), (0x8040, 32), (0x8041, 128)] {
        b.extend_from_slice(&le32(name));
        b.extend_from_slice(&le32(value));
    }
    let words = (b.len() / 4) as u16;
    b[2..4].copy_from_slice(&words.to_le_bytes());
    match decode_x11_core_request(context(XByteOrder::LittleEndian), &b) {
        Ok(XWireRequest::GlxCreatePbuffer { fbconfig, pbuffer, width, height, largest, .. }) => {
            assert_eq!(fbconfig, 1);
            assert_eq!(pbuffer, id(0x0020_0007));
            assert_eq!((width, height, largest), (128, 32, false));
        },
        other => panic!("unexpected {other:?}"),
    }
}

#[test]
fn glx_create_context_names_a_visual() {
    let mut b = vec![140, 3, 6, 0];
    b.extend_from_slice(&le32(0x0020_0008));
    b.extend_from_slice(&le32(0x21));
    b.extend_from_slice(&le32(0));
    b.extend_from_slice(&le32(0));
    b.extend_from_slice(&[1, 0, 0, 0]);
    match decode_x11_core_request(context(XByteOrder::LittleEndian), &b) {
        Ok(XWireRequest::GlxCreateContext { context: c, config, share, direct, .. }) => {
            assert_eq!(c, id(0x0020_0008));
            assert_eq!(config, XGlxContextConfig::Visual(0x21));
            assert_eq!(share, None);
            assert!(direct);
        },
        other => panic!("unexpected {other:?}"),
    }
}

#[test]
fn glx_unknown_minor_is_refused() {
    assert_eq!(
        decode_x11_core_request(context(XByteOrder::LittleEndian), &[140, 1, 1, 0]).unwrap_err(),
        XWireParseError::UnknownOpcode(1)
    );
}

#[test]
fn render_fill_rectangles_reads_color_and_list() {
    let mut b = vec![144, 26, 7, 0, 3, 0, 0, 0];
    b.extend_from_slice(&le32(0x0020_000a));
    for c in [1u16, 2, 3, 0xffff] {
        b.extend_from_slice(&c.to_le_bytes());
    }
    b.extend_from_slice(&[0, 0, 0, 0]);
    b.extend_from_slice(&5u16.to_le_bytes());
    b.extend_from_slice(&6u16.to_le_bytes());
    match decode_x11_core_request(context(XByteOrder::LittleEndian), &b) {
        Ok(XWireRequest::RenderFillRectangles { op, picture, color, rectangles }) => {
            assert_eq!(op, 3);
            assert_eq!(picture, id(0x0020_000a));
            assert_eq!(color, [1, 2, 3, 0xffff]);
            assert_eq!((rectangles[0].width, rectangles[0].height), (5, 6));
        },
        other => panic!("unexpected {other:?}"),
    }
}

#[test]
fn render_tri_fan_expands_around_its_first_point() {
    let mut b = vec![144, 13, 0, 0, 3, 0, 0, 0];
    b.extend_from_slice(&le32(1));
    b.extend_from_slice(&le32(2));
    b.extend_from_slice(&le32(0));
    b.extend_from_slice(&[0, 0, 0, 0]);
    for p in 0..4u32 {
        b.extend_from_slice(&le32(p));
        b.extend_from_slice(&le32(10 * p));
    }
    let words = (b.len() / 4) as u16;
    b[2..4].copy_from_slice(&words.to_le_bytes());
    match decode_x11_core_request(context(XByteOrder::LittleEndian), &b) {
        Ok(XWireRequest::RenderTriangles { triangles, minor_opcode, .. }) => {
            assert_eq!(minor_opcode, 13);
            assert_eq!(triangles.len(), 2);
            assert_eq!(triangles[1].p1, (0, 0));
            assert_eq!(triangles[1].p2, (2, 20));
            assert_eq!(triangles[1].p3, (3, 30));
        },
        other => panic!("unexpected {other:?}"),
    }
}

#[test]
fn render_add_glyphs_splits_ids_metrics_and_images() {
    let mut b = vec![144, 20, 0, 0];
    b.extend_from_slice(&le32(0x0020_000b));
    b.extend_from_slice(&le32(1));
    b.extend_from_slice(&le32(65));
    for v in [2u16, 1, 0, 0, 2, 0] {
        b.extend_from_slice(&v.to_le_bytes());
    }
    b.extend_from_slice(&[0xff, 0x80, 0, 0]);
    let words = (b.len() / 4) as u16;
    b[2..4].copy_from_slice(&words.to_le_bytes());
    match decode_x11_core_request(context(XByteOrder::LittleEndian), &b) {
        Ok(XWireRequest::RenderAddGlyphs { glyphset, ids, glyphs, data }) => {
            assert_eq!(glyphset, id(0x0020_000b));
            assert_eq!(ids, vec![65]);
            assert_eq!(glyphs[0].width, 2);
            assert_eq!(glyphs[0].off_x, 2);
            assert_eq!(data, vec![0xff, 0x80, 0, 0]);
        },
        other => panic!("unexpected {other:?}"),
    }
}

#[test]
fn glyph_elements_switch_sets_and_stop_at_a_short_tail() {
    let mut b = vec![255, 0, 0, 0];
    b.extend_from_slice(&le32(0x0020_000c));
    b.extend_from_slice(&[2, 0, 0, 0]);
    b.extend_from_slice(&3i16.to_le_bytes());
    b.extend_from_slice(&(-1i16).to_le_bytes());
    b.extend_from_slice(&[65, 66, 0, 0]);
    b.extend_from_slice(&[9, 0, 0, 0, 0, 0, 0, 0]);
    let elements = decode_render_glyph_elements(XByteOrder::LittleEndian, &b, 1);
    assert_eq!(elements.len(), 1);
    assert_eq!(elements[0].glyphset, Some(id(0x0020_000c)));
    assert_eq!((elements[0].delta_x, elements[0].delta_y), (3, -1));
    assert_eq!(elements[0].glyphs, vec![65, 66]);
}

#[test]
fn render_unknown_minor_is_named() {
    assert!(matches!(
        decode_x11_core_request(context(XByteOrder::LittleEndian), &[144, 31, 1, 0]),
        Ok(XWireRequest::RenderUnimplemented { minor_opcode: 31 })
    ));
}
