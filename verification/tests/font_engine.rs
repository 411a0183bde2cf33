use printpdf::cmap::{generate_cid_to_unicode_map, partition_cmap};
use printpdf::font::{write_font_objects, BuiltinFont, ExternalFont, Font, TextRenderingMode};
use printpdf::font_check::{
    check_font, check_glyph, check_load, check_reached, find_glyph, lookup_glyph, lookup_segment,
    read_layout, GlyphPlace,
};
use printpdf::glyph_table::{make_record, put_record, scan_font, scan_record, FontScan, GlyphRecord};
use printpdf::graph::ObjectGraph;
use printpdf::object::{Dictionary, Object, ObjectId, StringFormat};
use printpdf::pdf_resources::{embed, Embeddable};
use printpdf::text::{push_decimal, push_hex, push_padded_decimal};
use printpdf::text_encoding::{encode_codes, text_glyph_codes};
use printpdf::widths::{encode_widths, scale_width, WidthRun};
use printpdf::{Error, FontError};

fn push_u16(out: &mut Vec<u8>, n: u16) {
    out.push((n >> 8) as u8);
    out.push((n & 255) as u8);
}

fn push_i16(out: &mut Vec<u8>, n: i16) {
    push_u16(out, n as u16);
}

fn push_u32(out: &mut Vec<u8>, n: u32) {
    push_u16(out, (n >> 16) as u16);
    push_u16(out, (n & 0xffff) as u16);
}

/// A TrueType font of the given character map, glyphs and advance
/// widths, with 2048 units per em, an ascent of 1900 and a descent of -500.
/// The data of each glyph has an even number of bytes.
fn font_from(tag_of_cmap: &[u8; 4], mapping: Vec<u8>, glyphs: &[Vec<u8>], widths: &[u16]) -> Vec<u8> {
    font_with_tables(tag_of_cmap, mapping, glyphs, widths, &[])
}

/// The same font, with further tables put before the others.
fn font_with_tables(
    tag_of_cmap: &[u8; 4],
    mapping: Vec<u8>,
    glyphs: &[Vec<u8>],
    widths: &[u16],
    further: &[&[u8; 4]],
) -> Vec<u8> {
    let mut head = vec![0u8; 54];
    head[18] = 0x08; // 2048 units per em
    head[19] = 0x00;
    let mut hhea = vec![0u8; 36];
    hhea[4] = (1900u16 >> 8) as u8;
    hhea[5] = (1900u16 & 255) as u8;
    hhea[6] = ((-500i16 as u16) >> 8) as u8;
    hhea[7] = ((-500i16 as u16) & 255) as u8;
    hhea[34] = (widths.len() >> 8) as u8;
    hhea[35] = (widths.len() & 255) as u8;
    let mut maxp = vec![0, 0, 0x50, 0];
    push_u16(&mut maxp, glyphs.len() as u16);
    let mut hmtx = Vec::new();
    for width in widths {
        push_u16(&mut hmtx, *width);
        push_i16(&mut hmtx, 0);
    }
    let mut cmap = Vec::new();
    push_u16(&mut cmap, 0); // version
    push_u16(&mut cmap, 1); // one encoding
    push_u16(&mut cmap, 3); // Microsoft
    push_u16(&mut cmap, 1); // Unicode BMP
    push_u32(&mut cmap, 12); // where the mapping starts
    cmap.extend_from_slice(&mapping);
    let mut loca = Vec::new();
    let mut glyf = Vec::new();
    push_u16(&mut loca, 0);
    for glyph in glyphs {
        glyf.extend_from_slice(glyph);
        push_u16(&mut loca, (glyf.len() / 2) as u16);
    }
    if glyf.is_empty() {
        glyf.extend_from_slice(&[0, 0]);
    }
    let mut tables: Vec<(&[u8; 4], Vec<u8>)> = Vec::new();
    for tag in further {
        tables.push((*tag, vec![0u8; 8]));
    }
    let known: Vec<(&[u8; 4], Vec<u8>)> = vec![
        (tag_of_cmap, cmap),
        (b"glyf", glyf),
        (b"head", head),
        (b"hhea", hhea),
        (b"hmtx", hmtx),
        (b"loca", loca),
        (b"maxp", maxp),
    ];
    tables.extend(known);
    let mut font = Vec::new();
    push_u32(&mut font, 0x0001_0000);
    push_u16(&mut font, tables.len() as u16);
    push_u16(&mut font, 64);
    push_u16(&mut font, 2);
    push_u16(&mut font, 48);
    let mut offset = 12 + 16 * tables.len();
    for (tag, data) in &tables {
        font.extend_from_slice(&tag[..]);
        push_u32(&mut font, 0);
        push_u32(&mut font, offset as u32);
        push_u32(&mut font, data.len() as u32);
        offset += (data.len() + 3) / 4 * 4;
    }
    for (_, data) in &tables {
        font.extend_from_slice(data);
        while font.len() % 4 != 0 {
            font.push(0);
        }
    }
    font
}

/// A glyph without contours, with the given box.
fn boxed_glyph(x_min: i16, y_min: i16, x_max: i16, y_max: i16) -> Vec<u8> {
    let mut g = Vec::new();
    push_i16(&mut g, 0);
    push_i16(&mut g, x_min);
    push_i16(&mut g, y_min);
    push_i16(&mut g, x_max);
    push_i16(&mut g, y_max);
    g
}

/// A trimmed character map (format 6) that leads the codes from `first` on
/// to the given glyphs.
fn trimmed_map(first: u16, glyphs: &[u16]) -> Vec<u8> {
    let mut m = Vec::new();
    push_u16(&mut m, 6);
    push_u16(&mut m, 10 + 2 * glyphs.len() as u16);
    push_u16(&mut m, 0);
    push_u16(&mut m, first);
    push_u16(&mut m, glyphs.len() as u16);
    for g in glyphs {
        push_u16(&mut m, *g);
    }
    m
}

/// A small TrueType font with five glyphs. The letters A, B and C lead to
/// the glyphs 1, 2 and 4; glyph 3 has no letter. The advance widths of the
/// glyphs are 1000, 1024, 512, 0 and 2048, with 2048 units per em. The
/// glyphs 1 and 4 have an outline box, the others have none. The ascent
/// is 1900 and the descent -500.
fn small_font_with(tag_of_cmap: &[u8; 4]) -> Vec<u8> {
    font_from(
        tag_of_cmap,
        trimmed_map(0x41, &[1, 2, 4]),
        &[vec![], boxed_glyph(0, -100, 500, 700), vec![], vec![], boxed_glyph(0, 0, 600, 1400)],
        &[1000, 1024, 512, 0, 2048],
    )
}

/// A character map of segments (format 4) that leads A, B and C to the
/// glyphs 1, 2 and 3.
fn segmented_map() -> Vec<u8> {
    let mut m = Vec::new();
    push_u16(&mut m, 4);
    push_u16(&mut m, 32); // length
    push_u16(&mut m, 0); // language
    push_u16(&mut m, 4); // two segments
    push_u16(&mut m, 4); // search range
    push_u16(&mut m, 1); // entry selector
    push_u16(&mut m, 0); // range shift
    push_u16(&mut m, 0x43); // end codes
    push_u16(&mut m, 0xffff);
    push_u16(&mut m, 0); // pad
    push_u16(&mut m, 0x41); // start codes
    push_u16(&mut m, 0xffff);
    push_i16(&mut m, -0x40); // deltas
    push_i16(&mut m, 1);
    push_u16(&mut m, 0); // range offsets
    push_u16(&mut m, 0);
    m
}

/// A triangle: one contour of three points on the curve.
fn triangle_glyph() -> Vec<u8> {
    let mut g = Vec::new();
    push_i16(&mut g, 1);
    push_i16(&mut g, 0);
    push_i16(&mut g, 0);
    push_i16(&mut g, 600);
    push_i16(&mut g, 700);
    push_u16(&mut g, 2); // the last point of the contour
    push_u16(&mut g, 0); // no instructions
    g.extend_from_slice(&[1, 1, 1]); // flags
    for dx in [0i16, 600, -300] {
        push_i16(&mut g, dx);
    }
    for dy in [0i16, 0, 700] {
        push_i16(&mut g, dy);
    }
    g.push(0);
    g
}

/// A compound glyph of one component, placed by an offset or, with the
/// flags 1, by matching points.
fn compound_glyph(flags: u16, component: u16) -> Vec<u8> {
    let mut g = Vec::new();
    push_i16(&mut g, -1);
    push_i16(&mut g, 10);
    push_i16(&mut g, -20);
    push_i16(&mut g, 610);
    push_i16(&mut g, 900);
    push_u16(&mut g, flags);
    push_u16(&mut g, component);
    push_i16(&mut g, 10);
    push_i16(&mut g, 200);
    g
}

/// A font with a character map of segments, a triangle for A, a compound
/// of the triangle for B, and an empty glyph for C.
fn outline_font() -> Vec<u8> {
    font_from(
        b"cmap",
        segmented_map(),
        &[vec![], triangle_glyph(), compound_glyph(3, 1), vec![]],
        &[1000, 600, 610, 300],
    )
}

fn small_font() -> Vec<u8> {
    small_font_with(b"cmap")
}

fn record(glyph_id: u32, unicode: u32, width: u32, height: i64) -> GlyphRecord {
    GlyphRecord { glyph_id, unicode, width, height }
}

fn small_font_table() -> Vec<GlyphRecord> {
    vec![
        record(0, 0, 1000, 1000),
        record(1, 0x41, 1024, 1300),
        record(2, 0x42, 512, 1000),
        record(4, 0x43, 2048, 1900),
    ]
}

fn id(number: u32) -> ObjectId {
    ObjectId { number, generation: 0 }
}

fn entry<'a>(dict: &'a Dictionary, key: &str) -> &'a Object {
    match dict.get(key.as_bytes()) {
        Some(o) => o,
        None => panic!("no entry {}", key),
    }
}

fn name(text: &str) -> Object {
    Object::Name(text.as_bytes().to_vec())
}

#[test]
fn a_font_is_made_of_bytes_that_the_parser_accepts() {
    let font = ExternalFont::new(small_font()).unwrap();
    assert_eq!(font.font_bytes(), &small_font());
    assert!(!font.vertical_writing());
    let vertical = font.with_vertical_writing(true);
    assert!(vertical.vertical_writing());
}

#[test]
fn bytes_shorter_than_a_header_are_too_short() {
    assert_eq!(ExternalFont::new(Vec::new()).err(), Some(Error::Font(FontError::TooShort)));
    assert_eq!(ExternalFont::new(vec![0, 1, 0]).err(), Some(Error::Font(FontError::TooShort)));
}

#[test]
fn bytes_that_are_no_font_are_not_recognized() {
    assert_eq!(
        ExternalFont::new(b"this is no font at all".to_vec()).err(),
        Some(Error::Font(FontError::UnrecognizedFormat))
    );
}

#[test]
fn bytes_that_lead_the_parser_outside_are_unreadable() {
    let unreadable = Some(Error::Font(FontError::Unreadable));
    assert_eq!(ExternalFont::new(vec![0, 1, 0, 0]).err(), unreadable);
    assert_eq!(ExternalFont::new(b"ttcf".to_vec()).err(), unreadable);
    assert_eq!(ExternalFont::new(b"OTTO\0\x09".to_vec()).err(), unreadable);
    let whole = small_font();
    for cut in [12, 60, 124, 200, whole.len() - 24, whole.len() - 3] {
        assert_eq!(ExternalFont::new(whole[..cut].to_vec()).err(), unreadable, "cut at {}", cut);
    }
    assert!(ExternalFont::new(whole).is_ok());
}

#[test]
fn a_character_map_of_an_unknown_form_is_unreadable() {
    let unreadable = Some(Error::Font(FontError::Unreadable));
    let glyphs = [vec![], boxed_glyph(0, 0, 1, 1)];
    let mut high_byte_map = Vec::new();
    push_u16(&mut high_byte_map, 2);
    high_byte_map.extend_from_slice(&[0u8; 600]);
    assert_eq!(
        ExternalFont::new(font_from(b"cmap", high_byte_map, &glyphs, &[1, 1])).err(),
        unreadable
    );
    // a glyph beyond the glyph count
    assert_eq!(
        ExternalFont::new(font_from(b"cmap", trimmed_map(0x41, &[1, 2]), &glyphs, &[1, 1])).err(),
        unreadable
    );
    assert!(ExternalFont::new(font_from(b"cmap", trimmed_map(0x41, &[1, 0]), &glyphs, &[1, 1])).is_ok());
    // segments whose search leaves the table
    let mut lost = segmented_map();
    lost[12] = 0xff;
    lost[13] = 0xfe;
    assert_eq!(
        ExternalFont::new(font_from(b"cmap", lost, &[vec![], vec![], vec![], vec![]], &[1])).err(),
        unreadable
    );
    // a byte for each code
    let mut bytes_map = Vec::new();
    push_u16(&mut bytes_map, 0);
    push_u16(&mut bytes_map, 262);
    push_u16(&mut bytes_map, 0);
    let mut table = vec![0u8; 256];
    table[0x41] = 1;
    bytes_map.extend_from_slice(&table);
    let font = font_from(b"cmap", bytes_map.clone(), &glyphs, &[1, 1]);
    assert_eq!(text_glyph_codes(&font, "AB"), vec![1, 0]);
    assert!(ExternalFont::new(font).is_ok());
    bytes_map[6 + 0x42] = 2;
    assert_eq!(ExternalFont::new(font_from(b"cmap", bytes_map, &glyphs, &[1, 1])).err(), unreadable);
    // groups
    let groups = |first_glyph: u32| -> Vec<u8> {
        let mut m = Vec::new();
        push_u16(&mut m, 12);
        push_u16(&mut m, 0);
        push_u32(&mut m, 28);
        push_u32(&mut m, 0);
        push_u32(&mut m, 1);
        push_u32(&mut m, 0x1f600);
        push_u32(&mut m, 0x1f601);
        push_u32(&mut m, first_glyph);
        m
    };
    let three = [vec![], boxed_glyph(0, 0, 1, 1), vec![]];
    let font = font_from(b"cmap", groups(1), &three, &[1, 1, 1]);
    assert!(ExternalFont::new(font.clone()).is_ok());
    assert_eq!(text_glyph_codes(&font, "A\u{1f600}\u{1f601}\u{1f602}"), vec![0, 1, 2, 0]);
    assert_eq!(ExternalFont::new(font_from(b"cmap", groups(2), &three, &[1, 1, 1])).err(), unreadable);
}

#[test]
fn outlines_that_the_parser_cannot_read_are_unreadable() {
    let unreadable = Some(Error::Font(FontError::Unreadable));
    let with = |glyph: Vec<u8>| -> Vec<u8> {
        font_from(b"cmap", segmented_map(), &[vec![], triangle_glyph(), glyph, vec![]], &[1000, 600, 610, 300])
    };
    assert!(ExternalFont::new(with(compound_glyph(3, 1))).is_ok());
    // placed by matching points
    assert_eq!(ExternalFont::new(with(compound_glyph(1, 1))).err(), unreadable);
    // a compound of itself
    assert_eq!(ExternalFont::new(with(compound_glyph(3, 2))).err(), unreadable);
    // a number of contours that means nothing
    let mut odd = boxed_glyph(0, 0, 1, 1);
    odd[0] = 0xff;
    odd[1] = 0xfe;
    assert_eq!(ExternalFont::new(with(odd)).err(), unreadable);
    // a point that leaves the 16 bits of a coordinate
    let mut far = triangle_glyph();
    far[17] = 0x7f;
    far[18] = 0xff;
    assert_eq!(ExternalFont::new(with(far)).err(), unreadable);
    // two points off the curve whose midpoint cannot be computed in 16 bits
    let mut wide = triangle_glyph();
    wide[14] = 0;
    wide[15] = 0;
    wide[17] = 0x4e;
    wide[18] = 0x20;
    assert_eq!(ExternalFont::new(with(wide)).err(), unreadable);
    // more points than the data holds
    let mut many = triangle_glyph();
    many[10] = 0xff;
    many[11] = 0xff;
    assert_eq!(ExternalFont::new(with(many)).err(), unreadable);
    // no advance width of its own for any glyph
    let mut none_long = outline_font();
    let hhea = none_long.windows(4).position(|w| w == b"hhea").unwrap();
    let at = ((none_long[hhea + 10] as usize) << 8 | none_long[hhea + 11] as usize) + 34;
    none_long[at] = 0;
    none_long[at + 1] = 0;
    assert_eq!(ExternalFont::new(none_long).err(), unreadable);
}

#[test]
fn a_font_of_segments_and_outlines_is_read() {
    let font = ExternalFont::new(outline_font()).unwrap();
    let state = scan_font(font.font_bytes());
    assert_eq!(
        state.table,
        vec![
            record(0, 0, 1000, 1000),
            record(1, 0x41, 600, 700 + 500),
            record(2, 0x42, 610, 920 + 500),
            record(3, 0x43, 300, 1000),
        ]
    );
    assert_eq!(text_glyph_codes(font.font_bytes(), "CBA\u{ffff}\u{10000}@D"), vec![3, 2, 1, 0, 0, 0, 0]);
}

#[test]
fn the_segments_are_searched_as_the_parser_searches_them() {
    let bytes = outline_font();
    let layout = read_layout(&bytes).unwrap();
    assert_eq!(layout.num_glyphs, 4);
    assert_eq!(layout.loc_format, 0);
    for code in 0..=0xffffu32 {
        let expected = match char::from_u32(code) {
            Some(c) => text_glyph_codes(&bytes, &c.to_string())[0] as u32,
            None => continue,
        };
        assert_eq!(lookup_segment(&bytes, layout.index_map as u64, code), Some(expected), "code {}", code);
    }
    assert_eq!(lookup_segment(&bytes, layout.index_map as u64, 0x42), Some(2));
    assert_eq!(lookup_segment(&bytes, layout.index_map as u64, 0xffff), Some(0));
}

#[test]
fn a_font_is_looked_through_table_by_table() {
    let bytes = outline_font();
    assert!(check_load(&bytes));
    assert!(check_font(&bytes));
    let layout = read_layout(&bytes).unwrap();
    assert_eq!(find_glyph(&bytes, &layout, 0), GlyphPlace::Empty);
    assert_eq!(find_glyph(&bytes, &layout, 3), GlyphPlace::Empty);
    assert_eq!(find_glyph(&bytes, &layout, 9), GlyphPlace::Empty);
    let triangle = match find_glyph(&bytes, &layout, 1) {
        GlyphPlace::At(place) => place,
        other => panic!("the triangle has data, not {:?}", other),
    };
    assert_eq!(find_glyph(&bytes, &layout, 2), GlyphPlace::At(triangle + 30));
    assert!(check_glyph(&bytes, &layout, 1, 0));
    assert!(!check_glyph(&bytes, &layout, 2, 0));
    assert!(check_glyph(&bytes, &layout, 2, 1));
    assert!(check_glyph(&bytes, &layout, 40, 0));
    // bytes that the parser refuses at once are safe to hand to it
    assert!(check_load(b"plain text"));
    assert!(!check_font(b"plain text"));
    assert_eq!(read_layout(b"plain text"), None);
    assert!(!check_load(&[0, 1, 0]));
    assert!(!check_load(&[0, 1, 0, 0]));
    // without a character map the parser refuses the font, safely
    assert!(check_load(&small_font_with(b"cmax")));
    assert_eq!(read_layout(&small_font_with(b"cmax")), None);
}

/// A character map of groups (format 12) of one group.
fn grouped_map(first: u32, last: u32, first_glyph: u32) -> Vec<u8> {
    let mut m = Vec::new();
    push_u16(&mut m, 12);
    push_u16(&mut m, 0);
    push_u32(&mut m, 28);
    push_u32(&mut m, 0);
    push_u32(&mut m, 1);
    push_u32(&mut m, first);
    push_u32(&mut m, last);
    push_u32(&mut m, first_glyph);
    m
}

/// A glyph whose number of contours means nothing to the parser.
fn odd_glyph() -> Vec<u8> {
    let mut odd = boxed_glyph(0, 0, 1, 1);
    odd[0] = 0xff;
    odd[1] = 0xfe;
    odd
}

#[test]
fn a_glyph_that_no_code_point_leads_to_is_never_read() {
    // glyph 3 has no letter, and glyph 0 is never asked for
    let font = font_from(
        b"cmap",
        trimmed_map(0x41, &[1, 2, 4]),
        &[odd_glyph(), boxed_glyph(0, -100, 500, 700), vec![], odd_glyph(), boxed_glyph(0, 0, 600, 1400)],
        &[1000, 1024, 512, 0, 2048],
    );
    let layout = read_layout(&font).unwrap();
    assert!(!check_glyph(&font, &layout, 3, 5));
    assert!(!check_glyph(&font, &layout, 0, 5));
    assert!(check_font(&font));
    let font = ExternalFont::new(font).unwrap();
    assert_eq!(scan_font(font.font_bytes()).table, small_font_table());
    // the same glyph behind a letter makes the font unreadable
    let font = font_from(
        b"cmap",
        trimmed_map(0x41, &[1, 2, 3]),
        &[vec![], boxed_glyph(0, -100, 500, 700), vec![], odd_glyph(), boxed_glyph(0, 0, 600, 1400)],
        &[1000, 1024, 512, 0, 2048],
    );
    assert_eq!(ExternalFont::new(font).err(), Some(Error::Font(FontError::Unreadable)));
    // and so does one that only a code point beyond the last one asked for leads to
    let glyphs = [vec![], odd_glyph()];
    let beyond = font_from(b"cmap", grouped_map(0x1f600, 0x1f600, 1), &glyphs, &[1, 1]);
    assert!(ExternalFont::new(beyond).is_ok());
    let within = font_from(b"cmap", grouped_map(0xf600, 0xf600, 1), &glyphs, &[1, 1]);
    assert_eq!(ExternalFont::new(within).err(), Some(Error::Font(FontError::Unreadable)));
}

#[test]
fn compound_glyphs_may_be_nested_as_deep_as_there_are_glyphs() {
    // A leads to glyph 1, which is made of glyph 2, and so on down to the triangle
    let mut glyphs = vec![vec![]];
    for k in 1..=8u16 {
        glyphs.push(compound_glyph(3, k + 1));
    }
    glyphs.push(triangle_glyph());
    let widths = vec![500u16; glyphs.len()];
    let bytes = font_from(b"cmap", trimmed_map(0x41, &[1]), &glyphs, &widths);
    let layout = read_layout(&bytes).unwrap();
    assert!(!check_glyph(&bytes, &layout, 1, 7));
    assert!(check_glyph(&bytes, &layout, 1, 8));
    assert!(check_reached(&bytes, &layout, 1));
    let font = ExternalFont::new(bytes).unwrap();
    assert_eq!(
        scan_font(font.font_bytes()).table,
        vec![record(0, 0, 1000, 1000), record(1, 0x41, 500, 920 + 500)]
    );
    // a ring of glyphs is never read to its end
    let mut ring = vec![vec![]];
    for k in 1..=8u16 {
        ring.push(compound_glyph(3, k % 8 + 1));
    }
    let bytes = font_from(b"cmap", trimmed_map(0x41, &[1]), &ring, &widths[..9]);
    assert_eq!(ExternalFont::new(bytes).err(), Some(Error::Font(FontError::Unreadable)));
}

#[test]
fn a_font_without_a_glyph_count_is_read() {
    let mut bytes = small_font();
    let at = bytes.windows(4).position(|w| w == b"maxp").unwrap();
    bytes[at + 3] = b'q';
    let layout = read_layout(&bytes).unwrap();
    assert_eq!(layout.num_glyphs, 0xffff);
    let font = ExternalFont::new(bytes).unwrap();
    assert_eq!(scan_font(font.font_bytes()).table, small_font_table());
}

#[test]
fn only_the_part_of_the_directory_that_the_parser_reads_has_to_be_there() {
    let mut bytes = font_with_tables(
        b"cmap",
        trimmed_map(0x41, &[1, 2, 4]),
        &[vec![], boxed_glyph(0, -100, 500, 700), vec![], vec![], boxed_glyph(0, 0, 600, 1400)],
        &[1000, 1024, 512, 0, 2048],
        &[b"name", b"kern"],
    );
    // the directory says that it has far more tables than the data holds
    bytes[4] = 0xff;
    bytes[5] = 0xff;
    assert!(check_load(&bytes));
    let font = ExternalFont::new(bytes.clone()).unwrap();
    assert_eq!(scan_font(font.font_bytes()).table, small_font_table());
    // a table that the parser looks for in vain takes it through the whole directory
    let at = bytes.windows(4).position(|w| w == b"kern").unwrap();
    bytes[at + 3] = b'o';
    assert!(!check_load(&bytes));
    assert_eq!(ExternalFont::new(bytes).err(), Some(Error::Font(FontError::Unreadable)));
}

#[test]
fn the_search_takes_as_many_steps_as_the_map_says() {
    let mut map = segmented_map();
    map[10] = 0;
    map[11] = 40;
    let bytes = font_from(
        b"cmap",
        map,
        &[vec![], triangle_glyph(), compound_glyph(3, 1), vec![]],
        &[1000, 600, 610, 300],
    );
    let layout = read_layout(&bytes).unwrap();
    for code in [0u32, 0x40, 0x41, 0x42, 0x43, 0x44, 0xfffe, 0xffff] {
        let c = char::from_u32(code).unwrap();
        let expected = text_glyph_codes(&bytes, &c.to_string())[0] as u32;
        assert_eq!(lookup_glyph(&bytes, layout.index_map as u64, code), Some(expected), "code {}", code);
    }
    assert_eq!(lookup_glyph(&bytes, layout.index_map as u64, 0x42), Some(2));
    assert!(ExternalFont::new(bytes).is_ok());
}

#[test]
fn every_form_of_character_map_is_followed_as_the_parser_follows_it() {
    let glyphs = [vec![], boxed_glyph(0, 0, 1, 1), vec![], vec![]];
    let widths = [1u16, 1, 1, 1];
    let mut bytes_map = Vec::new();
    push_u16(&mut bytes_map, 0);
    push_u16(&mut bytes_map, 262);
    push_u16(&mut bytes_map, 0);
    let mut table = vec![0u8; 256];
    table[0x41] = 1;
    table[0xff] = 3;
    bytes_map.extend_from_slice(&table);
    let mut constant = grouped_map(0x30, 0x39, 2);
    constant[1] = 13;
    let maps = vec![
        bytes_map,
        trimmed_map(0x41, &[1, 2, 3]),
        segmented_map(),
        grouped_map(0x1f600, 0x1f602, 1),
        grouped_map(0x41, 0x42, 2),
        constant,
    ];
    for (number, map) in maps.into_iter().enumerate() {
        let bytes = font_from(b"cmap", map, &glyphs, &widths);
        let layout = read_layout(&bytes).unwrap();
        for code in [0u32, 0x2f, 0x30, 0x39, 0x3a, 0x40, 0x41, 0x42, 0x43, 0x44, 0xff, 0x100, 0xffff, 0x1f5ff, 0x1f600, 0x1f602, 0x1f603, 0x10ffff] {
            let c = char::from_u32(code).unwrap();
            let expected = text_glyph_codes(&bytes, &c.to_string())[0] as u32;
            assert_eq!(
                lookup_glyph(&bytes, layout.index_map as u64, code),
                Some(expected),
                "map {}, code {}",
                number,
                code
            );
        }
    }
    let digits = font_from(b"cmap", {
        let mut m = grouped_map(0x30, 0x39, 2);
        m[1] = 13;
        m
    }, &glyphs, &widths);
    let layout = read_layout(&digits).unwrap();
    assert_eq!(lookup_glyph(&digits, layout.index_map as u64, 0x35), Some(2));
    let letters = font_from(b"cmap", grouped_map(0x41, 0x42, 2), &glyphs, &widths);
    let layout = read_layout(&letters).unwrap();
    assert_eq!(lookup_glyph(&letters, layout.index_map as u64, 0x42), Some(3));
    // a form that the parser does not know
    let mut unknown = trimmed_map(0x41, &[1]);
    unknown[1] = 2;
    let bytes = font_from(b"cmap", unknown, &glyphs, &widths);
    let layout = read_layout(&bytes).unwrap();
    assert_eq!(lookup_glyph(&bytes, layout.index_map as u64, 0x41), None);
}

#[test]
fn a_point_far_from_the_origin_is_read() {
    let mut far = triangle_glyph();
    far[17] = 0x4e;
    far[18] = 0x20;
    let bytes = font_from(
        b"cmap",
        segmented_map(),
        &[vec![], far, compound_glyph(3, 1), vec![]],
        &[1000, 600, 610, 300],
    );
    let font = ExternalFont::new(bytes).unwrap();
    assert_eq!(scan_font(font.font_bytes()).table.len(), 4);
}

#[test]
fn an_advance_width_is_read_as_a_signed_number() {
    let bytes = font_from(
        b"cmap",
        trimmed_map(0x41, &[1, 2, 3]),
        &[vec![], boxed_glyph(0, -100, 500, 700), vec![], boxed_glyph(0, -32768, 1, 32767)],
        &[1000, 0xfff6, 0x7fff],
    );
    let font = ExternalFont::new(bytes).unwrap();
    // a negative width counts as none; the glyph behind the long measures
    // has the width of the last of them
    assert_eq!(
        scan_font(font.font_bytes()).table,
        vec![
            record(0, 0, 1000, 1000),
            record(1, 0x41, 0, 1300),
            record(2, 0x42, 0x7fff, 1000),
            record(3, 0x43, 0x7fff, 65535 + 500),
        ]
    );
}

#[test]
fn a_font_without_a_character_map_is_ill_formed() {
    assert_eq!(
        ExternalFont::new(small_font_with(b"cmax")).err(),
        Some(Error::Font(FontError::IllFormed))
    );
}

#[test]
fn a_collection_without_fonts_has_no_first_font() {
    let mut collection = Vec::new();
    collection.extend_from_slice(b"ttcf");
    push_u32(&mut collection, 0x0001_0000);
    push_u32(&mut collection, 0);
    push_u32(&mut collection, 0);
    assert_eq!(
        ExternalFont::new(collection).err(),
        Some(Error::Font(FontError::CollectionIndexOutOfBounds))
    );
}

#[test]
fn fonts_are_equal_when_their_bytes_are() {
    let a = ExternalFont::new(small_font()).unwrap();
    let b = ExternalFont::new(small_font()).unwrap().with_vertical_writing(true);
    let mut other_bytes = small_font();
    other_bytes.push(0);
    let c = ExternalFont::new(other_bytes).unwrap();
    assert!(a == b);
    assert!(a != c);
    assert!(a.clone() == a);
}

#[test]
fn the_walk_finds_the_glyphs_of_the_letters() {
    let state = scan_font(&small_font());
    assert_eq!(state.table, small_font_table());
    assert_eq!(state.max_height, 1900);
    assert_eq!(state.total_width, 1024 + 512 + 2048);
}

#[test]
fn a_record_needs_a_glyph_and_its_data() {
    assert_eq!(make_record(0, 65, Some((500, None)), -200), None);
    assert_eq!(make_record(7, 65, None, -200), None);
    assert_eq!(make_record(7, 65, Some((500, None)), -200), Some(record(7, 65, 500, 1000)));
    assert_eq!(
        make_record(7, 65, Some((500, Some((-700, 100)))), -200),
        Some(record(7, 65, 500, 1000))
    );
    assert_eq!(
        make_record(7, 65, Some((500, Some((-700, 100)))), 0),
        Some(record(7, 65, 500, 800))
    );
    assert_eq!(
        make_record(7, 65, Some((500, Some((0, 10)))), i64::MIN),
        Some(record(7, 65, 500, 10 + 2147483648))
    );
}

#[test]
fn records_are_kept_in_the_order_of_their_glyphs() {
    let mut table = vec![record(0, 0, 1000, 1000)];
    put_record(&mut table, record(9, 70, 1, 1));
    put_record(&mut table, record(3, 71, 2, 2));
    put_record(&mut table, record(12, 72, 3, 3));
    put_record(&mut table, record(3, 73, 4, 4));
    assert_eq!(
        table,
        vec![record(0, 0, 1000, 1000), record(3, 73, 4, 4), record(9, 70, 1, 1), record(12, 72, 3, 3)]
    );
}

#[test]
fn a_step_of_the_walk_counts_width_and_height() {
    let mut state = FontScan { table: vec![record(0, 0, 1000, 1000)], max_height: 0, total_width: 0 };
    scan_record(&mut state, None);
    assert_eq!(state.table.len(), 1);
    scan_record(&mut state, Some(record(5, 65, 600, 700)));
    scan_record(&mut state, Some(record(5, 66, 600, 700)));
    scan_record(&mut state, Some(record(2, 67, 100, -3)));
    assert_eq!(state.table, vec![record(0, 0, 1000, 1000), record(2, 67, 100, -3), record(5, 66, 600, 700)]);
    assert_eq!(state.max_height, 700);
    assert_eq!(state.total_width, 1300);
}

#[test]
fn widths_are_scaled_to_a_thousandth_of_an_em_and_cut_off() {
    assert_eq!(scale_width(1000, 2048), 488);
    assert_eq!(scale_width(1024, 2048), 500);
    assert_eq!(scale_width(2047, 2048), 999);
    assert_eq!(scale_width(600, 1000), 600);
    assert_eq!(scale_width(1, 3), 333);
    assert_eq!(scale_width(0, 0), 0);
    assert_eq!(scale_width(5, 0), i64::MAX);
    assert_eq!(scale_width(u32::MAX, 1), 4294967295000);
}

#[test]
fn consecutive_glyphs_share_a_run_and_a_gap_starts_a_new_one() {
    let runs = encode_widths(&small_font_table(), 2048);
    assert_eq!(
        runs,
        vec![
            WidthRun { start: 0, widths: vec![488, 500, 250] },
            WidthRun { start: 4, widths: vec![1000] },
        ]
    );
    let gaps = vec![record(0, 0, 10, 0), record(2, 0, 20, 0), record(3, 0, 30, 0), record(7, 0, 40, 0)];
    assert_eq!(
        encode_widths(&gaps, 1000),
        vec![
            WidthRun { start: 0, widths: vec![10] },
            WidthRun { start: 2, widths: vec![20, 30] },
            WidthRun { start: 7, widths: vec![40] },
        ]
    );
    assert_eq!(encode_widths(&Vec::new(), 1000), vec![WidthRun { start: 0, widths: vec![] }]);
    let late = vec![record(5, 0, 10, 0)];
    assert_eq!(
        encode_widths(&late, 1000),
        vec![WidthRun { start: 0, widths: vec![] }, WidthRun { start: 5, widths: vec![10] }]
    );
}

#[test]
fn every_glyph_of_the_table_reads_back_its_scaled_width() {
    let table = small_font_table();
    let runs = encode_widths(&table, 2048);
    for r in &table {
        let run = runs
            .iter()
            .find(|run| run.start <= r.glyph_id && ((r.glyph_id - run.start) as usize) < run.widths.len())
            .unwrap();
        assert_eq!(run.widths[(r.glyph_id - run.start) as usize], scale_width(r.width, 2048));
    }
}

#[test]
fn a_block_holds_at_most_a_hundred_entries_of_one_high_byte() {
    let mut table = Vec::new();
    for g in 0..250u32 {
        table.push(record(g, 0x100 + g, 0, 0));
    }
    for g in 256..300u32 {
        table.push(record(g, 0x1000 + g, 0, 0));
    }
    table.push(record(0x0712, 9, 0, 0));
    let blocks = partition_cmap(&table);
    let lengths: Vec<usize> = blocks.iter().map(|b| b.len()).collect();
    assert_eq!(lengths, vec![100, 100, 50, 44, 1]);
    for block in &blocks {
        assert!(block.len() <= 100);
        for entry in block {
            assert_eq!(entry.0 >> 8, block[0].0 >> 8);
        }
    }
    let all: Vec<(u32, u32)> = blocks.into_iter().flatten().collect();
    let expected: Vec<(u32, u32)> = table.iter().map(|r| (r.glyph_id, r.unicode)).collect();
    assert_eq!(all, expected);
    assert_eq!(partition_cmap(&table), partition_cmap(&table));
}

#[test]
fn a_table_that_starts_high_leaves_the_first_block_empty() {
    let table = vec![record(0x300, 65, 0, 0)];
    assert_eq!(partition_cmap(&table), vec![vec![], vec![(0x300, 65)]]);
    assert_eq!(partition_cmap(&Vec::new()), vec![Vec::<(u32, u32)>::new()]);
}

#[test]
fn the_character_map_lists_the_blocks_between_a_fixed_opening_and_close() {
    let blocks = vec![vec![(0u32, 0u32), (1, 0x41)], vec![], vec![(0x1ff, 0x20ac), (0x12345, 0x1f600)]];
    let text = generate_cid_to_unicode_map("Fo3".to_string(), blocks.clone());
    let expected = format!(
        "{}{}{}{}{}{}{}",
        "/CIDInit /ProcSet findresource begin\r\n12 dict begin\r\nbegincmap\r\n/CIDSystemInfo 3 dict dup begin\r\n/Registry (FontSpecific) def\r\n/Ordering (Fo3) def\r\n/Supplement 0 def\r\nend def\r\n/CMapName /FontSpecific-Fo3 def\r\n/CMapVersion 1 def\r\n/CMapType 2 def\r\n1 begincodespacerange\r\n<0000> <ffff>\r\nendcodespacerange\r\n",
        "2 beginbfchar\r\n<0000> <0000>\n<0001> <0041>\nendbfchar\r\n",
        "0 beginbfchar\r\nendbfchar\r\n",
        "2 beginbfchar\r\n<01ff> <20ac>\n<12345> <1f600>\nendbfchar\r\n",
        "endcmap\r\n",
        "CMapName currentdict /CMap defineresource pop\r\n",
        "end\r\nend\r\n"
    );
    assert_eq!(text, expected);
    assert_eq!(generate_cid_to_unicode_map("Fo3".to_string(), blocks), text);
}

#[test]
fn numbers_are_written_in_decimal_and_hexadecimal() {
    let mut s = String::new();
    push_decimal(&mut s, 0);
    s.push(' ');
    push_decimal(&mut s, 18446744073709551615);
    s.push(' ');
    push_hex(&mut s, 0xab, 4);
    s.push(' ');
    push_hex(&mut s, 0xfffff, 4);
    s.push(' ');
    push_hex(&mut s, 0, 0);
    s.push(' ');
    push_padded_decimal(&mut s, 7, 2);
    s.push(' ');
    push_padded_decimal(&mut s, 2024, 2);
    assert_eq!(s, "0 18446744073709551615 00ab fffff 0 07 2024");
}

#[test]
fn the_objects_of_a_font_are_its_map_its_file_and_its_descriptor() {
    let bytes = small_font();
    let scan = FontScan { table: small_font_table(), max_height: 1900, total_width: 3584 };
    let mut graph = ObjectGraph::new();
    graph.add_object(Object::Null);
    graph.add_object(Object::Null);
    let dict = write_font_objects(&mut graph, &bytes, false, &scan, 1900, -500, 2048);
    assert_eq!(graph.len(), 5);
    assert_eq!(graph.max_id(), 5);

    // the character map
    match graph.get(id(3)) {
        Some(Object::Stream(s)) => {
            assert!(s.dict.is_empty());
            assert!(s.allows_compression);
            let blocks = partition_cmap(&small_font_table());
            assert_eq!(s.content, generate_cid_to_unicode_map("Fo2".to_string(), blocks).into_bytes());
        }
        other => panic!("no stream: {:?}", other),
    }
    // the font file, never compressed
    match graph.get(id(4)) {
        Some(Object::Stream(s)) => {
            assert_eq!(s.content, bytes);
            assert!(!s.allows_compression);
            assert_eq!(entry(&s.dict, "Length1"), &Object::Integer(bytes.len() as i64));
        }
        other => panic!("no stream: {:?}", other),
    }
    // the descriptor
    match graph.get(id(5)) {
        Some(Object::Dictionary(d)) => {
            assert_eq!(entry(d, "Type"), &name("FontDescriptor"));
            assert_eq!(entry(d, "FontName"), &name("Fo2"));
            assert_eq!(entry(d, "Ascent"), &Object::Integer(1900));
            assert_eq!(entry(d, "Descent"), &Object::Integer(-500));
            assert_eq!(entry(d, "CapHeight"), &Object::Integer(1900));
            assert_eq!(entry(d, "ItalicAngle"), &Object::Integer(0));
            assert_eq!(entry(d, "Flags"), &Object::Integer(32));
            assert_eq!(entry(d, "StemV"), &Object::Integer(80));
            assert_eq!(entry(d, "FontFile2"), &Object::Reference(id(4)));
            assert_eq!(
                entry(d, "FontBBox"),
                &Object::Array(vec![
                    Object::Integer(0),
                    Object::Integer(1900),
                    Object::Integer(3584),
                    Object::Integer(1900)
                ])
            );
        }
        other => panic!("no dictionary: {:?}", other),
    }
    // the font dictionary
    assert_eq!(entry(&dict, "Type"), &name("Font"));
    assert_eq!(entry(&dict, "Subtype"), &name("Type0"));
    assert_eq!(entry(&dict, "BaseFont"), &name("Fo2"));
    assert_eq!(entry(&dict, "Encoding"), &name("Identity-H"));
    assert_eq!(entry(&dict, "ToUnicode"), &Object::Reference(id(3)));
    let descendant = match entry(&dict, "DescendantFonts") {
        Object::Array(a) => match &a[..] {
            [Object::Dictionary(d)] => d.clone(),
            other => panic!("not one dictionary: {:?}", other),
        },
        other => panic!("no array: {:?}", other),
    };
    assert_eq!(entry(&descendant, "Subtype"), &name("CIDFontType2"));
    assert_eq!(entry(&descendant, "BaseFont"), &name("Fo2"));
    assert_eq!(entry(&descendant, "DW"), &Object::Integer(1000));
    assert_eq!(entry(&descendant, "FontDescriptor"), &Object::Reference(id(5)));
    assert_eq!(
        entry(&descendant, "W"),
        &Object::Array(vec![
            Object::Integer(0),
            Object::Array(vec![Object::Integer(488), Object::Integer(500), Object::Integer(250)]),
            Object::Integer(4),
            Object::Array(vec![Object::Integer(1000)]),
        ])
    );
    match entry(&descendant, "CIDSystemInfo") {
        Object::Dictionary(info) => {
            assert_eq!(entry(info, "Registry"), &Object::String(b"Adobe".to_vec(), StringFormat::Literal));
            assert_eq!(entry(info, "Ordering"), &Object::String(b"Identity".to_vec(), StringFormat::Literal));
            assert_eq!(entry(info, "Supplement"), &Object::Integer(0));
        }
        other => panic!("no dictionary: {:?}", other),
    }
}

#[test]
fn a_font_written_vertically_has_vertical_widths() {
    let scan = FontScan { table: small_font_table(), max_height: 1900, total_width: 3584 };
    let mut graph = ObjectGraph::new();
    let dict = write_font_objects(&mut graph, &small_font(), true, &scan, 1900, -500, 2048);
    match entry(&dict, "DescendantFonts") {
        Object::Array(a) => match &a[0] {
            Object::Dictionary(d) => {
                assert!(d.has(b"W2"));
                assert!(d.has(b"DW2"));
                assert!(!d.has(b"W"));
                assert!(!d.has(b"DW"));
            }
            other => panic!("no dictionary: {:?}", other),
        },
        other => panic!("no array: {:?}", other),
    }
}

#[test]
fn an_outline_font_is_embedded_as_four_objects() {
    let font = ExternalFont::new(small_font()).unwrap();
    let mut graph = ObjectGraph::new();
    let embedded = embed(&mut graph, Font::ExternalFont(font.clone())).unwrap();
    assert_eq!(embedded.object_id, id(4));
    assert_eq!(graph.len(), 4);
    match graph.get(id(4)) {
        Some(Object::Dictionary(d)) => {
            assert_eq!(entry(d, "BaseFont"), &name("Fo0"));
            assert_eq!(entry(d, "ToUnicode"), &Object::Reference(id(1)));
        }
        other => panic!("no dictionary: {:?}", other),
    }
    let dict = {
        let mut other = ObjectGraph::new();
        font.into_with_document(&mut other).unwrap()
    };
    assert_eq!(graph.get(id(4)), Some(&Object::Dictionary(dict.clone())));
    // what the parser told: the metrics, the units per em and the glyphs
    match graph.get(id(3)) {
        Some(Object::Dictionary(d)) => {
            assert_eq!(entry(d, "Ascent"), &Object::Integer(1900));
            assert_eq!(entry(d, "Descent"), &Object::Integer(-500));
            assert_eq!(
                entry(d, "FontBBox"),
                &Object::Array(vec![
                    Object::Integer(0),
                    Object::Integer(1900),
                    Object::Integer(3584),
                    Object::Integer(1900)
                ])
            );
        }
        other => panic!("no dictionary: {:?}", other),
    }
    match entry(&dict, "DescendantFonts") {
        Object::Array(a) => match &a[0] {
            Object::Dictionary(d) => assert_eq!(
                entry(d, "W"),
                &Object::Array(vec![
                    Object::Integer(0),
                    Object::Array(vec![Object::Integer(488), Object::Integer(500), Object::Integer(250)]),
                    Object::Integer(4),
                    Object::Array(vec![Object::Integer(1000)]),
                ])
            ),
            other => panic!("no dictionary: {:?}", other),
        },
        other => panic!("no array: {:?}", other),
    }
}

#[test]
fn a_document_writes_text_in_an_outline_font_as_glyph_codes() {
    let mut source = printpdf::RandomSource::new();
    let now = printpdf::DateTime { year: 2024, month: 1, day: 1, hour: 0, minute: 0, second: 0 };
    let mut doc = printpdf::PdfDocument::new("fonts", now, &mut source);
    let font = doc.add_external_font(small_font()).unwrap();
    assert_eq!(font.name, "F0");
    let second = doc.add_external_font(small_font()).unwrap();
    assert_eq!(second.name, "F1");
    let mut layer = printpdf::PdfLayer::new("text");
    layer.write_text("ABC", &doc, &font);
    assert_eq!(
        layer.operations()[0].operands,
        vec![Object::String(vec![0, 1, 0, 2, 0, 4], StringFormat::Hexadecimal)]
    );
    let mut page = printpdf::PdfPage::new(printpdf::Mm { micrometres: 210_000 }, printpdf::Mm { micrometres: 297_000 });
    page.add_layer(layer);
    doc.add_page(page);
    let graph = doc.save(&mut source).unwrap();
    // the two font dictionaries stand under the identifiers set aside for them
    for (at, base) in [(1u32, "Fo5"), (2u32, "Fo9")] {
        match graph.get(id(at)) {
            Some(Object::Dictionary(d)) => {
                assert_eq!(entry(d, "Subtype"), &name("Type0"));
                assert_eq!(entry(d, "BaseFont"), &name(base));
            }
            other => panic!("no dictionary: {:?}", other),
        }
    }
}

#[test]
fn a_graph_without_three_spare_identifiers_takes_no_font() {
    let font = ExternalFont::new(small_font()).unwrap();
    let mut graph = ObjectGraph::new();
    graph.insert(ObjectId { number: u32::MAX - 2, generation: 0 }, Object::Null);
    assert_eq!(font.into_with_document(&mut graph).err(), Some(Error::ObjectLimit));
    assert_eq!(graph.len(), 1);
    let mut roomy = ObjectGraph::new();
    roomy.insert(ObjectId { number: u32::MAX - 3, generation: 0 }, Object::Null);
    assert!(font.into_with_document(&mut roomy).is_ok());
    assert_eq!(roomy.max_id(), u32::MAX);
}

#[test]
fn a_standard_font_is_embedded_as_one_dictionary() {
    let mut graph = ObjectGraph::new();
    let embedded = embed(&mut graph, BuiltinFont::HelveticaBoldOblique).unwrap();
    assert_eq!(embedded.object_id, id(1));
    assert_eq!(graph.len(), 1);
    match graph.get(id(1)) {
        Some(Object::Dictionary(d)) => {
            assert_eq!(d.len(), 4);
            assert_eq!(entry(d, "Type"), &name("Font"));
            assert_eq!(entry(d, "Subtype"), &name("Type1"));
            assert_eq!(entry(d, "BaseFont"), &name("Helvetica-BoldOblique"));
            assert_eq!(entry(d, "Encoding"), &name("WinAnsiEncoding"));
        }
        other => panic!("no dictionary: {:?}", other),
    }
    assert_eq!(<BuiltinFont as Embeddable>::KEY, "Font");
    assert_eq!(<Font as Embeddable>::KEY, "Font");
}

#[test]
fn a_font_is_made_from_either_kind() {
    let font: Font = BuiltinFont::TimesBoldItalic.into();
    assert_eq!(font, Font::BuiltinFont(BuiltinFont::TimesBoldItalic));
    let outline = ExternalFont::new(small_font()).unwrap();
    let font: Font = outline.clone().into();
    assert_eq!(font, Font::ExternalFont(outline));
}

#[test]
fn the_standard_fonts_have_their_postscript_names() {
    let names: Vec<&str> = [
        BuiltinFont::TimesRoman,
        BuiltinFont::TimesBold,
        BuiltinFont::TimesItalic,
        BuiltinFont::TimesBoldItalic,
        BuiltinFont::Helvetica,
        BuiltinFont::HelveticaBold,
        BuiltinFont::HelveticaOblique,
        BuiltinFont::HelveticaBoldOblique,
        BuiltinFont::Courier,
        BuiltinFont::CourierOblique,
        BuiltinFont::CourierBold,
        BuiltinFont::CourierBoldOblique,
        BuiltinFont::Symbol,
        BuiltinFont::ZapfDingbats,
    ]
    .iter()
    .map(|f| f.name())
    .collect();
    assert_eq!(
        names,
        vec![
            "Times-Roman",
            "Times-Bold",
            "Times-Italic",
            "Times-BoldItalic",
            "Helvetica",
            "Helvetica-Bold",
            "Helvetica-Oblique",
            "Helvetica-BoldOblique",
            "Courier",
            "Courier-Oblique",
            "Courier-Bold",
            "Courier-BoldOblique",
            "Symbol",
            "ZapfDingbats"
        ]
    );
}

#[test]
fn without_spare_identifiers_nothing_is_embedded() {
    let mut graph = ObjectGraph::new();
    graph.insert(ObjectId { number: u32::MAX - 3, generation: 0 }, Object::Null);
    let font = ExternalFont::new(small_font()).unwrap();
    assert_eq!(font.embed(&mut graph), Err(Error::ObjectLimit));
    assert_eq!(graph.len(), 1);
    assert_eq!(BuiltinFont::Courier.embed(&mut graph), Ok(ObjectId { number: u32::MAX - 2, generation: 0 }));
    graph.insert(ObjectId { number: u32::MAX, generation: 0 }, Object::Null);
    assert_eq!(BuiltinFont::Courier.embed(&mut graph), Err(Error::ObjectLimit));
}

#[test]
fn the_rendering_modes_are_numbered_from_zero() {
    let codes: Vec<i64> = [
        TextRenderingMode::Fill,
        TextRenderingMode::Stroke,
        TextRenderingMode::FillStroke,
        TextRenderingMode::Invisible,
        TextRenderingMode::FillClip,
        TextRenderingMode::StrokeClip,
        TextRenderingMode::FillStrokeClip,
        TextRenderingMode::Clip,
    ]
    .iter()
    .map(|m| m.code())
    .collect();
    assert_eq!(codes, vec![0, 1, 2, 3, 4, 5, 6, 7]);
}

#[test]
fn text_in_an_outline_font_is_written_as_glyph_codes() {
    let codes = text_glyph_codes(&small_font(), "CAB?A");
    assert_eq!(codes, vec![4, 1, 2, 0, 1]);
    assert_eq!(encode_codes(&codes), vec![0, 4, 0, 1, 0, 2, 0, 0, 0, 1]);
    assert_eq!(encode_codes(&vec![0x1234, 0xff00]), vec![0x12, 0x34, 0xff, 0x00]);
}
