//! What the library asks of the outline-font parser.
//!
//! Each function here hands font bytes to the `rusttype` crate and gives
//! plain numbers back. Their contracts are taken on trust: they say, over
//! the bytes, which font the parser keeps, to which glyph its character map
//! leads a code point, and where it reads the measures of the font and of a
//! glyph.
//!
//! The parser stops the program where the offsets of a font lead outside
//! its data or to a form that it does not know. The functions here are
//! therefore only called on bytes that have been looked through first, and
//! of a glyph only where the very reads that the parser makes for it have
//! been followed: see [`crate::font_check`].

use vstd::prelude::*;
use crate::error::FontError;
use crate::font_check::{
    cmap_glyph, font_readable, font_start, glyph_place, i16_at, layout_at, layout_of, load_safe,
    tag_at, u16_at, FontLayout, FontStart, GlyphPlace, LAST_CODE_POINT, MAX_CODE_POINT,
};

verus! {

/// Whether the parser accepts the bytes as a font, and if not, why. Bytes
/// that start neither like a font nor like a collection are not
/// recognized. A collection that the parser does not know, or that holds no
/// font, has no first font. A font is ill formed where the parser keeps
/// nothing of it: where a table that it asks for is missing, or where it
/// takes no character map.
pub open spec fn font_load_result(bytes: Seq<u8>) -> Result<(), FontError> {
    match font_start(bytes) {
        FontStart::At(start) => if layout_at(bytes, start as int) is Some {
            Ok(())
        } else {
            Err(FontError::IllFormed)
        },
        _ => if bytes.len() >= 4 && tag_at(bytes, 0, (0x74, 0x74, 0x63, 0x66)) {
            Err(FontError::CollectionIndexOutOfBounds)
        } else {
            Err(FontError::UnrecognizedFormat)
        },
    }
}

/// The glyph that the font has for a Unicode code point; 0 when it has
/// none: the glyph to which the character map that the parser took leads
/// the code point.
pub open spec fn font_glyph_index(bytes: Seq<u8>, code_point: u32) -> u32 {
    match layout_of(bytes) {
        Some(l) => match cmap_glyph(bytes, l.index_map as int, code_point as int) {
            Some(g) => g as u32,
            None => 0,
        },
        None => 0,
    }
}

/// The advance width that the font records for a glyph, as the parser
/// reads it: a signed 16-bit number, the long measure of the glyph or, for
/// a glyph behind the long measures, the last of them.
pub open spec fn advance_width(bytes: Seq<u8>, l: FontLayout, glyph_id: int) -> int {
    let long = u16_at(bytes, l.tables.hhea + 34);
    if glyph_id < long {
        i16_at(bytes, l.tables.hmtx + 4 * glyph_id)
    } else {
        i16_at(bytes, l.tables.hmtx + 4 * (long - 1))
    }
}

/// What the font records for a glyph: its advance width, or 0 where the
/// parser reads a negative one, and the lowest and highest vertical
/// coordinate of the box around its outline where the glyph has data, with
/// the vertical axis turned downwards.
pub open spec fn font_glyph_data(bytes: Seq<u8>, glyph_id: u32) -> Option<
    (u32, Option<(i32, i32)>),
> {
    match layout_of(bytes) {
        Some(l) => Some(
            (
                if advance_width(bytes, l, glyph_id as int) < 0 {
                    0
                } else {
                    advance_width(bytes, l, glyph_id as int) as u32
                },
                match glyph_place(bytes, l, glyph_id as int) {
                    GlyphPlace::At(g) => Some(
                        ((-i16_at(bytes, g + 8)) as i32, (-i16_at(bytes, g + 4)) as i32),
                    ),
                    _ => None,
                },
            ),
        ),
        None => None,
    }
}

/// The ascent and the descent of the font, in font units: the two signed
/// 16-bit numbers that stand 4 and 6 bytes into the table of the horizontal
/// header.
pub open spec fn font_vertical_metrics(bytes: Seq<u8>) -> (i64, i64) {
    match layout_of(bytes) {
        Some(l) => (
            i16_at(bytes, l.tables.hhea + 4) as i64,
            i16_at(bytes, l.tables.hhea + 6) as i64,
        ),
        None => (0, 0),
    }
}

/// The number of font units per em: the 16-bit number that stands 18 bytes
/// into the table of the font header.
pub open spec fn font_units_per_em(bytes: Seq<u8>) -> u16 {
    match layout_of(bytes) {
        Some(l) => u16_at(bytes, l.tables.head + 18) as u16,
        None => 0,
    }
}

/// The parser accepts the bytes as a font, and it can answer every
/// question about them without losing its way.
pub open spec fn font_loads(bytes: Seq<u8>) -> bool {
    font_readable(bytes) && font_load_result(bytes) is Ok
}

/// Some code point up to [`LAST_CODE_POINT`] leads to the glyph.
pub open spec fn font_has_glyph(bytes: Seq<u8>, glyph_id: u32) -> bool {
    exists|code_point: u32|
        code_point <= LAST_CODE_POINT && font_glyph_index(bytes, code_point) == glyph_id
}

/// Calls `rusttype::FontCollection::from_bytes` and then `font_at(0)` on the
/// collection. The result is `Ok` when both succeed, and otherwise the
/// error of the first that failed, variant for variant: the first refuses
/// bytes that start neither like a font nor like a collection; the second
/// finds no first font in a collection, or finds a font ill formed. It is
/// asked only where the directory and the tables that loading reads lie
/// inside the data.
#[verifier::external_body]
pub(crate) fn load_font(bytes: &[u8]) -> (r: Result<(), FontError>)
    requires
        load_safe(bytes@),
    ensures
        r == font_load_result(bytes@),
{
    let loaded = match rusttype::FontCollection::from_bytes(bytes) {
        Ok(collection) => collection.font_at(0),
        Err(e) => Err(e),
    };
    match loaded {
        Ok(_) => Ok(()),
        Err(rusttype::Error::UnrecognizedFormat) => Err(FontError::UnrecognizedFormat),
        Err(rusttype::Error::IllFormed) => Err(FontError::IllFormed),
        Err(rusttype::Error::CollectionIndexOutOfBounds) => Err(FontError::CollectionIndexOutOfBounds),
        Err(rusttype::Error::CollectionContainsMultipleFonts) => Err(FontError::CollectionContainsMultipleFonts),
    }
}

/// Calls `rusttype::Font::glyph` with a code point, on the first font of the
/// bytes, and gives the identifier of the glyph that comes back: the one
/// that the parser finds on its way through the character map. It is asked
/// only of a font in which that way stays inside the data for every code
/// point, and ends at a glyph below the glyph count.
#[verifier::external_body]
pub(crate) fn glyph_index(bytes: &[u8], code_point: u32) -> (glyph_id: u32)
    requires
        font_loads(bytes@),
        code_point <= MAX_CODE_POINT,
    ensures
        glyph_id == font_glyph_index(bytes@, code_point),
{
    let font = rusttype::FontCollection::from_bytes(bytes).unwrap().font_at(0).unwrap();
    font.glyph(rusttype::Codepoint(code_point)).id().0
}

/// Calls `rusttype::Glyph::get_data` on the standalone form of a glyph of
/// the first font of the bytes, and gives the advance width as a whole
/// number and the vertical extent of the outline. The parser reads the
/// advance width as a signed number among the horizontal measures, and the
/// extent from the box at the start of the data of the glyph; `rusttype`
/// turns the vertical axis downwards, and a negative width becomes 0 here.
/// It is asked only of a glyph other than glyph 0 that a code point up to
/// [`LAST_CODE_POINT`] leads to: of those the measures, the box and the
/// outline have been followed through the data as the parser reads them.
#[verifier::external_body]
pub(crate) fn glyph_data(bytes: &[u8], glyph_id: u32) -> (r: Option<(u32, Option<(i32, i32)>)>)
    requires
        font_loads(bytes@),
        glyph_id != 0,
        font_has_glyph(bytes@, glyph_id),
    ensures
        r == font_glyph_data(bytes@, glyph_id),
{
    let font = rusttype::FontCollection::from_bytes(bytes).unwrap().font_at(0).unwrap();
    let data = font.glyph(rusttype::GlyphId(glyph_id)).standalone().get_data();
    data.map(|d| (d.unit_h_metrics.advance_width as u32, d.extents.map(|e| (e.min.y, e.max.y))))
}

/// Calls `rusttype::Font::v_metrics_unscaled` on the first font of the bytes
/// and gives the ascent and the descent as whole numbers. The parser reads
/// them as the two signed 16-bit numbers 4 and 6 bytes into the table of
/// the horizontal header.
#[verifier::external_body]
pub(crate) fn vertical_metrics(bytes: &[u8]) -> (r: (i64, i64))
    requires
        font_loads(bytes@),
    ensures
        r == font_vertical_metrics(bytes@),
{
    let font = rusttype::FontCollection::from_bytes(bytes).unwrap().font_at(0).unwrap();
    let metrics = font.v_metrics_unscaled();
    (metrics.ascent as i64, metrics.descent as i64)
}

/// Calls `rusttype::Font::units_per_em` on the first font of the bytes. The
/// parser reads it as the 16-bit number 18 bytes into the table of the font
/// header.
#[verifier::external_body]
pub(crate) fn units_per_em(bytes: &[u8]) -> (r: u16)
    requires
        font_loads(bytes@),
    ensures
        r == font_units_per_em(bytes@),
{
    let font = rusttype::FontCollection::from_bytes(bytes).unwrap().font_at(0).unwrap();
    font.units_per_em()
}

} // verus!
