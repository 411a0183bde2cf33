//! Text as the bytes that a font expects.

use vstd::prelude::*;
use vstd::string::StrSliceExecFns;
use crate::font_parser::{font_glyph_index, font_loads, glyph_index};

verus! {

/// The bytes of a text in the WinAnsi encoding, without the characters that
/// the encoding lacks.
pub uninterp spec fn winansi_bytes(text: Seq<char>) -> Seq<u8>;

/// Calls `lopdf::Document::encode_text` for the encoding named
/// `WinAnsiEncoding`. The result depends on the text alone.
#[verifier::external_body]
pub(crate) fn winansi_encode(text: &str) -> (bytes: Vec<u8>)
    ensures
        bytes@ == winansi_bytes(text@),
{
    lopdf::Document::encode_text(Some("WinAnsiEncoding"), text)
}

/// The code under which a composite font knows a glyph: the identifier, as
/// far as 16 bits hold it.
pub open spec fn glyph_code(glyph_id: u32) -> u16 {
    glyph_id as u16
}

/// The two bytes of a code, the high byte first.
pub open spec fn code_bytes(code: u16) -> Seq<u8> {
    seq![(code >> 8) as u8, (code & 255) as u8]
}

/// The bytes of the codes from the place `from` on, two for each.
pub open spec fn codes_bytes(codes: Seq<u16>, from: int) -> Seq<u8>
    decreases codes.len() - from,
{
    if from < 0 || from >= codes.len() {
        Seq::empty()
    } else {
        code_bytes(codes[from]) + codes_bytes(codes, from + 1)
    }
}

/// The codes of the glyphs that the font has for the characters of a text.
pub open spec fn glyph_codes(font_bytes: Seq<u8>, text: Seq<char>) -> Seq<u16> {
    Seq::new(text.len(), |i: int| glyph_code(font_glyph_index(font_bytes, text[i] as u32)))
}

/// Appends the two bytes of a code.
pub fn push_code(bytes: &mut Vec<u8>, code: u16)
    ensures
        final(bytes)@ == old(bytes)@ + code_bytes(code),
{
    bytes.push((code >> 8) as u8);
    bytes.push((code & 255) as u8);
    assert(bytes@ =~= old(bytes)@ + code_bytes(code));
}

/// The bytes of a run of codes, two for each, the high byte first.
pub fn encode_codes(codes: &Vec<u16>) -> (bytes: Vec<u8>)
    ensures
        bytes@ == codes_bytes(codes@, 0),
{
    let mut bytes: Vec<u8> = Vec::new();
    let mut i: usize = 0;
    while i < codes.len()
        invariant
            i <= codes@.len(),
            bytes@ + codes_bytes(codes@, i as int) == codes_bytes(codes@, 0),
        decreases codes@.len() - i,
    {
        let ghost before = bytes@;
        push_code(&mut bytes, codes[i]);
        assert(bytes@ + codes_bytes(codes@, i + 1) =~= before + codes_bytes(codes@, i as int));
        i += 1;
    }
    assert(bytes@ + Seq::<u8>::empty() =~= bytes@);
    bytes
}

/// Looks up the glyph of each character of a text in an outline font.
pub fn text_glyph_codes(font_bytes: &[u8], text: &str) -> (codes: Vec<u16>)
    requires
        font_loads(font_bytes@),
    ensures
        codes@ == glyph_codes(font_bytes@, text@),
{
    let mut codes: Vec<u16> = Vec::new();
    let n = text.unicode_len();
    let mut i: usize = 0;
    while i < n
        invariant
            i <= n,
            n == text@.len(),
            font_loads(font_bytes@),
            codes@.len() == i,
            forall|j: int|
                0 <= j < i ==> #[trigger] codes@[j] == glyph_code(
                    font_glyph_index(font_bytes@, text@[j] as u32),
                ),
        decreases n - i,
    {
        let c = text.get_char(i);
        let glyph_id = glyph_index(font_bytes, c as u32);
        #[verifier::truncate]
        let code = glyph_id as u16;
        codes.push(code);
        i += 1;
    }
    assert(codes@ =~= glyph_codes(font_bytes@, text@));
    codes
}

} // verus!
