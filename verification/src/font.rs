//! Fonts: the fourteen standard fonts, and outline fonts read from bytes.

use vstd::prelude::*;
use crate::error::{Error, FontError};
use crate::font_check::{check_font, check_load, font_readable, load_safe, LAST_CODE_POINT};
use crate::font_parser::{
    font_glyph_data, font_glyph_index, font_loads, font_load_result,
    font_units_per_em, font_vertical_metrics, load_font, units_per_em,
    vertical_metrics,
};
use crate::cmap::{
    cid_to_unicode_map_text, cmap_blocks, generate_cid_to_unicode_map, partition_cmap,
};
use crate::glyph_table::{scan, scan_font, FontScan, GlyphRecord, ScanValue};
use crate::graph::{
    graph_add, graph_extends, graph_wf, ids_above_or_among, lemma_add_extends,
    lemma_extends_self, lemma_extends_trans, nth_id, GraphView, ObjectGraph,
};
use crate::object::{
    array, bytes_clone, bytes_eq, integer_array, integer_values, literal,
    literal_value, name, name_value, put, values_of, Dictionary, Entries, Object, ObjectId,
    Stream, Value,
};
use crate::pdf_resources::Embeddable;
use crate::text::{decimal_chars, push_decimal};
use crate::widths::{encode_widths, runs_of, width_runs, RunValue, WidthRun};
use vstd::string::{StringExecFns, StringSliceAdditionalSpecFns};

verus! {

/// The standard fonts that every PDF viewer provides.
#[derive(Debug, Copy, Clone, PartialEq, Eq, Structural)]
pub enum BuiltinFont {
    TimesRoman,
    TimesBold,
    TimesItalic,
    TimesBoldItalic,
    Helvetica,
    HelveticaBold,
    HelveticaOblique,
    HelveticaBoldOblique,
    Courier,
    CourierOblique,
    CourierBold,
    CourierBoldOblique,
    Symbol,
    ZapfDingbats,
}

impl BuiltinFont {
    /// The PostScript name of the font.
    pub open spec fn spec_name(self) -> &'static str {
        match self {
            BuiltinFont::TimesRoman => "Times-Roman",
            BuiltinFont::TimesBold => "Times-Bold",
            BuiltinFont::TimesItalic => "Times-Italic",
            BuiltinFont::TimesBoldItalic => "Times-BoldItalic",
            BuiltinFont::Helvetica => "Helvetica",
            BuiltinFont::HelveticaBold => "Helvetica-Bold",
            BuiltinFont::HelveticaOblique => "Helvetica-Oblique",
            BuiltinFont::HelveticaBoldOblique => "Helvetica-BoldOblique",
            BuiltinFont::Courier => "Courier",
            BuiltinFont::CourierOblique => "Courier-Oblique",
            BuiltinFont::CourierBold => "Courier-Bold",
            BuiltinFont::CourierBoldOblique => "Courier-BoldOblique",
            BuiltinFont::Symbol => "Symbol",
            BuiltinFont::ZapfDingbats => "ZapfDingbats",
        }
    }

    /// The PostScript name of the font.
    pub fn name(self) -> (n: &'static str)
        ensures
            n == self.spec_name(),
    {
        match self {
            BuiltinFont::TimesRoman => "Times-Roman",
            BuiltinFont::TimesBold => "Times-Bold",
            BuiltinFont::TimesItalic => "Times-Italic",
            BuiltinFont::TimesBoldItalic => "Times-BoldItalic",
            BuiltinFont::Helvetica => "Helvetica",
            BuiltinFont::HelveticaBold => "Helvetica-Bold",
            BuiltinFont::HelveticaOblique => "Helvetica-Oblique",
            BuiltinFont::HelveticaBoldOblique => "Helvetica-BoldOblique",
            BuiltinFont::Courier => "Courier",
            BuiltinFont::CourierOblique => "Courier-Oblique",
            BuiltinFont::CourierBold => "Courier-Bold",
            BuiltinFont::CourierBoldOblique => "Courier-BoldOblique",
            BuiltinFont::Symbol => "Symbol",
            BuiltinFont::ZapfDingbats => "ZapfDingbats",
        }
    }
}

/// How text is painted.
#[derive(Debug, Copy, Clone, PartialEq, Eq, Structural)]
pub enum TextRenderingMode {
    Fill,
    Stroke,
    FillStroke,
    Invisible,
    FillClip,
    StrokeClip,
    FillStrokeClip,
    Clip,
}

impl TextRenderingMode {
    /// The number that stands for the mode in a content stream.
    pub open spec fn spec_code(self) -> i64 {
        match self {
            TextRenderingMode::Fill => 0,
            TextRenderingMode::Stroke => 1,
            TextRenderingMode::FillStroke => 2,
            TextRenderingMode::Invisible => 3,
            TextRenderingMode::FillClip => 4,
            TextRenderingMode::StrokeClip => 5,
            TextRenderingMode::FillStrokeClip => 6,
            TextRenderingMode::Clip => 7,
        }
    }

    /// The number that stands for the mode in a content stream.
    pub fn code(self) -> (c: i64)
        ensures
            c == self.spec_code(),
    {
        match self {
            TextRenderingMode::Fill => 0,
            TextRenderingMode::Stroke => 1,
            TextRenderingMode::FillStroke => 2,
            TextRenderingMode::Invisible => 3,
            TextRenderingMode::FillClip => 4,
            TextRenderingMode::StrokeClip => 5,
            TextRenderingMode::FillStrokeClip => 6,
            TextRenderingMode::Clip => 7,
        }
    }
}

/// An outline font, held as the bytes of its font file.
///
/// A value exists only for bytes that the font parser accepts.
#[derive(Debug)]
pub struct ExternalFont {
    font_bytes: Vec<u8>,
    vertical_writing: bool,
}

impl ExternalFont {
    #[verifier::type_invariant]
    spec fn inv(self) -> bool {
        font_loads(self.font_bytes@)
    }

    /// The bytes of the font file.
    pub closed spec fn bytes(self) -> Seq<u8> {
        self.font_bytes@
    }

    /// Whether the font is written vertically.
    pub closed spec fn vertical(self) -> bool {
        self.vertical_writing
    }

    /// What `new` gives for the bytes.
    pub open spec fn new_result(bytes: Seq<u8>) -> Result<(), Error> {
        if bytes.len() < 4 {
            Err(Error::Font(FontError::TooShort))
        } else if !load_safe(bytes) {
            Err(Error::Font(FontError::Unreadable))
        } else {
            match font_load_result(bytes) {
                Ok(_) => if font_readable(bytes) {
                    Ok(())
                } else {
                    Err(Error::Font(FontError::Unreadable))
                },
                Err(e) => Err(Error::Font(e)),
            }
        }
    }

    /// A font from the bytes of a font file, written horizontally.
    ///
    /// Bytes shorter than a font header are refused as too short. Bytes
    /// in which the parser, looking for the tables of the font, would read
    /// beyond the data are refused as unreadable before the font parser
    /// sees them. Otherwise the font parser decides whether the bytes are a
    /// font, and its refusal is handed on. A font that it accepts is
    /// refused as unreadable only where it would lose its way on a
    /// question that this library asks: the glyph of a code point, the
    /// ascent and descent, or the measures, the box or the outline of a
    /// glyph that a code point up to `0xFFFF` leads to. It loses its way
    /// where it reads beyond the data, meets a form that it does not know,
    /// computes a number that leaves its width, or comes to a glyph that
    /// is a part of itself. Tables and glyphs that it never reads for these
    /// questions may hold anything.
    pub fn new(font_bytes: Vec<u8>) -> (r: Result<ExternalFont, Error>)
        ensures
            r is Ok <==> ExternalFont::new_result(font_bytes@) is Ok,
            r matches Ok(f) ==> f.bytes() == font_bytes@ && !f.vertical(),
            r matches Err(e) ==> ExternalFont::new_result(font_bytes@) == Err::<(), Error>(e),
    {
        if font_bytes.len() < 4 {
            return Err(Error::Font(FontError::TooShort));
        }
        if !check_load(font_bytes.as_slice()) {
            return Err(Error::Font(FontError::Unreadable));
        }
        match load_font(font_bytes.as_slice()) {
            Ok(_) => if check_font(font_bytes.as_slice()) {
                Ok(ExternalFont { font_bytes, vertical_writing: false })
            } else {
                Err(Error::Font(FontError::Unreadable))
            },
            Err(e) => Err(Error::Font(e)),
        }
    }

    /// The bytes of the font file.
    pub fn font_bytes(&self) -> (b: &Vec<u8>)
        ensures
            b@ == self.bytes(),
            font_loads(b@),
    {
        proof {
            use_type_invariant(self);
        }
        &self.font_bytes
    }

    /// Whether the font is written vertically.
    pub fn vertical_writing(&self) -> (v: bool)
        ensures
            v == self.vertical(),
    {
        self.vertical_writing
    }

    /// The same font, written vertically or horizontally.
    pub fn with_vertical_writing(self, vertical: bool) -> (f: ExternalFont)
        ensures
            f.bytes() == self.bytes(),
            f.vertical() == vertical,
    {
        proof {
            use_type_invariant(&self);
        }
        ExternalFont { font_bytes: self.font_bytes, vertical_writing: vertical }
    }
}

impl Clone for ExternalFont {
    fn clone(&self) -> (r: Self)
        ensures
            r.bytes() == self.bytes(),
            r.vertical() == self.vertical(),
    {
        proof {
            use_type_invariant(self);
        }
        ExternalFont {
            font_bytes: bytes_clone(self.font_bytes.as_slice()),
            vertical_writing: self.vertical_writing,
        }
    }
}

impl PartialEq for ExternalFont {
    /// Two fonts are equal when their bytes are.
    fn eq(&self, other: &ExternalFont) -> (r: bool) {
        bytes_eq(self.font_bytes.as_slice(), other.font_bytes.as_slice())
    }
}

impl vstd::std_specs::cmp::PartialEqSpecImpl for ExternalFont {
    open spec fn obeys_eq_spec() -> bool {
        true
    }

    open spec fn eq_spec(&self, other: &ExternalFont) -> bool {
        self.bytes() == other.bytes()
    }
}

/// A font.
#[derive(Debug, Clone, PartialEq)]
pub enum Font {
    /// One of the standard fonts.
    BuiltinFont(BuiltinFont),
    /// A font read from a font file.
    ExternalFont(ExternalFont),
}


/// The bytes of a text.
pub open spec fn text_bytes(text: Seq<char>) -> Seq<u8> {
    vstd::utf8::encode_utf8(text)
}

/// The font dictionary of a standard font.
pub open spec fn builtin_font_entries(font: BuiltinFont) -> Entries {
    put(
        put(
            put(put(Entries::empty(), "Type", name_value("Font")), "Subtype", name_value("Type1")),
            "BaseFont",
            name_value(font.spec_name()),
        ),
        "Encoding",
        name_value("WinAnsiEncoding"),
    )
}

impl BuiltinFont {
    /// The font dictionary of the font: a Type 1 font of the standard name,
    /// in the WinAnsi encoding.
    pub fn to_dictionary(self) -> (d: Dictionary)
        ensures
            d@ == builtin_font_entries(self),
    {
        let mut d = Dictionary::new();
        d.put("Type", name("Font"));
        d.put("Subtype", name("Type1"));
        d.put("BaseFont", name(self.name()));
        d.put("Encoding", name("WinAnsiEncoding"));
        d
    }
}

/// The name that an outline font gets when it is written into a graph that
/// holds `count` objects.
pub open spec fn face_name_text(count: nat) -> Seq<char> {
    "Fo"@ + decimal_chars(count)
}

/// The stream that holds the font file, never compressed.
pub open spec fn font_file_value(bytes: Seq<u8>) -> Value {
    Value::Stream(
        put(Entries::empty(), "Length1", Value::Integer(bytes.len() as i64)),
        bytes,
        false,
    )
}

/// The stream that holds the character map of the glyphs of a table.
pub open spec fn to_unicode_value(face_name: Seq<char>, table: Seq<GlyphRecord>) -> Value {
    Value::Stream(
        Entries::empty(),
        text_bytes(cid_to_unicode_map_text(face_name, cmap_blocks(table, table.len()))),
        true,
    )
}

/// The bounding box of a font: the greatest glyph height as its top and
/// its right-hand extent, and the total advance width.
pub open spec fn font_bbox_value(max_height: i64, total_width: i64) -> Value {
    Value::Array(
        seq![
            Value::Integer(0),
            Value::Integer(max_height),
            Value::Integer(total_width),
            Value::Integer(max_height),
        ],
    )
}

/// The font descriptor.
pub open spec fn descriptor_entries(
    face_name: Seq<char>,
    ascent: i64,
    descent: i64,
    max_height: i64,
    total_width: i64,
    font_file: ObjectId,
) -> Entries {
    let e0 = put(Entries::empty(), "Type", name_value("FontDescriptor"));
    let e1 = put(e0, "FontName", Value::Name(text_bytes(face_name)));
    let e2 = put(e1, "Ascent", Value::Integer(ascent));
    let e3 = put(e2, "Descent", Value::Integer(descent));
    let e4 = put(e3, "CapHeight", Value::Integer(ascent));
    let e5 = put(e4, "ItalicAngle", Value::Integer(0));
    let e6 = put(e5, "Flags", Value::Integer(32));
    let e7 = put(e6, "StemV", Value::Integer(80));
    let e8 = put(e7, "FontFile2", Value::Reference(font_file));
    put(e8, "FontBBox", font_bbox_value(max_height, total_width))
}

/// The items of the width array for the first `n` runs: for each run its
/// first glyph and the array of its widths.
pub open spec fn widths_values(runs: Seq<RunValue>, n: nat) -> Seq<Value>
    decreases n,
{
    if n == 0 || n > runs.len() {
        Seq::empty()
    } else {
        widths_values(runs, (n - 1) as nat).push(Value::Integer(runs[n - 1].start as i64)).push(
            Value::Array(integer_values(runs[n - 1].widths)),
        )
    }
}

/// The dictionary that names the character collection of a composite font.
pub open spec fn cid_system_info_entries() -> Entries {
    put(
        put(
            put(Entries::empty(), "Registry", literal_value("Adobe")),
            "Ordering",
            literal_value("Identity"),
        ),
        "Supplement",
        Value::Integer(0),
    )
}

/// The descendant font of a composite font, with its width table.
pub open spec fn descendant_entries(
    face_name: Seq<char>,
    vertical: bool,
    runs: Seq<RunValue>,
    descriptor: ObjectId,
) -> Entries {
    let e0 = put(Entries::empty(), "Type", name_value("Font"));
    let e1 = put(e0, "Subtype", name_value("CIDFontType2"));
    let e2 = put(e1, "BaseFont", Value::Name(text_bytes(face_name)));
    let e3 = put(e2, "CIDSystemInfo", Value::Dictionary(cid_system_info_entries()));
    let e4 = put(
        e3,
        if vertical {
            "W2"
        } else {
            "W"
        },
        Value::Array(widths_values(runs, runs.len())),
    );
    let e5 = put(
        e4,
        if vertical {
            "DW2"
        } else {
            "DW"
        },
        Value::Integer(1000),
    );
    put(e5, "FontDescriptor", Value::Reference(descriptor))
}

/// The font dictionary of a composite font.
pub open spec fn type0_entries(face_name: Seq<char>, descendant: Entries, to_unicode: ObjectId) -> Entries {
    let e0 = put(Entries::empty(), "Type", name_value("Font"));
    let e1 = put(e0, "Subtype", name_value("Type0"));
    let e2 = put(e1, "BaseFont", Value::Name(text_bytes(face_name)));
    let e3 = put(e2, "Encoding", name_value("Identity-H"));
    let e4 = put(e3, "DescendantFonts", Value::Array(seq![Value::Dictionary(descendant)]));
    put(e4, "ToUnicode", Value::Reference(to_unicode))
}

/// What is known of an outline font when its objects are written.
pub struct FontFacts {
    pub bytes: Seq<u8>,
    pub vertical: bool,
    pub scan: ScanValue,
    pub ascent: i64,
    pub descent: i64,
    pub units_per_em: u16,
}

/// The graph after the three objects of an outline font are added: the
/// character map, the font file, and the font descriptor, in this order.
pub open spec fn graph_with_font(g: GraphView, f: FontFacts) -> GraphView {
    let face = face_name_text(g.objects.len());
    let g1 = graph_add(g, to_unicode_value(face, f.scan.table));
    let g2 = graph_add(g1, font_file_value(f.bytes));
    graph_add(
        g2,
        Value::Dictionary(
            descriptor_entries(
                face,
                f.ascent,
                f.descent,
                f.scan.max_height,
                f.scan.total_width as i64,
                nth_id(g, 2),
            ),
        ),
    )
}

/// The font dictionary of an outline font that is written into the graph.
pub open spec fn font_entries(g: GraphView, f: FontFacts) -> Entries {
    let face = face_name_text(g.objects.len());
    type0_entries(
        face,
        descendant_entries(
            face,
            f.vertical,
            width_runs(f.scan.table, f.units_per_em, f.scan.table.len()),
            nth_id(g, 3),
        ),
        nth_id(g, 1),
    )
}

/// The name object with the bytes of a text.
fn name_of_text(text: &String) -> (o: Object)
    ensures
        o@ == Value::Name(text_bytes(text@)),
{
    Object::Name(bytes_clone(text.as_str().as_bytes()))
}

/// The width array of a font.
fn widths_array(runs: &Vec<WidthRun>) -> (o: Object)
    ensures
        o@ == Value::Array(widths_values(runs_of(runs@), runs@.len())),
{
    let mut items: Vec<Object> = Vec::new();
    let mut i: usize = 0;
    let ghost all = runs_of(runs@);
    assert(values_of(items@) =~= widths_values(all, 0));
    while i < runs.len()
        invariant
            i <= runs@.len(),
            all == runs_of(runs@),
            values_of(items@) == widths_values(all, i as nat),
        decreases runs@.len() - i,
    {
        let ghost before = values_of(items@);
        #[verifier::truncate]
        let start = runs[i].start as i64;
        items.push(Object::Integer(start));
        items.push(integer_array(&runs[i].widths));
        assert(all[i as int] == runs@[i as int]@);
        assert(values_of(items@) =~= before.push(Value::Integer(start)).push(
            Value::Array(integer_values(runs@[i as int].widths@)),
        ));
        i += 1;
    }
    array(items)
}

/// Writes the objects of an outline font into the graph: the character
/// map, the font file and the font descriptor. Gives the font dictionary,
/// which is left to the caller to add.
pub fn write_font_objects(
    doc: &mut ObjectGraph,
    font_bytes: &[u8],
    vertical: bool,
    scan: &FontScan,
    ascent: i64,
    descent: i64,
    units_per_em: u16,
) -> (dict: Dictionary)
    requires
        old(doc)@.max_id <= u32::MAX - 3,
    ensures
        final(doc)@ == graph_with_font(
            old(doc)@,
            FontFacts { bytes: font_bytes@, vertical, scan: scan@, ascent, descent, units_per_em },
        ),
        dict@ == font_entries(
            old(doc)@,
            FontFacts { bytes: font_bytes@, vertical, scan: scan@, ascent, descent, units_per_em },
        ),
{
    let mut face_name = String::new();
    face_name.append("Fo");
    push_decimal(&mut face_name, doc.len() as u64);
    assert(face_name@ =~= face_name_text(old(doc)@.objects.len()));

    let blocks = partition_cmap(&scan.table);
    let map_text = generate_cid_to_unicode_map(face_name.clone(), blocks);
    let to_unicode = doc.add_object(
        Object::Stream(
            Stream {
                dict: Dictionary::new(),
                content: bytes_clone(map_text.as_str().as_bytes()),
                allows_compression: true,
            },
        ),
    );

    let mut file_dict = Dictionary::new();
    #[verifier::truncate]
    let length = font_bytes.len() as i64;
    file_dict.put("Length1", Object::Integer(length));
    let font_file = doc.add_object(
        Object::Stream(
            Stream { dict: file_dict, content: bytes_clone(font_bytes), allows_compression: false },
        ),
    );

    let mut bbox: Vec<Object> = Vec::new();
    #[verifier::truncate]
    let total_width = scan.total_width as i64;
    bbox.push(Object::Integer(0));
    bbox.push(Object::Integer(scan.max_height));
    bbox.push(Object::Integer(total_width));
    bbox.push(Object::Integer(scan.max_height));
    let bbox = array(bbox);
    assert(bbox@ =~= font_bbox_value(scan.max_height, total_width)) by {
        assert(bbox@->Array_0 =~= font_bbox_value(scan.max_height, total_width)->Array_0);
    }

    let mut descriptor = Dictionary::new();
    descriptor.put("Type", name("FontDescriptor"));
    descriptor.put("FontName", name_of_text(&face_name));
    descriptor.put("Ascent", Object::Integer(ascent));
    descriptor.put("Descent", Object::Integer(descent));
    descriptor.put("CapHeight", Object::Integer(ascent));
    descriptor.put("ItalicAngle", Object::Integer(0));
    descriptor.put("Flags", Object::Integer(32));
    descriptor.put("StemV", Object::Integer(80));
    descriptor.put("FontFile2", Object::Reference(font_file));
    descriptor.put("FontBBox", bbox);
    let descriptor_id = doc.add_object(Object::Dictionary(descriptor));

    let mut info = Dictionary::new();
    info.put("Registry", literal("Adobe"));
    info.put("Ordering", literal("Identity"));
    info.put("Supplement", Object::Integer(0));

    let runs = encode_widths(&scan.table, units_per_em);
    let mut descendant = Dictionary::new();
    descendant.put("Type", name("Font"));
    descendant.put("Subtype", name("CIDFontType2"));
    descendant.put("BaseFont", name_of_text(&face_name));
    descendant.put("CIDSystemInfo", Object::Dictionary(info));
    descendant.put(
        if vertical {
            "W2"
        } else {
            "W"
        },
        widths_array(&runs),
    );
    descendant.put(
        if vertical {
            "DW2"
        } else {
            "DW"
        },
        Object::Integer(1000),
    );
    descendant.put("FontDescriptor", Object::Reference(descriptor_id));

    let mut descendants: Vec<Object> = Vec::new();
    descendants.push(Object::Dictionary(descendant));
    let descendants = array(descendants);
    assert(descendants@->Array_0 =~= seq![Value::Dictionary(descendant@)]);

    let mut dict = Dictionary::new();
    dict.put("Type", name("Font"));
    dict.put("Subtype", name("Type0"));
    dict.put("BaseFont", name_of_text(&face_name));
    dict.put("Encoding", name("Identity-H"));
    dict.put("DescendantFonts", descendants);
    dict.put("ToUnicode", Object::Reference(to_unicode));
    dict
}

/// What the font parser tells of the bytes of an outline font.
pub open spec fn font_facts(bytes: Seq<u8>, vertical: bool) -> FontFacts {
    FontFacts {
        bytes,
        vertical,
        scan: scan(bytes, (LAST_CODE_POINT + 1) as nat),
        ascent: font_vertical_metrics(bytes).0,
        descent: font_vertical_metrics(bytes).1,
        units_per_em: font_units_per_em(bytes),
    }
}

/// In the width table of a font, every glyph that a code point up to the
/// last one leads to, and for which the font has data, reads back the
/// advance width that the font gives for it, brought to a thousandth of an
/// em and rounded toward zero.
pub proof fn lemma_width_table_complete(bytes: Seq<u8>, vertical: bool, code_point: u32)
    requires
        code_point <= LAST_CODE_POINT,
        crate::glyph_table::probe(bytes, code_point) is Some,
    ensures
        ({
            let f = font_facts(bytes, vertical);
            let glyph_id = font_glyph_index(bytes, code_point);
            crate::widths::run_lookup(
                width_runs(f.scan.table, f.units_per_em, f.scan.table.len()),
                glyph_id,
                0,
            ) == Some(
                crate::widths::scaled_width(
                    font_glyph_data(bytes, glyph_id)->Some_0.0,
                    f.units_per_em,
                ),
            )
        }),
{
    let f = font_facts(bytes, vertical);
    let n = (LAST_CODE_POINT + 1) as nat;
    let glyph_id = font_glyph_index(bytes, code_point);
    crate::glyph_table::lemma_scan_complete(bytes, n, code_point);
    crate::glyph_table::lemma_scan_shape(bytes, n);
    let i = crate::glyph_table::table_rank(f.scan.table, glyph_id, 0);
    crate::glyph_table::lemma_table_rank(f.scan.table, glyph_id, 0);
    crate::widths::lemma_widths_decode(f.scan.table, f.units_per_em, f.scan.table.len(), i);
}

/// The character map of a font has no empty block and none of more than
/// 100 entries, and all entries of a block have the same high part of the
/// glyph identifier.
pub proof fn lemma_font_cmap_blocks(bytes: Seq<u8>, vertical: bool)
    ensures
        ({
            let table = font_facts(bytes, vertical).scan.table;
            let blocks = cmap_blocks(table, table.len());
            &&& forall|b: int|
                0 <= b < blocks.len() ==> 1 <= (#[trigger] blocks[b]).len()
                    <= crate::cmap::MAX_BLOCK_LEN
            &&& forall|b: int, j: int|
                0 <= b < blocks.len() && 0 <= j < blocks[b].len() ==> crate::cmap::high_byte(
                    (#[trigger] blocks[b][j]).0,
                ) == crate::cmap::block_high(blocks[b])
        }),
{
    let table = font_facts(bytes, vertical).scan.table;
    crate::glyph_table::lemma_scan_shape(bytes, (LAST_CODE_POINT + 1) as nat);
    crate::cmap::lemma_cmap_blocks_nonempty(table, table.len());
    crate::cmap::lemma_cmap_blocks(table, table.len());
}

impl ExternalFont {
    /// What the font parser tells of this font.
    pub open spec fn facts(self) -> FontFacts {
        font_facts(self.bytes(), self.vertical())
    }

    /// Looks up every code point in the font and writes the objects of the
    /// font into a graph that can number three more objects. Gives the font
    /// dictionary, which is left to the caller to add.
    pub fn write_objects(&self, doc: &mut ObjectGraph) -> (dict: Dictionary)
        requires
            old(doc)@.max_id <= u32::MAX - 3,
        ensures
            final(doc)@ == graph_with_font(old(doc)@, self.facts()),
            dict@ == font_entries(old(doc)@, self.facts()),
    {
        proof {
            use_type_invariant(self);
        }
        let bytes = self.font_bytes.as_slice();
        let metrics = vertical_metrics(bytes);
        let found = scan_font(bytes);
        let per_em = units_per_em(bytes);
        write_font_objects(
            doc,
            bytes,
            self.vertical_writing,
            &found,
            metrics.0,
            metrics.1,
            per_em,
        )
    }

    /// What `into_with_document` gives for a graph: the graph afterwards and
    /// the font dictionary; without three spare identifiers the graph stays
    /// as it is and the outcome is an error.
    pub open spec fn written(self, g: GraphView) -> (GraphView, Result<Entries, Error>) {
        if g.max_id > u32::MAX - 3 {
            (g, Err(Error::ObjectLimit))
        } else {
            (graph_with_font(g, self.facts()), Ok(font_entries(g, self.facts())))
        }
    }

    /// Looks up every code point in the font and writes the objects of the
    /// font into the graph: the character map, the font file and the font
    /// descriptor. Gives the font dictionary, which is left to the caller
    /// to add. A graph that cannot number three more objects stays as it
    /// is.
    pub fn into_with_document(&self, doc: &mut ObjectGraph) -> (r: Result<Dictionary, Error>)
        ensures
            final(doc)@ == self.written(old(doc)@).0,
            match self.written(old(doc)@).1 {
                Ok(entries) => r matches Ok(dict) && dict@ == entries,
                Err(e) => r matches Err(f) && f == e,
            },
    {
        if doc.spare_ids() < 3 {
            return Err(Error::ObjectLimit);
        }
        Ok(self.write_objects(doc))
    }
}

/// The graph after a standard font is embedded, and the outcome: without a
/// spare identifier the graph stays as it is and the outcome is an error.
pub open spec fn builtin_embedded(g: GraphView, font: BuiltinFont) -> (
    GraphView,
    Result<ObjectId, Error>,
) {
    if g.max_id == u32::MAX {
        (g, Err(Error::ObjectLimit))
    } else {
        (graph_add(g, Value::Dictionary(builtin_font_entries(font))), Ok(nth_id(g, 1)))
    }
}

/// The graph after an outline font is embedded, and the outcome: without
/// four spare identifiers the graph stays as it is and the outcome is an
/// error.
pub open spec fn external_embedded(g: GraphView, f: FontFacts) -> (
    GraphView,
    Result<ObjectId, Error>,
) {
    if g.max_id > u32::MAX - 4 {
        (g, Err(Error::ObjectLimit))
    } else {
        (
            graph_add(graph_with_font(g, f), Value::Dictionary(font_entries(g, f))),
            Ok(nth_id(g, 4)),
        )
    }
}

impl From<BuiltinFont> for Font {
    fn from(font: BuiltinFont) -> (r: Font) {
        Font::BuiltinFont(font)
    }
}

impl vstd::std_specs::convert::FromSpecImpl<BuiltinFont> for Font {
    open spec fn obeys_from_spec() -> bool {
        true
    }

    open spec fn from_spec(font: BuiltinFont) -> Font {
        Font::BuiltinFont(font)
    }
}

impl From<ExternalFont> for Font {
    fn from(font: ExternalFont) -> (r: Font) {
        Font::ExternalFont(font)
    }
}

impl vstd::std_specs::convert::FromSpecImpl<ExternalFont> for Font {
    open spec fn obeys_from_spec() -> bool {
        true
    }

    open spec fn from_spec(font: ExternalFont) -> Font {
        Font::ExternalFont(font)
    }
}

/// The mathematical value of a [`Font`].
pub enum FontValue {
    Builtin(BuiltinFont),
    External { bytes: Seq<u8>, vertical: bool },
}

impl View for Font {
    type V = FontValue;

    open spec fn view(&self) -> FontValue {
        match self {
            Font::BuiltinFont(font) => FontValue::Builtin(*font),
            Font::ExternalFont(font) => FontValue::External {
                bytes: font.bytes(),
                vertical: font.vertical(),
            },
        }
    }
}

impl FontValue {
    /// The graph after the objects that the font needs beside its font
    /// dictionary are added.
    #[verifier::opaque]
    pub open spec fn graph_with_parts(self, g: GraphView) -> GraphView {
        match self {
            FontValue::Builtin(_) => g,
            FontValue::External { bytes, vertical } => graph_with_font(
                g,
                font_facts(bytes, vertical),
            ),
        }
    }

    /// The font dictionary of the font when it is written into the graph.
    #[verifier::opaque]
    pub open spec fn dictionary(self, g: GraphView) -> Entries {
        match self {
            FontValue::Builtin(font) => builtin_font_entries(font),
            FontValue::External { bytes, vertical } => font_entries(g, font_facts(bytes, vertical)),
        }
    }

    /// The number of objects that the font needs beside its font
    /// dictionary.
    pub open spec fn parts_count(self) -> nat {
        match self {
            FontValue::Builtin(_) => 0,
            FontValue::External { .. } => 3,
        }
    }

    /// Writing the parts of a font adds as many objects as the font needs,
    /// under the next identifiers, and leaves the rest of the graph as it
    /// is.
    pub proof fn lemma_graph_with_parts(self, g: GraphView)
        requires
            g.max_id + self.parts_count() <= u32::MAX,
        ensures
            self.graph_with_parts(g).max_id == g.max_id + self.parts_count(),
            self.graph_with_parts(g).version == g.version,
            self.graph_with_parts(g).trailer == g.trailer,
            self.graph_with_parts(g).objects.len() == g.objects.len() + self.parts_count(),
            self.graph_with_parts(g).objects.subrange(0, g.objects.len() as int) == g.objects,
            forall|k: int|
                0 <= k < self.parts_count() ==> (#[trigger] self.graph_with_parts(
                    g,
                ).objects[g.objects.len() + k]).0 == nth_id(g, k + 1),
    {
        reveal(FontValue::graph_with_parts);
        assert(self.graph_with_parts(g).objects.subrange(0, g.objects.len() as int)
            =~= g.objects);
    }
}

impl FontValue {
    /// Writing the parts of a font into a well-formed graph gives a
    /// well-formed graph that holds every object of the one before, and
    /// whose new objects are numbered above the identifiers handed out
    /// before.
    pub proof fn lemma_parts_extend(self, g: GraphView, m: int, among: Set<ObjectId>)
        requires
            graph_wf(g),
            g.max_id + self.parts_count() <= u32::MAX,
            m <= g.max_id,
            ids_above_or_among(g, m, among),
        ensures
            graph_extends(g, self.graph_with_parts(g)),
            ids_above_or_among(self.graph_with_parts(g), m, among),
    {
        reveal(FontValue::graph_with_parts);
        lemma_extends_self(g);
        match self {
            FontValue::Builtin(_) => {},
            FontValue::External { bytes, vertical } => {
                let f = font_facts(bytes, vertical);
                let face = face_name_text(g.objects.len());
                let v1 = to_unicode_value(face, f.scan.table);
                let g1 = graph_add(g, v1);
                lemma_add_extends(g, v1);
                let v2 = font_file_value(f.bytes);
                let g2 = graph_add(g1, v2);
                lemma_add_extends(g1, v2);
                let v3 = Value::Dictionary(
                    descriptor_entries(
                        face,
                        f.ascent,
                        f.descent,
                        f.scan.max_height,
                        f.scan.total_width as i64,
                        nth_id(g, 2),
                    ),
                );
                lemma_add_extends(g2, v3);
                let g3 = graph_add(g2, v3);
                lemma_extends_trans(g, g1, g2);
                lemma_extends_trans(g, g2, g3);
                assert(ids_above_or_among(g1, m, among));
                assert(ids_above_or_among(g2, m, among));
                assert(ids_above_or_among(g3, m, among));
            },
        }
    }
}

impl Font {
    /// Writes the objects that the font needs beside its font dictionary
    /// into the graph, and gives the font dictionary.
    pub fn write_parts(&self, doc: &mut ObjectGraph) -> (dict: Dictionary)
        requires
            old(doc)@.max_id + self@.parts_count() <= u32::MAX,
        ensures
            final(doc)@ == self@.graph_with_parts(old(doc)@),
            dict@ == self@.dictionary(old(doc)@),
    {
        reveal(FontValue::graph_with_parts);
        reveal(FontValue::dictionary);
        match self {
            Font::BuiltinFont(font) => font.to_dictionary(),
            Font::ExternalFont(font) => font.write_objects(doc),
        }
    }

    /// The graph after the font is embedded, and the outcome.
    pub open spec fn embedded(self, g: GraphView) -> (GraphView, Result<ObjectId, Error>) {
        match self {
            Font::BuiltinFont(font) => builtin_embedded(g, font),
            Font::ExternalFont(font) => external_embedded(g, font.facts()),
        }
    }
}

impl Embeddable for BuiltinFont {
    const KEY: &'static str = "Font";

    fn embed(&self, doc: &mut ObjectGraph) -> (r: Result<ObjectId, Error>)
        ensures
            (final(doc)@, r) == builtin_embedded(old(doc)@, *self),
    {
        if doc.spare_ids() < 1 {
            return Err(Error::ObjectLimit);
        }
        Ok(doc.add_object(Object::Dictionary(self.to_dictionary())))
    }
}

impl Embeddable for ExternalFont {
    const KEY: &'static str = "Font";

    fn embed(&self, doc: &mut ObjectGraph) -> (r: Result<ObjectId, Error>)
        ensures
            (final(doc)@, r) == external_embedded(old(doc)@, self.facts()),
    {
        if doc.spare_ids() < 4 {
            return Err(Error::ObjectLimit);
        }
        let dict = self.write_objects(doc);
        Ok(doc.add_object(Object::Dictionary(dict)))
    }
}

impl Embeddable for Font {
    const KEY: &'static str = "Font";

    fn embed(&self, doc: &mut ObjectGraph) -> (r: Result<ObjectId, Error>)
        ensures
            (final(doc)@, r) == self.embedded(old(doc)@),
    {
        match self {
            Font::BuiltinFont(font) => font.embed(doc),
            Font::ExternalFont(font) => font.embed(doc),
        }
    }
}

} // verus!
