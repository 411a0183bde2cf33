//! Layers: the drawing surfaces of a page.

use vstd::prelude::*;
use vstd::string::StringSliceAdditionalSpecFns;
use crate::font::{text_bytes, Font, FontValue};
use crate::font_list::{fonts_find, fonts_has};
use crate::graphics::{
    integer_op, integer_operation, lemma_operations_push, plain_op, plain_operation, pt_value,
    reals_op, reals_operation, Color, CurTransMat, ExtendedGraphicsStateRef, IndirectFontRef,
    Line, LineCapStyle, LineDashPattern, LineJoinStyle, PdfColor, Rotation, TextMatrix,
    XObjectRef,
};
use crate::object::{
    array, bytes_clone, operations_of, values_of, Object, Operation, OperationValue,
    StringFormat, Value,
};
use crate::pdf_document::PdfDocument;
use crate::scale::{Mm, Real};
use crate::text_encoding::{
    code_bytes, codes_bytes, encode_codes, glyph_codes, text_glyph_codes, winansi_bytes,
    winansi_encode,
};

verus! {

/// One layer of a page: a name and the operations that draw its content.
/// Operations are only ever added at the end.
#[derive(Debug, Clone, PartialEq)]
pub struct PdfLayer {
    name: String,
    operations: Vec<Operation>,
}

/// The mathematical value of a [`PdfLayer`].
pub struct LayerView {
    pub name: Seq<char>,
    pub operations: Seq<OperationValue>,
}

impl View for PdfLayer {
    type V = LayerView;

    closed spec fn view(&self) -> LayerView {
        LayerView { name: self.name@, operations: operations_of(self.operations@) }
    }
}

/// The layer with more operations at its end.
pub open spec fn layer_with(layer: LayerView, ops: Seq<OperationValue>) -> LayerView {
    LayerView { name: layer.name, operations: layer.operations + ops }
}

/// The operation that shows text given as bytes, written in hexadecimal.
pub open spec fn show_text_op(bytes: Seq<u8>) -> OperationValue {
    OperationValue {
        operator: "Tj"@,
        operands: seq![Value::String(bytes, StringFormat::Hexadecimal)],
    }
}

/// The operation with one name as its operand.
pub open spec fn name_op(operator: &str, name: Seq<char>) -> OperationValue {
    OperationValue { operator: operator@, operands: seq![Value::Name(text_bytes(name))] }
}

/// The operation that selects a font and its size.
pub open spec fn set_font_op(font_name: Seq<char>, size: Real) -> OperationValue {
    OperationValue {
        operator: "Tf"@,
        operands: seq![Value::Name(text_bytes(font_name)), Value::Real(size)],
    }
}

/// The operation that moves the text cursor.
pub open spec fn text_cursor_op(x: Mm, y: Mm) -> OperationValue {
    OperationValue {
        operator: "Td"@,
        operands: seq![pt_value(x.spec_to_pt()), pt_value(y.spec_to_pt())],
    }
}

/// The items of the array that shows codes with offsets, from the place
/// `from` on: for each pair the offset, unless it is 0, and then the two
/// bytes of the code in hexadecimal.
pub open spec fn positioned_values(codepoints: Seq<(i64, u16)>, from: int) -> Seq<Value>
    decreases codepoints.len() - from,
{
    if from < 0 || from >= codepoints.len() {
        Seq::empty()
    } else {
        let (pos, code) = codepoints[from];
        let text = Value::String(code_bytes(code), StringFormat::Hexadecimal);
        (if pos != 0 {
            seq![Value::Integer(pos), text]
        } else {
            seq![text]
        }) + positioned_values(codepoints, from + 1)
    }
}

/// The operations that place an external object: the graphics state is
/// saved; the coordinate system is moved, unless both distances are 0;
/// turned, if a rotation is given; stretched, unless both factors are 0;
/// the object is drawn; and the graphics state is restored. A distance or
/// factor that is not given counts as 0.
pub open spec fn xobject_ops(
    name: Seq<char>,
    translate_x: Option<Mm>,
    translate_y: Option<Mm>,
    rotate: Option<Rotation>,
    scale_x: Option<Real>,
    scale_y: Option<Real>,
) -> Seq<OperationValue> {
    let t_x = match translate_x {
        Some(m) => m,
        None => Mm { micrometres: 0 },
    };
    let t_y = match translate_y {
        Some(m) => m,
        None => Mm { micrometres: 0 },
    };
    let translated = if t_x.micrometres != 0 || t_y.micrometres != 0 {
        seq![CurTransMat::Translate(t_x.spec_to_pt(), t_y.spec_to_pt()).spec_op()]
    } else {
        Seq::empty()
    };
    let rotated = match rotate {
        Some(r) => seq![CurTransMat::Rotate(r).spec_op()],
        None => Seq::empty(),
    };
    let scaled = if scale_nonzero(scale_x) || scale_nonzero(scale_y) {
        seq![CurTransMat::Scale(scale_or_zero(scale_x), scale_or_zero(scale_y)).spec_op()]
    } else {
        Seq::empty()
    };
    seq![plain_op("q")] + translated + rotated + scaled + seq![name_op("Do", name), plain_op("Q")]
}

/// A factor is given and is not 0.
pub open spec fn scale_nonzero(scale: Option<Real>) -> bool {
    scale matches Some(s) && s.spec_num() != 0
}

/// The factor, or 0 where none is given.
pub open spec fn scale_or_zero(scale: Option<Real>) -> Real {
    match scale {
        Some(s) => s,
        None => crate::scale::ratio(0, 1),
    }
}

/// The bytes that a font expects for a text: for an outline font two bytes
/// for the glyph of each character; for a standard font the WinAnsi
/// encoding of the text, without the characters that the encoding lacks.
pub open spec fn font_text_bytes(font: FontValue, text: Seq<char>) -> Seq<u8> {
    match font {
        FontValue::External { bytes, .. } => codes_bytes(glyph_codes(bytes, text), 0),
        FontValue::Builtin(_) => winansi_bytes(text),
    }
}

/// The operations that write a text at a place: the text section is
/// opened, the font is set, the cursor is moved, the text is shown, and the
/// text section is closed.
pub open spec fn use_text_ops(
    bytes: Seq<u8>,
    font_size: Real,
    x: Mm,
    y: Mm,
    font_name: Seq<char>,
) -> Seq<OperationValue> {
    seq![
        plain_op("BT"),
        set_font_op(font_name, font_size),
        text_cursor_op(x, y),
        show_text_op(bytes),
        plain_op("ET"),
    ]
}

impl PdfLayer {
    /// A layer of the given name, without content.
    pub fn new(name: &str) -> (layer: PdfLayer)
        ensures
            layer@ == (LayerView { name: name@, operations: Seq::empty() }),
    {
        let layer = PdfLayer { name: name.to_owned(), operations: Vec::new() };
        assert(layer@.operations =~= Seq::<OperationValue>::empty());
        layer
    }

    /// The name of the layer.
    pub fn name(&self) -> (n: &String)
        ensures
            n@ == self@.name,
    {
        &self.name
    }

    /// The operations of the layer.
    pub fn operations(&self) -> (ops: &Vec<Operation>)
        ensures
            operations_of(ops@) == self@.operations,
    {
        &self.operations
    }

    /// Takes the operations out of the layer.
    pub fn into_operations(self) -> (ops: Vec<Operation>)
        ensures
            operations_of(ops@) == self@.operations,
    {
        self.operations
    }

    /// Adds one operation at the end.
    pub fn internal_add_operation(&mut self, op: Operation)
        ensures
            final(self)@ == layer_with(old(self)@, seq![op@]),
    {
        proof {
            lemma_operations_push(self.operations@, op);
        }
        self.operations.push(op);
        assert(self@.operations =~= old(self)@.operations + seq![op@]);
    }

    /// Adds operations at the end, in order.
    pub fn add_operations(&mut self, ops: Vec<Operation>)
        ensures
            final(self)@ == layer_with(old(self)@, operations_of(ops@)),
    {
        let ghost added = operations_of(ops@);
        let mut rest = ops;
        self.operations.append(&mut rest);
        assert(self@.operations =~= old(self)@.operations + added);
    }

    /// Draws a path.
    pub fn add_shape(&mut self, line: Line)
        ensures
            final(self)@ == layer_with(old(self)@, line.spec_ops()),
    {
        let ops = line.into_stream_op();
        self.add_operations(ops);
    }

    /// Opens a text section. The caller closes it again.
    pub fn begin_text_section(&mut self)
        ensures
            final(self)@ == layer_with(old(self)@, seq![plain_op("BT")]),
    {
        self.internal_add_operation(plain_operation("BT"));
    }

    /// Closes a text section.
    pub fn end_text_section(&mut self)
        ensures
            final(self)@ == layer_with(old(self)@, seq![plain_op("ET")]),
    {
        self.internal_add_operation(plain_operation("ET"));
    }

    /// Sets the colour that shapes are filled with.
    pub fn set_fill_color(&mut self, fill_color: Color)
        ensures
            final(self)@ == layer_with(old(self)@, seq![PdfColor::FillColor(fill_color).spec_op()]),
    {
        self.internal_add_operation(PdfColor::FillColor(fill_color).to_operation());
    }

    /// Sets the colour that outlines are drawn with.
    pub fn set_outline_color(&mut self, color: Color)
        ensures
            final(self)@ == layer_with(old(self)@, seq![PdfColor::OutlineColor(color).spec_op()]),
    {
        self.internal_add_operation(PdfColor::OutlineColor(color).to_operation());
    }

    /// Selects the font and the size of the text that follows.
    pub fn set_font(&mut self, font: &IndirectFontRef, font_size: Real)
        ensures
            final(self)@ == layer_with(old(self)@, seq![set_font_op(font.name@, font_size)]),
    {
        let mut operands: Vec<Object> = Vec::new();
        operands.push(Object::Name(bytes_clone(font.name.as_str().as_bytes())));
        operands.push(Object::Real(font_size));
        let op = Operation::new("Tf", operands);
        assert(op@.operands =~= set_font_op(font.name@, font_size).operands);
        self.internal_add_operation(op);
    }

    /// Places an external object of the page, under its own coordinate
    /// system: what is set for it does not reach the operations that
    /// follow.
    pub fn use_xobject(
        &mut self,
        xobj: &XObjectRef,
        translate_x: Option<Mm>,
        translate_y: Option<Mm>,
        rotate_cw: Option<Rotation>,
        scale_x: Option<Real>,
        scale_y: Option<Real>,
    )
        ensures
            final(self)@ == layer_with(
                old(self)@,
                xobject_ops(xobj.name@, translate_x, translate_y, rotate_cw, scale_x, scale_y),
            ),
    {
        let ghost start = self@;
        self.save_graphics_state();
        let t_x = match translate_x {
            Some(m) => m,
            None => Mm { micrometres: 0 },
        };
        let t_y = match translate_y {
            Some(m) => m,
            None => Mm { micrometres: 0 },
        };
        let s_x = match scale_x {
            Some(s) => s,
            None => Real::from_int(0),
        };
        let s_y = match scale_y {
            Some(s) => s,
            None => Real::from_int(0),
        };
        proof {
            crate::scale::lemma_ratio_parts(0, 1);
        }
        if t_x.micrometres != 0 || t_y.micrometres != 0 {
            self.set_ctm(CurTransMat::Translate(t_x.to_pt(), t_y.to_pt()));
        }
        if let Some(rotation) = rotate_cw {
            self.set_ctm(CurTransMat::Rotate(rotation));
        }
        if !s_x.is_zero() || !s_y.is_zero() {
            self.set_ctm(CurTransMat::Scale(s_x, s_y));
        }
        self.internal_invoke_xobject(&xobj.name);
        self.restore_graphics_state();
        assert(self@.operations =~= layer_with(
            start,
            xobject_ops(xobj.name@, translate_x, translate_y, rotate_cw, scale_x, scale_y),
        ).operations);
    }

    /// Selects a graphics state of the page.
    pub fn set_graphics_state(&mut self, graphics_state: ExtendedGraphicsStateRef)
        ensures
            final(self)@ == layer_with(old(self)@, seq![name_op("gs", graphics_state.gs_name@)]),
    {
        let mut operands: Vec<Object> = Vec::new();
        operands.push(Object::Name(bytes_clone(graphics_state.gs_name.as_str().as_bytes())));
        let op = Operation::new("gs", operands);
        assert(op@.operands =~= name_op("gs", graphics_state.gs_name@).operands);
        self.internal_add_operation(op);
    }

    /// Adds an operation with one number as its operand.
    fn add_real_operation(&mut self, operator: &str, value: Real)
        ensures
            final(self)@ == layer_with(old(self)@, seq![reals_op(operator, seq![value])]),
    {
        let mut reals: Vec<Real> = Vec::new();
        reals.push(value);
        assert(reals@ =~= seq![value]);
        self.internal_add_operation(reals_operation(operator, reals));
    }

    /// Sets the thickness of outlines, in points. A thickness of 0 stands
    /// for the thinnest line that a device can draw.
    pub fn set_outline_thickness(&mut self, outline_thickness: Real)
        ensures
            final(self)@ == layer_with(old(self)@, seq![reals_op("w", seq![outline_thickness])]),
    {
        self.add_real_operation("w", outline_thickness);
    }

    /// Sets how the segments of a line are joined.
    pub fn set_line_join_style(&mut self, line_join: LineJoinStyle)
        ensures
            final(self)@ == layer_with(old(self)@, seq![line_join.spec_op()]),
    {
        self.internal_add_operation(line_join.to_operation());
    }

    /// Sets how the ends of a line are drawn.
    pub fn set_line_cap_style(&mut self, line_cap: LineCapStyle)
        ensures
            final(self)@ == layer_with(old(self)@, seq![line_cap.spec_op()]),
    {
        self.internal_add_operation(line_cap.to_operation());
    }

    /// Sets the pattern of dashes that lines are drawn with.
    pub fn set_line_dash_pattern(&mut self, dash_pattern: LineDashPattern)
        ensures
            final(self)@ == layer_with(old(self)@, seq![dash_pattern.spec_op()]),
    {
        self.internal_add_operation(dash_pattern.to_operation());
    }

    /// Changes the coordinate system, on top of the changes made before.
    pub fn set_ctm(&mut self, ctm: CurTransMat)
        ensures
            final(self)@ == layer_with(old(self)@, seq![ctm.spec_op()]),
    {
        self.internal_add_operation(ctm.to_operation());
    }

    /// Sets the matrix that places text, in the place of the one before.
    pub fn set_text_matrix(&mut self, tm: TextMatrix)
        ensures
            final(self)@ == layer_with(old(self)@, seq![tm.spec_op()]),
    {
        self.internal_add_operation(tm.to_operation());
    }

    /// Moves the place where text appears.
    pub fn set_text_cursor(&mut self, x: Mm, y: Mm)
        ensures
            final(self)@ == layer_with(old(self)@, seq![text_cursor_op(x, y)]),
    {
        let mut operands: Vec<Object> = Vec::new();
        operands.push(crate::graphics::pt_operand(x.to_pt()));
        operands.push(crate::graphics::pt_operand(y.to_pt()));
        let op = Operation::new("Td", operands);
        assert(op@.operands =~= text_cursor_op(x, y).operands);
        self.internal_add_operation(op);
    }

    /// Moves the text cursor to the start of the next line.
    pub fn add_line_break(&mut self)
        ensures
            final(self)@ == layer_with(old(self)@, seq![plain_op("T*")]),
    {
        self.internal_add_operation(plain_operation("T*"));
    }

    /// Sets the height of a line of text.
    pub fn set_line_height(&mut self, height: Real)
        ensures
            final(self)@ == layer_with(old(self)@, seq![reals_op("TL", seq![height])]),
    {
        self.add_real_operation("TL", height);
    }

    /// Sets the space between characters, in points.
    pub fn set_character_spacing(&mut self, spacing: Real)
        ensures
            final(self)@ == layer_with(old(self)@, seq![reals_op("Tc", seq![spacing])]),
    {
        self.add_real_operation("Tc", spacing);
    }

    /// Sets the space between words, in points.
    pub fn set_word_spacing(&mut self, spacing: Real)
        ensures
            final(self)@ == layer_with(old(self)@, seq![reals_op("Tw", seq![spacing])]),
    {
        self.add_real_operation("Tw", spacing);
    }

    /// Sets the horizontal scaling of text, in percent.
    pub fn set_text_scaling(&mut self, scaling: Real)
        ensures
            final(self)@ == layer_with(old(self)@, seq![reals_op("Tz", seq![scaling])]),
    {
        self.add_real_operation("Tz", scaling);
    }

    /// Raises or lowers the text that follows, for superscript and
    /// subscript.
    pub fn set_line_offset(&mut self, offset: Real)
        ensures
            final(self)@ == layer_with(old(self)@, seq![reals_op("Ts", seq![offset])]),
    {
        self.add_real_operation("Ts", offset);
    }

    /// Sets how text is painted.
    pub fn set_text_rendering_mode(&mut self, mode: crate::font::TextRenderingMode)
        ensures
            final(self)@ == layer_with(old(self)@, seq![integer_op("Tr", mode.spec_code())]),
    {
        self.internal_add_operation(integer_operation("Tr", mode.code()));
    }

    /// Shows text given as bytes in the encoding of the current font.
    pub fn write_bytes(&mut self, bytes: Vec<u8>)
        ensures
            final(self)@ == layer_with(old(self)@, seq![show_text_op(bytes@)]),
    {
        let mut operands: Vec<Object> = Vec::new();
        operands.push(Object::String(bytes, StringFormat::Hexadecimal));
        let op = Operation::new("Tj", operands);
        assert(op@.operands =~= show_text_op(bytes@).operands);
        self.internal_add_operation(op);
    }

    /// Shows text given as the codes of an outline font.
    pub fn write_codepoints(&mut self, codepoints: Vec<u16>)
        ensures
            final(self)@ == layer_with(
                old(self)@,
                seq![show_text_op(codes_bytes(codepoints@, 0))],
            ),
    {
        self.write_bytes(encode_codes(&codepoints));
    }

    /// Shows text given as the codes of an outline font, each with an
    /// offset that moves it against the code before.
    pub fn write_positioned_codepoints(&mut self, codepoints: Vec<(i64, u16)>)
        ensures
            final(self)@ == layer_with(
                old(self)@,
                seq![
                    OperationValue {
                        operator: "TJ"@,
                        operands: seq![Value::Array(positioned_values(codepoints@, 0))],
                    },
                ],
            ),
    {
        let mut list: Vec<Object> = Vec::new();
        let mut i: usize = 0;
        assert(values_of(list@) + positioned_values(codepoints@, 0) =~= positioned_values(
            codepoints@,
            0,
        ));
        while i < codepoints.len()
            invariant
                i <= codepoints@.len(),
                values_of(list@) + positioned_values(codepoints@, i as int) == positioned_values(
                    codepoints@,
                    0,
                ),
            decreases codepoints@.len() - i,
        {
            let ghost before = values_of(list@);
            let (pos, code) = codepoints[i];
            if pos != 0 {
                list.push(Object::Integer(pos));
            }
            let mut bytes: Vec<u8> = Vec::new();
            crate::text_encoding::push_code(&mut bytes, code);
            assert(bytes@ =~= code_bytes(code));
            list.push(Object::String(bytes, StringFormat::Hexadecimal));
            assert(values_of(list@) + positioned_values(codepoints@, i + 1) =~= before
                + positioned_values(codepoints@, i as int));
            i += 1;
        }
        assert(values_of(list@) + Seq::<Value>::empty() =~= values_of(list@));
        let mut operands: Vec<Object> = Vec::new();
        operands.push(array(list));
        let op = Operation::new("TJ", operands);
        assert(op@.operands =~= seq![Value::Array(positioned_values(codepoints@, 0))]);
        self.internal_add_operation(op);
    }

    /// Shows a text in a font of the document.
    ///
    /// For a standard font, characters that the WinAnsi encoding lacks are
    /// left out.
    pub fn write_text(&mut self, text: &str, doc: &PdfDocument, font: &IndirectFontRef)
        requires
            fonts_has(doc@.fonts, font.name@),
        ensures
            final(self)@ == layer_with(
                old(self)@,
                seq![
                    show_text_op(
                        font_text_bytes(
                            doc@.fonts[fonts_find(doc@.fonts, font.name@, 0)].font,
                            text@,
                        ),
                    ),
                ],
            ),
    {
        let bytes = match doc.get_font(font) {
            Some(direct) => encode_text_for(&direct.data, text),
            None => Vec::new(),
        };
        self.write_bytes(bytes);
    }

    /// Saves the graphics state.
    pub fn save_graphics_state(&mut self)
        ensures
            final(self)@ == layer_with(old(self)@, seq![plain_op("q")]),
    {
        self.internal_add_operation(plain_operation("q"));
    }

    /// Restores the graphics state that was saved last.
    pub fn restore_graphics_state(&mut self)
        ensures
            final(self)@ == layer_with(old(self)@, seq![plain_op("Q")]),
    {
        self.internal_add_operation(plain_operation("Q"));
    }

    /// Writes a text at a place, measured from the lower left corner.
    ///
    /// For a standard font, characters that the WinAnsi encoding lacks are
    /// left out.
    pub fn use_text(
        &mut self,
        text: &str,
        font_size: Real,
        x: Mm,
        y: Mm,
        doc: &PdfDocument,
        font: &IndirectFontRef,
    )
        requires
            fonts_has(doc@.fonts, font.name@),
        ensures
            final(self)@ == layer_with(
                old(self)@,
                use_text_ops(
                    font_text_bytes(doc@.fonts[fonts_find(doc@.fonts, font.name@, 0)].font, text@),
                    font_size,
                    x,
                    y,
                    font.name@,
                ),
            ),
    {
        let ghost start = self@;
        self.begin_text_section();
        self.set_font(font, font_size);
        self.set_text_cursor(x, y);
        self.write_text(text, doc, font);
        self.end_text_section();
        assert(self@.operations =~= layer_with(
            start,
            use_text_ops(
                font_text_bytes(doc@.fonts[fonts_find(doc@.fonts, font.name@, 0)].font, text@),
                font_size,
                x,
                y,
                font.name@,
            ),
        ).operations);
    }

    /// Draws an external object of the page under its name.
    fn internal_invoke_xobject(&mut self, name: &String)
        ensures
            final(self)@ == layer_with(old(self)@, seq![name_op("Do", name@)]),
    {
        let mut operands: Vec<Object> = Vec::new();
        operands.push(Object::Name(bytes_clone(name.as_str().as_bytes())));
        let op = Operation::new("Do", operands);
        assert(op@.operands =~= name_op("Do", name@).operands);
        self.internal_add_operation(op);
    }
}

/// The bytes that a font expects for a text.
pub fn encode_text_for(font: &Font, text: &str) -> (bytes: Vec<u8>)
    ensures
        bytes@ == font_text_bytes(font@, text@),
{
    match font {
        Font::ExternalFont(face) => {
            let codes = text_glyph_codes(face.font_bytes().as_slice(), text);
            encode_codes(&codes)
        },
        Font::BuiltinFont(_) => winansi_encode(text),
    }
}

} // verus!
