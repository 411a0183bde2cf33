use printpdf::graphics::{
    Cmyk, Color, CurTransMat, ExtendedGraphicsStateRef, Greyscale, IndirectFontRef, Line,
    LineCapStyle, LineDashPattern, LineJoinStyle, PdfColor, Point, Rgb, Rotation, SpotColor,
    TextMatrix, XObjectRef,
};
use printpdf::object::{Object, Operation, StringFormat};
use printpdf::pdf_layer::{encode_text_for, PdfLayer};
use printpdf::pdf_metadata::DateTime;
use printpdf::scale::{Mm, Pt, Real};
use printpdf::utils::{calculate_points_for_circle, calculate_points_for_rect, RandomSource};
use printpdf::{BuiltinFont, Font, PdfDocument, TextRenderingMode};

fn frac(num: i64, den: u32) -> Real {
    Real::new(num, den).unwrap()
}

fn mm(millimetres: i32) -> Mm {
    Mm::from_millimetres(millimetres).unwrap()
}

fn length(units: i64) -> Object {
    Object::Real(frac(units, 127000))
}

fn op(operator: &str, operands: Vec<Object>) -> Operation {
    Operation { operator: operator.to_string(), operands }
}

fn name(text: &str) -> Object {
    Object::Name(text.as_bytes().to_vec())
}

fn operators(layer: &PdfLayer) -> Vec<String> {
    layer.operations().iter().map(|o| o.operator.clone()).collect()
}

fn now() -> DateTime {
    DateTime { year: 2024, month: 2, day: 29, hour: 13, minute: 5, second: 9 }
}

fn plain(x: i32, y: i32) -> (Point, bool) {
    (Point::new(mm(x), mm(y)), false)
}

fn control(x: i32, y: i32) -> (Point, bool) {
    (Point::new(mm(x), mm(y)), true)
}

#[test]
fn a_new_layer_has_a_name_and_no_content() {
    let layer = PdfLayer::new("Layer 1");
    assert_eq!(layer.name(), "Layer 1");
    assert!(layer.operations().is_empty());
}

#[test]
fn a_closed_filled_stroked_rectangle_is_moved_to_lined_closed_and_painted() {
    let mut layer = PdfLayer::new("Layer 1");
    let line = Line {
        points: vec![plain(100, 100), plain(100, 200), plain(300, 200), plain(300, 100)],
        is_closed: true,
        has_fill: true,
        has_stroke: true,
        is_clipping_path: false,
    };
    layer.add_shape(line);
    assert_eq!(operators(&layer), vec!["m", "l", "l", "l", "h", "B"]);
    assert_eq!(
        layer.operations()[0],
        op("m", vec![length(100_000 * 360), length(100_000 * 360)])
    );
    assert_eq!(
        layer.operations()[2],
        op("l", vec![length(300_000 * 360), length(200_000 * 360)])
    );
    assert_eq!(layer.operations()[4], op("h", vec![]));
}

#[test]
fn the_painting_follows_from_fill_stroke_and_clipping() {
    let paint = |has_fill: bool, has_stroke: bool, is_clipping_path: bool| -> Vec<String> {
        let line = Line {
            points: vec![plain(0, 0), plain(1, 1)],
            is_closed: false,
            has_fill,
            has_stroke,
            is_clipping_path,
        };
        line.into_stream_op().iter().skip(2).map(|o| o.operator.clone()).collect()
    };
    assert_eq!(paint(true, true, false), vec!["B"]);
    assert_eq!(paint(false, true, false), vec!["S"]);
    assert_eq!(paint(true, false, false), vec!["f"]);
    assert_eq!(paint(false, false, false), vec!["n"]);
    assert_eq!(paint(true, true, true), vec!["W", "n"]);
    assert_eq!(paint(false, false, true), vec!["W", "n"]);
}

#[test]
fn a_path_without_points_draws_nothing() {
    let line = Line {
        points: vec![],
        is_closed: true,
        has_fill: true,
        has_stroke: true,
        is_clipping_path: false,
    };
    assert!(line.into_stream_op().is_empty());
    let one = Line {
        points: vec![plain(5, 6)],
        is_closed: false,
        has_fill: false,
        has_stroke: true,
        is_clipping_path: false,
    };
    let ops: Vec<String> = one.into_stream_op().iter().map(|o| o.operator.clone()).collect();
    assert_eq!(ops, vec!["m", "S"]);
}

#[test]
fn two_control_points_and_two_more_points_make_a_curve() {
    let line = Line {
        points: vec![control(0, 10), control(5, 10), control(10, 5), plain(10, 0), plain(20, 0)],
        is_closed: false,
        has_fill: false,
        has_stroke: true,
        is_clipping_path: false,
    };
    let ops = line.into_stream_op();
    let names: Vec<String> = ops.iter().map(|o| o.operator.clone()).collect();
    assert_eq!(names, vec!["m", "c", "l", "S"]);
    assert_eq!(
        ops[1],
        op(
            "c",
            vec![
                length(5_000 * 360),
                length(10_000 * 360),
                length(10_000 * 360),
                length(5_000 * 360),
                length(10_000 * 360),
                length(0)
            ]
        )
    );
    assert_eq!(ops[2], op("l", vec![length(20_000 * 360), length(0)]));
    let short = Line {
        points: vec![control(0, 0), control(1, 1), plain(2, 2)],
        is_closed: false,
        has_fill: false,
        has_stroke: true,
        is_clipping_path: false,
    };
    let names: Vec<String> = short.into_stream_op().iter().map(|o| o.operator.clone()).collect();
    assert_eq!(names, vec!["m", "l", "l", "S"]);
}

#[test]
fn a_control_point_on_an_end_of_the_curve_shortens_the_operation() {
    let on_start = Line {
        points: vec![control(1, 1), control(1, 1), plain(3, 4), plain(5, 6)],
        is_closed: false,
        has_fill: false,
        has_stroke: true,
        is_clipping_path: false,
    };
    assert_eq!(
        on_start.into_stream_op()[1],
        op("v", vec![length(3_000 * 360), length(4_000 * 360), length(5_000 * 360), length(6_000 * 360)])
    );
    let on_each_other = Line {
        points: vec![control(1, 1), control(2, 2), plain(2, 2), plain(5, 6)],
        is_closed: false,
        has_fill: false,
        has_stroke: true,
        is_clipping_path: false,
    };
    assert_eq!(
        on_each_other.into_stream_op()[1],
        op("y", vec![length(2_000 * 360), length(2_000 * 360), length(5_000 * 360), length(6_000 * 360)])
    );
}

#[test]
fn each_setter_adds_one_operation() {
    let mut layer = PdfLayer::new("l");
    layer.begin_text_section();
    layer.end_text_section();
    layer.set_fill_color(Color::Rgb(Rgb { r: frac(3, 4), g: frac(1, 1), b: frac(16, 25) }));
    layer.set_outline_color(Color::Cmyk(Cmyk { c: frac(0, 1), m: frac(23, 100), y: frac(0, 1), k: frac(0, 1) }));
    layer.set_fill_color(Color::Greyscale(Greyscale { percent: frac(45, 100) }));
    layer.set_outline_color(Color::SpotColor(SpotColor { c: frac(1, 2), m: frac(1, 3), y: frac(1, 4), k: frac(1, 5) }));
    layer.set_font(&IndirectFontRef { name: "F0".to_string() }, frac(48, 1));
    layer.set_graphics_state(ExtendedGraphicsStateRef { gs_name: "GS7".to_string() });
    layer.set_outline_thickness(frac(10, 1));
    layer.set_line_join_style(LineJoinStyle::Round);
    layer.set_line_cap_style(LineCapStyle::ProjectingSquare);
    layer.set_text_cursor(mm(10), mm(200));
    layer.add_line_break();
    layer.set_line_height(frac(33, 1));
    layer.set_character_spacing(frac(10, 1));
    layer.set_word_spacing(frac(3000, 1));
    layer.set_text_scaling(frac(50, 1));
    layer.set_line_offset(frac(-5, 2));
    layer.set_text_rendering_mode(TextRenderingMode::FillStroke);
    layer.save_graphics_state();
    layer.restore_graphics_state();
    let expected = vec![
        op("BT", vec![]),
        op("ET", vec![]),
        op("rg", vec![Object::Real(frac(3, 4)), Object::Real(frac(1, 1)), Object::Real(frac(16, 25))]),
        op(
            "K",
            vec![
                Object::Real(frac(0, 1)),
                Object::Real(frac(23, 100)),
                Object::Real(frac(0, 1)),
                Object::Real(frac(0, 1)),
            ],
        ),
        op("g", vec![Object::Real(frac(45, 100))]),
        op(
            "K",
            vec![
                Object::Real(frac(1, 2)),
                Object::Real(frac(1, 3)),
                Object::Real(frac(1, 4)),
                Object::Real(frac(1, 5)),
            ],
        ),
        op("Tf", vec![name("F0"), Object::Real(frac(48, 1))]),
        op("gs", vec![name("GS7")]),
        op("w", vec![Object::Real(frac(10, 1))]),
        op("j", vec![Object::Integer(1)]),
        op("J", vec![Object::Integer(2)]),
        op("Td", vec![length(10_000 * 360), length(200_000 * 360)]),
        op("T*", vec![]),
        op("TL", vec![Object::Real(frac(33, 1))]),
        op("Tc", vec![Object::Real(frac(10, 1))]),
        op("Tw", vec![Object::Real(frac(3000, 1))]),
        op("Tz", vec![Object::Real(frac(50, 1))]),
        op("Ts", vec![Object::Real(frac(-5, 2))]),
        op("Tr", vec![Object::Integer(2)]),
        op("q", vec![]),
        op("Q", vec![]),
    ];
    assert_eq!(layer.operations(), &expected);
}

#[test]
fn colours_for_filling_and_for_outlines_have_their_operators() {
    let rgb = Color::Rgb(Rgb { r: frac(0, 1), g: frac(0, 1), b: frac(0, 1) });
    let grey = Color::Greyscale(Greyscale { percent: frac(1, 2) });
    let cmyk = Color::Cmyk(Cmyk { c: frac(0, 1), m: frac(0, 1), y: frac(0, 1), k: frac(1, 1) });
    assert_eq!(PdfColor::FillColor(rgb).to_operation().operator, "rg");
    assert_eq!(PdfColor::FillColor(grey).to_operation().operator, "g");
    assert_eq!(PdfColor::FillColor(cmyk).to_operation().operator, "k");
    assert_eq!(PdfColor::OutlineColor(rgb).to_operation().operator, "RG");
    assert_eq!(PdfColor::OutlineColor(grey).to_operation().operator, "G");
    assert_eq!(PdfColor::OutlineColor(cmyk).to_operation().operator, "K");
    assert_eq!(LineJoinStyle::Miter.to_operation(), op("j", vec![Object::Integer(0)]));
    assert_eq!(LineJoinStyle::Bevel.to_operation(), op("j", vec![Object::Integer(2)]));
    assert_eq!(LineCapStyle::Butt.to_operation(), op("J", vec![Object::Integer(0)]));
    assert_eq!(LineCapStyle::Round.to_operation(), op("J", vec![Object::Integer(1)]));
}

#[test]
fn a_dash_pattern_ends_at_the_first_length_that_is_missing() {
    let mut pattern = LineDashPattern::new();
    assert_eq!(
        pattern.to_operation(),
        op("d", vec![Object::Array(vec![]), Object::Integer(0)])
    );
    pattern.dash_1 = Some(20);
    pattern.gap_1 = Some(5);
    pattern.gap_2 = Some(9);
    pattern.offset = 3;
    assert_eq!(
        pattern.to_operation(),
        op(
            "d",
            vec![Object::Array(vec![Object::Integer(20), Object::Integer(5)]), Object::Integer(3)]
        )
    );
    pattern.dash_2 = Some(1);
    pattern.dash_3 = Some(2);
    pattern.gap_3 = Some(4);
    assert_eq!(
        pattern.to_operation(),
        op(
            "d",
            vec![
                Object::Array(vec![
                    Object::Integer(20),
                    Object::Integer(5),
                    Object::Integer(1),
                    Object::Integer(9),
                    Object::Integer(2),
                    Object::Integer(4)
                ]),
                Object::Integer(3)
            ]
        )
    );
}

#[test]
fn matrices_have_six_numbers() {
    let zero = Object::Real(frac(0, 1));
    let one = Object::Real(frac(1, 1));
    let turn = Rotation { cos: frac(3, 5), sin: frac(4, 5) };
    assert_eq!(
        CurTransMat::Translate(Pt { units: 7 }, Pt { units: -9 }).to_operation(),
        op("cm", vec![one.clone(), zero.clone(), zero.clone(), one.clone(), length(7), length(-9)])
    );
    assert_eq!(
        CurTransMat::Rotate(turn).to_operation(),
        op(
            "cm",
            vec![
                Object::Real(frac(3, 5)),
                Object::Real(frac(-4, 5)),
                Object::Real(frac(4, 5)),
                Object::Real(frac(3, 5)),
                zero.clone(),
                zero.clone()
            ]
        )
    );
    assert_eq!(
        CurTransMat::Scale(frac(2, 1), frac(1, 2)).to_operation(),
        op(
            "cm",
            vec![Object::Real(frac(2, 1)), zero.clone(), zero.clone(), Object::Real(frac(1, 2)), zero.clone(), zero.clone()]
        )
    );
    assert_eq!(
        CurTransMat::Identity.to_operation(),
        op("cm", vec![one.clone(), zero.clone(), zero.clone(), one.clone(), zero.clone(), zero.clone()])
    );
    assert_eq!(
        TextMatrix::TranslateRotate(Pt { units: 1 }, Pt { units: 2 }, turn).to_operation(),
        op(
            "Tm",
            vec![
                Object::Real(frac(3, 5)),
                Object::Real(frac(-4, 5)),
                Object::Real(frac(4, 5)),
                Object::Real(frac(3, 5)),
                length(1),
                length(2)
            ]
        )
    );
    assert_eq!(
        TextMatrix::Translate(Pt { units: 1 }, Pt { units: 2 }).to_operation().operands[4..],
        [length(1), length(2)]
    );
    assert_eq!(TextMatrix::Rotate(turn).to_operation().operands[4..], [zero.clone(), zero]);
    let mut layer = PdfLayer::new("l");
    layer.set_ctm(CurTransMat::Identity);
    layer.set_text_matrix(TextMatrix::Rotate(turn));
    layer.set_line_dash_pattern(LineDashPattern::new());
    assert_eq!(operators(&layer), vec!["cm", "Tm", "d"]);
}

#[test]
fn an_external_object_is_placed_between_save_and_restore() {
    let image = XObjectRef { name: "R0".to_string() };
    let turn = Rotation { cos: frac(0, 1), sin: frac(1, 1) };
    let mut layer = PdfLayer::new("l");
    layer.use_xobject(&image, Some(mm(10)), None, Some(turn), Some(frac(2, 1)), Some(frac(3, 1)));
    assert_eq!(operators(&layer), vec!["q", "cm", "cm", "cm", "Do", "Q"]);
    assert_eq!(
        layer.operations()[1],
        CurTransMat::Translate(Pt { units: 3_600_000 }, Pt { units: 0 }).to_operation()
    );
    assert_eq!(layer.operations()[2], CurTransMat::Rotate(turn).to_operation());
    assert_eq!(layer.operations()[3], CurTransMat::Scale(frac(2, 1), frac(3, 1)).to_operation());
    assert_eq!(layer.operations()[4], op("Do", vec![name("R0")]));

    let mut bare = PdfLayer::new("l");
    bare.use_xobject(&image, None, None, None, None, None);
    assert_eq!(operators(&bare), vec!["q", "Do", "Q"]);

    let mut zeros = PdfLayer::new("l");
    zeros.use_xobject(&image, Some(mm(0)), Some(mm(0)), None, Some(frac(0, 7)), None);
    assert_eq!(operators(&zeros), vec!["q", "Do", "Q"]);

    let mut one_factor = PdfLayer::new("l");
    one_factor.use_xobject(&image, None, Some(mm(-1)), None, None, Some(frac(1, 2)));
    assert_eq!(operators(&one_factor), vec!["q", "cm", "cm", "Do", "Q"]);
    assert_eq!(
        one_factor.operations()[2],
        CurTransMat::Scale(frac(0, 1), frac(1, 2)).to_operation()
    );
}

#[test]
fn codes_are_written_as_hexadecimal_strings() {
    let mut layer = PdfLayer::new("l");
    layer.write_codepoints(vec![0x0041, 0x1234]);
    layer.write_positioned_codepoints(vec![(0, 0x0041), (-120, 0x0042), (7, 0xffff)]);
    layer.write_bytes(vec![1, 2, 3]);
    assert_eq!(
        layer.operations(),
        &vec![
            op("Tj", vec![Object::String(vec![0x00, 0x41, 0x12, 0x34], StringFormat::Hexadecimal)]),
            op(
                "TJ",
                vec![Object::Array(vec![
                    Object::String(vec![0x00, 0x41], StringFormat::Hexadecimal),
                    Object::Integer(-120),
                    Object::String(vec![0x00, 0x42], StringFormat::Hexadecimal),
                    Object::Integer(7),
                    Object::String(vec![0xff, 0xff], StringFormat::Hexadecimal),
                ])]
            ),
            op("Tj", vec![Object::String(vec![1, 2, 3], StringFormat::Hexadecimal)]),
        ]
    );
}

#[test]
fn a_standard_font_leaves_out_what_its_encoding_lacks() {
    let mut source = RandomSource::new();
    let mut doc = PdfDocument::new("title", now(), &mut source);
    let font = doc.add_builtin_font(BuiltinFont::Helvetica).unwrap();
    let mut layer = PdfLayer::new("l");
    layer.write_text("A\u{4e2d}B \u{20ac}\u{1f600}\u{e9}", &doc, &font);
    assert_eq!(
        layer.operations(),
        &vec![op(
            "Tj",
            vec![Object::String(vec![0x41, 0x42, 0x20, 0x80, 0xe9], StringFormat::Hexadecimal)]
        )]
    );
    assert_eq!(
        encode_text_for(&Font::BuiltinFont(BuiltinFont::Courier), "\u{4e2d}\u{2603}"),
        Vec::<u8>::new()
    );
    assert_eq!(encode_text_for(&Font::BuiltinFont(BuiltinFont::Courier), "Lorem ipsum"), b"Lorem ipsum".to_vec());
}

#[test]
fn a_text_is_written_inside_a_text_section() {
    let mut source = RandomSource::new();
    let mut doc = PdfDocument::new("title", now(), &mut source);
    let font = doc.add_builtin_font(BuiltinFont::TimesBoldItalic).unwrap();
    let mut layer = PdfLayer::new("l");
    layer.use_text("Hi", frac(48, 1), mm(10), mm(200), &doc, &font);
    assert_eq!(
        layer.operations(),
        &vec![
            op("BT", vec![]),
            op("Tf", vec![name("Times-BoldItalic"), Object::Real(frac(48, 1))]),
            op("Td", vec![length(3_600_000), length(72_000_000)]),
            op("Tj", vec![Object::String(b"Hi".to_vec(), StringFormat::Hexadecimal)]),
            op("ET", vec![]),
        ]
    );
}

#[test]
fn the_corners_of_a_rectangle_lie_around_its_centre() {
    let corners = calculate_points_for_rect(
        Pt { units: 200 },
        Pt { units: 101 },
        Pt { units: 1000 },
        Pt { units: 2000 },
    )
    .unwrap();
    let at = |x: i64, y: i64| (Point { x: Pt { units: x }, y: Pt { units: y } }, false);
    assert_eq!(corners, vec![at(900, 2050), at(1100, 2050), at(1100, 1950), at(900, 1950)]);
    let negative = calculate_points_for_rect(
        Pt { units: -3 },
        Pt { units: -3 },
        Pt { units: 0 },
        Pt { units: 0 },
    )
    .unwrap();
    assert_eq!(negative, vec![at(1, -1), at(-1, -1), at(-1, 1), at(1, 1)]);
    assert_eq!(
        calculate_points_for_rect(Pt { units: 4 }, Pt { units: 0 }, Pt { units: i64::MAX }, Pt { units: 0 }),
        None
    );
}

#[test]
fn a_circle_is_made_of_four_curves() {
    let points = calculate_points_for_circle(
        Pt { units: 1_000_000 },
        Pt { units: 10 },
        Pt { units: -20 },
    )
    .unwrap();
    let r = 1_000_000;
    let c = 551_915;
    let at = |x: i64, y: i64, flag: bool| (Point { x: Pt { units: 10 + x }, y: Pt { units: y - 20 } }, flag);
    assert_eq!(
        points,
        vec![
            at(0, r, true),
            at(c, r, true),
            at(r, c, true),
            at(r, 0, false),
            at(r, 0, true),
            at(r, -c, true),
            at(c, -r, true),
            at(0, -r, false),
            at(0, -r, true),
            at(-c, -r, true),
            at(-r, -c, true),
            at(-r, 0, false),
            at(-r, 0, true),
            at(-r, c, true),
            at(-c, r, true),
            at(0, r, false),
        ]
    );
    let line = Line { points, is_closed: true, has_fill: false, has_stroke: true, is_clipping_path: false };
    let names: Vec<String> = line.into_stream_op().iter().map(|o| o.operator.clone()).collect();
    assert_eq!(names, vec!["m", "c", "l", "c", "l", "c", "l", "c", "h", "S"]);
    assert_eq!(calculate_points_for_circle(Pt { units: 3 }, Pt { units: i64::MAX - 2 }, Pt { units: 0 }), None);
    assert_eq!(calculate_points_for_circle(Pt { units: i64::MIN }, Pt { units: 0 }, Pt { units: 0 }), None);
    let small = calculate_points_for_circle(Pt { units: -3 }, Pt { units: 0 }, Pt { units: 0 }).unwrap();
    assert_eq!(small[1], (Point { x: Pt { units: -1 }, y: Pt { units: -3 } }, true));
}
