use printpdf::graph::ObjectGraph;
use printpdf::image::{ColorBits, ColorSpace, Image, ImageXObject};
use printpdf::object::{
    array, bytes_clone, bytes_eq, integer_array, literal, name, reference_array, Dictionary,
    Object, ObjectId, Operation, Stream, StringFormat,
};
use printpdf::pdf_metadata::{text_object, DateTime};
use printpdf::pdf_resources::{embed, register, Embeddable, RegisteredXObject};
use printpdf::scale::{Mm, Pt, Real};
use printpdf::{CurTransMat, Error, PdfConformance, CustomPdfConformance};
use std::rc::Rc;

fn id(number: u32) -> ObjectId {
    ObjectId { number, generation: 0 }
}

#[test]
fn an_exact_number_needs_a_denominator() {
    assert_eq!(Real::new(1, 0), None);
    assert_eq!(Real::new(i64::MIN, 3), None);
    let half = Real::new(1, 2).unwrap();
    assert_eq!(half.num(), 1);
    assert_eq!(half.den(), 2);
    assert!(!half.is_zero());
    assert!(Real::new(0, 9).unwrap().is_zero());
    assert_eq!(half.neg(), Real::new(-1, 2).unwrap());
    assert_eq!(half.neg().neg(), half);
    assert!(Real::new(2, 4).unwrap() != half);
    assert_eq!(Real::from_int(-7), Real::new(-7, 1).unwrap());
    assert_eq!(Real::new(i64::MAX, u32::MAX).unwrap().neg().num(), -i64::MAX);
}

#[test]
fn a_millimetre_is_exactly_360000_units_of_a_point() {
    assert_eq!(Mm::from_millimetres(210), Some(Mm { micrometres: 210_000 }));
    assert_eq!(Mm::from_millimetres(2_147_484), None);
    assert_eq!(Mm::from_millimetres(-2_147_484), None);
    assert_eq!(Mm::from_millimetres(2_147_483), Some(Mm { micrometres: 2_147_483_000 }));
    assert_eq!(Mm { micrometres: 1000 }.to_pt(), Pt { units: 360_000 });
    assert_eq!(Mm { micrometres: -1 }.to_pt(), Pt { units: -360 });
    assert_eq!(Mm { micrometres: i32::MAX }.to_pt(), Pt { units: 2_147_483_647 * 360 });
    // 25.4 mm are 72 points
    assert_eq!(Mm { micrometres: 25_400 }.to_pt(), Pt::from_points(72).unwrap());
    assert_eq!(Pt::from_points(1), Some(Pt { units: 127_000 }));
    assert_eq!(Pt::from_points(i64::MAX / 127_000 + 1), None);
    assert_eq!(Pt { units: 5 }.to_real(), Real::new(5, 127_000).unwrap());
    assert_eq!(Pt { units: i64::MIN }.to_real(), Real::new(i64::MIN + 1, 127_000).unwrap());
}

#[test]
fn a_dictionary_keeps_each_key_once_and_the_last_set_last() {
    let mut d = Dictionary::new();
    assert!(d.is_empty());
    d.set(b"A".to_vec(), Object::Integer(1));
    d.put("B", Object::Integer(2));
    d.put("C", Object::Integer(3));
    d.put("A", Object::Integer(4));
    assert_eq!(d.len(), 3);
    assert_eq!(d.key_at(0), &b"B".to_vec());
    assert_eq!(d.key_at(2), &b"A".to_vec());
    assert_eq!(d.value_at(2), &Object::Integer(4));
    assert_eq!(d.find(b"C"), 1);
    assert_eq!(d.find(b"D"), 3);
    assert!(d.has(b"A"));
    assert!(!d.has(b"a"));
    assert_eq!(d.get(b"B"), Some(&Object::Integer(2)));
    assert_eq!(d.get(b""), None);
    assert_eq!(d.replace_at(1, Object::Null), Object::Integer(3));
    assert_eq!(d.get(b"C"), Some(&Object::Null));

    let mut other = Dictionary::new();
    other.put("C", Object::Boolean(true));
    other.put("Z", Object::Boolean(false));
    d.extend(&other);
    let entries = d.clone().into_entries();
    assert_eq!(
        entries,
        vec![
            (b"B".to_vec(), Object::Integer(2)),
            (b"A".to_vec(), Object::Integer(4)),
            (b"C".to_vec(), Object::Boolean(true)),
            (b"Z".to_vec(), Object::Boolean(false)),
        ]
    );
    assert_eq!(d.clone(), d);
}

#[test]
fn objects_are_copied_in_depth() {
    let mut inner = Dictionary::new();
    inner.put("K", Object::Array(vec![Object::Null, Object::Reference(id(3))]));
    let stream = Object::Stream(Stream { dict: inner.clone(), content: vec![1, 2, 3], allows_compression: false });
    let content = Object::Content(vec![Operation::new("Tj", vec![Object::String(vec![65], StringFormat::Hexadecimal)])]);
    let all = Object::Array(vec![
        Object::Boolean(true),
        Object::Integer(-4),
        Object::Real(Real::new(1, 3).unwrap()),
        Object::Name(b"N".to_vec()),
        Object::Dictionary(inner),
        stream,
        content,
    ]);
    assert_eq!(all.clone(), all);
    assert_eq!(name("Font"), Object::Name(b"Font".to_vec()));
    assert_eq!(literal("Adobe"), Object::String(b"Adobe".to_vec(), StringFormat::Literal));
    assert_eq!(text_object(&"caf\u{e9}".to_string()), Object::String(vec![99, 97, 102, 0xc3, 0xa9], StringFormat::Literal));
    assert_eq!(array(vec![Object::Null]), Object::Array(vec![Object::Null]));
    assert_eq!(integer_array(&vec![3, -1]), Object::Array(vec![Object::Integer(3), Object::Integer(-1)]));
    assert_eq!(
        reference_array(&vec![id(2), id(9)]),
        Object::Array(vec![Object::Reference(id(2)), Object::Reference(id(9))])
    );
    assert!(bytes_eq(b"abc", b"abc"));
    assert!(!bytes_eq(b"abc", b"abd"));
    assert!(!bytes_eq(b"abc", b"ab"));
    assert_eq!(bytes_clone(b"xyz"), b"xyz".to_vec());
}

#[test]
fn a_graph_numbers_its_objects_from_one() {
    let mut g = ObjectGraph::new();
    assert_eq!(g.version(), "1.4");
    assert_eq!(ObjectGraph::with_version("1.3").version(), "1.3");
    assert_eq!(g.spare_ids(), u32::MAX);
    let reserved = g.new_object_id();
    assert_eq!(reserved, id(1));
    assert_eq!(g.len(), 0);
    assert_eq!(g.add_object(Object::Integer(5)), id(2));
    assert_eq!(g.add_object(Object::Integer(6)), id(3));
    assert_eq!(g.max_id(), 3);
    assert_eq!(g.get(id(1)), None);
    g.insert(reserved, Object::Null);
    g.insert(id(2), Object::Boolean(true));
    assert_eq!(g.len(), 3);
    assert_eq!(g.object_at(0), (id(2), &Object::Boolean(true)));
    assert_eq!(g.object_at(2), (id(1), &Object::Null));
    assert_eq!(g.get(id(3)), Some(&Object::Integer(6)));
    g.insert(ObjectId { number: 40, generation: 1 }, Object::Null);
    assert_eq!(g.max_id(), 40);
    assert_eq!(g.add_object(Object::Null), id(41));
    assert_eq!(g.spare_ids(), u32::MAX - 41);
    g.set_trailer(b"Root".to_vec(), Object::Reference(id(2)));
    g.set_trailer(b"Root".to_vec(), Object::Reference(id(3)));
    assert_eq!(g.trailer().len(), 1);
    assert_eq!(g.trailer().get(b"Root"), Some(&Object::Reference(id(3))));
}

fn pixels() -> ImageXObject {
    ImageXObject {
        width: 2,
        height: 3,
        color_space: ColorSpace::Greyscale,
        bits_per_component: ColorBits::Bit8,
        interpolate: true,
        image_data: vec![0, 50, 100, 150, 200, 250],
        clipping_bbox: None,
    }
}

#[test]
fn an_image_is_embedded_as_one_stream() {
    let mut graph = ObjectGraph::new();
    let image = embed(&mut graph, Image::from_xobject(pixels())).unwrap();
    assert_eq!(image.object_id, id(1));
    assert_eq!(<Image as Embeddable>::KEY, "XObject");
    let s = match graph.get(id(1)) {
        Some(Object::Stream(s)) => s,
        other => panic!("no stream: {:?}", other),
    };
    assert_eq!(s.content, vec![0, 50, 100, 150, 200, 250]);
    assert!(s.allows_compression);
    assert_eq!(s.dict.get(b"Type"), Some(&name("XObject")));
    assert_eq!(s.dict.get(b"Subtype"), Some(&name("Image")));
    assert_eq!(s.dict.get(b"Width"), Some(&Object::Integer(2)));
    assert_eq!(s.dict.get(b"Height"), Some(&Object::Integer(3)));
    assert_eq!(s.dict.get(b"Interpolate"), Some(&Object::Boolean(true)));
    assert_eq!(s.dict.get(b"BitsPerComponent"), Some(&Object::Integer(8)));
    assert_eq!(s.dict.get(b"ColorSpace"), Some(&name("DeviceGray")));
    assert_eq!(
        s.dict.get(b"BBox"),
        Some(&Object::Array(CurTransMat::Identity.to_operation().operands))
    );
    let names: Vec<&str> = [
        ColorSpace::Rgb,
        ColorSpace::Rgba,
        ColorSpace::Palette,
        ColorSpace::Cmyk,
        ColorSpace::Greyscale,
        ColorSpace::GreyscaleAlpha,
    ]
    .iter()
    .map(|c| c.name())
    .collect();
    assert_eq!(names, vec!["DeviceRGB", "DeviceN", "Indexed", "DeviceCMYK", "DeviceGray", "DeviceN"]);
    assert_eq!(ColorBits::Bit1.bits(), 1);
    assert_eq!(ColorBits::Bit16.bits(), 16);

    let mut full = ObjectGraph::new();
    full.insert(ObjectId { number: u32::MAX, generation: 0 }, Object::Null);
    assert_eq!(pixels().embed(&mut full), Err(Error::ObjectLimit));
    assert_eq!(full.len(), 1);
}

#[test]
fn a_registered_image_is_known_by_its_name() {
    let mut graph = ObjectGraph::new();
    let first = embed(&mut graph, Image::from_xobject(pixels())).unwrap();
    let second = embed(&mut graph, Rc::new(Image::from_xobject(pixels()))).unwrap();
    let mut resources = Dictionary::new();
    assert_eq!(register(&mut resources, &first).xobject_name(), b"R0".to_vec());
    assert_eq!(register(&mut resources, &second).xobject_name(), b"R1".to_vec());
    assert_eq!(register(&mut resources, &first).xobject_name(), b"R0".to_vec());
    let by_ref = embed(&mut graph, &first.object).unwrap();
    assert_eq!(register(&mut resources, &by_ref).xobject_name(), b"R2".to_vec());
}

#[test]
fn dates_are_written_with_leading_zeros() {
    let date = DateTime { year: 987, month: 1, day: 2, hour: 3, minute: 4, second: 5 };
    let mut info = String::new();
    date.push_info_text(&mut info);
    assert_eq!(info, "D:09870102030405+00'00'");
    let mut xmp = String::from(">");
    date.push_xmp_text(&mut xmp);
    assert_eq!(xmp, ">0987-01-02T03:04:05+00:00");
}

#[test]
fn a_conformance_names_its_standard_and_what_it_asks_for() {
    assert_eq!(PdfConformance::X3_2002_PDF_1_3.get_identifier_string(), "PDF/X-3:2002");
    assert_eq!(PdfConformance::A1B_2005_PDF_1_4.get_identifier_string(), "PDF/A-1b:2005");
    assert_eq!(PdfConformance::UA_2014_PDF_1_6.get_identifier_string(), "PDF/UA");
    assert!(PdfConformance::X4_2010_PDF_1_4.must_have_xmp_metadata());
    assert!(PdfConformance::E1_2008_PDF_1_6.must_have_icc_profile());
    let custom = PdfConformance::Custom(CustomPdfConformance {
        identifier: "mine".to_string(),
        requires_icc_profile: true,
        requires_xmp_metadata: false,
    });
    assert_eq!(custom.get_identifier_string(), "mine");
    assert!(custom.must_have_icc_profile());
    assert!(!custom.must_have_xmp_metadata());
}
