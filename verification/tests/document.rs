use printpdf::graphics::{IndirectFontRef, Line, Point};
use printpdf::object::{Dictionary, Object, ObjectId, Operation, StringFormat};
use printpdf::page_resources::{Pattern, PdfResources};
use printpdf::pdf_metadata::{DateTime, IccProfile, IccProfileType};
use printpdf::pdf_page::{merge_into, wrap_layer};
use printpdf::scale::{Mm, Pt, Real};
use printpdf::utils::{rand, random_character_string_32, u8_to_char, RandomSource};
use printpdf::{
    BuiltinFont, CustomPdfConformance, Embedded, Error, Font, ObjectGraph, OCGList, OCGRef,
    PdfConformance, PdfDocument, PdfLayer, PdfPage, Stream,
};

fn now() -> DateTime {
    DateTime { year: 2024, month: 2, day: 29, hour: 13, minute: 5, second: 9 }
}

fn mm(millimetres: i32) -> Mm {
    Mm::from_millimetres(millimetres).unwrap()
}

fn id(number: u32) -> ObjectId {
    ObjectId { number, generation: 0 }
}

fn name(text: &str) -> Object {
    Object::Name(text.as_bytes().to_vec())
}

fn text(t: &str) -> Object {
    Object::String(t.as_bytes().to_vec(), StringFormat::Literal)
}

fn op(operator: &str, operands: Vec<Object>) -> Operation {
    Operation { operator: operator.to_string(), operands }
}

fn entry<'a>(dict: &'a Dictionary, key: &str) -> &'a Object {
    match dict.get(key.as_bytes()) {
        Some(o) => o,
        None => panic!("no entry {}", key),
    }
}

fn dict_at(graph: &ObjectGraph, at: ObjectId) -> &Dictionary {
    match graph.get(at) {
        Some(Object::Dictionary(d)) => d,
        other => panic!("no dictionary at {:?}: {:?}", at, other),
    }
}

fn sub<'a>(dict: &'a Dictionary, key: &str) -> &'a Dictionary {
    match entry(dict, key) {
        Object::Dictionary(d) => d,
        other => panic!("no dictionary under {}: {:?}", key, other),
    }
}

fn items<'a>(dict: &'a Dictionary, key: &str) -> &'a Vec<Object> {
    match entry(dict, key) {
        Object::Array(a) => a,
        other => panic!("no array under {}: {:?}", key, other),
    }
}

fn reference(o: &Object) -> ObjectId {
    match o {
        Object::Reference(r) => *r,
        other => panic!("no reference: {:?}", other),
    }
}

fn catalog(graph: &ObjectGraph) -> &Dictionary {
    dict_at(graph, reference(entry(graph.trailer(), "Root")))
}

fn pages(graph: &ObjectGraph) -> Vec<&Dictionary> {
    let container = dict_at(graph, reference(entry(catalog(graph), "Pages")));
    items(container, "Kids").iter().map(|k| dict_at(graph, reference(k))).collect()
}

fn no_extras() -> PdfConformance {
    PdfConformance::Custom(CustomPdfConformance {
        identifier: "none".to_string(),
        requires_icc_profile: false,
        requires_xmp_metadata: false,
    })
}

fn document(page_count: usize, layers_per_page: usize) -> PdfDocument {
    let mut source = RandomSource::new();
    let mut doc = PdfDocument::new("title", now(), &mut source);
    for p in 0..page_count {
        let mut page = PdfPage::new(mm(210), mm(297));
        for l in 0..layers_per_page {
            page.add_layer(PdfLayer::new(&format!("Layer {} of page {}", l, p)));
        }
        doc.add_page(page);
    }
    doc
}

#[test]
fn a_new_document_draws_its_two_identifiers() {
    let mut source = RandomSource::new();
    let doc = PdfDocument::new("PDF_Document_title", now(), &mut source);
    assert_eq!(doc.document_id(), "HEIGIDGCBAAHFGBHAEFHCBHGAJHCJDHF");
    assert_eq!(doc.metadata().xmp_document_id, "HGJBDAIGCHFGIHDGCIGHCIGJEBHIGBEF");
    assert_eq!(source.seed, 2226);
    assert_eq!(doc.metadata().document_title, "PDF_Document_title");
    assert_eq!(doc.metadata().conformance, PdfConformance::X3_2002_PDF_1_3);
    assert_eq!(doc.metadata().document_version, 1);
    assert!(!doc.metadata().trapping);
    assert_eq!(doc.metadata().creation_date, now());
    assert_eq!(doc.page_count(), 0);
    let graph = doc.get_inner();
    assert_eq!(graph.version(), "1.3");
    assert_eq!(graph.len(), 0);
}

#[test]
fn numbers_are_drawn_by_three_shifts() {
    let mut source = RandomSource::new();
    assert_eq!(rand(&mut source), 74868362100);
    assert_eq!(source.seed, 2121);
    assert_eq!(rand(&mut source), 75617045721);
    let mut late = RandomSource { seed: u64::MAX - 3 };
    let _ = rand(&mut late);
    assert_eq!(late.seed, 17);
    assert_eq!(u8_to_char(0), 'A');
    assert_eq!(u8_to_char(9), 'J');
    let mut again = RandomSource::new();
    let first = random_character_string_32(&mut again);
    let second = random_character_string_32(&mut again);
    assert_eq!(first, "HEIGIDGCBAAHFGBHAEFHCBHGAJHCJDHF");
    assert_eq!(second, "HGJBDAIGCHFGIHDGCIGHCIGJEBHIGBEF");
    assert!(first != second);
    assert_eq!(first.len(), 32);
}

#[test]
fn the_setters_change_what_the_document_says_of_itself() {
    let mut doc = document(0, 0);
    let later = DateTime { year: 2025, month: 1, day: 2, hour: 3, minute: 4, second: 5 };
    doc.set_title("other");
    doc.set_trapping(true);
    doc.set_document_id("ABC".to_string());
    doc.set_document_version(7);
    doc.set_conformance(PdfConformance::A1B_2005_PDF_1_4);
    doc.set_creation_date(later);
    doc.set_mod_date(later);
    let m = doc.metadata();
    assert_eq!(m.document_title, "other");
    assert!(m.trapping);
    assert_eq!(m.xmp_document_id, "ABC");
    assert_eq!(m.document_version, 7);
    assert_eq!(m.conformance, PdfConformance::A1B_2005_PDF_1_4);
    assert_eq!(m.creation_date, later);
    assert_eq!(m.modification_date, later);
    assert_eq!(m.metadata_date, now());
    assert_eq!(doc.check_for_errors(), Ok(()));
    assert_eq!(doc.repair_errors(PdfConformance::X4_2010_PDF_1_4), Ok(()));
}

#[test]
fn a_standard_font_is_added_once() {
    let mut doc = document(0, 0);
    let first = doc.add_builtin_font(BuiltinFont::Courier).unwrap();
    let other = doc.add_builtin_font(BuiltinFont::Symbol).unwrap();
    let again = doc.add_builtin_font(BuiltinFont::Courier).unwrap();
    assert_eq!(first.name, "Courier");
    assert_eq!(other.name, "Symbol");
    assert_eq!(again, first);
    assert_eq!(doc.get_font(&first).unwrap().inner_obj, id(1));
    assert_eq!(doc.get_font(&other).unwrap().inner_obj, id(2));
    assert_eq!(doc.get_font(&first).unwrap().data, Font::BuiltinFont(BuiltinFont::Courier));
    assert!(doc.get_font(&IndirectFontRef { name: "Helvetica".to_string() }).is_none());
    assert_eq!(doc.get_inner().max_id(), 2);
}

#[test]
fn bytes_that_are_no_font_are_not_added() {
    let mut doc = document(0, 0);
    assert_eq!(
        doc.add_external_font(vec![1, 2]).err(),
        Some(Error::Font(printpdf::FontError::TooShort))
    );
    assert_eq!(
        doc.add_external_font(b"no font".to_vec()).err(),
        Some(Error::Font(printpdf::FontError::UnrecognizedFormat))
    );
    assert_eq!(doc.get_inner().max_id(), 0);
}

#[test]
fn every_layer_of_every_page_has_a_group_that_is_shown() {
    let graph = document(3, 2).save(&mut RandomSource::new()).unwrap();
    let properties = sub(catalog(&graph), "OCProperties");
    let groups = items(properties, "OCGs");
    assert_eq!(groups.len(), 3 * 2);
    let settings = sub(properties, "D");
    assert_eq!(items(settings, "ON"), groups);
    assert_eq!(items(settings, "Order"), groups);
    assert!(items(settings, "RBGroups").is_empty());
    let names: Vec<&Object> = groups.iter().map(|g| entry(dict_at(&graph, reference(g)), "Name")).collect();
    assert_eq!(
        names,
        vec![
            &text("Layer 0 of page 0"),
            &text("Layer 1 of page 0"),
            &text("Layer 0 of page 1"),
            &text("Layer 1 of page 1"),
            &text("Layer 0 of page 2"),
            &text("Layer 1 of page 2")
        ]
    );
    let first = dict_at(&graph, reference(&groups[0]));
    assert_eq!(entry(first, "Type"), &name("OCG"));
    let intent = reference(entry(first, "Intent"));
    assert_eq!(graph.get(intent), Some(&Object::Array(vec![name("View"), name("Design")])));
    let usage = dict_at(&graph, reference(entry(first, "Usage")));
    assert_eq!(entry(usage, "Type"), &name("OCG"));
    assert_eq!(entry(sub(usage, "CreatorInfo"), "Subtype"), &name("Artwork"));
}

#[test]
fn a_document_without_layers_has_no_groups() {
    let graph = document(2, 0).save(&mut RandomSource::new()).unwrap();
    assert!(items(sub(catalog(&graph), "OCProperties"), "OCGs").is_empty());
    assert_eq!(pages(&graph).len(), 2);
}

#[test]
fn a_rectangle_on_one_page_is_drawn_by_six_path_operators() {
    let mut source = RandomSource::new();
    let mut doc = PdfDocument::new("rectangle", now(), &mut source);
    let mut page = PdfPage::new(mm(210), mm(297));
    let mut layer = PdfLayer::new("Layer 1");
    let corner = |x: i32, y: i32| (Point::new(mm(x), mm(y)), false);
    layer.add_shape(Line {
        points: vec![corner(20, 30), corner(20, 80), corner(120, 80), corner(120, 30)],
        is_closed: true,
        has_fill: true,
        has_stroke: true,
        is_clipping_path: false,
    });
    page.add_layer(layer);
    doc.add_page(page);
    let graph = doc.save(&mut source).unwrap();

    let all = pages(&graph);
    assert_eq!(all.len(), 1);
    let content = match graph.get(reference(entry(all[0], "Contents"))) {
        Some(Object::Content(ops)) => ops,
        other => panic!("no content: {:?}", other),
    };
    let count = |operator: &str| content.iter().filter(|o| o.operator == operator).count();
    assert_eq!(count("m"), 1);
    assert_eq!(count("l"), 3);
    assert_eq!(count("h"), 1);
    assert_eq!(count("B"), 1);
    assert_eq!(count("c"), 0);
    let names: Vec<&str> = content.iter().map(|o| o.operator.as_str()).collect();
    assert_eq!(names, vec!["q", "BDC", "m", "l", "l", "l", "h", "B", "EMC", "Q"]);
    assert_eq!(content[1], op("BDC", vec![name("OC"), name("MC0")]));

    let size = vec![
        Object::Integer(0),
        Object::Integer(0),
        Object::Real(Real::new(210_000 * 360, 127000).unwrap()),
        Object::Real(Real::new(297_000 * 360, 127000).unwrap()),
    ];
    assert_eq!(items(all[0], "MediaBox"), &size);
    assert_eq!(items(all[0], "TrimBox"), &size);
    assert_eq!(items(all[0], "CropBox"), &size);
    assert_eq!(entry(all[0], "Rotate"), &Object::Integer(0));
    assert_eq!(entry(all[0], "Type"), &name("Page"));
    assert_eq!(entry(all[0], "Parent"), entry(catalog(&graph), "Pages"));
    let resources = dict_at(&graph, reference(entry(all[0], "Resources")));
    let groups = items(sub(catalog(&graph), "OCProperties"), "OCGs");
    assert_eq!(entry(sub(resources, "Properties"), "MC0"), &groups[0]);
}

#[test]
fn a_font_of_two_pages_is_one_object() {
    let mut doc = document(2, 1);
    let _font = doc.add_builtin_font(BuiltinFont::Helvetica).unwrap();
    let graph = doc.save(&mut RandomSource::new()).unwrap();
    let mut font_objects = Vec::new();
    for i in 0..graph.len() {
        let (at, object) = graph.object_at(i);
        if let Object::Dictionary(d) = object {
            if d.get(b"Type") == Some(&name("Font")) {
                font_objects.push(at);
            }
        }
    }
    assert_eq!(font_objects, vec![id(1)]);
    let all = pages(&graph);
    assert_eq!(all.len(), 2);
    let first = dict_at(&graph, reference(entry(all[0], "Resources")));
    let second = dict_at(&graph, reference(entry(all[1], "Resources")));
    assert_eq!(entry(first, "Font"), entry(second, "Font"));
    let listed = dict_at(&graph, reference(entry(first, "Font")));
    assert_eq!(listed.len(), 1);
    assert_eq!(entry(listed, "Helvetica"), &Object::Reference(id(1)));
}

#[test]
fn a_registered_font_of_two_pages_is_one_object() {
    let mut graph = ObjectGraph::new();
    let font = printpdf::embed(&mut graph, Font::BuiltinFont(BuiltinFont::Courier)).unwrap();
    let mut first = PdfPage::new(mm(210), mm(297));
    let mut second = PdfPage::new(mm(210), mm(297));
    let on_first = first.register(&font);
    let on_second = second.register(&font);
    assert_eq!(on_first.embedded.object_id, on_second.embedded.object_id);
    assert_eq!(graph.len(), 1);
    for page in [first, second] {
        let (resources, _) = page.collect_resources_and_streams(&Vec::new());
        assert_eq!(entry(sub(&resources, "Font"), "R0"), &Object::Reference(font.object_id));
    }
}

#[test]
fn the_pages_stand_in_the_graph_in_their_order_with_their_resources() {
    let mut source = RandomSource::new();
    let mut doc = PdfDocument::new("title", now(), &mut source);
    for p in 0..3 {
        let mut page = PdfPage::new(mm(100 + p), mm(200));
        for l in 0..2 {
            let mut layer = PdfLayer::new(&format!("Layer {} of page {}", l, p));
            layer.begin_text_section();
            page.add_layer(layer);
        }
        doc.add_page(page);
    }
    doc.add_builtin_font(BuiltinFont::Courier).unwrap();
    let graph = doc.save(&mut source).unwrap();
    graph.check_wf();
    let root = catalog(&graph);
    let container_id = reference(entry(root, "Pages"));
    let groups = items(sub(root, "OCProperties"), "OCGs");
    let kids = items(dict_at(&graph, container_id), "Kids");
    assert_eq!(kids.len(), 3);
    for p in 0..3usize {
        let page = dict_at(&graph, reference(&kids[p]));
        assert_eq!(entry(page, "Type"), &name("Page"));
        assert_eq!(entry(page, "Parent"), &Object::Reference(container_id));
        let width = Mm { micrometres: (100 + p as i32) * 1000 }.to_pt().to_real();
        match entry(page, "MediaBox") {
            Object::Array(corners) => assert_eq!(corners[2], Object::Real(width)),
            other => panic!("no box: {:?}", other),
        }
        let resources = dict_at(&graph, reference(entry(page, "Resources")));
        let properties = sub(resources, "Properties");
        for l in 0..2usize {
            let bound = entry(properties, &format!("MC{}", l));
            assert_eq!(bound, &groups[2 * p + l]);
            let group = dict_at(&graph, reference(bound));
            assert_eq!(entry(group, "Name"), &text(&format!("Layer {} of page {}", l, p)));
        }
        assert!(matches!(entry(resources, "Font"), Object::Reference(_)));
        match graph.get(reference(entry(page, "Contents"))) {
            Some(Object::Content(operations)) => {
                assert_eq!(operations.len(), 2 * 5);
                assert_eq!(operations[1], op("BDC", vec![name("OC"), name("MC0")]));
                assert_eq!(operations[6], op("BDC", vec![name("OC"), name("MC1")]));
            },
            other => panic!("no content: {:?}", other),
        }
    }
}

#[test]
fn a_page_adds_two_objects_or_three_with_resources() {
    let mut doc = document(2, 0);
    doc.set_conformance(no_extras());
    let graph = doc.save(&mut RandomSource::new()).unwrap();
    // the pages, the information, the usage, the intent; content and
    // dictionary of each page; the catalog
    assert_eq!(graph.max_id(), 4 + 2 * 2 + 1);
    assert_eq!(graph.len(), 9);
    for page in pages(&graph) {
        assert!(!page.has(b"Resources"));
    }
    let mut doc = document(2, 0);
    doc.set_conformance(no_extras());
    doc.add_builtin_font(BuiltinFont::Courier).unwrap();
    let graph = doc.save(&mut RandomSource::new()).unwrap();
    // the font, the first four, the list of the fonts, three for each page,
    // the catalog
    assert_eq!(graph.max_id(), 1 + 4 + 1 + 2 * 3 + 1);
    for page in pages(&graph) {
        assert!(page.has(b"Resources"));
    }
    let mut doc = document(1, 0);
    let mut page = PdfPage::new(mm(10), mm(10));
    page.add_layer(PdfLayer::new("only"));
    assert!(page.has_resources());
    assert!(!PdfPage::new(mm(10), mm(10)).has_resources());
    doc.add_page(page);
    doc.set_conformance(no_extras());
    let graph = doc.save(&mut RandomSource::new()).unwrap();
    // the first four, one group, two for the first page, three for the
    // second, the catalog
    assert_eq!(graph.max_id(), 4 + 1 + 2 + 3 + 1);
}

#[test]
fn the_catalog_the_pages_and_the_trailer_refer_to_each_other() {
    let mut source = RandomSource { seed: 2226 };
    let mut doc = document(2, 1);
    doc.set_conformance(no_extras());
    let graph = doc.save(&mut source).unwrap();
    assert_eq!(source.seed, 2289);
    let root = catalog(&graph);
    assert_eq!(entry(root, "Type"), &name("Catalog"));
    assert_eq!(entry(root, "PageLayout"), &name("OneColumn"));
    assert_eq!(entry(root, "PageMode"), &name("UseOC"));
    assert!(!root.has(b"Metadata"));
    assert!(!root.has(b"OutputIntents"));
    let container = dict_at(&graph, reference(entry(root, "Pages")));
    assert_eq!(entry(root, "Pages"), &Object::Reference(id(1)));
    assert_eq!(entry(container, "Type"), &name("Pages"));
    assert_eq!(entry(container, "Count"), &Object::Integer(2));
    assert_eq!(items(container, "Kids").len(), 2);
    let info = dict_at(&graph, reference(entry(graph.trailer(), "Info")));
    assert_eq!(entry(info, "Title"), &text("title"));
    assert_eq!(entry(info, "Trapped"), &name("False"));
    assert_eq!(entry(info, "CreationDate"), &text("D:20240229130509+00'00'"));
    assert_eq!(entry(info, "ModDate"), &text("D:20240229130509+00'00'"));
    assert_eq!(entry(info, "GTS_PDFXVersion"), &text("none"));
    assert_eq!(
        items(graph.trailer(), "ID"),
        &vec![text("HEIGIDGCBAAHFGBHAEFHCBHGAJHCJDHF"), text("HAGDGDAHDEGHBCFAHHDBHFHBEGCFIFGC")]
    );
    // 1 pages, 2 information, 3 usage, 4 intent, 5 and 6 groups,
    // then resources, content and dictionary of each page, and the catalog
    assert_eq!(graph.len(), 13);
    assert_eq!(graph.max_id(), 13);
    assert_eq!(reference(entry(graph.trailer(), "Root")), id(13));
}

#[test]
fn a_standard_conformance_brings_metadata_and_a_given_profile() {
    let mut source = RandomSource { seed: 2226 };
    let mut doc = document(1, 1);
    doc.set_target_icc_profile(Some(IccProfile::new(vec![9, 8, 7], IccProfileType::Cmyk)));
    let graph = doc.save(&mut source).unwrap();
    assert_eq!(source.seed, 2352);
    let root = catalog(&graph);
    let packet = match graph.get(reference(entry(root, "Metadata"))) {
        Some(Object::Stream(s)) => s,
        other => panic!("no stream: {:?}", other),
    };
    assert!(!packet.allows_compression);
    assert_eq!(entry(&packet.dict, "Type"), &name("Metadata"));
    assert_eq!(entry(&packet.dict, "Subtype"), &name("XML"));
    let xml = String::from_utf8(packet.content.clone()).unwrap();
    assert!(xml.starts_with("<?xpacket begin=\"\" id=\"W5M0MpCehiHzreSzNTczkc9d\"?>"));
    assert!(xml.contains("<rdf:li xml:lang=\"x-default\">title</rdf:li>"));
    assert!(xml.contains("<xmp:CreateDate>2024-02-29T13:05:09+00:00</xmp:CreateDate>"));
    assert!(xml.contains("<xmpMM:DocumentID>HGJBDAIGCHFGIHDGCIGHCIGJEBHIGBEF</xmpMM:DocumentID>"));
    assert!(xml.contains("<xmpMM:InstanceID>HAGDGDAHDEGHBCFAHHDBHFHBEGCFIFGC</xmpMM:InstanceID>"));
    assert!(xml.contains("<xmpMM:RenditionClass>default</xmpMM:RenditionClass>"));
    assert!(xml.contains("<xmpMM:VersionID>1</xmpMM:VersionID>"));
    assert!(xml.contains("<pdf:Trapped>False</pdf:Trapped>"));
    assert!(xml.contains("<pdfx:GTS_PDFXVersion>PDF/X-3:2002</pdfx:GTS_PDFXVersion>"));
    assert!(xml.ends_with("<?xpacket end=\"w\"?>"));
    let intent = match &items(root, "OutputIntents")[..] {
        [Object::Dictionary(d)] => d,
        other => panic!("not one dictionary: {:?}", other),
    };
    assert_eq!(entry(intent, "S"), &name("GTS_PDFX"));
    assert_eq!(entry(intent, "OutputConditionIdentifier"), &text("FOGRA39"));
    let profile = match graph.get(reference(entry(intent, "DestinationOutputProfile"))) {
        Some(Object::Stream(s)) => s,
        other => panic!("no stream: {:?}", other),
    };
    assert_eq!(profile.content, vec![9, 8, 7]);
    assert_eq!(entry(&profile.dict, "N"), &Object::Integer(4));
    assert_eq!(entry(&profile.dict, "Length"), &Object::Integer(3));
    assert_eq!(entry(&profile.dict, "Alternate"), &name("DeviceCMYK"));
    assert!(!profile.dict.has(b"Range"));
    assert_eq!(
        items(graph.trailer(), "ID")[1],
        text("HCJEJEGHBAFICDFFBJIDBAIBJGDADAGJ")
    );
}

#[test]
fn a_profile_that_is_asked_for_but_missing_is_passed_over() {
    let graph = document(1, 1).save(&mut RandomSource::new()).unwrap();
    assert!(catalog(&graph).has(b"Metadata"));
    assert!(!catalog(&graph).has(b"OutputIntents"));
}

#[test]
fn a_profile_with_a_range_lists_it_for_every_component() {
    let profile = IccProfile { icc: vec![1], icc_type: IccProfileType::Rgb, has_alternate: false, has_range: true };
    let zero = Object::Real(Real::new(0, 1).unwrap());
    let one = Object::Real(Real::new(1, 1).unwrap());
    match profile.into_stream() {
        Object::Stream(Stream { dict, .. }) => {
            assert_eq!(entry(&dict, "N"), &Object::Integer(3));
            assert!(!dict.has(b"Alternate"));
            assert_eq!(
                items(&dict, "Range"),
                &vec![zero.clone(), one.clone(), zero.clone(), one.clone(), zero, one]
            );
        }
        other => panic!("no stream: {:?}", other),
    }
}

#[test]
fn saving_draws_one_identifier_without_metadata_and_two_with_it() {
    let mut source = RandomSource::new();
    let mut plain = document(2, 1);
    plain.set_conformance(no_extras());
    assert!(plain.save(&mut source).is_ok());
    assert_eq!(source.seed, 2100 + 3 * 21);
    let mut source = RandomSource::new();
    assert!(document(2, 1).save(&mut source).is_ok());
    assert_eq!(source.seed, 2100 + 6 * 21);
}

#[test]
fn the_fonts_of_a_document_are_listed_in_the_order_in_which_they_came() {
    let mut doc = document(1, 0);
    doc.set_conformance(no_extras());
    for font in [BuiltinFont::Symbol, BuiltinFont::Courier] {
        doc.add_builtin_font(font).unwrap();
    }
    let graph = doc.save(&mut RandomSource::new()).unwrap();
    let all = pages(&graph);
    let resources = dict_at(&graph, reference(entry(all[0], "Resources")));
    assert_eq!(resources.len(), 1);
    let listed = dict_at(&graph, reference(entry(resources, "Font")));
    assert_eq!(listed.key_at(0), &b"Symbol".to_vec());
    assert_eq!(listed.key_at(1), &b"Courier".to_vec());
    assert_eq!(entry(dict_at(&graph, id(1)), "BaseFont"), &name("Symbol"));
    assert_eq!(entry(dict_at(&graph, id(2)), "BaseFont"), &name("Courier"));
    let content = reference(entry(all[0], "Contents"));
    assert_eq!(graph.get(content), Some(&Object::Content(vec![])));
}

#[test]
fn the_layers_of_a_page_are_wrapped_one_by_one() {
    let mut page = PdfPage::new(mm(100), mm(50));
    let mut lower = PdfLayer::new("lower");
    lower.begin_text_section();
    lower.end_text_section();
    let mut upper = PdfLayer::new("upper");
    upper.save_graphics_state();
    page.add_layer(lower);
    page.add_layer(upper);
    assert_eq!(page.layer_count(), 2);
    assert_eq!(page.layer(1).name(), "upper");
    assert_eq!(page.width(), Pt { units: 36_000_000 });
    assert_eq!(page.height(), Pt { units: 18_000_000 });
    let pattern = page.add_pattern(Pattern {
        stream: Stream { dict: Dictionary::new(), content: vec![1, 2], allows_compression: true },
    });
    assert_eq!(pattern.name, "PT0");
    let font = Embedded { object: BuiltinFont::Courier, object_id: id(40) };
    assert_eq!(page.register(&font).name_index, 0);

    let groups = vec![(0usize, Object::Reference(id(7))), (1usize, Object::Reference(id(8)))];
    let (resources, streams) = page.collect_resources_and_streams(&groups);
    assert_eq!(resources.len(), 3);
    assert_eq!(resources.key_at(0), &b"Properties".to_vec());
    assert_eq!(resources.key_at(1), &b"Pattern".to_vec());
    assert_eq!(resources.key_at(2), &b"Font".to_vec());
    let properties = sub(&resources, "Properties");
    assert_eq!(entry(properties, "MC0"), &Object::Reference(id(7)));
    assert_eq!(entry(properties, "MC1"), &Object::Reference(id(8)));
    assert!(matches!(entry(sub(&resources, "Pattern"), "PT0"), Object::Stream(_)));
    assert_eq!(entry(sub(&resources, "Font"), "R0"), &Object::Reference(id(40)));
    assert_eq!(
        streams,
        vec![
            vec![
                op("q", vec![]),
                op("BDC", vec![name("OC"), name("MC0")]),
                op("BT", vec![]),
                op("ET", vec![]),
                op("EMC", vec![]),
                op("Q", vec![]),
            ],
            vec![
                op("q", vec![]),
                op("BDC", vec![name("OC"), name("MC1")]),
                op("q", vec![]),
                op("EMC", vec![]),
                op("Q", vec![]),
            ],
        ]
    );
}

#[test]
fn no_name_of_a_page_is_lost_when_its_resources_are_collected() {
    let mut page = PdfPage::new(mm(100), mm(50));
    page.add_layer(PdfLayer::new("only"));
    let _ = page.add_pattern(Pattern {
        stream: Stream { dict: Dictionary::new(), content: vec![], allows_compression: true },
    });
    struct Swatch;
    impl Clone for Swatch {
        fn clone(&self) -> Self {
            Swatch
        }
    }
    impl printpdf::Embeddable for Swatch {
        const KEY: &'static str = "Pattern";
        fn embed(&self, doc: &mut ObjectGraph) -> Result<ObjectId, Error> {
            Ok(doc.new_object_id())
        }
    }
    let courier = Embedded { object: BuiltinFont::Courier, object_id: id(40) };
    let symbol = Embedded { object: BuiltinFont::Symbol, object_id: id(41) };
    let swatch = Embedded { object: Swatch, object_id: id(42) };
    assert_eq!(page.register(&courier).name_index, 0);
    assert_eq!(page.register(&swatch).name_index, 0);
    assert_eq!(page.register(&symbol).name_index, 1);
    let groups = vec![(0usize, Object::Reference(id(7)))];
    let (resources, _) = page.collect_resources_and_streams(&groups);
    assert_eq!(entry(sub(&resources, "Font"), "R0"), &Object::Reference(id(40)));
    assert_eq!(entry(sub(&resources, "Font"), "R1"), &Object::Reference(id(41)));
    assert_eq!(entry(sub(&resources, "Pattern"), "R0"), &Object::Reference(id(42)));
    assert!(matches!(entry(sub(&resources, "Pattern"), "PT0"), Object::Stream(_)));
    assert_eq!(entry(sub(&resources, "Properties"), "MC0"), &Object::Reference(id(7)));
}

#[test]
fn a_category_of_the_page_is_merged_into_the_one_that_is_there() {
    let names = |pairs: &[(&str, u32)]| -> Object {
        let mut d = Dictionary::new();
        for (n, number) in pairs {
            d.set(n.as_bytes().to_vec(), Object::Reference(id(*number)));
        }
        Object::Dictionary(d)
    };
    let mut acc = Dictionary::new();
    acc.set(b"Pattern".to_vec(), names(&[("PT0", 1), ("R0", 2)]));
    acc.set(b"Other".to_vec(), Object::Integer(5));
    merge_into(&mut acc, &b"Pattern".to_vec(), &names(&[("R0", 3), ("R1", 4)]));
    merge_into(&mut acc, &b"Font".to_vec(), &names(&[("R0", 9)]));
    merge_into(&mut acc, &b"Other".to_vec(), &names(&[("R0", 6)]));
    merge_into(&mut acc, &b"Plain".to_vec(), &Object::Null);
    assert_eq!(acc.len(), 4);
    assert_eq!(acc.key_at(0), &b"Pattern".to_vec());
    assert_eq!(acc.value_at(0), &names(&[("PT0", 1), ("R0", 3), ("R1", 4)]));
    assert_eq!(entry(&acc, "Font"), &names(&[("R0", 9)]));
    assert_eq!(entry(&acc, "Other"), &names(&[("R0", 6)]));
    assert_eq!(entry(&acc, "Plain"), &Object::Null);
}

#[test]
fn groups_and_patterns_are_named_by_their_place() {
    let mut groups = OCGList::new();
    assert_eq!(groups.add_ocg(Object::Reference(id(3))).name, "MC0");
    assert_eq!(groups.add_ocg(Object::Reference(id(4))).name, "MC1");
    assert_eq!(groups.len(), 2);
    let listed = groups.into_dictionary();
    assert_eq!(entry(&listed, "MC1"), &Object::Reference(id(4)));

    let empty = PdfResources::new();
    let (dict, refs) = empty.into_with_layers(Vec::new());
    assert!(dict.is_empty());
    assert!(refs.is_empty());

    let mut with_group = PdfResources::new();
    with_group.layers.add_ocg(Object::Reference(id(1)));
    let (dict, refs) = with_group.clone().into_with_layers(Vec::new());
    assert!(dict.is_empty());
    assert!(refs.is_empty());
    let (dict, refs) = with_group.into_with_layers(vec![Object::Reference(id(2))]);
    assert_eq!(refs, vec![OCGRef { name: "MC1".to_string() }]);
    assert_eq!(sub(&dict, "Properties").len(), 2);

    let wrapped = wrap_layer(&OCGRef { name: "MC12".to_string() }, PdfLayer::new("x"));
    let names: Vec<&str> = wrapped.iter().map(|o| o.operator.as_str()).collect();
    assert_eq!(names, vec!["q", "BDC", "EMC", "Q"]);
}
