use printpdf::font::BuiltinFont;
use printpdf::graph::ObjectGraph;
use printpdf::object::{Dictionary, Object, ObjectId};
use printpdf::pdf_resources::{embed, embedded_from, register, resource_name_bytes, Embeddable};
use printpdf::{Embedded, Error, Font, PdfPage, Mm};
use std::rc::Rc;

struct X;

impl X {
    fn hi(&self) {}
}

impl Embeddable for X {
    const KEY: &'static str = "xx";
    fn embed(&self, doc: &mut ObjectGraph) -> Result<ObjectId, Error> {
        Ok(doc.new_object_id())
    }
}

#[derive(Clone)]
struct Y;

impl Y {
    fn hi(&self) {}
}

impl Embeddable for Y {
    const KEY: &'static str = "xx";
    fn embed(&self, doc: &mut ObjectGraph) -> Result<ObjectId, Error> {
        Ok(doc.new_object_id())
    }
}

#[derive(Clone)]
struct Failing;

impl Embeddable for Failing {
    const KEY: &'static str = "zz";
    fn embed(&self, _doc: &mut ObjectGraph) -> Result<ObjectId, Error> {
        Err(Error::ObjectLimit)
    }
}

fn id(number: u32) -> ObjectId {
    ObjectId { number, generation: 0 }
}

fn category<'a>(dict: &'a Dictionary, key: &[u8]) -> &'a Dictionary {
    match dict.get(key) {
        Some(Object::Dictionary(d)) => d,
        other => panic!("no dictionary under the key: {:?}", other),
    }
}

#[test]
fn test_with_ref() {
    let x = X;

    let mut docu = ObjectGraph::new();
    let x = embed(&mut docu, &x).unwrap();
    x.hi();

    let mut dict = Dictionary::new();
    let _rx = register(&mut dict, &x);
    let rx = register(&mut dict, &x);
    println!("{:?}", &dict);
    rx.hi();

    let mut dict = Dictionary::new();
    let rx = register(&mut dict, &x);
    println!("{:?}", &dict);
    rx.hi();
}

#[test]
fn test_with_owned() {
    let x = Y;

    let mut docu = ObjectGraph::new();
    let x = embed(&mut docu, x).unwrap();
    x.hi();

    let mut dict = Dictionary::new();
    let _rx = register(&mut dict, &x);
    let rx = register(&mut dict, &x);
    println!("{:?}", &dict);
    rx.hi();

    let mut dict = Dictionary::new();
    let rx = register(&mut dict, &x);
    println!("{:?}", &dict);
    rx.hi();
}

#[test]
fn test_with_rc() {
    let x = Rc::new(X);

    let mut docu = ObjectGraph::new();
    let x = embed(&mut docu, x).unwrap();
    x.hi();

    let mut dict = Dictionary::new();
    let _rx = register(&mut dict, &x);
    let rx = register(&mut dict, &x);
    println!("{:?}", &dict);
    rx.hi();

    let mut dict = Dictionary::new();
    let rx = register(&mut dict, &x);
    println!("{:?}", &dict);
    rx.hi();
}

#[test]
fn embed_gives_the_identifier_that_the_resource_returned() {
    let mut docu = ObjectGraph::new();
    let first = embed(&mut docu, Y).unwrap();
    let second = embed(&mut docu, Y).unwrap();
    assert_eq!(first.object_id, id(1));
    assert_eq!(second.object_id, id(2));
    assert_eq!(docu.max_id(), 2);
}

#[test]
fn embed_passes_the_error_of_the_resource_on() {
    let mut docu = ObjectGraph::new();
    assert!(matches!(embed(&mut docu, Failing), Err(Error::ObjectLimit)));
    assert!(matches!(embedded_from(Y, Err(Error::ObjectLimit)), Err(Error::ObjectLimit)));
    let paired = embedded_from(Y, Ok(id(7))).unwrap();
    assert_eq!(paired.object_id, id(7));
}

#[test]
fn registering_twice_gives_the_same_name_and_adds_nothing() {
    let x = Embedded { object: Y, object_id: id(5) };
    let mut dict = Dictionary::new();
    let first = register(&mut dict, &x);
    let after_first = dict.clone();
    let second = register(&mut dict, &x);
    assert_eq!(first.name_index, 0);
    assert_eq!(second.name_index, 0);
    assert_eq!(dict, after_first);
    assert_eq!(dict.len(), 1);
    assert_eq!(category(&dict, b"xx").len(), 1);
    assert_eq!(category(&dict, b"xx").get(b"R0"), Some(&Object::Reference(id(5))));
}

#[test]
fn registering_distinct_resources_gives_dense_names() {
    let mut dict = Dictionary::new();
    let a = Embedded { object: Y, object_id: id(3) };
    let b = Embedded { object: Y, object_id: id(9) };
    let c = Embedded { object: Y, object_id: id(4) };
    assert_eq!(register(&mut dict, &a).name_index, 0);
    assert_eq!(register(&mut dict, &b).name_index, 1);
    assert_eq!(register(&mut dict, &c).name_index, 2);
    assert_eq!(register(&mut dict, &b).name_index, 1);
    let names = category(&dict, b"xx");
    assert_eq!(names.len(), 3);
    assert_eq!(names.key_at(0), &b"R0".to_vec());
    assert_eq!(names.key_at(1), &b"R1".to_vec());
    assert_eq!(names.key_at(2), &b"R2".to_vec());
    assert_eq!(names.value_at(1), &Object::Reference(id(9)));
}

#[test]
fn names_are_given_per_category_and_per_dictionary() {
    let mut dict = Dictionary::new();
    let y = Embedded { object: Y, object_id: id(1) };
    let failing = Embedded { object: Failing, object_id: id(2) };
    assert_eq!(register(&mut dict, &y).name_index, 0);
    assert_eq!(register(&mut dict, &failing).name_index, 0);
    assert_eq!(dict.len(), 2);
    assert_eq!(dict.key_at(0), &b"xx".to_vec());
    assert_eq!(dict.key_at(1), &b"zz".to_vec());
    let mut other = Dictionary::new();
    let z = Embedded { object: Y, object_id: id(8) };
    assert_eq!(register(&mut other, &z).name_index, 0);
}

#[test]
fn resource_names_are_r_and_the_index() {
    assert_eq!(resource_name_bytes(0), b"R0".to_vec());
    assert_eq!(resource_name_bytes(10), b"R10".to_vec());
    assert_eq!(resource_name_bytes(4096), b"R4096".to_vec());
}

#[test]
fn a_page_registers_a_font_under_the_font_category() {
    let mut graph = ObjectGraph::new();
    let font: Font = Font::BuiltinFont(BuiltinFont::TimesBoldItalic);
    let font = embed(&mut graph, font).unwrap();
    assert_eq!(font.object_id, id(1));
    assert_eq!(graph.len(), 1);
    let mut page = PdfPage::new(Mm { micrometres: 500_000 }, Mm { micrometres: 300_000 });
    let first = page.register(&font);
    let again = page.register(&font);
    assert_eq!(first.name_index, 0);
    assert_eq!(again.name_index, 0);
    let fonts = category(page.resources_dict(), b"Font");
    assert_eq!(fonts.len(), 1);
    assert_eq!(fonts.get(b"R0"), Some(&Object::Reference(id(1))));
}

#[test]
fn a_reference_and_a_shared_resource_are_written_as_the_resource_itself() {
    let font = BuiltinFont::Courier;
    let mut direct = ObjectGraph::new();
    let mut by_ref = ObjectGraph::new();
    let mut shared = ObjectGraph::new();
    assert_eq!(font.embed(&mut direct), Ok(id(1)));
    assert_eq!((&font).embed(&mut by_ref), Ok(id(1)));
    assert_eq!(Rc::new(font).embed(&mut shared), Ok(id(1)));
    assert_eq!(by_ref.get(id(1)), direct.get(id(1)));
    assert_eq!(shared.get(id(1)), direct.get(id(1)));
    assert_eq!(by_ref.len(), 1);
    assert_eq!(shared.len(), 1);
    assert_eq!((&Failing).embed(&mut by_ref), Err(Error::ObjectLimit));
    assert_eq!(Rc::new(Failing).embed(&mut shared), Err(Error::ObjectLimit));
    assert_eq!(by_ref.len(), 1);
    let paired = embed(&mut direct, &font).unwrap();
    assert_eq!(paired.object_id, id(2));
    assert_eq!(*paired.object, BuiltinFont::Courier);
    assert_eq!(direct.len(), 2);
}
