//! Putting a document together: from pages, layers and fonts to one object
//! graph.

use vstd::prelude::*;
use vstd::string::StringSliceAdditionalSpecFns;
use crate::font::text_bytes;
use crate::font_list::{fonts_parts_count, fonts_within, fonts_written, FontEntry, FontList};
use crate::font_list::{font_ids, font_ids_distinct, lemma_fonts_written_once};
use crate::graph::{
    graph_add, graph_extends, graph_put, graph_reserve, graph_wf, ids_above_or_among,
    lemma_absent, lemma_add_extends, lemma_extends_self, lemma_extends_trans,
    lemma_put_new_extends, lemma_reserve_extends, next_id, nth_id, objects_get, GraphView,
    ObjectGraph,
};
use crate::graphics::pt_value;
use crate::object::{
    array, entries_distinct, entries_get, lemma_content_value,
    lemma_entries_find, lemma_entries_set, literal, literal_value, name, name_value,
    operations_of, put, reference_array, reference_values, Dictionary, Entries,
    Object, ObjectId, Operation, OperationValue, Value,
};
use crate::pdf_layer::LayerView;
use crate::pdf_document::DocumentView;
use crate::pdf_metadata::{
    text_object, text_value, IccProfileValue, MetadataValue, PdfMetadata,
};
use crate::pdf_page::{PageView, PdfPage};
use crate::scale::Pt;

verus! {

/// The dictionary that says what made the optional content groups.
pub open spec fn usage_entries() -> Entries {
    put(
        put(Entries::empty(), "Type", name_value("OCG")),
        "CreatorInfo",
        Value::Dictionary(
            put(
                put(Entries::empty(), "Creator", literal_value("Adobe Illustrator 14.0")),
                "Subtype",
                name_value("Artwork"),
            ),
        ),
    )
}

/// The array that says what the optional content groups are meant for.
pub open spec fn intent_value() -> Value {
    Value::Array(seq![name_value("View"), name_value("Design")])
}

/// The optional content group of a layer of the given name.
pub open spec fn group_entries(layer_name: Seq<char>, intent: ObjectId, usage: ObjectId) -> Entries {
    put(
        put(
            put(put(Entries::empty(), "Type", name_value("OCG")), "Name", text_value(layer_name)),
            "Intent",
            Value::Reference(intent),
        ),
        "Usage",
        Value::Reference(usage),
    )
}

/// The names of the layers of a page, in order.
pub open spec fn page_layer_names(page: PageView) -> Seq<Seq<char>> {
    Seq::new(page.layers.len(), |i: int| page.layers[i].name)
}

/// The names of the layers of the first `n` pages: page by page, and
/// within a page layer by layer.
pub open spec fn layer_names(pages: Seq<PageView>, n: nat) -> Seq<Seq<char>>
    decreases n,
{
    if n == 0 || n > pages.len() {
        Seq::empty()
    } else {
        layer_names(pages, (n - 1) as nat) + page_layer_names(pages[n - 1])
    }
}

/// The graph after the optional content groups of the first `n` layer
/// names are added.
pub open spec fn graph_with_groups(
    g: GraphView,
    names: Seq<Seq<char>>,
    intent: ObjectId,
    usage: ObjectId,
    n: nat,
) -> GraphView
    decreases n,
{
    if n == 0 || n > names.len() {
        g
    } else {
        graph_add(
            graph_with_groups(g, names, intent, usage, (n - 1) as nat),
            Value::Dictionary(group_entries(names[n - 1], intent, usage)),
        )
    }
}

/// The identifiers that follow the highest of a graph: `count` of them,
/// after `skip` others.
pub open spec fn following_ids(g: GraphView, skip: nat, count: nat) -> Seq<ObjectId> {
    Seq::new(count, |i: int| nth_id(g, skip + i + 1))
}

/// Adding groups raises the highest identifier by their number and leaves
/// the rest of the graph as it is.
pub proof fn lemma_graph_with_groups(
    g: GraphView,
    names: Seq<Seq<char>>,
    intent: ObjectId,
    usage: ObjectId,
    n: nat,
)
    requires
        n <= names.len(),
        g.max_id + n <= u32::MAX,
    ensures
        graph_with_groups(g, names, intent, usage, n).max_id == g.max_id + n,
        graph_with_groups(g, names, intent, usage, n).objects.len() == g.objects.len() + n,
        graph_with_groups(g, names, intent, usage, n).version == g.version,
        graph_with_groups(g, names, intent, usage, n).trailer == g.trailer,
        forall|i: int|
            0 <= i < n ==> (#[trigger] graph_with_groups(g, names, intent, usage, n).objects[g.objects.len()
                + i]) == (
                nth_id(g, i + 1),
                Value::Dictionary(group_entries(names[i], intent, usage)),
            ),
        forall|i: int|
            0 <= i < g.objects.len() ==> (#[trigger] graph_with_groups(
                g,
                names,
                intent,
                usage,
                n,
            ).objects[i]) == g.objects[i],
    decreases n,
{
    if n > 0 {
        lemma_graph_with_groups(g, names, intent, usage, (n - 1) as nat);
    }
}

/// The layer names of more pages start with those of fewer.
pub proof fn lemma_layer_names_len(pages: Seq<PageView>, a: nat, b: nat)
    requires
        a <= b <= pages.len(),
    ensures
        layer_names(pages, a).len() <= layer_names(pages, b).len(),
        a < b ==> layer_names(pages, a).len() + pages[a as int].layers.len() <= layer_names(
            pages,
            b,
        ).len(),
        forall|i: int|
            0 <= i < layer_names(pages, a).len() ==> layer_names(pages, a)[i] == layer_names(
                pages,
                b,
            )[i],
        a < b ==> forall|l: int|
            0 <= l < pages[a as int].layers.len() ==> #[trigger] layer_names(pages, b)[layer_names(
                pages,
                a,
            ).len() + l] == pages[a as int].layers[l].name,
    decreases b,
{
    if a < b {
        lemma_layer_names_len(pages, a, (b - 1) as nat);
        if a < b - 1 {
        } else {
            assert(layer_names(pages, b) == layer_names(pages, a) + page_layer_names(
                pages[a as int],
            ));
        }
    }
}

/// The optional content group of a layer.
pub fn group_object(layer_name: &String, intent: ObjectId, usage: ObjectId) -> (o: Object)
    ensures
        o@ == Value::Dictionary(group_entries(layer_name@, intent, usage)),
{
    let mut d = Dictionary::new();
    d.put("Type", name("OCG"));
    d.put("Name", text_object(layer_name));
    d.put("Intent", Object::Reference(intent));
    d.put("Usage", Object::Reference(usage));
    Object::Dictionary(d)
}

/// The references to the optional content groups of one page, each with
/// the place of its layer in the page.
pub open spec fn page_groups(g: GraphView, skip: nat, count: nat) -> Seq<(usize, Value)> {
    Seq::new(count, |l: int| (l as usize, Value::Reference(nth_id(g, skip + l + 1))))
}

/// The values of a list of numbered group references.
pub open spec fn numbered_values(groups: Seq<(usize, Object)>) -> Seq<(usize, Value)> {
    Seq::new(groups.len(), |i: int| (groups[i].0, groups[i].1@))
}

/// Adds an optional content group for every layer of every page, page by
/// page, and gives for each page the references to the groups of its
/// layers.
pub fn write_groups(doc: &mut ObjectGraph, pages: &Vec<PdfPage>, intent: ObjectId, usage: ObjectId)
    -> (r: (Vec<Vec<(usize, Object)>>, Vec<ObjectId>))
    requires
        old(doc)@.max_id + layer_names(crate::pdf_document::pages_of(pages@), pages@.len()).len()
            <= u32::MAX,
    ensures
        ({
            let groups = r.0;
            &&& groups@.len() == pages@.len()
            &&& forall|p: int|
                0 <= p < pages@.len() ==> numbered_values((#[trigger] groups@[p])@) == page_groups(
                    old(doc)@,
                    layer_names(crate::pdf_document::pages_of(pages@), p as nat).len(),
                    pages@[p]@.layers.len(),
                )
        }),
        r.1@ == following_ids(
            old(doc)@,
            0,
            layer_names(crate::pdf_document::pages_of(pages@), pages@.len()).len(),
        ),
        final(doc)@ == graph_with_groups(
            old(doc)@,
            layer_names(crate::pdf_document::pages_of(pages@), pages@.len()),
            intent,
            usage,
            layer_names(crate::pdf_document::pages_of(pages@), pages@.len()).len(),
        ),
{
    let ghost all = crate::pdf_document::pages_of(pages@);
    let ghost names = layer_names(all, pages@.len());
    let ghost g0 = doc@;
    let mut groups: Vec<Vec<(usize, Object)>> = Vec::new();
    let mut flat: Vec<ObjectId> = Vec::new();
    let mut p: usize = 0;
    assert(flat@ =~= following_ids(g0, 0, 0));
    while p < pages.len()
        invariant
            p <= pages@.len(),
            flat@ == following_ids(g0, 0, layer_names(all, p as nat).len()),
            all == crate::pdf_document::pages_of(pages@),
            names == layer_names(all, pages@.len()),
            g0.max_id + names.len() <= u32::MAX,
            doc@ == graph_with_groups(
                g0,
                names,
                intent,
                usage,
                layer_names(all, p as nat).len(),
            ),
            groups@.len() == p,
            forall|q: int|
                0 <= q < p ==> numbered_values((#[trigger] groups@[q])@) == page_groups(
                    g0,
                    layer_names(all, q as nat).len(),
                    pages@[q]@.layers.len(),
                ),
        decreases pages@.len() - p,
    {
        let page = &pages[p];
        let ghost skip = layer_names(all, p as nat).len();
        proof {
            lemma_layer_names_len(all, p as nat, pages@.len() as nat);
            assert(all[p as int] == pages@[p as int]@);
        }
        let mut of_page: Vec<(usize, Object)> = Vec::new();
        let mut l: usize = 0;
        let count = page.layer_count();
        while l < count
            invariant
                l <= count,
                count == page@.layers.len(),
                skip + count <= names.len(),
                skip == layer_names(all, p as nat).len(),
                p < pages@.len(),
                all[p as int] == page@,
                forall|k: int|
                    0 <= k < count ==> #[trigger] names[skip + k] == page@.layers[k].name,
                g0.max_id + names.len() <= u32::MAX,
                doc@ == graph_with_groups(g0, names, intent, usage, (skip + l) as nat),
                flat@ == following_ids(g0, 0, (skip + l) as nat),
                of_page@.len() == l,
                forall|k: int|
                    0 <= k < l ==> (#[trigger] of_page@[k]).0 == k && of_page@[k].1@
                        == Value::Reference(nth_id(g0, skip + k + 1)),
            decreases count - l,
        {
            proof {
                lemma_graph_with_groups(g0, names, intent, usage, (skip + l) as nat);
                assert(names[skip + l] == page@.layers[l as int].name);
            }
            let id = doc.add_object(group_object(page.layer(l).name(), intent, usage));
            of_page.push((l, Object::Reference(id)));
            flat.push(id);
            assert(flat@ =~= following_ids(g0, 0, (skip + l + 1) as nat));
            l += 1;
        }
        assert(numbered_values(of_page@) =~= page_groups(g0, skip, count as nat));
        proof {
            assert(layer_names(all, (p + 1) as nat) == layer_names(all, p as nat)
                + page_layer_names(all[p as int]));
        }
        groups.push(of_page);
        p += 1;
    }
    (groups, flat)
}


/// The box of a page: from the lower left corner to the width and the
/// height.
pub open spec fn box_value(width: Pt, height: Pt) -> Value {
    Value::Array(
        seq![Value::Integer(0), Value::Integer(0), pt_value(width), pt_value(height)],
    )
}

/// The dictionary of a page: its three boxes are the same, it is not
/// rotated, and it refers to its parent, to its resources if it has any,
/// and to its content.
pub open spec fn page_entries(
    width: Pt,
    height: Pt,
    parent: ObjectId,
    resources: Option<ObjectId>,
    contents: ObjectId,
) -> Entries {
    let e0 = put(Entries::empty(), "Type", name_value("Page"));
    let e1 = put(e0, "Rotate", Value::Integer(0));
    let e2 = put(e1, "MediaBox", box_value(width, height));
    let e3 = put(e2, "TrimBox", box_value(width, height));
    let e4 = put(e3, "CropBox", box_value(width, height));
    let e5 = put(e4, "Parent", Value::Reference(parent));
    let e6 = match resources {
        Some(id) => put(e5, "Resources", Value::Reference(id)),
        None => e5,
    };
    put(e6, "Contents", Value::Reference(contents))
}

/// The content of a page: the contents of its first `n` layers, one after
/// the other.
pub open spec fn page_content(page: PageView, n: nat) -> Seq<OperationValue>
    decreases n,
{
    if n == 0 || n > page.layers.len() {
        Seq::empty()
    } else {
        page_content(page, (n - 1) as nat) + page.layer_content(n - 1)
    }
}

/// The resource dictionary of a page in a document: that of the page, with
/// the fonts of the document under `Font` if the document has fonts.
pub open spec fn page_resources(page: PageView, groups: Seq<Value>, fonts: Option<ObjectId>)
    -> Entries {
    match fonts {
        Some(id) => put(page.resource_entries(groups), "Font", Value::Reference(id)),
        None => page.resource_entries(groups),
    }
}

/// The number of objects that a page adds: its content and its dictionary,
/// and its resource dictionary unless that is empty.
pub open spec fn page_objects(page: PageView, groups: Seq<Value>, fonts: Option<ObjectId>) -> int {
    if page_resources(page, groups, fonts).len() > 0 {
        3
    } else {
        2
    }
}

/// The number of objects that a page adds in a document with or without
/// fonts: its content and its dictionary, and its resource dictionary if
/// the document has fonts or the page has resources of its own.
pub open spec fn page_count(page: PageView, with_fonts: bool) -> nat {
    if with_fonts || page.has_resources() {
        3
    } else {
        2
    }
}

/// The number of objects that the first `n` pages add.
pub open spec fn pages_count(pages: Seq<PageView>, with_fonts: bool, n: nat) -> nat
    decreases n,
{
    if n == 0 || n > pages.len() {
        0
    } else {
        pages_count(pages, with_fonts, (n - 1) as nat) + page_count(pages[n - 1], with_fonts)
    }
}

/// A page that is given one group for each of its layers adds three
/// objects if the document has fonts or the page has resources of its own,
/// and two otherwise.
pub proof fn lemma_page_objects(page: PageView, groups: Seq<Value>, fonts: Option<ObjectId>)
    requires
        groups.len() == page.layers.len(),
    ensures
        page_objects(page, groups, fonts) == page_count(page, fonts is Some),
{
    page.lemma_resource_entries_len(groups);
}

/// More pages add more objects: two or three each.
pub proof fn lemma_pages_count(pages: Seq<PageView>, with_fonts: bool, a: nat, b: nat)
    requires
        a <= b <= pages.len(),
    ensures
        pages_count(pages, with_fonts, a) <= pages_count(pages, with_fonts, b),
        a < b ==> pages_count(pages, with_fonts, a) + page_count(pages[a as int], with_fonts)
            <= pages_count(pages, with_fonts, b),
        2 * b <= pages_count(pages, with_fonts, b) <= 3 * b,
    decreases b,
{
    if b > 0 {
        if a < b {
            lemma_pages_count(pages, with_fonts, a, (b - 1) as nat);
        } else {
            lemma_pages_count(pages, with_fonts, (b - 1) as nat, (b - 1) as nat);
        }
    }
}

/// The graph after a page is added: its resource dictionary unless that is
/// empty, its content, and its dictionary.
pub open spec fn graph_with_page(
    g: GraphView,
    page: PageView,
    groups: Seq<Value>,
    fonts: Option<ObjectId>,
    parent: ObjectId,
) -> GraphView {
    let resources = page_resources(page, groups, fonts);
    let g1 = if resources.len() > 0 {
        graph_add(g, Value::Dictionary(resources))
    } else {
        g
    };
    let g2 = graph_add(g1, Value::Content(page_content(page, page.layers.len())));
    graph_add(
        g2,
        Value::Dictionary(
            page_entries(
                page.width,
                page.height,
                parent,
                if resources.len() > 0 {
                    Some(next_id(g))
                } else {
                    None
                },
                next_id(g1),
            ),
        ),
    )
}

/// The box of a page.
fn box_object(width: Pt, height: Pt) -> (o: Object)
    ensures
        o@ == box_value(width, height),
{
    let mut v: Vec<Object> = Vec::new();
    v.push(Object::Integer(0));
    v.push(Object::Integer(0));
    v.push(crate::graphics::pt_operand(width));
    v.push(crate::graphics::pt_operand(height));
    let o = array(v);
    assert(o@->Array_0 =~= box_value(width, height)->Array_0);
    o
}

/// The content of a page from the contents of its layers.
fn merge_streams(page: Ghost<PageView>, streams: Vec<Vec<Operation>>) -> (content: Vec<Operation>)
    requires
        streams@.len() == page@.layers.len(),
        forall|i: int|
            0 <= i < streams@.len() ==> operations_of((#[trigger] streams@[i])@)
                == page@.layer_content(i),
    ensures
        operations_of(content@) == page_content(page@, page@.layers.len()),
{
    let mut content: Vec<Operation> = Vec::new();
    let mut rest = streams;
    let n = rest.len();
    let mut i: usize = 0;
    assert(operations_of(content@) =~= page_content(page@, 0));
    while i < n
        invariant
            i <= n,
            n == page@.layers.len(),
            rest@.len() == n,
            forall|j: int|
                i <= j < n ==> operations_of((#[trigger] rest@[j])@) == page@.layer_content(j),
            operations_of(content@) == page_content(page@, i as nat),
        decreases n - i,
    {
        let mut stream: Vec<Operation> = Vec::new();
        std::mem::swap(&mut rest[i], &mut stream);
        let ghost before = operations_of(content@);
        let ghost added = operations_of(stream@);
        content.append(&mut stream);
        assert(operations_of(content@) =~= before + added);
        i += 1;
    }
    content
}

/// Adds a page to the graph and gives the identifier of its dictionary.
pub fn write_page(
    doc: &mut ObjectGraph,
    page: PdfPage,
    groups: &Vec<(usize, Object)>,
    fonts: Option<ObjectId>,
    parent: ObjectId,
) -> (id: ObjectId)
    requires
        old(doc)@.max_id + page_objects(page@, crate::pdf_page::group_values(groups@), fonts)
            <= u32::MAX,
        groups@.len() >= page@.layers.len(),
    ensures
        final(doc)@ == graph_with_page(
            old(doc)@,
            page@,
            crate::pdf_page::group_values(groups@),
            fonts,
            parent,
        ),
        id == nth_id(
            old(doc)@,
            page_objects(page@, crate::pdf_page::group_values(groups@), fonts),
        ),
        final(doc)@.max_id == old(doc)@.max_id + page_objects(
            page@,
            crate::pdf_page::group_values(groups@),
            fonts,
        ),
{
    let width = page.width();
    let height = page.height();
    let ghost view = page@;
    let (mut resources, streams) = page.collect_resources_and_streams(groups);
    if let Some(f) = fonts {
        resources.put("Font", Object::Reference(f));
    }
    let resources_id = if resources.len() > 0 {
        Some(doc.add_object(Object::Dictionary(resources)))
    } else {
        None
    };
    let content = merge_streams(Ghost(view), streams);
    proof {
        lemma_content_value(content);
    }
    let contents_id = doc.add_object(Object::Content(content));
    let mut p = Dictionary::new();
    p.put("Type", name("Page"));
    p.put("Rotate", Object::Integer(0));
    p.put("MediaBox", box_object(width, height));
    p.put("TrimBox", box_object(width, height));
    p.put("CropBox", box_object(width, height));
    p.put("Parent", Object::Reference(parent));
    if let Some(id) = resources_id {
        p.put("Resources", Object::Reference(id));
    }
    p.put("Contents", Object::Reference(contents_id));
    doc.add_object(Object::Dictionary(p))
}


/// The references to the optional content groups of one page.
pub open spec fn page_group_values(g: GraphView, skip: nat, count: nat) -> Seq<Value> {
    Seq::new(count, |l: int| Value::Reference(nth_id(g, skip + l + 1)))
}

/// The graph after the first `n` pages are added, and the identifiers of
/// their dictionaries. The optional content groups of the pages were added
/// to the graph `base` before, in the order of the layers.
pub open spec fn graph_with_pages(
    g: GraphView,
    pages: Seq<PageView>,
    base: GraphView,
    fonts: Option<ObjectId>,
    parent: ObjectId,
    n: nat,
) -> (GraphView, Seq<ObjectId>)
    decreases n,
{
    if n == 0 || n > pages.len() {
        (g, Seq::empty())
    } else {
        let (g1, ids) = graph_with_pages(g, pages, base, fonts, parent, (n - 1) as nat);
        let page = pages[n - 1];
        let groups = page_group_values(
            base,
            layer_names(pages, (n - 1) as nat).len(),
            page.layers.len(),
        );
        (
            graph_with_page(g1, page, groups, fonts, parent),
            ids.push(nth_id(g1, page_objects(page, groups, fonts))),
        )
    }
}

/// Adding pages raises the highest identifier by the number of objects
/// that the pages add, and gives one identifier for each page.
pub proof fn lemma_graph_with_pages(
    g: GraphView,
    pages: Seq<PageView>,
    base: GraphView,
    fonts: Option<ObjectId>,
    parent: ObjectId,
    n: nat,
)
    requires
        n <= pages.len(),
        g.max_id + pages_count(pages, fonts is Some, n) <= u32::MAX,
    ensures
        graph_with_pages(g, pages, base, fonts, parent, n).0.max_id == g.max_id + pages_count(
            pages,
            fonts is Some,
            n,
        ),
        graph_with_pages(g, pages, base, fonts, parent, n).1.len() == n,
        graph_with_pages(g, pages, base, fonts, parent, n).0.version == g.version,
        graph_with_pages(g, pages, base, fonts, parent, n).0.trailer == g.trailer,
    decreases n,
{
    if n > 0 {
        lemma_graph_with_pages(g, pages, base, fonts, parent, (n - 1) as nat);
        let page = pages[n - 1];
        lemma_page_objects(
            page,
            page_group_values(base, layer_names(pages, (n - 1) as nat).len(), page.layers.len()),
            fonts,
        );
    }
}

/// Adds the pages to the graph, in order, and gives the identifiers of
/// their dictionaries.
pub(crate) fn write_pages(
    doc: &mut ObjectGraph,
    pages: Vec<PdfPage>,
    groups: &Vec<Vec<(usize, Object)>>,
    base: Ghost<GraphView>,
    fonts: Option<ObjectId>,
    parent: ObjectId,
) -> (ids: Vec<ObjectId>)
    requires
        old(doc)@.max_id + pages_count(
            crate::pdf_document::pages_of(pages@),
            fonts is Some,
            pages@.len(),
        ) <= u32::MAX,
        groups@.len() == pages@.len(),
        forall|p: int|
            0 <= p < pages@.len() ==> numbered_values((#[trigger] groups@[p])@) == page_groups(
                base@,
                layer_names(crate::pdf_document::pages_of(pages@), p as nat).len(),
                pages@[p]@.layers.len(),
            ),
    ensures
        (final(doc)@, ids@) == graph_with_pages(
            old(doc)@,
            crate::pdf_document::pages_of(pages@),
            base@,
            fonts,
            parent,
            pages@.len(),
        ),
{
    let ghost all = crate::pdf_document::pages_of(pages@);
    let ghost g0 = doc@;
    let mut ids: Vec<ObjectId> = Vec::new();
    let mut rest = pages;
    let n = rest.len();
    let mut p: usize = 0;
    while p < n
        invariant
            p <= n,
            n == all.len(),
            rest@.len() == n,
            groups@.len() == n,
            g0.max_id + pages_count(all, fonts is Some, n as nat) <= u32::MAX,
            forall|q: int| p <= q < n ==> (#[trigger] rest@[q])@ == all[q],
            forall|q: int|
                0 <= q < n ==> numbered_values((#[trigger] groups@[q])@) == page_groups(
                    base@,
                    layer_names(all, q as nat).len(),
                    all[q].layers.len(),
                ),
            (doc@, ids@) == graph_with_pages(g0, all, base@, fonts, parent, p as nat),
        decreases n - p,
    {
        proof {
            lemma_pages_count(all, fonts is Some, p as nat, n as nat);
            lemma_graph_with_pages(g0, all, base@, fonts, parent, p as nat);
        }
        let mut page = PdfPage::new(
            crate::scale::Mm { micrometres: 0 },
            crate::scale::Mm { micrometres: 0 },
        );
        std::mem::swap(&mut rest[p], &mut page);
        let of_page = &groups[p];
        proof {
            let skip = layer_names(all, p as nat).len();
            let count = all[p as int].layers.len();
            assert(numbered_values(of_page@) == page_groups(base@, skip, count));
            assert(of_page@.len() == numbered_values(of_page@).len());
            assert forall|l: int| 0 <= l < count implies crate::pdf_page::group_values(
                of_page@,
            )[l] == page_group_values(base@, skip, count)[l] by {
                assert(numbered_values(of_page@)[l].1 == of_page@[l].1@);
            }
            assert(crate::pdf_page::group_values(of_page@) =~= page_group_values(
                base@,
                skip,
                count,
            ));
            lemma_page_objects(all[p as int], page_group_values(base@, skip, count), fonts);
        }
        let id = write_page(doc, page, of_page, fonts, parent);
        ids.push(id);
        p += 1;
    }
    ids
}

/// What a document is printed on, for the given output profile.
pub open spec fn output_intent_entries(profile: ObjectId) -> Entries {
    let e0 = put(Entries::empty(), "S", name_value("GTS_PDFX"));
    let e1 = put(
        e0,
        "OutputCondition",
        literal_value(
            "Commercial and special offset print acccording to ISO 12647-2:2004 / Amd 1, paper type 1 or 2 (matte or gloss-coated offset paper, 115 g/m2), screen ruling 60/cm",
        ),
    );
    let e2 = put(e1, "Type", name_value("OutputIntent"));
    let e3 = put(e2, "OutputConditionIdentifier", literal_value("FOGRA39"));
    let e4 = put(e3, "RegistryName", literal_value("http://www.color.org"));
    let e5 = put(e4, "Info", literal_value("Coated FOGRA39 (ISO 12647-2:2004)"));
    put(e5, "DestinationOutputProfile", Value::Reference(profile))
}

/// How a viewer starts out: the groups in their order, none of them tied
/// to another, and all of them shown.
pub open spec fn group_settings_entries(groups: Seq<ObjectId>) -> Entries {
    put(
        put(
            put(Entries::empty(), "Order", Value::Array(reference_values(groups))),
            "RBGroups",
            Value::Array(Seq::empty()),
        ),
        "ON",
        Value::Array(reference_values(groups)),
    )
}

/// The optional content of a document: its groups, and how a viewer starts
/// out.
pub open spec fn oc_properties_entries(groups: Seq<ObjectId>) -> Entries {
    put(
        put(Entries::empty(), "OCGs", Value::Array(reference_values(groups))),
        "D",
        Value::Dictionary(group_settings_entries(groups)),
    )
}

/// The catalog of a document.
pub open spec fn catalog_entries(
    pages: ObjectId,
    output_profile: Option<ObjectId>,
    metadata: Option<ObjectId>,
    groups: Seq<ObjectId>,
) -> Entries {
    let e0 = put(Entries::empty(), "Type", name_value("Catalog"));
    let e1 = put(e0, "PageLayout", name_value("OneColumn"));
    let e2 = put(e1, "PageMode", name_value("UseOC"));
    let e3 = put(e2, "Pages", Value::Reference(pages));
    let e4 = match output_profile {
        Some(id) => put(
            e3,
            "OutputIntents",
            Value::Array(seq![Value::Dictionary(output_intent_entries(id))]),
        ),
        None => e3,
    };
    let e5 = match metadata {
        Some(id) => put(e4, "Metadata", Value::Reference(id)),
        None => e4,
    };
    put(e5, "OCProperties", Value::Dictionary(oc_properties_entries(groups)))
}

/// The dictionary that holds the pages of a document.
pub open spec fn pages_entries(count: nat, kids: Seq<ObjectId>) -> Entries {
    put(
        put(put(Entries::empty(), "Type", name_value("Pages")), "Count", Value::Integer(count as i64)),
        "Kids",
        Value::Array(reference_values(kids)),
    )
}

/// The two identifiers of a file: that of the document, and that of this
/// writing of it.
pub open spec fn file_id_value(document_id: Seq<char>, instance_id: Seq<char>) -> Value {
    Value::Array(seq![text_value(document_id), text_value(instance_id)])
}

/// The catalog of a document.
pub fn catalog_dictionary(
    pages: ObjectId,
    output_profile: Option<ObjectId>,
    metadata: Option<ObjectId>,
    groups: &Vec<ObjectId>,
) -> (d: Dictionary)
    ensures
        d@ == catalog_entries(pages, output_profile, metadata, groups@),
{
    let mut d = Dictionary::new();
    d.put("Type", name("Catalog"));
    d.put("PageLayout", name("OneColumn"));
    d.put("PageMode", name("UseOC"));
    d.put("Pages", Object::Reference(pages));
    if let Some(id) = output_profile {
        let mut intent = Dictionary::new();
        intent.put("S", name("GTS_PDFX"));
        intent.put(
            "OutputCondition",
            literal(
                "Commercial and special offset print acccording to ISO 12647-2:2004 / Amd 1, paper type 1 or 2 (matte or gloss-coated offset paper, 115 g/m2), screen ruling 60/cm",
            ),
        );
        intent.put("Type", name("OutputIntent"));
        intent.put("OutputConditionIdentifier", literal("FOGRA39"));
        intent.put("RegistryName", literal("http://www.color.org"));
        intent.put("Info", literal("Coated FOGRA39 (ISO 12647-2:2004)"));
        intent.put("DestinationOutputProfile", Object::Reference(id));
        let mut intents: Vec<Object> = Vec::new();
        intents.push(Object::Dictionary(intent));
        let intents = array(intents);
        assert(intents@->Array_0 =~= seq![Value::Dictionary(output_intent_entries(id))]);
        d.put("OutputIntents", intents);
    }
    if let Some(id) = metadata {
        d.put("Metadata", Object::Reference(id));
    }
    let mut settings = Dictionary::new();
    settings.put("Order", reference_array(groups));
    let none = array(Vec::new());
    assert(none@->Array_0 =~= Seq::<Value>::empty());
    settings.put("RBGroups", none);
    settings.put("ON", reference_array(groups));
    let mut properties = Dictionary::new();
    properties.put("OCGs", reference_array(groups));
    properties.put("D", Object::Dictionary(settings));
    d.put("OCProperties", Object::Dictionary(properties));
    d
}


/// The profile that a document embeds: the one it was given, if its
/// conformance asks for a profile.
pub open spec fn embedded_profile(metadata: MetadataValue) -> Option<IccProfileValue> {
    if metadata.conformance.requires_icc_profile {
        metadata.target_icc_profile
    } else {
        None
    }
}

/// The number of dictionaries that list the fonts of a document: one,
/// unless the document has no font.
pub open spec fn font_lists(fonts: Seq<FontEntry>) -> nat {
    if fonts.len() > 0 {
        1
    } else {
        0
    }
}

/// The number of objects that the assembly of a document adds to its
/// graph, or sets aside in it: those of the first steps, one for every
/// layer, those of the fonts and of their list, two or three for every
/// page, and the catalog.
pub open spec fn object_count(doc: DocumentView) -> nat {
    (preamble_count(doc.metadata) + body_count(doc.pages, doc.fonts) + 1) as nat
}

/// The graph before the optional content groups are added: an identifier
/// is set aside for the dictionary of the pages; then come the XMP
/// metadata, if the conformance asks for it, the document information, the
/// output profile, if there is one to embed, the dictionary that says what
/// made the groups, and the array that says what they are meant for.
#[verifier::opaque]
pub open spec fn graph_with_preamble(
    g: GraphView,
    metadata: MetadataValue,
    xmp_instance_id: Seq<char>,
) -> GraphView {
    let g1 = graph_reserve(g);
    let g2 = if metadata.conformance.requires_xmp_metadata {
        graph_add(g1, metadata.xmp_value(xmp_instance_id))
    } else {
        g1
    };
    let g3 = graph_add(g2, Value::Dictionary(metadata.info_entries()));
    let g4 = match embedded_profile(metadata) {
        Some(p) => graph_add(g3, p.stream_value()),
        None => g3,
    };
    let g5 = graph_add(g4, Value::Dictionary(usage_entries()));
    graph_add(g5, intent_value())
}

/// The identifiers that the first steps of the assembly hand out.
#[derive(Debug, Clone, Copy, PartialEq, Eq, Structural)]
pub struct PreambleIds {
    pub pages: ObjectId,
    pub metadata: Option<ObjectId>,
    pub info: ObjectId,
    pub profile: Option<ObjectId>,
    pub usage: ObjectId,
    pub intent: ObjectId,
}

/// The number of objects that the first steps add or set aside.
pub open spec fn preamble_count(metadata: MetadataValue) -> int {
    4 + (if metadata.conformance.requires_xmp_metadata {
        1int
    } else {
        0int
    }) + (if embedded_profile(metadata) is Some {
        1int
    } else {
        0int
    })
}

/// The identifiers that the first steps of the assembly hand out.
pub open spec fn preamble_ids(g: GraphView, metadata: MetadataValue) -> PreambleIds {
    let x: int = if metadata.conformance.requires_xmp_metadata {
        1
    } else {
        0
    };
    let p: int = if embedded_profile(metadata) is Some {
        1
    } else {
        0
    };
    PreambleIds {
        pages: nth_id(g, 1),
        metadata: if x == 1 {
            Some(nth_id(g, 2))
        } else {
            None
        },
        info: nth_id(g, 2 + x),
        profile: if p == 1 {
            Some(nth_id(g, 3 + x))
        } else {
            None
        },
        usage: nth_id(g, 3 + x + p),
        intent: nth_id(g, 4 + x + p),
    }
}

/// The first steps raise the highest identifier by the number of objects
/// that they add or set aside, and leave the version and the trailer as
/// they are.
pub proof fn lemma_graph_with_preamble(
    g: GraphView,
    metadata: MetadataValue,
    xmp_instance_id: Seq<char>,
)
    requires
        g.max_id + preamble_count(metadata) <= u32::MAX,
    ensures
        graph_with_preamble(g, metadata, xmp_instance_id).max_id == g.max_id + preamble_count(
            metadata,
        ),
        graph_with_preamble(g, metadata, xmp_instance_id).objects.len() == g.objects.len()
            + preamble_count(metadata) - 1,
        graph_with_preamble(g, metadata, xmp_instance_id).version == g.version,
        graph_with_preamble(g, metadata, xmp_instance_id).trailer == g.trailer,
{
    reveal(graph_with_preamble);
}

/// Takes the first steps of the assembly.
pub fn write_preamble(doc: &mut ObjectGraph, metadata: PdfMetadata, xmp_instance_id: &String) -> (ids:
    PreambleIds)
    requires
        old(doc)@.max_id + preamble_count(metadata@) <= u32::MAX,
    ensures
        final(doc)@ == graph_with_preamble(old(doc)@, metadata@, xmp_instance_id@),
        ids == preamble_ids(old(doc)@, metadata@),
{
    reveal(graph_with_preamble);
    let pages_id = doc.new_object_id();
    let metadata_id = if metadata.conformance.must_have_xmp_metadata() {
        Some(doc.add_object(metadata.xmp_stream(xmp_instance_id)))
    } else {
        None
    };
    let info_id = doc.add_object(Object::Dictionary(metadata.info_dictionary()));
    let profile = if metadata.conformance.must_have_icc_profile() {
        metadata.target_icc_profile
    } else {
        None
    };
    let profile_id = match profile {
        Some(p) => Some(doc.add_object(p.into_stream())),
        None => None,
    };

    let mut creator = Dictionary::new();
    creator.put("Creator", literal("Adobe Illustrator 14.0"));
    creator.put("Subtype", name("Artwork"));
    let mut usage = Dictionary::new();
    usage.put("Type", name("OCG"));
    usage.put("CreatorInfo", Object::Dictionary(creator));
    let usage_id = doc.add_object(Object::Dictionary(usage));

    let mut intent: Vec<Object> = Vec::new();
    intent.push(name("View"));
    intent.push(name("Design"));
    let intent = array(intent);
    assert(intent@->Array_0 =~= intent_value()->Array_0);
    let intent_id = doc.add_object(intent);
    PreambleIds {
        pages: pages_id,
        metadata: metadata_id,
        info: info_id,
        profile: profile_id,
        usage: usage_id,
        intent: intent_id,
    }
}

/// The graph after the groups, the fonts and the pages of a document are
/// added to the graph `g` that the first steps gave, and the identifiers
/// of the dictionaries of the pages.
///
/// One optional content group is added for every layer of every page. The
/// fonts of the document are written once, and the dictionary that lists
/// them is added, unless there is no font. Then every page is added: it
/// refers to the groups of its layers and to the fonts of the document.
#[verifier::opaque]
pub open spec fn graph_with_body(
    g: GraphView,
    pages: Seq<PageView>,
    fonts: Seq<FontEntry>,
    ids: PreambleIds,
) -> (GraphView, Seq<ObjectId>) {
    let names = layer_names(pages, pages.len());
    let g7 = graph_with_groups(g, names, ids.intent, ids.usage, names.len());
    let (g8, listed) = fonts_written(g7, fonts, fonts.len());
    let g9 = if listed.len() > 0 {
        graph_add(g8, Value::Dictionary(listed))
    } else {
        g8
    };
    let fonts_id = if listed.len() > 0 {
        Some(next_id(g8))
    } else {
        None
    };
    graph_with_pages(g9, pages, g, fonts_id, ids.pages, pages.len())
}

/// The number of objects that the groups, the fonts and the pages add.
pub open spec fn body_count(pages: Seq<PageView>, fonts: Seq<FontEntry>) -> nat {
    layer_names(pages, pages.len()).len() + fonts_parts_count(fonts, fonts.len()) + font_lists(
        fonts,
    ) + pages_count(pages, fonts.len() > 0, pages.len())
}

/// The groups, the fonts and the pages raise the highest identifier by no
/// more than their bound, give one identifier for each page, and leave the
/// version and the trailer as they are.
pub proof fn lemma_graph_with_body(
    g: GraphView,
    pages: Seq<PageView>,
    fonts: Seq<FontEntry>,
    ids: PreambleIds,
)
    requires
        fonts_within(fonts, g.max_id),
        g.max_id + body_count(pages, fonts) <= u32::MAX,
    ensures
        g.max_id <= graph_with_body(g, pages, fonts, ids).0.max_id <= g.max_id + body_count(
            pages,
            fonts,
        ),
        graph_with_body(g, pages, fonts, ids).1.len() == pages.len(),
        graph_with_body(g, pages, fonts, ids).0.version == g.version,
        graph_with_body(g, pages, fonts, ids).0.trailer == g.trailer,
{
    reveal(graph_with_body);
    let names = layer_names(pages, pages.len());
    let g7 = graph_with_groups(g, names, ids.intent, ids.usage, names.len());
    lemma_graph_with_groups(g, names, ids.intent, ids.usage, names.len());
    crate::font_list::lemma_fonts_written_max_id(g7, fonts, fonts.len());
    let (g8, listed) = fonts_written(g7, fonts, fonts.len());
    let g9 = if listed.len() > 0 {
        graph_add(g8, Value::Dictionary(listed))
    } else {
        g8
    };
    let fonts_id = if listed.len() > 0 {
        Some(next_id(g8))
    } else {
        None
    };
    lemma_graph_with_pages(g9, pages, g, fonts_id, ids.pages, pages.len());
}

/// Adds the groups, the fonts and the pages of a document to the graph
/// that the first steps gave. Gives the identifiers of the dictionaries of
/// the pages, and those of the groups.
pub fn write_body(doc: &mut ObjectGraph, pages: Vec<PdfPage>, fonts: FontList, ids: PreambleIds)
    -> (r: (Vec<ObjectId>, Vec<ObjectId>))
    requires
        fonts_within(fonts@, old(doc)@.max_id),
        old(doc)@.max_id + body_count(crate::pdf_document::pages_of(pages@), fonts@) <= u32::MAX,
    ensures
        (final(doc)@, r.0@) == graph_with_body(
            old(doc)@,
            crate::pdf_document::pages_of(pages@),
            fonts@,
            ids,
        ),
        r.1@ == following_ids(
            old(doc)@,
            0,
            layer_names(crate::pdf_document::pages_of(pages@), pages@.len()).len(),
        ),
{
    reveal(graph_with_body);
    let ghost all = crate::pdf_document::pages_of(pages@);
    let ghost names = layer_names(all, all.len());
    let ghost g6 = doc@;
    let (groups, flat) = write_groups(doc, &pages, ids.intent, ids.usage);
    proof {
        lemma_graph_with_groups(g6, names, ids.intent, ids.usage, names.len());
        crate::font_list::lemma_fonts_written_max_id(doc@, fonts@, fonts@.len());
    }
    let listed = fonts.into_with_document(doc);
    let fonts_id = if listed.len() > 0 {
        Some(doc.add_object(Object::Dictionary(listed)))
    } else {
        None
    };
    let kids = write_pages(doc, pages, &groups, Ghost(g6), fonts_id, ids.pages);
    (kids, flat)
}

/// The graph after the last steps: the dictionary of the pages is stored
/// under the identifier set aside for it, the catalog is added, and the
/// trailer is made to refer to the catalog and to the document information
/// and to hold the two identifiers of the file.
#[verifier::opaque]
pub open spec fn graph_closed(
    g: GraphView,
    ids: PreambleIds,
    kids: Seq<ObjectId>,
    groups: Seq<ObjectId>,
    document_id: Seq<char>,
    instance_id: Seq<char>,
) -> GraphView {
    let g11 = graph_put(g, ids.pages, Value::Dictionary(pages_entries(kids.len(), kids)));
    let g12 = graph_add(
        g11,
        Value::Dictionary(catalog_entries(ids.pages, ids.profile, ids.metadata, groups)),
    );
    GraphView {
        trailer: put(
            put(
                put(g12.trailer, "Root", Value::Reference(next_id(g11))),
                "Info",
                Value::Reference(ids.info),
            ),
            "ID",
            file_id_value(document_id, instance_id),
        ),
        ..g12
    }
}

/// Takes the last steps of the assembly.
pub fn write_closing(
    doc: &mut ObjectGraph,
    ids: PreambleIds,
    kids: &Vec<ObjectId>,
    groups: &Vec<ObjectId>,
    document_id: &String,
    instance_id: &String,
)
    requires
        old(doc)@.max_id < u32::MAX,
        ids.pages.number <= old(doc)@.max_id,
    ensures
        final(doc)@ == graph_closed(
            old(doc)@,
            ids,
            kids@,
            groups@,
            document_id@,
            instance_id@,
        ),
{
    reveal(graph_closed);
    let mut container = Dictionary::new();
    container.put("Type", name("Pages"));
    #[verifier::truncate]
    let count = kids.len() as i64;
    container.put("Count", Object::Integer(count));
    container.put("Kids", reference_array(kids));
    doc.insert(ids.pages, Object::Dictionary(container));

    let catalog = catalog_dictionary(ids.pages, ids.profile, ids.metadata, groups);
    let catalog_id = doc.add_object(Object::Dictionary(catalog));

    doc.set_trailer(crate::object::bytes_clone("Root".as_bytes()), Object::Reference(catalog_id));
    doc.set_trailer(crate::object::bytes_clone("Info".as_bytes()), Object::Reference(ids.info));
    let mut file_id: Vec<Object> = Vec::new();
    file_id.push(text_object(document_id));
    file_id.push(text_object(instance_id));
    let file_id = array(file_id);
    assert(file_id@->Array_0 =~= file_id_value(document_id@, instance_id@)->Array_0);
    doc.set_trailer(crate::object::bytes_clone("ID".as_bytes()), file_id);
}

/// The graph of an assembled document: the first steps, then the groups,
/// the fonts and the pages, then the last steps.
pub open spec fn assembled(doc: DocumentView, xmp_instance_id: Seq<char>, instance_id: Seq<char>)
    -> GraphView {
    let ids = preamble_ids(doc.graph, doc.metadata);
    let g6 = graph_with_preamble(doc.graph, doc.metadata, xmp_instance_id);
    let (g10, kids) = graph_with_body(g6, doc.pages, doc.fonts, ids);
    graph_closed(
        g10,
        ids,
        kids,
        following_ids(g6, 0, layer_names(doc.pages, doc.pages.len()).len()),
        doc.document_id,
        instance_id,
    )
}

/// Assembles the graph of a document from its parts.
pub(crate) fn assemble(
    graph: ObjectGraph,
    pages: Vec<PdfPage>,
    fonts: FontList,
    metadata: PdfMetadata,
    document_id: &String,
    xmp_instance_id: &String,
    instance_id: &String,
) -> (done: ObjectGraph)
    requires
        fonts_within(fonts@, graph@.max_id),
        graph@.max_id + object_count(
            DocumentView {
                pages: crate::pdf_document::pages_of(pages@),
                fonts: fonts@,
                graph: graph@,
                document_id: document_id@,
                metadata: metadata@,
            },
        ) <= u32::MAX,
    ensures
        done@ == assembled(
            DocumentView {
                pages: crate::pdf_document::pages_of(pages@),
                fonts: fonts@,
                graph: graph@,
                document_id: document_id@,
                metadata: metadata@,
            },
            xmp_instance_id@,
            instance_id@,
        ),
{
    let ghost g0 = graph@;
    let ghost all = crate::pdf_document::pages_of(pages@);
    let ghost listed = fonts@;
    let ghost meta = metadata@;
    let mut doc = graph;
    proof {
        lemma_graph_with_preamble(g0, meta, xmp_instance_id@);
    }
    let ids = write_preamble(&mut doc, metadata, xmp_instance_id);
    let ghost g6 = doc@;
    proof {
        lemma_graph_with_body(g6, all, listed, ids);
    }
    let (kids, groups) = write_body(&mut doc, pages, fonts, ids);
    write_closing(&mut doc, ids, &kids, &groups, document_id, instance_id);
    doc
}


/// Setting a key, given as text, in entries with distinct keys keeps the
/// keys distinct, and the key then has the value.
pub proof fn lemma_put(e: Entries, key: &str, value: Value)
    requires
        entries_distinct(e),
    ensures
        entries_distinct(put(e, key, value)),
        entries_get(put(e, key, value), key.spec_bytes()) == Some(value),
{
    lemma_entries_set(e, key.spec_bytes(), value);
}

/// The catalog holds the optional content of the document under
/// `OCProperties`.
pub proof fn lemma_catalog_groups(
    pages: ObjectId,
    output_profile: Option<ObjectId>,
    metadata: Option<ObjectId>,
    groups: Seq<ObjectId>,
)
    ensures
        entries_get(
            catalog_entries(pages, output_profile, metadata, groups),
            "OCProperties".spec_bytes(),
        ) == Some(Value::Dictionary(oc_properties_entries(groups))),
{
    let e0 = put(Entries::empty(), "Type", name_value("Catalog"));
    lemma_put(Entries::empty(), "Type", name_value("Catalog"));
    let e1 = put(e0, "PageLayout", name_value("OneColumn"));
    lemma_put(e0, "PageLayout", name_value("OneColumn"));
    let e2 = put(e1, "PageMode", name_value("UseOC"));
    lemma_put(e1, "PageMode", name_value("UseOC"));
    let e3 = put(e2, "Pages", Value::Reference(pages));
    lemma_put(e2, "Pages", Value::Reference(pages));
    let e4 = match output_profile {
        Some(id) => put(
            e3,
            "OutputIntents",
            Value::Array(seq![Value::Dictionary(output_intent_entries(id))]),
        ),
        None => e3,
    };
    if let Some(id) = output_profile {
        lemma_put(
            e3,
            "OutputIntents",
            Value::Array(seq![Value::Dictionary(output_intent_entries(id))]),
        );
    }
    let e5 = match metadata {
        Some(id) => put(e4, "Metadata", Value::Reference(id)),
        None => e4,
    };
    if let Some(id) = metadata {
        lemma_put(e4, "Metadata", Value::Reference(id));
    }
    lemma_put(e5, "OCProperties", Value::Dictionary(oc_properties_entries(groups)));
}

/// The optional content of a document lists its groups under `OCGs`, and
/// the same groups, in the same order, as shown at the start under `ON`.
pub proof fn lemma_groups_all_shown(groups: Seq<ObjectId>)
    ensures
        entries_get(oc_properties_entries(groups), "OCGs".spec_bytes()) == Some(
            Value::Array(reference_values(groups)),
        ),
        entries_get(oc_properties_entries(groups), "D".spec_bytes()) == Some(
            Value::Dictionary(group_settings_entries(groups)),
        ),
        entries_get(group_settings_entries(groups), "ON".spec_bytes()) == Some(
            Value::Array(reference_values(groups)),
        ),
        reference_values(groups).len() == groups.len(),
{
    let refs = Value::Array(reference_values(groups));
    let s0 = put(Entries::empty(), "Order", refs);
    lemma_put(Entries::empty(), "Order", refs);
    let s1 = put(s0, "RBGroups", Value::Array(Seq::empty()));
    lemma_put(s0, "RBGroups", Value::Array(Seq::empty()));
    lemma_put(s1, "ON", refs);

    let o0 = put(Entries::empty(), "OCGs", refs);
    lemma_put(Entries::empty(), "OCGs", refs);
    lemma_put(o0, "D", Value::Dictionary(group_settings_entries(groups)));
    assert("OCGs".spec_bytes() != "D".spec_bytes()) by {
        reveal_strlit("OCGs");
        reveal_strlit("D");
        vstd::utf8::is_ascii_chars_encode_utf8("OCGs"@);
        vstd::utf8::is_ascii_chars_encode_utf8("D"@);
    }
    let o1 = oc_properties_entries(groups);
    lemma_entries_find(o0, "D".spec_bytes(), 0);
    assert(o0 =~= seq![("OCGs".spec_bytes(), refs)]);
    assert(o1 =~= o0.push(("D".spec_bytes(), Value::Dictionary(group_settings_entries(groups)))));
    lemma_entries_find(o1, "OCGs".spec_bytes(), 0);
}

/// Pages with the same number of layers each have, together, that number
/// of layers times the number of pages.
pub proof fn lemma_uniform_layer_count(pages: Seq<PageView>, layers: nat, n: nat)
    requires
        n <= pages.len(),
        forall|p: int| 0 <= p < pages.len() ==> (#[trigger] pages[p]).layers.len() == layers,
    ensures
        layer_names(pages, n).len() == n * layers,
    decreases n,
{
    if n > 0 {
        lemma_uniform_layer_count(pages, layers, (n - 1) as nat);
        assert(pages[n - 1].layers.len() == layers);
        assert(layer_names(pages, n).len() == layer_names(pages, (n - 1) as nat).len()
            + page_layer_names(pages[n - 1]).len());
        assert((n - 1) * layers + layers == n * layers) by (nonlinear_arith);
    } else {
        assert(0 * layers == 0) by (nonlinear_arith);
    }
}

/// The last object of an assembled document is its catalog, and the catalog
/// lists one optional content group for every layer of every page: for a
/// document of pages with `layers` layers each, as many groups as pages
/// times `layers`. All of them are shown at the start.
pub proof fn lemma_assembled_groups(
    doc: DocumentView,
    xmp_instance_id: Seq<char>,
    instance_id: Seq<char>,
    layers: nat,
)
    requires
        forall|p: int|
            0 <= p < doc.pages.len() ==> (#[trigger] doc.pages[p]).layers.len() == layers,
    ensures
        ({
            let g = assembled(doc, xmp_instance_id, instance_id);
            let ids = preamble_ids(doc.graph, doc.metadata);
            let groups = following_ids(
                graph_with_preamble(doc.graph, doc.metadata, xmp_instance_id),
                0,
                doc.pages.len() * layers,
            );
            let catalog = catalog_entries(ids.pages, ids.profile, ids.metadata, groups);
            let listed = Value::Array(reference_values(groups));
            &&& g.objects.len() > 0
            &&& g.objects.last().1 == Value::Dictionary(catalog)
            &&& groups.len() == doc.pages.len() * layers
            &&& reference_values(groups).len() == doc.pages.len() * layers
            &&& entries_get(catalog, "OCProperties".spec_bytes()) == Some(
                Value::Dictionary(oc_properties_entries(groups)),
            )
            &&& entries_get(oc_properties_entries(groups), "OCGs".spec_bytes()) == Some(listed)
            &&& entries_get(oc_properties_entries(groups), "D".spec_bytes()) == Some(
                Value::Dictionary(group_settings_entries(groups)),
            )
            &&& entries_get(group_settings_entries(groups), "ON".spec_bytes()) == Some(listed)
        }),
{
    reveal(graph_closed);
    let ids = preamble_ids(doc.graph, doc.metadata);
    let g6 = graph_with_preamble(doc.graph, doc.metadata, xmp_instance_id);
    lemma_uniform_layer_count(doc.pages, layers, doc.pages.len());
    let groups = following_ids(g6, 0, doc.pages.len() * layers);
    lemma_catalog_groups(ids.pages, ids.profile, ids.metadata, groups);
    lemma_groups_all_shown(groups);
}


/// The first steps give a well-formed graph that holds every object of the
/// one before; the objects that they add are numbered above the identifier
/// set aside for the pages.
pub proof fn lemma_preamble_extends(
    g: GraphView,
    metadata: MetadataValue,
    xmp_instance_id: Seq<char>,
    among: Set<ObjectId>,
)
    requires
        graph_wf(g),
        g.max_id + preamble_count(metadata) <= u32::MAX,
        ids_above_or_among(g, g.max_id + 1, among),
    ensures
        graph_extends(g, graph_with_preamble(g, metadata, xmp_instance_id)),
        ids_above_or_among(
            graph_with_preamble(g, metadata, xmp_instance_id),
            g.max_id + 1,
            among,
        ),
{
    reveal(graph_with_preamble);
    let m = g.max_id + 1;
    let g1 = graph_reserve(g);
    lemma_reserve_extends(g);
    assert(ids_above_or_among(g1, m, among));
    let g2 = if metadata.conformance.requires_xmp_metadata {
        graph_add(g1, metadata.xmp_value(xmp_instance_id))
    } else {
        g1
    };
    lemma_extends_self(g1);
    if metadata.conformance.requires_xmp_metadata {
        lemma_add_extends(g1, metadata.xmp_value(xmp_instance_id));
    }
    assert(ids_above_or_among(g2, m, among));
    let v3 = Value::Dictionary(metadata.info_entries());
    let g3 = graph_add(g2, v3);
    lemma_add_extends(g2, v3);
    assert(ids_above_or_among(g3, m, among));
    let g4 = match embedded_profile(metadata) {
        Some(p) => graph_add(g3, p.stream_value()),
        None => g3,
    };
    lemma_extends_self(g3);
    match embedded_profile(metadata) {
        Some(p) => {
            lemma_add_extends(g3, p.stream_value());
        },
        None => {},
    }
    assert(ids_above_or_among(g4, m, among));
    let v5 = Value::Dictionary(usage_entries());
    let g5 = graph_add(g4, v5);
    lemma_add_extends(g4, v5);
    assert(ids_above_or_among(g5, m, among));
    let g6 = graph_add(g5, intent_value());
    lemma_add_extends(g5, intent_value());
    assert(ids_above_or_among(g6, m, among));
    lemma_extends_trans(g, g1, g2);
    lemma_extends_trans(g, g2, g3);
    lemma_extends_trans(g, g3, g4);
    lemma_extends_trans(g, g4, g5);
    lemma_extends_trans(g, g5, g6);
}

/// Adding groups gives a well-formed graph that holds every object of the
/// one before; the groups are numbered above the identifiers handed out
/// before.
pub proof fn lemma_groups_extend(
    g: GraphView,
    names: Seq<Seq<char>>,
    intent: ObjectId,
    usage: ObjectId,
    n: nat,
    m: int,
    among: Set<ObjectId>,
)
    requires
        n <= names.len(),
        graph_wf(g),
        g.max_id + n <= u32::MAX,
        m <= g.max_id,
        ids_above_or_among(g, m, among),
    ensures
        graph_extends(g, graph_with_groups(g, names, intent, usage, n)),
        ids_above_or_among(graph_with_groups(g, names, intent, usage, n), m, among),
    decreases n,
{
    if n == 0 {
        lemma_extends_self(g);
    } else {
        let before = graph_with_groups(g, names, intent, usage, (n - 1) as nat);
        lemma_groups_extend(g, names, intent, usage, (n - 1) as nat, m, among);
        lemma_graph_with_groups(g, names, intent, usage, (n - 1) as nat);
        let v = Value::Dictionary(group_entries(names[n - 1], intent, usage));
        lemma_add_extends(before, v);
        lemma_extends_trans(g, before, graph_add(before, v));
        assert(ids_above_or_among(graph_add(before, v), m, among));
    }
}

/// Adding a page gives a well-formed graph that holds every object of the
/// one before; the objects of the page are numbered above the identifiers
/// handed out before.
pub proof fn lemma_page_extends(
    g: GraphView,
    page: PageView,
    groups: Seq<Value>,
    fonts: Option<ObjectId>,
    parent: ObjectId,
    m: int,
    among: Set<ObjectId>,
)
    requires
        graph_wf(g),
        g.max_id + page_objects(page, groups, fonts) <= u32::MAX,
        m <= g.max_id,
        ids_above_or_among(g, m, among),
    ensures
        graph_extends(g, graph_with_page(g, page, groups, fonts, parent)),
        ids_above_or_among(graph_with_page(g, page, groups, fonts, parent), m, among),
{
    let resources = page_resources(page, groups, fonts);
    let g1 = if resources.len() > 0 {
        graph_add(g, Value::Dictionary(resources))
    } else {
        g
    };
    lemma_extends_self(g);
    if resources.len() > 0 {
        lemma_add_extends(g, Value::Dictionary(resources));
    }
    assert(ids_above_or_among(g1, m, among));
    let v2 = Value::Content(page_content(page, page.layers.len()));
    let g2 = graph_add(g1, v2);
    lemma_add_extends(g1, v2);
    assert(ids_above_or_among(g2, m, among));
    let v3 = Value::Dictionary(
        page_entries(
            page.width,
            page.height,
            parent,
            if resources.len() > 0 {
                Some(next_id(g))
            } else {
                None
            },
            next_id(g1),
        ),
    );
    let g3 = graph_add(g2, v3);
    lemma_add_extends(g2, v3);
    assert(ids_above_or_among(g3, m, among));
    lemma_extends_trans(g, g1, g2);
    lemma_extends_trans(g, g2, g3);
}

/// Adding pages gives a well-formed graph that holds every object of the
/// one before.
pub proof fn lemma_pages_extend(
    g: GraphView,
    pages: Seq<PageView>,
    base: GraphView,
    fonts: Option<ObjectId>,
    parent: ObjectId,
    n: nat,
    m: int,
    among: Set<ObjectId>,
)
    requires
        n <= pages.len(),
        graph_wf(g),
        g.max_id + pages_count(pages, fonts is Some, n) <= u32::MAX,
        m <= g.max_id,
        ids_above_or_among(g, m, among),
    ensures
        graph_extends(g, graph_with_pages(g, pages, base, fonts, parent, n).0),
        ids_above_or_among(graph_with_pages(g, pages, base, fonts, parent, n).0, m, among),
    decreases n,
{
    if n == 0 {
        lemma_extends_self(g);
    } else {
        let k = (n - 1) as nat;
        lemma_pages_extend(g, pages, base, fonts, parent, k, m, among);
        lemma_graph_with_pages(g, pages, base, fonts, parent, k);
        let before = graph_with_pages(g, pages, base, fonts, parent, k).0;
        let page = pages[n - 1];
        let groups = page_group_values(base, layer_names(pages, k).len(), page.layers.len());
        lemma_page_objects(page, groups, fonts);
        lemma_page_extends(before, page, groups, fonts, parent, m, among);
        lemma_extends_trans(g, before, graph_with_page(before, page, groups, fonts, parent));
    }
}

/// The graph into which the font at the place `i` of a document is written:
/// the one after the first steps, the groups, and the fonts before it.
pub open spec fn graph_before_font(doc: DocumentView, xmp_instance_id: Seq<char>, i: nat)
    -> GraphView {
    let ids = preamble_ids(doc.graph, doc.metadata);
    let g6 = graph_with_preamble(doc.graph, doc.metadata, xmp_instance_id);
    let names = layer_names(doc.pages, doc.pages.len());
    let g7 = graph_with_groups(g6, names, ids.intent, ids.usage, names.len());
    fonts_written(g7, doc.fonts, i).0
}

/// In a document that has fonts, every page refers to the fonts of the
/// document: the resource dictionary of a page whose resources are in order
/// binds `Font` to the one dictionary that lists the fonts.
pub proof fn lemma_page_fonts(page: PageView, groups: Seq<Value>, fonts: ObjectId)
    requires
        crate::pdf_page::resources_wf(page.resources_dict),
    ensures
        entries_get(page_resources(page, groups, Some(fonts)), "Font".spec_bytes()) == Some(
            Value::Reference(fonts),
        ),
        page_resources(page, groups, Some(fonts)).len() > 0,
{
    page.lemma_resource_entries_distinct(groups);
    lemma_put(page.resource_entries(groups), "Font", Value::Reference(fonts));
}

/// Every font of a document is written once. The graph of an assembled
/// document is well formed, so that no identifier stands for two objects,
/// and it holds, under the identifier of each font of the document, the
/// font dictionary of that font.
pub proof fn lemma_assembled_fonts(
    doc: DocumentView,
    xmp_instance_id: Seq<char>,
    instance_id: Seq<char>,
    i: int,
)
    requires
        doc.graph.objects.len() == 0,
        fonts_within(doc.fonts, doc.graph.max_id),
        font_ids_distinct(doc.fonts),
        doc.graph.max_id + object_count(doc) <= u32::MAX,
        0 <= i < doc.fonts.len(),
    ensures
        graph_wf(assembled(doc, xmp_instance_id, instance_id)),
        objects_get(assembled(doc, xmp_instance_id, instance_id).objects, doc.fonts[i].id) == Some(
            Value::Dictionary(
                doc.fonts[i].font.dictionary(graph_before_font(doc, xmp_instance_id, i as nat)),
            ),
        ),
{
    reveal(graph_with_body);
    reveal(graph_closed);
    let g0 = doc.graph;
    let fonts = doc.fonts;
    let m = g0.max_id + 1;
    let none = Set::<ObjectId>::empty();
    let all = font_ids(fonts, fonts.len() as int);
    let ids = preamble_ids(g0, doc.metadata);
    let g6 = graph_with_preamble(g0, doc.metadata, xmp_instance_id);
    lemma_graph_with_preamble(g0, doc.metadata, xmp_instance_id);
    lemma_preamble_extends(g0, doc.metadata, xmp_instance_id, none);
    let names = layer_names(doc.pages, doc.pages.len());
    let g7 = graph_with_groups(g6, names, ids.intent, ids.usage, names.len());
    lemma_graph_with_groups(g6, names, ids.intent, ids.usage, names.len());
    lemma_groups_extend(g6, names, ids.intent, ids.usage, names.len(), m, none);
    assert forall|k: int| 0 <= k < fonts.len() implies (#[trigger] fonts[k]).id.number <= m by {
        assert(fonts[k].id.number <= g0.max_id);
    }
    lemma_fonts_written_once(g7, fonts, fonts.len(), m);
    crate::font_list::lemma_fonts_written_max_id_within(g7, fonts, fonts.len(), m);
    let (g8, listed) = fonts_written(g7, fonts, fonts.len());
    let g9 = if listed.len() > 0 {
        graph_add(g8, Value::Dictionary(listed))
    } else {
        g8
    };
    let fonts_id = if listed.len() > 0 {
        Some(next_id(g8))
    } else {
        None
    };
    lemma_extends_self(g8);
    if listed.len() > 0 {
        lemma_add_extends(g8, Value::Dictionary(listed));
    }
    assert(ids_above_or_among(g9, m, all));
    lemma_pages_extend(g9, doc.pages, g6, fonts_id, ids.pages, doc.pages.len(), m, all);
    lemma_graph_with_pages(g9, doc.pages, g6, fonts_id, ids.pages, doc.pages.len());
    let (g10, kids) = graph_with_pages(g9, doc.pages, g6, fonts_id, ids.pages, doc.pages.len());
    assert(!all.contains(ids.pages)) by {
        if all.contains(ids.pages) {
            let j = choose|j: int| 0 <= j < fonts.len() && (#[trigger] fonts[j]).id == ids.pages;
            assert(fonts[j].id.number <= g0.max_id);
        }
    }
    lemma_absent(g10, m, all, ids.pages);
    let pages_value = Value::Dictionary(pages_entries(kids.len(), kids));
    lemma_put_new_extends(g10, ids.pages, pages_value);
    let g11 = graph_put(g10, ids.pages, pages_value);
    let catalog = Value::Dictionary(
        catalog_entries(
            ids.pages,
            ids.profile,
            ids.metadata,
            following_ids(g6, 0, names.len()),
        ),
    );
    lemma_add_extends(g11, catalog);
    let g12 = graph_add(g11, catalog);
    lemma_extends_trans(g8, g9, g10);
    lemma_extends_trans(g8, g10, g11);
    lemma_extends_trans(g8, g11, g12);
    assert(objects_get(g8.objects, fonts[i].id) is Some);
    let done = assembled(doc, xmp_instance_id, instance_id);
    assert(done.objects == g12.objects);
    assert(done.max_id == g12.max_id);
}

} // verus!
