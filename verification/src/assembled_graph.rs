//! What stands in the graph of an assembled document, and under which
//! identifier: the optional content groups that the catalog lists, the
//! dictionary of the pages, and every page with its resources and its
//! content.

use vstd::prelude::*;
use vstd::string::StringSliceAdditionalSpecFns;
use crate::assembly::{
    assembled, catalog_entries, following_ids, graph_closed, graph_with_body, graph_with_groups,
    graph_with_page, graph_with_pages, graph_with_preamble, group_entries, layer_names,
    lemma_graph_with_groups, lemma_graph_with_pages, lemma_graph_with_preamble,
    lemma_groups_extend, lemma_layer_names_len, lemma_page_extends, lemma_pages_extend,
    lemma_page_objects, lemma_pages_count, lemma_preamble_extends, lemma_put, object_count,
    page_content, page_entries, pages_count,
    page_group_values, page_objects, page_resources, pages_entries, preamble_ids, PreambleIds,
};
use crate::font_list::{
    font_ids, font_ids_distinct, fonts_within, fonts_written, lemma_fonts_written_max_id_within,
    lemma_fonts_written_once,
};
use crate::graph::{
    graph_add, graph_extends, graph_put, graph_wf, ids_above_or_among, lemma_absent,
    lemma_add_extends, lemma_extends_self, lemma_extends_trans, lemma_objects_find_is,
    lemma_put_new_extends, next_id, nth_id, objects_get, GraphView,
};
use crate::object::{
    entries_get, lemma_set_other, put, reference_values, Entries, ObjectId, Value,
};
use crate::pdf_document::DocumentView;
use crate::pdf_page::PageView;

verus! {

/// In a well-formed graph the object at a place is the one that stands
/// under the identifier at that place.
pub proof fn lemma_object_at(g: GraphView, i: int)
    requires
        graph_wf(g),
        0 <= i < g.objects.len(),
    ensures
        objects_get(g.objects, g.objects[i].0) == Some(g.objects[i].1),
{
    lemma_objects_find_is(g.objects, g.objects[i].0, i);
}

/// The identifier of the resource dictionary of a page that is added to
/// the graph `g`, if the page has one.
pub open spec fn resources_id(
    g: GraphView,
    page: PageView,
    groups: Seq<Value>,
    fonts: Option<ObjectId>,
) -> Option<ObjectId> {
    if page_resources(page, groups, fonts).len() > 0 {
        Some(next_id(g))
    } else {
        None
    }
}

/// The identifier of the content of a page that is added to the graph `g`.
pub open spec fn contents_id(
    g: GraphView,
    page: PageView,
    groups: Seq<Value>,
    fonts: Option<ObjectId>,
) -> ObjectId {
    nth_id(g, page_objects(page, groups, fonts) - 1)
}

/// The identifier of the dictionary of a page that is added to the graph
/// `g`.
pub open spec fn page_id(g: GraphView, page: PageView, groups: Seq<Value>, fonts: Option<ObjectId>)
    -> ObjectId {
    nth_id(g, page_objects(page, groups, fonts))
}

/// The dictionary of a page that is added to the graph `g`.
pub open spec fn page_dictionary(
    g: GraphView,
    page: PageView,
    groups: Seq<Value>,
    fonts: Option<ObjectId>,
    parent: ObjectId,
) -> Entries {
    page_entries(
        page.width,
        page.height,
        parent,
        resources_id(g, page, groups, fonts),
        contents_id(g, page, groups, fonts),
    )
}

/// The dictionary of a page refers to its parent and to its content, and
/// to its resources if it has any.
pub proof fn lemma_page_refers(
    width: crate::scale::Pt,
    height: crate::scale::Pt,
    parent: ObjectId,
    resources: Option<ObjectId>,
    contents: ObjectId,
)
    ensures
        entries_get(
            page_entries(width, height, parent, resources, contents),
            "Parent".spec_bytes(),
        ) == Some(Value::Reference(parent)),
        entries_get(
            page_entries(width, height, parent, resources, contents),
            "Contents".spec_bytes(),
        ) == Some(Value::Reference(contents)),
        resources matches Some(id) ==> entries_get(
            page_entries(width, height, parent, resources, contents),
            "Resources".spec_bytes(),
        ) == Some(Value::Reference(id)),
{
    let boxed = crate::assembly::box_value(width, height);
    let e0 = put(Entries::empty(), "Type", crate::object::name_value("Page"));
    lemma_put(Entries::empty(), "Type", crate::object::name_value("Page"));
    let e1 = put(e0, "Rotate", Value::Integer(0));
    lemma_put(e0, "Rotate", Value::Integer(0));
    let e2 = put(e1, "MediaBox", boxed);
    lemma_put(e1, "MediaBox", boxed);
    let e3 = put(e2, "TrimBox", boxed);
    lemma_put(e2, "TrimBox", boxed);
    let e4 = put(e3, "CropBox", boxed);
    lemma_put(e3, "CropBox", boxed);
    let e5 = put(e4, "Parent", Value::Reference(parent));
    lemma_put(e4, "Parent", Value::Reference(parent));
    let e6 = match resources {
        Some(id) => put(e5, "Resources", Value::Reference(id)),
        None => e5,
    };
    assert("Parent".spec_bytes() != "Resources".spec_bytes() && "Parent".spec_bytes()
        != "Contents".spec_bytes() && "Resources".spec_bytes() != "Contents".spec_bytes()) by {
        reveal_strlit("Parent");
        reveal_strlit("Resources");
        reveal_strlit("Contents");
        vstd::utf8::is_ascii_chars_encode_utf8("Parent"@);
        vstd::utf8::is_ascii_chars_encode_utf8("Resources"@);
        vstd::utf8::is_ascii_chars_encode_utf8("Contents"@);
        assert("Parent"@[0] != "Resources"@[0]);
        assert("Parent"@[0] != "Contents"@[0]);
        assert("Resources"@[0] != "Contents"@[0]);
    }
    if let Some(id) = resources {
        lemma_put(e5, "Resources", Value::Reference(id));
        lemma_set_other(
            e5,
            "Resources".spec_bytes(),
            Value::Reference(id),
            "Parent".spec_bytes(),
        );
    }
    lemma_put(e6, "Contents", Value::Reference(contents));
    lemma_set_other(
        e6,
        "Contents".spec_bytes(),
        Value::Reference(contents),
        "Parent".spec_bytes(),
    );
    lemma_set_other(
        e6,
        "Contents".spec_bytes(),
        Value::Reference(contents),
        "Resources".spec_bytes(),
    );
}

/// After a page is added to a well-formed graph, its dictionary, its
/// content and its resource dictionary, if it has one, stand in the graph
/// under the identifiers that the dictionary of the page names.
pub proof fn lemma_page_stands(
    g: GraphView,
    page: PageView,
    groups: Seq<Value>,
    fonts: Option<ObjectId>,
    parent: ObjectId,
)
    requires
        graph_wf(g),
        g.max_id + page_objects(page, groups, fonts) <= u32::MAX,
    ensures
        objects_get(
            graph_with_page(g, page, groups, fonts, parent).objects,
            page_id(g, page, groups, fonts),
        ) == Some(Value::Dictionary(page_dictionary(g, page, groups, fonts, parent))),
        objects_get(
            graph_with_page(g, page, groups, fonts, parent).objects,
            contents_id(g, page, groups, fonts),
        ) == Some(Value::Content(page_content(page, page.layers.len()))),
        resources_id(g, page, groups, fonts) matches Some(id) ==> objects_get(
            graph_with_page(g, page, groups, fonts, parent).objects,
            id,
        ) == Some(Value::Dictionary(page_resources(page, groups, fonts))),
{
    let resources = page_resources(page, groups, fonts);
    let g1 = if resources.len() > 0 {
        graph_add(g, Value::Dictionary(resources))
    } else {
        g
    };
    lemma_extends_self(g);
    if resources.len() > 0 {
        lemma_add_extends(g, Value::Dictionary(resources));
    }
    let v2 = Value::Content(page_content(page, page.layers.len()));
    let g2 = graph_add(g1, v2);
    lemma_add_extends(g1, v2);
    let v3 = Value::Dictionary(page_dictionary(g, page, groups, fonts, parent));
    let g3 = graph_add(g2, v3);
    lemma_add_extends(g2, v3);
    assert(g3 == graph_with_page(g, page, groups, fonts, parent));
    lemma_extends_trans(g1, g2, g3);
    if resources.len() > 0 {
        assert(objects_get(g1.objects, next_id(g)) is Some);
        assert(objects_get(g3.objects, next_id(g)) == objects_get(g1.objects, next_id(g)));
    }
    assert(objects_get(g2.objects, next_id(g1)) is Some);
    assert(objects_get(g3.objects, next_id(g1)) == objects_get(g2.objects, next_id(g1)));
}

/// After pages are added to a well-formed graph, every one of them stands
/// in the graph: the identifier given for the page is that of its
/// dictionary, and its dictionary, its content and its resource
/// dictionary, if it has one, stand under the identifiers that the
/// dictionary names. Pages that are added later change none of it.
pub proof fn lemma_pages_stand(
    g: GraphView,
    pages: Seq<PageView>,
    base: GraphView,
    fonts: Option<ObjectId>,
    parent: ObjectId,
    n: nat,
    p: int,
)
    requires
        0 <= p < n <= pages.len(),
        graph_wf(g),
        g.max_id + pages_count(pages, fonts is Some, n) <= u32::MAX,
    ensures
        ({
            let (h, ids) = graph_with_pages(g, pages, base, fonts, parent, n);
            let before = graph_with_pages(g, pages, base, fonts, parent, p as nat).0;
            let groups = page_group_values(
                base,
                layer_names(pages, p as nat).len(),
                pages[p].layers.len(),
            );
            &&& ids.len() == n
            &&& ids[p] == page_id(before, pages[p], groups, fonts)
            &&& objects_get(h.objects, ids[p]) == Some(
                Value::Dictionary(page_dictionary(before, pages[p], groups, fonts, parent)),
            )
            &&& objects_get(h.objects, contents_id(before, pages[p], groups, fonts)) == Some(
                Value::Content(page_content(pages[p], pages[p].layers.len())),
            )
            &&& resources_id(before, pages[p], groups, fonts) matches Some(id) ==> objects_get(
                h.objects,
                id,
            ) == Some(Value::Dictionary(page_resources(pages[p], groups, fonts)))
        }),
    decreases n,
{
    let k = (n - 1) as nat;
    let none = Set::<ObjectId>::empty();
    let last = graph_with_pages(g, pages, base, fonts, parent, k).0;
    lemma_pages_count(pages, fonts is Some, k, n);
    lemma_pages_extend(g, pages, base, fonts, parent, k, -1, none);
    lemma_graph_with_pages(g, pages, base, fonts, parent, k);
    lemma_graph_with_pages(g, pages, base, fonts, parent, n);
    let page = pages[n - 1];
    let groups = page_group_values(base, layer_names(pages, k).len(), page.layers.len());
    lemma_page_objects(page, groups, fonts);
    if p == k {
        lemma_page_stands(last, page, groups, fonts, parent);
    } else {
        lemma_pages_stand(g, pages, base, fonts, parent, k, p);
        lemma_page_extends(last, page, groups, fonts, parent, -1, none);
        let h = graph_with_page(last, page, groups, fonts, parent);
        let before = graph_with_pages(g, pages, base, fonts, parent, p as nat).0;
        let of_p = page_group_values(base, layer_names(pages, p as nat).len(), pages[p].layers.len());
        let ids = graph_with_pages(g, pages, base, fonts, parent, k).1;
        assert(objects_get(h.objects, ids[p]) == objects_get(last.objects, ids[p]));
        assert(objects_get(h.objects, contents_id(before, pages[p], of_p, fonts)) == objects_get(
            last.objects,
            contents_id(before, pages[p], of_p, fonts),
        ));
        if let Some(id) = resources_id(before, pages[p], of_p, fonts) {
            assert(objects_get(h.objects, id) == objects_get(last.objects, id));
        }
    }
}

/// The graphs and identifiers that the assembly of a document passes
/// through before it adds the pages.
pub struct Steps {
    /// The identifiers that the first steps hand out.
    pub ids: PreambleIds,
    /// The graph after the first steps.
    pub start: GraphView,
    /// The names of the layers of all pages.
    pub names: Seq<Seq<char>>,
    /// The graph after the optional content groups are added.
    pub grouped: GraphView,
    /// The graph after the fonts are written and listed.
    pub listed: GraphView,
    /// The identifier of the dictionary that lists the fonts, if there is
    /// one.
    pub fonts_id: Option<ObjectId>,
}

/// The graphs and identifiers that the assembly of a document passes
/// through before it adds the pages.
pub open spec fn steps_of(doc: DocumentView, xmp_instance_id: Seq<char>) -> Steps {
    let ids = preamble_ids(doc.graph, doc.metadata);
    let start = graph_with_preamble(doc.graph, doc.metadata, xmp_instance_id);
    let names = layer_names(doc.pages, doc.pages.len());
    let grouped = graph_with_groups(start, names, ids.intent, ids.usage, names.len());
    let (written, listed) = fonts_written(grouped, doc.fonts, doc.fonts.len());
    Steps {
        ids,
        start,
        names,
        grouped,
        listed: if listed.len() > 0 {
            graph_add(written, Value::Dictionary(listed))
        } else {
            written
        },
        fonts_id: if listed.len() > 0 {
            Some(next_id(written))
        } else {
            None
        },
    }
}

/// The identifiers of the optional content groups of a document, in the
/// order of its pages and their layers: those that its catalog lists.
pub open spec fn group_ids(doc: DocumentView, xmp_instance_id: Seq<char>) -> Seq<ObjectId> {
    let s = steps_of(doc, xmp_instance_id);
    following_ids(s.start, 0, s.names.len())
}

/// The identifiers of the dictionaries of the pages of a document, in the
/// order of its pages.
pub open spec fn page_ids(doc: DocumentView, xmp_instance_id: Seq<char>) -> Seq<ObjectId> {
    let s = steps_of(doc, xmp_instance_id);
    graph_with_pages(s.listed, doc.pages, s.start, s.fonts_id, s.ids.pages, doc.pages.len()).1
}

/// The graph to which the page at the place `p` of a document is added.
pub open spec fn graph_before_page(doc: DocumentView, xmp_instance_id: Seq<char>, p: int)
    -> GraphView {
    let s = steps_of(doc, xmp_instance_id);
    graph_with_pages(s.listed, doc.pages, s.start, s.fonts_id, s.ids.pages, p as nat).0
}

/// The references to the optional content groups of the layers of the page
/// at the place `p` of a document.
pub open spec fn groups_of_page(doc: DocumentView, xmp_instance_id: Seq<char>, p: int) -> Seq<
    Value,
> {
    let s = steps_of(doc, xmp_instance_id);
    page_group_values(s.start, layer_names(doc.pages, p as nat).len(), doc.pages[p].layers.len())
}

/// The graph of an assembled document is well formed, and its highest
/// identifier is that of the document raised by the number of objects that
/// the assembly adds or sets aside. It holds every object that stood in the
/// graph after the groups were added, and every object that stood in it
/// after the pages were added: the later steps change none of them. Under the identifier that was set aside for it
/// stands the dictionary of the pages, which names the dictionaries of the
/// pages in the order of the pages.
pub proof fn lemma_assembled_keeps(
    doc: DocumentView,
    xmp_instance_id: Seq<char>,
    instance_id: Seq<char>,
)
    requires
        doc.graph.objects.len() == 0,
        fonts_within(doc.fonts, doc.graph.max_id),
        font_ids_distinct(doc.fonts),
        doc.graph.max_id + object_count(doc) <= u32::MAX,
    ensures
        ({
            let s = steps_of(doc, xmp_instance_id);
            let done = assembled(doc, xmp_instance_id, instance_id);
            let paged = graph_before_page(doc, xmp_instance_id, doc.pages.len() as int);
            let kids = page_ids(doc, xmp_instance_id);
            &&& graph_wf(s.start)
            &&& graph_wf(s.listed)
            &&& s.start.max_id + s.names.len() <= u32::MAX
            &&& s.listed.max_id + pages_count(doc.pages, s.fonts_id is Some, doc.pages.len())
                <= u32::MAX
            &&& graph_wf(paged)
            &&& paged.max_id < u32::MAX
            &&& s.ids.pages.number <= paged.max_id
            &&& objects_get(paged.objects, s.ids.pages) is None
            &&& paged.trailer == doc.graph.trailer
            &&& done == graph_closed(
                paged,
                s.ids,
                kids,
                group_ids(doc, xmp_instance_id),
                doc.document_id,
                instance_id,
            )
            &&& graph_wf(done)
            &&& done.max_id == doc.graph.max_id + object_count(doc)
            &&& graph_extends(s.grouped, done)
            &&& graph_extends(s.listed, done)
            &&& graph_extends(paged, done)
            &&& (doc.fonts.len() > 0) == (s.fonts_id is Some)
            &&& s.fonts_id matches Some(id) ==> objects_get(s.listed.objects, id) == Some(
                Value::Dictionary(fonts_written(s.grouped, doc.fonts, doc.fonts.len()).1),
            )
            &&& kids.len() == doc.pages.len()
            &&& objects_get(done.objects, s.ids.pages) == Some(
                Value::Dictionary(pages_entries(kids.len(), kids)),
            )
            &&& entries_get(pages_entries(kids.len(), kids), "Kids".spec_bytes()) == Some(
                Value::Array(reference_values(kids)),
            )
        }),
{
    reveal(graph_with_body);
    reveal(graph_closed);
    let g0 = doc.graph;
    let fonts = doc.fonts;
    let m = g0.max_id + 1;
    let none = Set::<ObjectId>::empty();
    let all = font_ids(fonts, fonts.len() as int);
    let s = steps_of(doc, xmp_instance_id);
    let ids = s.ids;
    let g6 = s.start;
    lemma_graph_with_preamble(g0, doc.metadata, xmp_instance_id);
    lemma_preamble_extends(g0, doc.metadata, xmp_instance_id, none);
    let names = s.names;
    let g7 = s.grouped;
    lemma_graph_with_groups(g6, names, ids.intent, ids.usage, names.len());
    lemma_groups_extend(g6, names, ids.intent, ids.usage, names.len(), m, none);
    assert forall|k: int| 0 <= k < fonts.len() implies (#[trigger] fonts[k]).id.number <= m by {
        assert(fonts[k].id.number <= g0.max_id);
    }
    lemma_fonts_written_once(g7, fonts, fonts.len(), m);
    lemma_fonts_written_max_id_within(g7, fonts, fonts.len(), m);
    crate::font_list::lemma_fonts_written_max_id(g7, fonts, fonts.len());
    crate::font_list::lemma_fonts_listed_len(g7, fonts, fonts.len());
    let (g8, listed) = fonts_written(g7, fonts, fonts.len());
    let g9 = s.listed;
    lemma_extends_self(g8);
    if listed.len() > 0 {
        lemma_add_extends(g8, Value::Dictionary(listed));
    }
    assert(ids_above_or_among(g9, m, all));
    lemma_pages_extend(g9, doc.pages, g6, s.fonts_id, ids.pages, doc.pages.len(), m, all);
    lemma_graph_with_pages(g9, doc.pages, g6, s.fonts_id, ids.pages, doc.pages.len());
    let (g10, kids) = graph_with_pages(g9, doc.pages, g6, s.fonts_id, ids.pages, doc.pages.len());
    assert(!all.contains(ids.pages)) by {
        if all.contains(ids.pages) {
            let j = choose|j: int| 0 <= j < fonts.len() && (#[trigger] fonts[j]).id == ids.pages;
            assert(fonts[j].id.number <= g0.max_id);
        }
    }
    lemma_absent(g10, m, all, ids.pages);
    let pages_value = Value::Dictionary(pages_entries(kids.len(), kids));
    lemma_put_new_extends(g10, ids.pages, pages_value);
    let g11 = graph_put(g10, ids.pages, pages_value);
    let catalog = Value::Dictionary(
        catalog_entries(ids.pages, ids.profile, ids.metadata, following_ids(g6, 0, names.len())),
    );
    lemma_add_extends(g11, catalog);
    let g12 = graph_add(g11, catalog);
    lemma_extends_trans(g7, g8, g9);
    lemma_extends_trans(g7, g9, g10);
    lemma_extends_trans(g10, g11, g12);
    lemma_extends_trans(g7, g10, g12);
    lemma_extends_trans(g9, g10, g12);
    let done = assembled(doc, xmp_instance_id, instance_id);
    assert(done.objects == g12.objects);
    assert(done.max_id == g12.max_id);
    assert(objects_get(g11.objects, ids.pages) is Some);
    assert(objects_get(g12.objects, ids.pages) == objects_get(g11.objects, ids.pages));
    let e0 = put(Entries::empty(), "Type", crate::object::name_value("Pages"));
    lemma_put(Entries::empty(), "Type", crate::object::name_value("Pages"));
    let e1 = put(e0, "Count", Value::Integer(kids.len() as i64));
    lemma_put(e0, "Count", Value::Integer(kids.len() as i64));
    lemma_put(e1, "Kids", Value::Array(reference_values(kids)));
}

/// The catalog refers to the dictionary of the pages under `Pages`.
pub proof fn lemma_catalog_pages(
    pages: ObjectId,
    output_profile: Option<ObjectId>,
    metadata: Option<ObjectId>,
    groups: Seq<ObjectId>,
)
    ensures
        entries_get(
            catalog_entries(pages, output_profile, metadata, groups),
            "Pages".spec_bytes(),
        ) == Some(Value::Reference(pages)),
{
    let e0 = put(Entries::empty(), "Type", crate::object::name_value("Catalog"));
    lemma_put(Entries::empty(), "Type", crate::object::name_value("Catalog"));
    let e1 = put(e0, "PageLayout", crate::object::name_value("OneColumn"));
    lemma_put(e0, "PageLayout", crate::object::name_value("OneColumn"));
    let e2 = put(e1, "PageMode", crate::object::name_value("UseOC"));
    lemma_put(e1, "PageMode", crate::object::name_value("UseOC"));
    let e3 = put(e2, "Pages", Value::Reference(pages));
    lemma_put(e2, "Pages", Value::Reference(pages));
    assert("Pages".spec_bytes() != "OutputIntents".spec_bytes() && "Pages".spec_bytes()
        != "Metadata".spec_bytes() && "Pages".spec_bytes() != "OCProperties".spec_bytes()) by {
        reveal_strlit("Pages");
        reveal_strlit("OutputIntents");
        reveal_strlit("Metadata");
        reveal_strlit("OCProperties");
        vstd::utf8::is_ascii_chars_encode_utf8("Pages"@);
        vstd::utf8::is_ascii_chars_encode_utf8("OutputIntents"@);
        vstd::utf8::is_ascii_chars_encode_utf8("Metadata"@);
        vstd::utf8::is_ascii_chars_encode_utf8("OCProperties"@);
        assert("Pages"@[0] != "OutputIntents"@[0]);
        assert("Pages"@[0] != "Metadata"@[0]);
        assert("Pages"@[0] != "OCProperties"@[0]);
    }
    let e4 = match output_profile {
        Some(id) => put(
            e3,
            "OutputIntents",
            Value::Array(seq![Value::Dictionary(crate::assembly::output_intent_entries(id))]),
        ),
        None => e3,
    };
    if let Some(id) = output_profile {
        lemma_set_other(
            e3,
            "OutputIntents".spec_bytes(),
            Value::Array(seq![Value::Dictionary(crate::assembly::output_intent_entries(id))]),
            "Pages".spec_bytes(),
        );
    }
    let e5 = match metadata {
        Some(id) => put(e4, "Metadata", Value::Reference(id)),
        None => e4,
    };
    if let Some(id) = metadata {
        lemma_set_other(e4, "Metadata".spec_bytes(), Value::Reference(id), "Pages".spec_bytes());
    }
    lemma_set_other(
        e5,
        "OCProperties".spec_bytes(),
        Value::Dictionary(crate::assembly::oc_properties_entries(groups)),
        "Pages".spec_bytes(),
    );
}

/// After groups are added to a well-formed graph, the group of the name
/// at the place `k` stands under the identifier handed out `k + 1` steps
/// after the start.
pub proof fn lemma_group_stands(
    g: GraphView,
    names: Seq<Seq<char>>,
    intent: ObjectId,
    usage: ObjectId,
    k: int,
)
    requires
        graph_wf(g),
        g.max_id + names.len() <= u32::MAX,
        0 <= k < names.len(),
    ensures
        objects_get(
            graph_with_groups(g, names, intent, usage, names.len()).objects,
            nth_id(g, k + 1),
        ) == Some(Value::Dictionary(group_entries(names[k], intent, usage))),
{
    let h = graph_with_groups(g, names, intent, usage, names.len());
    lemma_graph_with_groups(g, names, intent, usage, names.len());
    lemma_groups_extend(g, names, intent, usage, names.len(), -1, Set::<ObjectId>::empty());
    let at = g.objects.len() + k;
    assert(h.objects[at] == (
        nth_id(g, k + 1),
        Value::Dictionary(group_entries(names[k], intent, usage)),
    ));
    lemma_object_at(h, at);
}

/// Every optional content group that the catalog of an assembled document
/// lists stands in its graph: under the identifier at the place `k` of the
/// list stands the group of the layer at the place `k` among the layers of
/// all pages, with the name of that layer.
pub proof fn lemma_assembled_group(
    doc: DocumentView,
    xmp_instance_id: Seq<char>,
    instance_id: Seq<char>,
    k: int,
)
    requires
        doc.graph.objects.len() == 0,
        fonts_within(doc.fonts, doc.graph.max_id),
        font_ids_distinct(doc.fonts),
        doc.graph.max_id + object_count(doc) <= u32::MAX,
        0 <= k < layer_names(doc.pages, doc.pages.len()).len(),
    ensures
        ({
            let s = steps_of(doc, xmp_instance_id);
            let done = assembled(doc, xmp_instance_id, instance_id);
            &&& group_ids(doc, xmp_instance_id).len() == s.names.len()
            &&& objects_get(done.objects, group_ids(doc, xmp_instance_id)[k]) == Some(
                Value::Dictionary(group_entries(s.names[k], s.ids.intent, s.ids.usage)),
            )
        }),
{
    let s = steps_of(doc, xmp_instance_id);
    lemma_assembled_keeps(doc, xmp_instance_id, instance_id);
    lemma_group_stands(s.start, s.names, s.ids.intent, s.ids.usage, k);
    let done = assembled(doc, xmp_instance_id, instance_id);
    let id = nth_id(s.start, k + 1);
    assert(group_ids(doc, xmp_instance_id)[k] == id);
    assert(objects_get(s.grouped.objects, id) is Some);
    assert(objects_get(done.objects, id) == objects_get(s.grouped.objects, id));
}

/// After the last steps the catalog stands under the highest identifier
/// of the graph; where the trailer held no key twice before, it refers to
/// the catalog and to the document information.
pub proof fn lemma_closed(
    g: GraphView,
    ids: PreambleIds,
    kids: Seq<ObjectId>,
    groups: Seq<ObjectId>,
    document_id: Seq<char>,
    instance_id: Seq<char>,
)
    requires
        graph_wf(g),
        g.max_id < u32::MAX,
        ids.pages.number <= g.max_id,
        objects_get(g.objects, ids.pages) is None,
    ensures
        ({
            let done = graph_closed(g, ids, kids, groups, document_id, instance_id);
            let catalog_id = ObjectId { number: done.max_id, generation: 0 };
            &&& objects_get(done.objects, catalog_id) == Some(
                Value::Dictionary(catalog_entries(ids.pages, ids.profile, ids.metadata, groups)),
            )
            &&& crate::object::entries_distinct(g.trailer) ==> {
                &&& entries_get(done.trailer, "Root".spec_bytes()) == Some(
                    Value::Reference(catalog_id),
                )
                &&& entries_get(done.trailer, "Info".spec_bytes()) == Some(
                    Value::Reference(ids.info),
                )
            }
        }),
{
    reveal(graph_closed);
    let pages_value = Value::Dictionary(pages_entries(kids.len(), kids));
    let g11 = graph_put(g, ids.pages, pages_value);
    lemma_put_new_extends(g, ids.pages, pages_value);
    let catalog = Value::Dictionary(
        catalog_entries(ids.pages, ids.profile, ids.metadata, groups),
    );
    lemma_add_extends(g11, catalog);
    if crate::object::entries_distinct(g.trailer) {
        let root = Value::Reference(next_id(g11));
        let info = Value::Reference(ids.info);
        let file_id = crate::assembly::file_id_value(document_id, instance_id);
        let t1 = put(g.trailer, "Root", root);
        lemma_put(g.trailer, "Root", root);
        let t2 = put(t1, "Info", info);
        lemma_put(t1, "Info", info);
        assert("Root".spec_bytes() != "Info".spec_bytes() && "Root".spec_bytes()
            != "ID".spec_bytes() && "Info".spec_bytes() != "ID".spec_bytes()) by {
            reveal_strlit("Root");
            reveal_strlit("Info");
            reveal_strlit("ID");
            vstd::utf8::is_ascii_chars_encode_utf8("Root"@);
            vstd::utf8::is_ascii_chars_encode_utf8("Info"@);
            vstd::utf8::is_ascii_chars_encode_utf8("ID"@);
            assert("Root"@[0] != "Info"@[0]);
            assert("Root"@[0] != "ID"@[0]);
            assert("Info"@[1] != "ID"@[1]);
        }
        lemma_set_other(t1, "Info".spec_bytes(), info, "Root".spec_bytes());
        lemma_set_other(t2, "ID".spec_bytes(), file_id, "Root".spec_bytes());
        lemma_set_other(t2, "ID".spec_bytes(), file_id, "Info".spec_bytes());
    }
}

/// The catalog of an assembled document stands under the highest
/// identifier of its graph. It refers to the dictionary of the pages, and
/// it lists the optional content groups of the document, one for every
/// layer of every page, in the order of the pages and their layers. Where
/// the trailer of the document held no key twice, the trailer refers to the
/// catalog and to the document information.
pub proof fn lemma_assembled_catalog(
    doc: DocumentView,
    xmp_instance_id: Seq<char>,
    instance_id: Seq<char>,
)
    requires
        doc.graph.objects.len() == 0,
        fonts_within(doc.fonts, doc.graph.max_id),
        font_ids_distinct(doc.fonts),
        doc.graph.max_id + object_count(doc) <= u32::MAX,
    ensures
        ({
            let s = steps_of(doc, xmp_instance_id);
            let done = assembled(doc, xmp_instance_id, instance_id);
            let groups = group_ids(doc, xmp_instance_id);
            let catalog = catalog_entries(s.ids.pages, s.ids.profile, s.ids.metadata, groups);
            let catalog_id = ObjectId { number: done.max_id, generation: 0 };
            &&& objects_get(done.objects, catalog_id) == Some(Value::Dictionary(catalog))
            &&& entries_get(catalog, "Pages".spec_bytes()) == Some(Value::Reference(s.ids.pages))
            &&& entries_get(catalog, "OCProperties".spec_bytes()) == Some(
                Value::Dictionary(crate::assembly::oc_properties_entries(groups)),
            )
            &&& entries_get(
                crate::assembly::oc_properties_entries(groups),
                "OCGs".spec_bytes(),
            ) == Some(Value::Array(reference_values(groups)))
            &&& groups.len() == layer_names(doc.pages, doc.pages.len()).len()
            &&& crate::object::entries_distinct(doc.graph.trailer) ==> {
                &&& entries_get(done.trailer, "Root".spec_bytes()) == Some(
                    Value::Reference(catalog_id),
                )
                &&& entries_get(done.trailer, "Info".spec_bytes()) == Some(
                    Value::Reference(s.ids.info),
                )
            }
        }),
{
    let s = steps_of(doc, xmp_instance_id);
    let groups = group_ids(doc, xmp_instance_id);
    lemma_assembled_keeps(doc, xmp_instance_id, instance_id);
    lemma_catalog_pages(s.ids.pages, s.ids.profile, s.ids.metadata, groups);
    crate::assembly::lemma_catalog_groups(s.ids.pages, s.ids.profile, s.ids.metadata, groups);
    crate::assembly::lemma_groups_all_shown(groups);
    lemma_closed(
        graph_before_page(doc, xmp_instance_id, doc.pages.len() as int),
        s.ids,
        page_ids(doc, xmp_instance_id),
        groups,
        doc.document_id,
        instance_id,
    );
}

/// A document that has fonts lists them once: one dictionary stands in the
/// graph of the assembled document that binds the name of every font,
/// where no two fonts have the same name, to the identifier of the font;
/// and every page whose resources are in order refers to that dictionary
/// under `Font` in its resource dictionary. A document without fonts has
/// no such dictionary.
pub proof fn lemma_assembled_font_list(
    doc: DocumentView,
    xmp_instance_id: Seq<char>,
    instance_id: Seq<char>,
    i: int,
    p: int,
)
    requires
        doc.graph.objects.len() == 0,
        fonts_within(doc.fonts, doc.graph.max_id),
        font_ids_distinct(doc.fonts),
        crate::font_list::font_names_distinct(doc.fonts),
        doc.graph.max_id + object_count(doc) <= u32::MAX,
        0 <= i < doc.fonts.len(),
        0 <= p < doc.pages.len(),
        crate::pdf_page::resources_wf(doc.pages[p].resources_dict),
    ensures
        ({
            let s = steps_of(doc, xmp_instance_id);
            let done = assembled(doc, xmp_instance_id, instance_id);
            let listed = fonts_written(s.grouped, doc.fonts, doc.fonts.len()).1;
            let groups = groups_of_page(doc, xmp_instance_id, p);
            &&& s.fonts_id matches Some(id) && objects_get(done.objects, id) == Some(
                Value::Dictionary(listed),
            ) && entries_get(
                page_resources(doc.pages[p], groups, s.fonts_id),
                "Font".spec_bytes(),
            ) == Some(Value::Reference(id))
            &&& entries_get(listed, crate::font::text_bytes(doc.fonts[i].name)) == Some(
                Value::Reference(doc.fonts[i].id),
            )
        }),
{
    let s = steps_of(doc, xmp_instance_id);
    let done = assembled(doc, xmp_instance_id, instance_id);
    lemma_assembled_keeps(doc, xmp_instance_id, instance_id);
    crate::font_list::lemma_fonts_listed(s.grouped, doc.fonts, doc.fonts.len(), i);
    let id = s.fonts_id->Some_0;
    assert(objects_get(s.listed.objects, id) is Some);
    assert(objects_get(done.objects, id) == objects_get(s.listed.objects, id));
    crate::assembly::lemma_page_fonts(doc.pages[p], groups_of_page(doc, xmp_instance_id, p), id);
}

/// The pages of an assembled document stand in its graph in their order.
/// The dictionary of the pages names one identifier for every page; under
/// the identifier at the place `p` stands the dictionary of the page at
/// the place `p`. That dictionary refers to the dictionary of the pages as
/// its parent, to the content of the page, and, if the page has resources,
/// to its resource dictionary; the content and the resource dictionary
/// stand in the graph under those identifiers. The layers of the page are
/// bound to the optional content groups that the catalog lists for them.
pub proof fn lemma_assembled_page(
    doc: DocumentView,
    xmp_instance_id: Seq<char>,
    instance_id: Seq<char>,
    p: int,
)
    requires
        doc.graph.objects.len() == 0,
        fonts_within(doc.fonts, doc.graph.max_id),
        font_ids_distinct(doc.fonts),
        doc.graph.max_id + object_count(doc) <= u32::MAX,
        0 <= p < doc.pages.len(),
    ensures
        ({
            let s = steps_of(doc, xmp_instance_id);
            let done = assembled(doc, xmp_instance_id, instance_id);
            let kids = page_ids(doc, xmp_instance_id);
            let before = graph_before_page(doc, xmp_instance_id, p);
            let page = doc.pages[p];
            let groups = groups_of_page(doc, xmp_instance_id, p);
            let dictionary = page_dictionary(before, page, groups, s.fonts_id, s.ids.pages);
            let skip = layer_names(doc.pages, p as nat).len();
            &&& kids.len() == doc.pages.len()
            &&& objects_get(done.objects, s.ids.pages) == Some(
                Value::Dictionary(pages_entries(kids.len(), kids)),
            )
            &&& entries_get(pages_entries(kids.len(), kids), "Kids".spec_bytes()) == Some(
                Value::Array(reference_values(kids)),
            )
            &&& reference_values(kids)[p] == Value::Reference(kids[p])
            &&& objects_get(done.objects, kids[p]) == Some(Value::Dictionary(dictionary))
            &&& entries_get(dictionary, "Parent".spec_bytes()) == Some(
                Value::Reference(s.ids.pages),
            )
            &&& entries_get(dictionary, "Contents".spec_bytes()) == Some(
                Value::Reference(contents_id(before, page, groups, s.fonts_id)),
            )
            &&& objects_get(done.objects, contents_id(before, page, groups, s.fonts_id)) == Some(
                Value::Content(page_content(page, page.layers.len())),
            )
            &&& resources_id(before, page, groups, s.fonts_id) matches Some(id) ==> {
                &&& entries_get(dictionary, "Resources".spec_bytes()) == Some(Value::Reference(id))
                &&& objects_get(done.objects, id) == Some(
                    Value::Dictionary(page_resources(page, groups, s.fonts_id)),
                )
            }
            &&& groups.len() == page.layers.len()
            &&& forall|l: int|
                0 <= l < page.layers.len() ==> skip + l < group_ids(doc, xmp_instance_id).len()
                    && #[trigger] groups[l] == Value::Reference(
                    group_ids(doc, xmp_instance_id)[skip + l],
                )
        }),
{
    let s = steps_of(doc, xmp_instance_id);
    let done = assembled(doc, xmp_instance_id, instance_id);
    let kids = page_ids(doc, xmp_instance_id);
    let before = graph_before_page(doc, xmp_instance_id, p);
    let page = doc.pages[p];
    let groups = groups_of_page(doc, xmp_instance_id, p);
    let paged = graph_before_page(doc, xmp_instance_id, doc.pages.len() as int);
    lemma_assembled_keeps(doc, xmp_instance_id, instance_id);
    lemma_pages_stand(
        s.listed,
        doc.pages,
        s.start,
        s.fonts_id,
        s.ids.pages,
        doc.pages.len(),
        p,
    );
    lemma_page_refers(
        page.width,
        page.height,
        s.ids.pages,
        resources_id(before, page, groups, s.fonts_id),
        contents_id(before, page, groups, s.fonts_id),
    );
    assert(objects_get(done.objects, kids[p]) == objects_get(paged.objects, kids[p]));
    let contents = contents_id(before, page, groups, s.fonts_id);
    assert(objects_get(done.objects, contents) == objects_get(paged.objects, contents));
    if let Some(id) = resources_id(before, page, groups, s.fonts_id) {
        assert(objects_get(done.objects, id) == objects_get(paged.objects, id));
    }
    lemma_layer_names_len(doc.pages, p as nat, (p + 1) as nat);
    lemma_layer_names_len(doc.pages, (p + 1) as nat, doc.pages.len());
}

} // verus!
