//! Pages: layers, and the names of the resources that the layers use.

use vstd::prelude::*;
use vstd::string::StringSliceAdditionalSpecFns;
use crate::font::text_bytes;
use crate::graphics::{lemma_operations_push, plain_op, plain_operation};
use crate::object::{
    bytes_clone, entries_distinct, entries_extend, entries_find, entries_get, entries_set,
    lemma_distinct_get, lemma_entries_find, lemma_entries_set, lemma_extend_holds,
    lemma_find_is, lemma_set_other, operations_of, values_of, Dictionary, Entries, Object, Operation,
    OperationValue, Value,
};
use crate::page_resources::{
    named_entries, OCGRef, Pattern, PatternRef, PdfResources, ResourcesView, numbered_name,
};
use crate::pdf_layer::{LayerView, PdfLayer};
use crate::pdf_resources::{
    category_ok, category_table, key_bytes, register, registered, registered_index,
    resource_name, table_dense, Embeddable, Embedded, Registered,
};
use crate::scale::{Mm, Pt};

verus! {

/// A page.
#[derive(Debug)]
pub struct PdfPage {
    width: Pt,
    height: Pt,
    layers: Vec<PdfLayer>,
    resources: PdfResources,
    resources_dict: Dictionary,
}

/// The mathematical value of a [`PdfPage`].
pub struct PageView {
    pub width: Pt,
    pub height: Pt,
    pub layers: Seq<LayerView>,
    pub resources: ResourcesView,
    pub resources_dict: Entries,
}

/// Every category is a dictionary.
pub open spec fn categories_ok(resources: Entries) -> bool {
    forall|i: int| 0 <= i < resources.len() ==> (#[trigger] resources[i]).1 is Dictionary
}

/// Every category is a dictionary whose names are `R0`, `R1` and so on, in
/// this order.
pub open spec fn categories_dense(resources: Entries) -> bool {
    forall|i: int| 0 <= i < resources.len() ==> category_dense((#[trigger] resources[i]).1)
}

/// A dictionary whose names are `R0`, `R1` and so on, in this order.
pub open spec fn category_dense(value: Value) -> bool {
    match value {
        Value::Dictionary(t) => table_dense(t),
        _ => false,
    }
}

/// The names of the resources of a page are in order: no category stands
/// twice, and every category is densely named.
pub open spec fn resources_wf(resources: Entries) -> bool {
    entries_distinct(resources) && categories_dense(resources)
}

/// The resource dictionary after one category of a page is merged into it.
/// Where both hold a dictionary under the key, the names of the page are
/// set in the one that is there; otherwise the category of the page is set
/// under the key.
pub open spec fn merge_category(acc: Entries, key: Seq<u8>, value: Value) -> Entries {
    match (value, entries_get(acc, key)) {
        (Value::Dictionary(names), Some(Value::Dictionary(existing))) => acc.update(
            entries_find(acc, key, 0),
            (key, Value::Dictionary(entries_extend(existing, names, 0))),
        ),
        _ => entries_set(acc, key, value),
    }
}

/// The resource dictionary after the categories of a page, from the place
/// `from` on, are merged into it in order.
pub open spec fn merge_categories(acc: Entries, page: Entries, from: int) -> Entries
    decreases page.len() - from,
{
    if from < 0 || from >= page.len() {
        acc
    } else {
        merge_categories(merge_category(acc, page[from].0, page[from].1), page, from + 1)
    }
}

/// The operation that opens the content of an optional content group.
pub open spec fn begin_group_op(group: Seq<char>) -> OperationValue {
    OperationValue {
        operator: "BDC"@,
        operands: seq![crate::object::name_value("OC"), Value::Name(text_bytes(group))],
    }
}

/// The operations of a layer as they stand in the content of a page: the
/// graphics state is saved, the content of the group is opened, the
/// operations of the layer follow, the content of the group is closed, and
/// the graphics state is restored.
pub open spec fn wrapped_layer(group: Seq<char>, operations: Seq<OperationValue>) -> Seq<
    OperationValue,
> {
    seq![plain_op("q"), begin_group_op(group)] + operations + seq![plain_op("EMC"), plain_op("Q")]
}

/// Merging the categories of a page into a resource dictionary gives an
/// empty dictionary only where both are empty.
pub proof fn lemma_merge_len(acc: Entries, page: Entries, from: int)
    requires
        0 <= from <= page.len(),
    ensures
        merge_categories(acc, page, from).len() > 0 <==> acc.len() > 0 || from < page.len(),
    decreases page.len() - from,
{
    if from < page.len() {
        let next = merge_category(acc, page[from].0, page[from].1);
        lemma_entries_find(acc, page[from].0, 0);
        assert(next.len() > 0);
        lemma_merge_len(next, page, from + 1);
    }
}

impl PageView {
    /// The resource dictionary of the page, once the given objects are
    /// added as the optional content groups of its layers.
    pub open spec fn resource_entries(self, groups: Seq<Value>) -> Entries {
        merge_categories(self.resources.entries_with(groups), self.resources_dict, 0)
    }

    /// The content of the layer at the place `i`.
    pub open spec fn layer_content(self, i: int) -> Seq<OperationValue> {
        wrapped_layer(self.resources.group_name(i), self.layers[i].operations)
    }

    /// Whether the page has resources of its own: a layer, a pattern, or a
    /// category of registered resources.
    pub open spec fn has_resources(self) -> bool {
        self.layers.len() > 0 || self.resources.patterns.len() > 0 || self.resources_dict.len() > 0
    }

    /// The resource dictionary of a page that is given one group for each
    /// of its layers is empty only where the page has no resources of its
    /// own.
    pub proof fn lemma_resource_entries_len(self, groups: Seq<Value>)
        requires
            groups.len() == self.layers.len(),
        ensures
            self.resource_entries(groups).len() > 0 <==> self.has_resources(),
    {
        let with = self.resources.groups_with(groups);
        crate::page_resources::lemma_named_extended_len(
            self.resources.layers,
            "MC",
            groups,
            groups.len(),
        );
        crate::page_resources::lemma_named_entries_len(with, with.len());
        crate::page_resources::lemma_named_entries_len(
            self.resources.patterns,
            self.resources.patterns.len(),
        );
        lemma_merge_len(self.resources.entries_with(groups), self.resources_dict, 0);
    }
}

/// The values of the layers of a page.
pub open spec fn layers_of(layers: Seq<PdfLayer>) -> Seq<LayerView> {
    Seq::new(layers.len(), |i: int| layers[i]@)
}

/// The objects of a list of numbered layer groups.
pub open spec fn group_values(groups: Seq<(usize, Object)>) -> Seq<Value> {
    Seq::new(groups.len(), |i: int| groups[i].1@)
}

/// Registering keeps the names of the resources of a page in order.
pub proof fn lemma_registered_categories(resources: Entries, key: Seq<u8>, id: crate::object::ObjectId)
    requires
        resources_wf(resources),
    ensures
        category_ok(resources, key),
        table_dense(category_table(resources, key)),
        resources_wf(registered(resources, key, id)),
{
    lemma_entries_find(resources, key, 0);
    let k = entries_find(resources, key, 0);
    let r = registered(resources, key, id);
    if k < resources.len() {
        assert(category_dense(resources[k].1));
    }
    crate::pdf_resources::lemma_register_keeps_dense(category_table(resources, key), id);
    assert forall|i: int| 0 <= i < r.len() implies category_dense((#[trigger] r[i]).1) by {
        if i < resources.len() && i != k {
            assert(r[i] == resources[i]);
        }
    }
    assert forall|i: int, j: int| 0 <= i < j < r.len() implies r[i].0 != r[j].0 by {
        if j < resources.len() {
            assert(r[i].0 == resources[i].0 && r[j].0 == resources[j].0);
        } else {
            assert(r[i].0 == resources[i].0);
        }
    }
}

/// The dictionary under `key` binds `name` to `value`.
pub open spec fn holds_name(resources: Entries, key: Seq<u8>, name: Seq<u8>, value: Value) -> bool {
    match entries_get(resources, key) {
        Some(Value::Dictionary(names)) => entries_get(names, name) == Some(value),
        _ => false,
    }
}

/// The names of a category; none for what is no dictionary.
pub open spec fn names_of(value: Value) -> Entries {
    match value {
        Value::Dictionary(names) => names,
        _ => Entries::empty(),
    }
}

/// Every name of every category of a page is bound, under the category, to
/// what the page binds it to.
pub open spec fn names_kept(page: Entries, merged: Entries) -> bool {
    forall|i: int, j: int|
        0 <= i < page.len() && 0 <= j < names_of(page[i].1).len() ==> #[trigger] holds_name(
            merged,
            page[i].0,
            names_of(page[i].1)[j].0,
            names_of(page[i].1)[j].1,
        )
}

/// No key stands twice, and no dictionary under a key holds a name twice.
pub open spec fn twofold_distinct(resources: Entries) -> bool {
    &&& entries_distinct(resources)
    &&& forall|i: int|
        0 <= i < resources.len() ==> entries_distinct(names_of((#[trigger] resources[i]).1))
}

/// A densely named category holds no name twice.
pub proof fn lemma_dense_distinct(table: Entries)
    requires
        table_dense(table),
    ensures
        entries_distinct(table),
{
    assert forall|i: int, j: int| 0 <= i < j < table.len() implies table[i].0 != table[j].0 by {
        assert(table[i].0 == resource_name(i as nat));
        assert(table[j].0 == resource_name(j as nat));
        if table[i].0 == table[j].0 {
            crate::pdf_resources::lemma_resource_name_injective(i as nat, j as nat);
        }
    }
}

/// The resources of a page, in order, hold no category and no name twice.
pub proof fn lemma_wf_distinct(resources: Entries)
    requires
        resources_wf(resources),
    ensures
        twofold_distinct(resources),
        categories_ok(resources),
{
    assert forall|i: int| 0 <= i < resources.len() implies entries_distinct(
        names_of((#[trigger] resources[i]).1),
    ) && resources[i].1 is Dictionary by {
        assert(category_dense(resources[i].1));
        lemma_dense_distinct(names_of(resources[i].1));
    }
}

/// Merging a category with distinct names into a resource dictionary binds
/// every name of the category under its key, leaves what stands under every
/// other key as it is, and keeps keys and names distinct.
pub proof fn lemma_merge_category(acc: Entries, key: Seq<u8>, names: Entries)
    requires
        twofold_distinct(acc),
        entries_distinct(names),
    ensures
        twofold_distinct(merge_category(acc, key, Value::Dictionary(names))),
        forall|j: int|
            0 <= j < names.len() ==> holds_name(
                merge_category(acc, key, Value::Dictionary(names)),
                key,
                (#[trigger] names[j]).0,
                names[j].1,
            ),
        forall|other: Seq<u8>|
            other != key ==> #[trigger] entries_get(
                merge_category(acc, key, Value::Dictionary(names)),
                other,
            ) == entries_get(acc, other),
{
    let value = Value::Dictionary(names);
    let merged = merge_category(acc, key, value);
    lemma_entries_find(acc, key, 0);
    let at = entries_find(acc, key, 0);
    let grown = at < acc.len() && acc[at].1 is Dictionary;
    if grown {
        let existing = names_of(acc[at].1);
        let all = entries_extend(existing, names, 0);
        assert(entries_distinct(names_of(acc[at].1)));
        lemma_extend_holds(existing, names, 0);
        assert(merged == acc.update(at, (key, Value::Dictionary(all))));
        assert forall|i: int| 0 <= i < merged.len() implies entries_distinct(
            names_of((#[trigger] merged[i]).1),
        ) by {
            if i != at {
                assert(merged[i] == acc[i]);
            }
        }
        assert forall|i: int, j: int| 0 <= i < j < merged.len() implies merged[i].0
            != merged[j].0 by {
            assert(merged[i].0 == acc[i].0 && merged[j].0 == acc[j].0);
        }
        assert forall|j: int| 0 <= j < at implies (#[trigger] merged[j]).0 != key by {
            assert(merged[j] == acc[j]);
        }
        lemma_find_is(merged, key, at);
        assert forall|other: Seq<u8>| other != key implies #[trigger] entries_get(merged, other)
            == entries_get(acc, other) by {
            lemma_entries_find(acc, other, 0);
            let k = entries_find(acc, other, 0);
            assert forall|j: int| 0 <= j < k implies (#[trigger] merged[j]).0 != other by {
                assert(merged[j].0 == acc[j].0);
            }
            if k < acc.len() {
                assert(merged[k] == acc[k]);
            }
            lemma_find_is(merged, other, k);
        }
    } else {
        lemma_entries_set(acc, key, value);
        assert(merged == entries_set(acc, key, value));
        assert forall|j: int| 0 <= j < names.len() implies holds_name(
            merged,
            key,
            (#[trigger] names[j]).0,
            names[j].1,
        ) by {
            lemma_distinct_get(names, j);
        }
        assert forall|other: Seq<u8>| other != key implies #[trigger] entries_get(merged, other)
            == entries_get(acc, other) by {
            lemma_set_other(acc, key, value, other);
        }
        assert forall|i: int| 0 <= i < merged.len() implies entries_distinct(
            names_of((#[trigger] merged[i]).1),
        ) by {
            if i == merged.len() - 1 {
                assert(merged[i].1 == value);
            } else if at < acc.len() {
                if i < at {
                    assert(merged[i] == acc[i]);
                } else {
                    assert(merged[i] == acc[i + 1]);
                }
            } else {
                assert(merged[i] == acc[i]);
            }
        }
    }
}

/// Merging the categories of a page from the place `from` on leaves what
/// stands under a key that is not among them as it is, and keeps keys and
/// names distinct.
pub proof fn lemma_merge_rest(acc: Entries, page: Entries, from: int, other: Seq<u8>)
    requires
        0 <= from,
        twofold_distinct(acc),
        twofold_distinct(page),
        categories_ok(page),
        forall|m: int| from <= m < page.len() ==> (#[trigger] page[m]).0 != other,
    ensures
        entries_get(merge_categories(acc, page, from), other) == entries_get(acc, other),
    decreases page.len() - from,
{
    if from < page.len() {
        assert(page[from].1 is Dictionary);
        assert(entries_distinct(names_of(page[from].1)));
        assert(page[from].0 != other);
        lemma_merge_category(acc, page[from].0, names_of(page[from].1));
        lemma_merge_rest(
            merge_category(acc, page[from].0, page[from].1),
            page,
            from + 1,
            other,
        );
    }
}

/// After the categories of a page are merged into a resource dictionary,
/// from the place `from` on, every name of each of them is bound under its
/// category to what the page binds it to.
pub proof fn lemma_merge_categories(acc: Entries, page: Entries, from: int, i: int, j: int)
    requires
        0 <= from <= i < page.len(),
        0 <= j < names_of(page[i].1).len(),
        twofold_distinct(acc),
        twofold_distinct(page),
        categories_ok(page),
    ensures
        holds_name(
            merge_categories(acc, page, from),
            page[i].0,
            names_of(page[i].1)[j].0,
            names_of(page[i].1)[j].1,
        ),
    decreases page.len() - from,
{
    assert(page[from].1 is Dictionary);
    assert(entries_distinct(names_of(page[from].1)));
    let next = merge_category(acc, page[from].0, page[from].1);
    lemma_merge_category(acc, page[from].0, names_of(page[from].1));
    if i == from {
        assert forall|m: int| from + 1 <= m < page.len() implies (#[trigger] page[m]).0
            != page[from].0 by {
            assert(page[from].0 != page[m].0);
        }
        lemma_merge_rest(next, page, from + 1, page[from].0);
        assert(holds_name(next, page[i].0, names_of(page[i].1)[j].0, names_of(page[i].1)[j].1));
    } else {
        lemma_merge_categories(next, page, from + 1, i, j);
    }
}

impl ResourcesView {
    /// The resource dictionary of the page's own resources holds no key and
    /// no name twice.
    pub proof fn lemma_entries_with_distinct(self, layers: Seq<Value>)
        ensures
            twofold_distinct(self.entries_with(layers)),
    {
        let groups = named_entries(self.groups_with(layers), self.groups_with(layers).len());
        let patterns = named_entries(self.patterns, self.patterns.len());
        crate::page_resources::lemma_named_entries_distinct(
            self.groups_with(layers),
            self.groups_with(layers).len(),
        );
        crate::page_resources::lemma_named_entries_distinct(self.patterns, self.patterns.len());
        lemma_merge_category(Entries::empty(), "Properties".spec_bytes(), groups);
        let e0 = if layers.len() > 0 && groups.len() > 0 {
            crate::object::put(Entries::empty(), "Properties", Value::Dictionary(groups))
        } else {
            Entries::empty()
        };
        assert(twofold_distinct(e0)) by {
            lemma_entries_find(Entries::empty(), "Properties".spec_bytes(), 0);
        }
        let e1 = self.entries_with(layers);
        if patterns.len() > 0 {
            lemma_entries_set(e0, "Pattern".spec_bytes(), Value::Dictionary(patterns));
            lemma_entries_find(e0, "Pattern".spec_bytes(), 0);
            let at = entries_find(e0, "Pattern".spec_bytes(), 0);
            assert forall|i: int| 0 <= i < e1.len() implies entries_distinct(
                names_of((#[trigger] e1[i]).1),
            ) by {
                if i == e1.len() - 1 {
                    assert(e1[i].1 == Value::Dictionary(patterns));
                } else if at < e0.len() {
                    if i < at {
                        assert(e1[i] == e0[i]);
                    } else {
                        assert(e1[i] == e0[i + 1]);
                    }
                } else {
                    assert(e1[i] == e0[i]);
                }
            }
        }
    }
}

/// Merging the categories of a page keeps keys and names distinct.
pub proof fn lemma_merge_categories_distinct(acc: Entries, page: Entries, from: int)
    requires
        0 <= from,
        twofold_distinct(acc),
        twofold_distinct(page),
        categories_ok(page),
    ensures
        twofold_distinct(merge_categories(acc, page, from)),
    decreases page.len() - from,
{
    if from < page.len() {
        assert(page[from].1 is Dictionary);
        assert(entries_distinct(names_of(page[from].1)));
        lemma_merge_category(acc, page[from].0, names_of(page[from].1));
        lemma_merge_categories_distinct(
            merge_category(acc, page[from].0, page[from].1),
            page,
            from + 1,
        );
    }
}

impl PageView {
    /// The resource dictionary of a page whose resources are in order holds
    /// no category twice.
    pub proof fn lemma_resource_entries_distinct(self, groups: Seq<Value>)
        requires
            resources_wf(self.resources_dict),
        ensures
            entries_distinct(self.resource_entries(groups)),
    {
        lemma_wf_distinct(self.resources_dict);
        self.resources.lemma_entries_with_distinct(groups);
        lemma_merge_categories_distinct(
            self.resources.entries_with(groups),
            self.resources_dict,
            0,
        );
    }

    /// No name of the page is lost: in the resource dictionary of a page
    /// whose resources are in order, every name of every category of the
    /// page is bound, under the category, to what the page binds it to.
    pub proof fn lemma_names_kept(self, groups: Seq<Value>)
        requires
            resources_wf(self.resources_dict),
        ensures
            names_kept(self.resources_dict, self.resource_entries(groups)),
    {
        lemma_wf_distinct(self.resources_dict);
        self.resources.lemma_entries_with_distinct(groups);
        let page = self.resources_dict;
        let merged = self.resource_entries(groups);
        assert forall|i: int, j: int|
            0 <= i < page.len() && 0 <= j < names_of(page[i].1).len() implies #[trigger] holds_name(
            merged,
            page[i].0,
            names_of(page[i].1)[j].0,
            names_of(page[i].1)[j].1,
        ) by {
            lemma_merge_categories(self.resources.entries_with(groups), page, 0, i, j);
        }
    }
}

impl View for PdfPage {
    type V = PageView;

    closed spec fn view(&self) -> PageView {
        PageView {
            width: self.width,
            height: self.height,
            layers: layers_of(self.layers@),
            resources: self.resources@,
            resources_dict: self.resources_dict@,
        }
    }
}

impl PdfPage {
    #[verifier::type_invariant]
    spec fn inv(self) -> bool {
        resources_wf(self.resources_dict@)
    }

    /// A page of the given size, without layers and resources.
    pub fn new(width: Mm, height: Mm) -> (page: PdfPage)
        ensures
            page@ == (PageView {
                width: width.spec_to_pt(),
                height: height.spec_to_pt(),
                layers: Seq::empty(),
                resources: ResourcesView {
                    patterns: crate::page_resources::Named::empty(),
                    layers: crate::page_resources::Named::empty(),
                },
                resources_dict: Entries::empty(),
            }),
    {
        let page = PdfPage {
            width: width.to_pt(),
            height: height.to_pt(),
            layers: Vec::new(),
            resources: PdfResources::new(),
            resources_dict: Dictionary::new(),
        };
        assert(page@.layers =~= Seq::<LayerView>::empty());
        page
    }

    /// The width of the page.
    pub fn width(&self) -> (w: Pt)
        ensures
            w == self@.width,
    {
        self.width
    }

    /// The height of the page.
    pub fn height(&self) -> (h: Pt)
        ensures
            h == self@.height,
    {
        self.height
    }

    /// Whether the page has resources of its own: a layer, a pattern, or a
    /// category of registered resources.
    pub fn has_resources(&self) -> (b: bool)
        ensures
            b == self@.has_resources(),
    {
        self.layers.len() > 0 || self.resources.patterns.len() > 0 || self.resources_dict.len() > 0
    }

    /// The number of layers.
    pub fn layer_count(&self) -> (n: usize)
        ensures
            n == self@.layers.len(),
    {
        self.layers.len()
    }

    /// The layer at a place.
    pub fn layer(&self, i: usize) -> (layer: &PdfLayer)
        requires
            i < self@.layers.len(),
        ensures
            layer@ == self@.layers[i as int],
    {
        &self.layers[i]
    }

    /// The names of the resources that the layers of the page use, by
    /// category.
    pub fn resources_dict(&self) -> (d: &Dictionary)
        ensures
            d@ == self@.resources_dict,
            resources_wf(d@),
    {
        proof {
            use_type_invariant(self);
        }
        &self.resources_dict
    }

    /// Registers an embedded resource with the page and gives the name
    /// under which the page knows it. Registering the same resource again
    /// gives the same name and leaves the page as it is.
    pub fn register<T: Embeddable + Clone>(&mut self, resource: &Embedded<T>) -> (r: Registered<T>)
        ensures
            final(self)@ == (PageView {
                resources_dict: registered(
                    old(self)@.resources_dict,
                    key_bytes(T::KEY),
                    resource.object_id,
                ),
                ..old(self)@
            }),
            r.name_index == registered_index(
                old(self)@.resources_dict,
                key_bytes(T::KEY),
                resource.object_id,
            ),
            r.embedded.object_id == resource.object_id,
            cloned::<T>(resource.object, r.embedded.object),
            entries_get(
                category_table(final(self)@.resources_dict, key_bytes(T::KEY)),
                resource_name(r.name_index as nat),
            ) == Some(Value::Reference(resource.object_id)),
    {
        proof {
            use_type_invariant(&*self);
            lemma_registered_categories(
                self.resources_dict@,
                key_bytes(T::KEY),
                resource.object_id,
            );
        }
        let mut dict = Dictionary::new();
        std::mem::swap(&mut self.resources_dict, &mut dict);
        let r = register(&mut dict, resource);
        std::mem::swap(&mut self.resources_dict, &mut dict);
        r
    }

    /// Adds a pattern to the resources of the page.
    pub fn add_pattern(&mut self, pattern: Pattern) -> (r: PatternRef)
        ensures
            r.name@ == numbered_name("PT", old(self)@.resources.patterns.len()),
            final(self)@.width == old(self)@.width,
            final(self)@.height == old(self)@.height,
            final(self)@.layers == old(self)@.layers,
            final(self)@.resources_dict == old(self)@.resources_dict,
            final(self)@.resources.layers == old(self)@.resources.layers,
            final(self)@.resources.patterns == old(self)@.resources.patterns.push(
                (
                    r.name@,
                    Value::Stream(
                        pattern.stream.dict@,
                        pattern.stream.content@,
                        pattern.stream.allows_compression,
                    ),
                ),
            ),
    {
        proof {
            use_type_invariant(&*self);
        }
        let mut resources = PdfResources::new();
        std::mem::swap(&mut self.resources, &mut resources);
        let r = resources.add_pattern(pattern);
        std::mem::swap(&mut self.resources, &mut resources);
        r
    }

    /// Adds a layer on top of the page. Whether the page knows the
    /// resources that the layer uses is not looked into.
    pub fn add_layer(&mut self, layer: PdfLayer)
        ensures
            final(self)@ == (PageView { layers: old(self)@.layers.push(layer@), ..old(self)@ }),
    {
        proof {
            use_type_invariant(&*self);
        }
        let mut layers: Vec<PdfLayer> = Vec::new();
        std::mem::swap(&mut self.layers, &mut layers);
        layers.push(layer);
        std::mem::swap(&mut self.layers, &mut layers);
        assert(self@.layers =~= old(self)@.layers.push(layer@));
    }

    /// Gives the resource dictionary of the page and the content of each
    /// layer.
    ///
    /// `layers` holds, for each layer of the page in order, a reference to
    /// the optional content group of the layer; the numbers beside them are
    /// not looked at.
    pub fn collect_resources_and_streams(self, layers: &Vec<(usize, Object)>) -> (r: (
        Dictionary,
        Vec<Vec<Operation>>,
    ))
        requires
            layers@.len() >= self@.layers.len(),
        ensures
            r.0@ == self@.resource_entries(group_values(layers@)),
            names_kept(self@.resources_dict, r.0@),
            r.1@.len() == self@.layers.len(),
            forall|i: int|
                0 <= i < self@.layers.len() ==> operations_of((#[trigger] r.1@[i])@)
                    == self@.layer_content(i),
    {
        let ghost page = self@;
        proof {
            use_type_invariant(&self);
            page.lemma_names_kept(group_values(layers@));
        }
        let mut groups: Vec<Object> = Vec::new();
        let mut i: usize = 0;
        while i < layers.len()
            invariant
                i <= layers@.len(),
                groups@.len() == i,
                forall|j: int| 0 <= j < i ==> (#[trigger] groups@[j])@ == layers@[j].1@,
            decreases layers@.len() - i,
        {
            groups.push(layers[i].1.clone());
            i += 1;
        }
        assert(values_of(groups@) =~= group_values(layers@));
        let (mut resource_dictionary, ocg_refs) = self.resources.into_with_layers(groups);

        let own = self.resources_dict;
        let mut k: usize = 0;
        while k < own.len()
            invariant
                k <= own@.len(),
                own@ == page.resources_dict,
                merge_categories(resource_dictionary@, own@, k as int) == page.resource_entries(
                    group_values(layers@),
                ),
            decreases own@.len() - k,
        {
            merge_into(&mut resource_dictionary, own.key_at(k), own.value_at(k));
            k += 1;
        }

        let mut streams: Vec<Vec<Operation>> = Vec::new();
        let mut rest = self.layers;
        let n = rest.len();
        let mut idx: usize = 0;
        while idx < n
            invariant
                idx <= n,
                n == page.layers.len(),
                n <= ocg_refs@.len(),
                rest@.len() == n,
                forall|j: int| idx <= j < n ==> (#[trigger] rest@[j])@ == page.layers[j],
                forall|j: int|
                    0 <= j < ocg_refs@.len() ==> (#[trigger] ocg_refs@[j]).name@
                        == page.resources.group_name(j),
                streams@.len() == idx,
                forall|j: int|
                    0 <= j < idx ==> operations_of((#[trigger] streams@[j])@) == page.layer_content(
                        j,
                    ),
            decreases n - idx,
        {
            let mut layer = PdfLayer::new("");
            std::mem::swap(&mut rest[idx], &mut layer);
            let content = wrap_layer(&ocg_refs[idx], layer);
            streams.push(content);
            idx += 1;
        }
        (resource_dictionary, streams)
    }
}

/// Merges one category of a page into a resource dictionary.
pub fn merge_into(acc: &mut Dictionary, key: &Vec<u8>, value: &Object)
    ensures
        final(acc)@ == merge_category(old(acc)@, key@, value@),
{
    let i = acc.find(key.as_slice());
    proof {
        lemma_entries_find(acc@, key@, 0);
    }
    match value {
        Object::Dictionary(names) => {
            if i < acc.len() {
                let former = acc.replace_at(i, Object::Null);
                match former {
                    Object::Dictionary(mut existing) => {
                        existing.extend(names);
                        let _ = acc.replace_at(i, Object::Dictionary(existing));
                        assert(acc@ =~= merge_category(old(acc)@, key@, value@));
                    },
                    other => {
                        let _ = acc.replace_at(i, other);
                        assert(acc@ =~= old(acc)@);
                        acc.set(bytes_clone(key.as_slice()), value.clone());
                    },
                }
            } else {
                acc.set(bytes_clone(key.as_slice()), value.clone());
            }
        },
        _ => {
            acc.set(bytes_clone(key.as_slice()), value.clone());
        },
    }
}

/// The content of a layer as it stands in the content of a page, for the
/// optional content group of the given name.
pub fn wrap_layer(group: &OCGRef, layer: PdfLayer) -> (content: Vec<Operation>)
    ensures
        operations_of(content@) == wrapped_layer(group.name@, layer@.operations),
{
    let mut content: Vec<Operation> = Vec::new();
    let save = plain_operation("q");
    proof {
        lemma_operations_push(content@, save);
    }
    content.push(save);
    let mut operands: Vec<Object> = Vec::new();
    operands.push(crate::object::name("OC"));
    operands.push(Object::Name(bytes_clone(group.name.as_str().as_bytes())));
    let begin = Operation::new("BDC", operands);
    assert(begin@.operands =~= begin_group_op(group.name@).operands);
    proof {
        lemma_operations_push(content@, begin);
    }
    content.push(begin);
    let ghost head = operations_of(content@);
    let mut operations = layer.into_operations();
    let ghost body = operations_of(operations@);
    content.append(&mut operations);
    assert(operations_of(content@) =~= head + body);
    let end = plain_operation("EMC");
    proof {
        lemma_operations_push(content@, end);
    }
    content.push(end);
    let restore = plain_operation("Q");
    proof {
        lemma_operations_push(content@, restore);
    }
    content.push(restore);
    assert(operations_of(content@) =~= wrapped_layer(group.name@, layer@.operations));
    content
}

} // verus!
