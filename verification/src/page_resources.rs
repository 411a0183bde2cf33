//! The resources that a page builds for itself: patterns, and the optional
//! content groups of its layers.

use vstd::prelude::*;
use vstd::string::{StringExecFns, StringSliceAdditionalSpecFns};
use crate::font::text_bytes;
use crate::object::{
    bytes_clone, entries_set, put, Dictionary, Entries, Object, Stream, Value,
};
use crate::text::{decimal_chars, push_decimal};

verus! {

/// A list of objects, each under a name.
pub type Named = Seq<(Seq<char>, Value)>;

/// The name that a list gives its entry at a place: the prefix of the list
/// and the place in decimal.
pub open spec fn numbered_name(prefix: &str, index: nat) -> Seq<char> {
    prefix@ + decimal_chars(index)
}

/// The dictionary of the first `n` entries of a list, each set in turn
/// under its name.
pub open spec fn named_entries(list: Named, n: nat) -> Entries
    decreases n,
{
    if n == 0 || n > list.len() {
        Entries::empty()
    } else {
        entries_set(named_entries(list, (n - 1) as nat), text_bytes(list[n - 1].0), list[n - 1].1)
    }
}

/// The list after the first `n` objects are added, each under the next
/// name.
pub open spec fn named_extended(list: Named, prefix: &str, added: Seq<Value>, n: nat) -> Named
    decreases n,
{
    if n == 0 || n > added.len() {
        list
    } else {
        let before = named_extended(list, prefix, added, (n - 1) as nat);
        before.push((numbered_name(prefix, before.len()), added[n - 1]))
    }
}

/// Adding objects to a list makes it longer by their number.
pub proof fn lemma_named_extended_len(list: Named, prefix: &str, added: Seq<Value>, n: nat)
    requires
        n <= added.len(),
    ensures
        named_extended(list, prefix, added, n).len() == list.len() + n,
    decreases n,
{
    if n > 0 {
        lemma_named_extended_len(list, prefix, added, (n - 1) as nat);
    }
}

/// The dictionary of a list is empty only where the list is.
pub proof fn lemma_named_entries_len(list: Named, n: nat)
    requires
        n <= list.len(),
    ensures
        named_entries(list, n).len() > 0 <==> n > 0,
{
}

/// The dictionary of a list holds each key once.
pub proof fn lemma_named_entries_distinct(list: Named, n: nat)
    ensures
        crate::object::entries_distinct(named_entries(list, n)),
    decreases n,
{
    if n > 0 && n <= list.len() {
        lemma_named_entries_distinct(list, (n - 1) as nat);
        crate::object::lemma_entries_set(
            named_entries(list, (n - 1) as nat),
            text_bytes(list[n - 1].0),
            list[n - 1].1,
        );
    }
}

/// The values of a private list of named objects.
spec fn named_of(list: Seq<(String, Object)>) -> Named {
    Seq::new(list.len(), |i: int| (list[i].0@, list[i].1@))
}

/// Adds an object to a list under the next name, and gives the name.
fn add_named(list: &mut Vec<(String, Object)>, prefix: &str, object: Object) -> (name: String)
    ensures
        name@ == numbered_name(prefix, old(list)@.len()),
        named_of(final(list)@) == named_of(old(list)@).push((name@, object@)),
{
    let mut name = String::new();
    name.append(prefix);
    push_decimal(&mut name, list.len() as u64);
    assert(name@ =~= numbered_name(prefix, old(list)@.len()));
    list.push((name.clone(), object));
    assert(named_of(list@) =~= named_of(old(list)@).push((name@, object@)));
    name
}

/// The dictionary of a list of named objects.
fn named_dictionary(list: Vec<(String, Object)>) -> (d: Dictionary)
    ensures
        d@ == named_entries(named_of(list@), list@.len()),
{
    let ghost all = named_of(list@);
    let mut d = Dictionary::new();
    let mut rest = list;
    let mut i: usize = 0;
    let n = rest.len();
    while i < n
        invariant
            i <= n,
            n == all.len(),
            rest@.len() == n,
            forall|j: int| i <= j < n ==> (#[trigger] rest@[j]).0@ == all[j].0 && rest@[j].1@ == all[j].1,
            d@ == named_entries(all, i as nat),
        decreases n - i,
    {
        let mut slot: (String, Object) = (String::new(), Object::Null);
        std::mem::swap(&mut rest[i], &mut slot);
        let (name, object) = slot;
        d.set(bytes_clone(name.as_str().as_bytes()), object);
        i += 1;
    }
    d
}

/// The name under which a page knows the optional content group of a layer.
#[derive(Debug, Clone, PartialEq)]
pub struct OCGRef {
    pub name: String,
}

/// The optional content groups of a page, each under a name made of `MC`
/// and its place in the list.
#[derive(Debug, Clone, PartialEq)]
pub struct OCGList {
    layers: Vec<(String, Object)>,
}

impl View for OCGList {
    type V = Named;

    closed spec fn view(&self) -> Named {
        named_of(self.layers@)
    }
}

impl OCGList {
    /// A list without groups.
    pub fn new() -> (list: OCGList)
        ensures
            list@ == Named::empty(),
    {
        let list = OCGList { layers: Vec::new() };
        assert(list@ =~= Named::empty());
        list
    }

    /// The number of groups.
    pub fn len(&self) -> (n: usize)
        ensures
            n == self@.len(),
    {
        self.layers.len()
    }

    /// Adds a group, given as a reference to its object, under the next
    /// name.
    pub fn add_ocg(&mut self, object: Object) -> (r: OCGRef)
        ensures
            r.name@ == numbered_name("MC", old(self)@.len()),
            final(self)@ == old(self)@.push((r.name@, object@)),
    {
        let name = add_named(&mut self.layers, "MC", object);
        OCGRef { name }
    }

    /// The dictionary that lists the groups by name.
    pub fn into_dictionary(self) -> (d: Dictionary)
        ensures
            d@ == named_entries(self@, self@.len()),
    {
        named_dictionary(self.layers)
    }
}

/// A pattern that shapes can be painted with, as its stream.
#[derive(Debug, Clone, PartialEq)]
pub struct Pattern {
    pub stream: Stream,
}

/// The name under which a page knows a pattern.
#[derive(Debug, Clone, PartialEq)]
pub struct PatternRef {
    pub name: String,
}

/// The patterns of a page, each under a name made of `PT` and its place in
/// the list.
#[derive(Debug, Clone, PartialEq)]
pub struct PatternList {
    patterns: Vec<(String, Object)>,
}

impl View for PatternList {
    type V = Named;

    closed spec fn view(&self) -> Named {
        named_of(self.patterns@)
    }
}

impl PatternList {
    /// A list without patterns.
    pub fn new() -> (list: PatternList)
        ensures
            list@ == Named::empty(),
    {
        let list = PatternList { patterns: Vec::new() };
        assert(list@ =~= Named::empty());
        list
    }

    /// The number of patterns.
    pub fn len(&self) -> (n: usize)
        ensures
            n == self@.len(),
    {
        self.patterns.len()
    }

    /// Adds a pattern under the next name.
    pub fn add_pattern(&mut self, pattern: Pattern) -> (r: PatternRef)
        ensures
            r.name@ == numbered_name("PT", old(self)@.len()),
            final(self)@ == old(self)@.push(
                (
                    r.name@,
                    Value::Stream(
                        pattern.stream.dict@,
                        pattern.stream.content@,
                        pattern.stream.allows_compression,
                    ),
                ),
            ),
    {
        let name = add_named(&mut self.patterns, "PT", Object::Stream(pattern.stream));
        PatternRef { name }
    }

    /// The dictionary that lists the patterns by name.
    pub fn into_dictionary(self) -> (d: Dictionary)
        ensures
            d@ == named_entries(self@, self@.len()),
    {
        named_dictionary(self.patterns)
    }
}

/// The resources that a page builds for itself.
#[derive(Debug, Clone, PartialEq)]
pub struct PdfResources {
    /// The patterns of the page.
    pub patterns: PatternList,
    /// The optional content groups of the page.
    pub layers: OCGList,
}

/// The mathematical value of a [`PdfResources`].
pub struct ResourcesView {
    pub patterns: Named,
    pub layers: Named,
}

impl View for PdfResources {
    type V = ResourcesView;

    open spec fn view(&self) -> ResourcesView {
        ResourcesView { patterns: self.patterns@, layers: self.layers@ }
    }
}

impl ResourcesView {
    /// The groups after the given objects are added as groups.
    pub open spec fn groups_with(self, layers: Seq<Value>) -> Named {
        named_extended(self.layers, "MC", layers, layers.len())
    }

    /// The resource dictionary of the page's own resources, once the given
    /// objects are added as groups: the groups under `Properties`, unless
    /// no object is given or there is no group; then the patterns under
    /// `Pattern`, unless there is none.
    pub open spec fn entries_with(self, layers: Seq<Value>) -> Entries {
        let groups = named_entries(self.groups_with(layers), self.groups_with(layers).len());
        let patterns = named_entries(self.patterns, self.patterns.len());
        let e0 = if layers.len() > 0 && groups.len() > 0 {
            put(Entries::empty(), "Properties", Value::Dictionary(groups))
        } else {
            Entries::empty()
        };
        if patterns.len() > 0 {
            put(e0, "Pattern", Value::Dictionary(patterns))
        } else {
            e0
        }
    }

    /// The name of the group that stands for the object at the place `i`
    /// among those added.
    pub open spec fn group_name(self, i: int) -> Seq<char> {
        numbered_name("MC", (self.layers.len() + i) as nat)
    }
}

impl PdfResources {
    /// Resources without patterns and groups.
    pub fn new() -> (r: PdfResources)
        ensures
            r@ == (ResourcesView { patterns: Named::empty(), layers: Named::empty() }),
    {
        PdfResources { patterns: PatternList::new(), layers: OCGList::new() }
    }

    /// Adds a pattern, to be used like a colour.
    pub fn add_pattern(&mut self, pattern: Pattern) -> (r: PatternRef)
        ensures
            r.name@ == numbered_name("PT", old(self)@.patterns.len()),
            final(self)@.layers == old(self)@.layers,
            final(self)@.patterns == old(self)@.patterns.push(
                (
                    r.name@,
                    Value::Stream(
                        pattern.stream.dict@,
                        pattern.stream.content@,
                        pattern.stream.allows_compression,
                    ),
                ),
            ),
    {
        self.patterns.add_pattern(pattern)
    }

    /// Adds each of the given objects as an optional content group, and
    /// gives the resource dictionary of the page's own resources together
    /// with the names of the groups added, in order.
    pub fn into_with_layers(self, layers: Vec<Object>) -> (r: (Dictionary, Vec<OCGRef>))
        ensures
            r.0@ == self@.entries_with(crate::object::values_of(layers@)),
            r.1@.len() == layers@.len(),
            forall|i: int| 0 <= i < layers@.len() ==> (#[trigger] r.1@[i]).name@ == self@.group_name(i),
    {
        let ghost added = crate::object::values_of(layers@);
        let ghost start = self@;
        let mut dict = Dictionary::new();
        let mut groups = self.layers;
        let mut refs: Vec<OCGRef> = Vec::new();
        let patterns = self.patterns.into_dictionary();
        let n = layers.len();
        if n > 0 {
            let mut rest = layers;
            let mut i: usize = 0;
            while i < n
                invariant
                    i <= n,
                    n == added.len(),
                    rest@.len() == n,
                    forall|j: int| i <= j < n ==> (#[trigger] rest@[j])@ == added[j],
                    groups@ == named_extended(start.layers, "MC", added, i as nat),
                    refs@.len() == i,
                    forall|j: int| 0 <= j < i ==> (#[trigger] refs@[j]).name@ == start.group_name(j),
                decreases n - i,
            {
                proof {
                    lemma_named_extended_len(start.layers, "MC", added, i as nat);
                }
                let mut slot = Object::Null;
                std::mem::swap(&mut rest[i], &mut slot);
                let r = groups.add_ocg(slot);
                refs.push(r);
                i += 1;
            }
            let listed = groups.into_dictionary();
            if listed.len() > 0 {
                dict.put("Properties", Object::Dictionary(listed));
            }
        }
        if patterns.len() > 0 {
            dict.put("Pattern", Object::Dictionary(patterns));
        }
        (dict, refs)
    }
}

} // verus!
