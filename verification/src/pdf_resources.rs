//! Embedding resources in a document once, and naming them page by page.

use vstd::prelude::*;
use std::ops::Deref;
use std::rc::Rc;
use crate::error::Error;
use crate::graph::ObjectGraph;
use vstd::string::StringSliceAdditionalSpecFns;
use crate::object::{
    bytes_clone, entries_find, entries_get, entries_has, entries_set, lemma_entries_find,
    Dictionary, Entries, Object, ObjectId, Value,
};
use crate::text::{decimal_bytes, lemma_decimal_bytes_injective, push_decimal_bytes};

verus! {

/// A resource that can be written into an object graph.
pub trait Embeddable {
    /// The resource category that this kind of resource is listed under.
    const KEY: &'static str;

    /// Writes the resource into the graph and gives the identifier of the
    /// object that stands for it.
    fn embed(&self, doc: &mut ObjectGraph) -> (r: Result<ObjectId, Error>);
}

impl<T: Embeddable> Embeddable for &T {
    const KEY: &'static str = T::KEY;

    /// A reference is written as what it refers to: the graph is handed on
    /// as it is, and what comes back is the result.
    fn embed(&self, doc: &mut ObjectGraph) -> (r: Result<ObjectId, Error>)
        ensures
            exists|d: &mut ObjectGraph|
                *d == *old(doc) && *final(d) == *final(doc) && #[trigger] call_ensures(
                    <T as Embeddable>::embed,
                    (*self, d),
                    r,
                ),
    {
        (*self).embed(doc)
    }
}

impl<T: Embeddable> Embeddable for Rc<T> {
    const KEY: &'static str = T::KEY;

    /// A shared resource is written as the resource that is shared: the
    /// graph is handed on as it is, and what comes back is the result.
    fn embed(&self, doc: &mut ObjectGraph) -> (r: Result<ObjectId, Error>)
        ensures
            exists|d: &mut ObjectGraph|
                *d == *old(doc) && *final(d) == *final(doc) && #[trigger] call_ensures(
                    <T as Embeddable>::embed,
                    (&**self, d),
                    r,
                ),
    {
        (**self).embed(doc)
    }
}

/// An external object that a page knows under a name.
pub trait RegisteredXObject {
    /// The name under which the page knows the object.
    fn xobject_name(&self) -> (name: Vec<u8>);
}

/// A resource together with the identifier of its object in the graph.
#[derive(Debug, Copy)]
pub struct Embedded<T> {
    pub object: T,
    pub object_id: ObjectId,
}

impl<T: Clone> Clone for Embedded<T> {
    fn clone(&self) -> (r: Self)
        ensures
            r.object_id == self.object_id,
            cloned::<T>(self.object, r.object),
    {
        Embedded { object: self.object.clone(), object_id: self.object_id }
    }
}

impl<T> Deref for Embedded<T> {
    type Target = T;

    fn deref(&self) -> (r: &T)
        ensures
            *r == self.object,
    {
        &self.object
    }
}

/// An embedded resource together with the index of the name under which one
/// page knows it.
#[derive(Debug, Copy)]
pub struct Registered<T> {
    pub embedded: Embedded<T>,
    pub name_index: usize,
}

impl<T: Clone> Clone for Registered<T> {
    fn clone(&self) -> (r: Self)
        ensures
            r.name_index == self.name_index,
            r.embedded.object_id == self.embedded.object_id,
    {
        Registered { embedded: self.embedded.clone(), name_index: self.name_index }
    }
}

impl<T> Deref for Registered<T> {
    type Target = Embedded<T>;

    fn deref(&self) -> (r: &Embedded<T>)
        ensures
            *r == self.embedded,
    {
        &self.embedded
    }
}

/// The name of the resource with the given index: `R` and the index in
/// decimal.
pub open spec fn resource_name(index: nat) -> Seq<u8> {
    seq![82u8] + decimal_bytes(index)
}

/// What `embed` hands back for each outcome of writing the resource.
pub open spec fn embedded_result<T>(resource: T, outcome: Result<ObjectId, Error>) -> Result<
    Embedded<T>,
    Error,
> {
    match outcome {
        Ok(id) => Ok(Embedded { object: resource, object_id: id }),
        Err(e) => Err(e),
    }
}

/// Pairs a resource with the identifier under which it was written, or
/// passes the error on.
pub fn embedded_from<T>(resource: T, outcome: Result<ObjectId, Error>) -> (r: Result<
    Embedded<T>,
    Error,
>)
    ensures
        r == embedded_result(resource, outcome),
{
    match outcome {
        Ok(object_id) => Ok(Embedded { object: resource, object_id }),
        Err(e) => Err(e),
    }
}

/// The outcome of writing a resource, from what `embed` handed back.
pub open spec fn outcome_of<T>(r: Result<Embedded<T>, Error>) -> Result<ObjectId, Error> {
    match r {
        Ok(e) => Ok(e.object_id),
        Err(e) => Err(e),
    }
}

/// Writes the resource into the graph, once, and pairs it with the
/// identifier of its object. The resource is handed the graph as it is;
/// the graph is left as the resource leaves it, and an error of the
/// resource is passed on.
pub fn embed<T: Embeddable>(doc: &mut ObjectGraph, resource: T) -> (r: Result<Embedded<T>, Error>)
    ensures
        exists|d: &mut ObjectGraph|
            *d == *old(doc) && *final(d) == *final(doc) && #[trigger] call_ensures(
                <T as Embeddable>::embed,
                (&resource, d),
                outcome_of(r),
            ),
        r == embedded_result(resource, outcome_of(r)),
{
    let outcome = resource.embed(doc);
    embedded_from(resource, outcome)
}

/// Position of the first entry at or after `from` that refers to the object;
/// the number of entries when there is none.
pub open spec fn table_find(table: Entries, id: ObjectId, from: int) -> int
    decreases table.len() - from,
{
    if from < 0 || from >= table.len() {
        table.len() as int
    } else if table[from].1 == Value::Reference(id) {
        from
    } else {
        table_find(table, id, from + 1)
    }
}

/// The names of one category: the dictionary under the key, or no entries
/// when the key is absent.
pub open spec fn category_table(resources: Entries, key: Seq<u8>) -> Entries {
    match entries_get(resources, key) {
        Some(Value::Dictionary(t)) => t,
        _ => Entries::empty(),
    }
}

/// The category is absent, or it is a dictionary.
pub open spec fn category_ok(resources: Entries, key: Seq<u8>) -> bool {
    entries_has(resources, key) ==> entries_get(resources, key) matches Some(Value::Dictionary(_))
}

/// The names of a category after the object is registered: unchanged when
/// an entry refers to it already, else with a new entry under the next name.
pub open spec fn table_registered(table: Entries, id: ObjectId) -> Entries {
    if table_find(table, id, 0) < table.len() {
        table
    } else {
        entries_set(table, resource_name(table.len()), Value::Reference(id))
    }
}

/// The resource dictionary after the object is registered under the
/// category: the category keeps its place, a new one comes last.
pub open spec fn registered(resources: Entries, key: Seq<u8>, id: ObjectId) -> Entries {
    let table = Value::Dictionary(table_registered(category_table(resources, key), id));
    if entries_has(resources, key) {
        resources.update(entries_find(resources, key, 0), (key, table))
    } else {
        resources.push((key, table))
    }
}

/// The index of the name that registering the object gives.
pub open spec fn registered_index(resources: Entries, key: Seq<u8>, id: ObjectId) -> int {
    table_find(category_table(resources, key), id, 0)
}

/// Position of the entry that refers to the object, or the number of
/// entries when there is none.
fn find_reference(table: &Dictionary, id: ObjectId) -> (i: usize)
    ensures
        i == table_find(table@, id, 0),
        i <= table@.len(),
{
    let mut i: usize = 0;
    while i < table.len()
        invariant
            i <= table@.len(),
            table_find(table@, id, 0) == table_find(table@, id, i as int),
        decreases table@.len() - i,
    {
        let hit = match table.value_at(i) {
            Object::Reference(r) => *r == id,
            _ => false,
        };
        if hit {
            return i;
        }
        i += 1;
    }
    i
}

/// The bytes of a resource name.
pub fn resource_name_bytes(index: usize) -> (name: Vec<u8>)
    ensures
        name@ == resource_name(index as nat),
{
    let mut name: Vec<u8> = Vec::new();
    name.push(82u8);
    push_decimal_bytes(&mut name, index as u64);
    assert(name@ =~= resource_name(index as nat));
    name
}

/// Registers an embedded resource in a page's resource dictionary and gives
/// the name under which the page knows it.
///
/// The category of the resource is looked up or created. Its names are
/// `R0`, `R1` and so on, in this order: a category that was only ever
/// filled by registering is named so. When an entry of the category refers
/// to the object already, the index of its name is given and the dictionary
/// stays as it is; otherwise the object gets the next name. Either way the
/// name of the index given is bound to the object.
pub fn register<T: Embeddable + Clone>(resources: &mut Dictionary, resource: &Embedded<T>) -> (r:
    Registered<T>)
    requires
        category_ok(old(resources)@, key_bytes(T::KEY)),
        table_dense(category_table(old(resources)@, key_bytes(T::KEY))),
    ensures
        final(resources)@ == registered(old(resources)@, key_bytes(T::KEY), resource.object_id),
        r.name_index == registered_index(old(resources)@, key_bytes(T::KEY), resource.object_id),
        table_dense(category_table(final(resources)@, key_bytes(T::KEY))),
        entries_get(
            category_table(final(resources)@, key_bytes(T::KEY)),
            resource_name(r.name_index as nat),
        ) == Some(Value::Reference(resource.object_id)),
        r.embedded.object_id == resource.object_id,
        cloned::<T>(resource.object, r.embedded.object),
{
    let key = T::KEY.as_bytes();
    let id = resource.object_id;
    proof {
        lemma_registered_name(resources@, key@, id);
    }
    let ci = resources.find(key);
    let name_index = if ci < resources.len() {
        proof {
            lemma_entries_find(resources@, key@, 0);
        }
        let former = resources.replace_at(ci, Object::Null);
        match former {
            Object::Dictionary(mut table) => {
                let p = find_reference(&table, id);
                if p == table.len() {
                    table.set(resource_name_bytes(p), Object::Reference(id));
                }
                let _ = resources.replace_at(ci, Object::Dictionary(table));
                assert(resources@ =~= registered(old(resources)@, key@, id));
                p
            },
            other => {
                let _ = resources.replace_at(ci, other);
                0
            },
        }
    } else {
        let mut table = Dictionary::new();
        table.set(resource_name_bytes(0), Object::Reference(id));
        resources.set(bytes_clone(key), Object::Dictionary(table));
        0
    };
    Registered { embedded: resource.clone(), name_index }
}

/// The entry at each position has the name of that position.
pub open spec fn table_dense(table: Entries) -> bool {
    forall|i: int| 0 <= i < table.len() ==> (#[trigger] table[i]).0 == resource_name(i as nat)
}

/// A search for a reference ends at a position or at the length, on an
/// entry that refers to the object.
pub proof fn lemma_table_find(table: Entries, id: ObjectId, from: int)
    requires
        0 <= from <= table.len(),
    ensures
        from <= table_find(table, id, from) <= table.len(),
        table_find(table, id, from) < table.len() ==> table[table_find(table, id, from)].1
            == Value::Reference(id),
        forall|j: int|
            from <= j < table_find(table, id, from) ==> table[j].1 != Value::Reference(id),
    decreases table.len() - from,
{
    if from < table.len() && table[from].1 != Value::Reference(id) {
        lemma_table_find(table, id, from + 1);
    }
}

/// Different indices have different names.
pub proof fn lemma_resource_name_injective(a: nat, b: nat)
    requires
        resource_name(a) == resource_name(b),
    ensures
        a == b,
{
    let x = decimal_bytes(a);
    let y = decimal_bytes(b);
    assert(x =~= resource_name(a).subrange(1, resource_name(a).len() as int));
    assert(y =~= resource_name(b).subrange(1, resource_name(b).len() as int));
    lemma_decimal_bytes_injective(a, b);
}

/// In a densely named category, registering an object that no entry refers
/// to appends one entry under the next name, and the category stays dense.
pub proof fn lemma_register_new(table: Entries, id: ObjectId)
    requires
        table_dense(table),
        table_find(table, id, 0) == table.len(),
    ensures
        table_registered(table, id) == table.push(
            (resource_name(table.len()), Value::Reference(id)),
        ),
        table_dense(table_registered(table, id)),
        table_find(table_registered(table, id), id, 0) == table.len(),
{
    let name = resource_name(table.len());
    lemma_entries_find(table, name, 0);
    let k = entries_find(table, name, 0);
    if k < table.len() {
        assert(table[k].0 == resource_name(k as nat));
        lemma_resource_name_injective(k as nat, table.len());
    }
    let t1 = table.push((name, Value::Reference(id)));
    lemma_table_find(table, id, 0);
    lemma_table_find(t1, id, 0);
    let p = table_find(t1, id, 0);
    if p < table.len() {
        assert(t1[p] == table[p]);
    }
    assert(t1[table.len() as int].1 == Value::Reference(id));
}

/// Registering keeps a densely named category dense.
pub proof fn lemma_register_keeps_dense(table: Entries, id: ObjectId)
    requires
        table_dense(table),
    ensures
        table_dense(table_registered(table, id)),
{
    lemma_table_find(table, id, 0);
    if table_find(table, id, 0) == table.len() {
        lemma_register_new(table, id);
    }
}

/// What a category holds after a registration under it.
pub proof fn lemma_registered_category(resources: Entries, key: Seq<u8>, id: ObjectId)
    requires
        category_ok(resources, key),
    ensures
        entries_has(registered(resources, key, id), key),
        category_ok(registered(resources, key, id), key),
        category_table(registered(resources, key, id), key) == table_registered(
            category_table(resources, key),
            id,
        ),
        registered(resources, key, id).len() == if entries_has(resources, key) {
            resources.len()
        } else {
            resources.len() + 1
        },
{
    let r1 = registered(resources, key, id);
    lemma_entries_find(resources, key, 0);
    lemma_entries_find(r1, key, 0);
    let i = entries_find(resources, key, 0);
    let k = entries_find(r1, key, 0);
    if i < resources.len() {
        assert(r1[i].0 == key);
        if k < i {
            assert(r1[k].0 == resources[k].0);
        }
    } else {
        assert(r1[resources.len() as int].0 == key);
        if k < resources.len() {
            assert(r1[k].0 == resources[k].0);
        }
    }
}

/// In a densely named category, every name is bound to the object of the
/// entry at its index.
pub proof fn lemma_dense_get(table: Entries, index: int)
    requires
        table_dense(table),
        0 <= index < table.len(),
    ensures
        entries_get(table, resource_name(index as nat)) == Some(table[index].1),
{
    let name = resource_name(index as nat);
    lemma_entries_find(table, name, 0);
    let k = entries_find(table, name, 0);
    assert(table[index].0 == name);
    if k < index {
        assert(table[k].0 == resource_name(k as nat));
        lemma_resource_name_injective(k as nat, index as nat);
    }
}

/// After an object is registered in a densely named category, the category
/// is still densely named, and the name of the index given is bound to the
/// object.
pub proof fn lemma_registered_name(resources: Entries, key: Seq<u8>, id: ObjectId)
    requires
        category_ok(resources, key),
        table_dense(category_table(resources, key)),
    ensures
        table_dense(category_table(registered(resources, key, id), key)),
        0 <= registered_index(resources, key, id),
        entries_get(
            category_table(registered(resources, key, id), key),
            resource_name(registered_index(resources, key, id) as nat),
        ) == Some(Value::Reference(id)),
{
    let t0 = category_table(resources, key);
    let t1 = table_registered(t0, id);
    lemma_registered_category(resources, key, id);
    lemma_register_keeps_dense(t0, id);
    lemma_table_find(t0, id, 0);
    let p = table_find(t0, id, 0);
    if p == t0.len() {
        lemma_register_new(t0, id);
    }
    lemma_dense_get(t1, p);
}

/// Registering the same object twice in one resource dictionary gives the
/// same name both times, and the second registration changes nothing: no
/// entry is added anywhere.
pub proof fn lemma_register_twice(resources: Entries, key: Seq<u8>, id: ObjectId)
    requires
        category_ok(resources, key),
        table_dense(category_table(resources, key)),
    ensures
        registered(registered(resources, key, id), key, id) == registered(resources, key, id),
        registered_index(registered(resources, key, id), key, id) == registered_index(
            resources,
            key,
            id,
        ),
{
    let r1 = registered(resources, key, id);
    let t0 = category_table(resources, key);
    let t1 = table_registered(t0, id);
    lemma_registered_category(resources, key, id);
    lemma_table_find(t0, id, 0);
    if table_find(t0, id, 0) == t0.len() {
        lemma_register_new(t0, id);
    }
    lemma_table_find(t1, id, 0);
    assert(table_registered(t1, id) == t1);
    lemma_entries_find(r1, key, 0);
    assert(registered(r1, key, id) =~= r1);
}

/// Registering two different objects, neither known to the category yet,
/// gives them consecutive names: the first gets the index that equals the
/// number of entries, the second the one after it.
pub proof fn lemma_register_distinct(
    resources: Entries,
    key: Seq<u8>,
    first: ObjectId,
    second: ObjectId,
)
    requires
        category_ok(resources, key),
        table_dense(category_table(resources, key)),
        first != second,
        registered_index(resources, key, first) == category_table(resources, key).len(),
        registered_index(resources, key, second) == category_table(resources, key).len(),
    ensures
        registered_index(resources, key, first) == category_table(resources, key).len(),
        registered_index(registered(resources, key, first), key, second) == category_table(
            resources,
            key,
        ).len() + 1,
        table_dense(
            category_table(registered(registered(resources, key, first), key, second), key),
        ),
{
    let t0 = category_table(resources, key);
    let r1 = registered(resources, key, first);
    lemma_registered_category(resources, key, first);
    lemma_register_new(t0, first);
    let t1 = table_registered(t0, first);
    lemma_table_find(t0, second, 0);
    lemma_table_find(t1, second, 0);
    let p = table_find(t1, second, 0);
    if p < t0.len() {
        assert(t1[p] == t0[p]);
    }
    lemma_registered_category(r1, key, second);
    lemma_register_keeps_dense(t1, second);
}

/// The bytes of a category key.
pub open spec fn key_bytes(key: &str) -> Seq<u8> {
    key.spec_bytes()
}

} // verus!
