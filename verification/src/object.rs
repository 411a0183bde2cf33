//! The PDF object model: the values an object graph is made of.

use vstd::prelude::*;
use vstd::string::StringSliceAdditionalSpecFns;
use crate::scale::Real;

verus! {

/// Identifies an indirect object: object number and generation.
#[derive(Clone, Copy, Debug, PartialEq, Eq, Structural)]
pub struct ObjectId {
    pub number: u32,
    pub generation: u16,
}

/// How a PDF string is written out.
#[derive(Clone, Copy, Debug, PartialEq, Eq, Structural)]
pub enum StringFormat {
    Literal,
    Hexadecimal,
}

/// A PDF object.
#[derive(Debug, PartialEq)]
pub enum Object {
    Null,
    Boolean(bool),
    Integer(i64),
    Real(Real),
    Name(Vec<u8>),
    String(Vec<u8>, StringFormat),
    Array(Vec<Object>),
    Dictionary(Dictionary),
    Stream(Stream),
    Reference(ObjectId),
    /// A content stream, held as its operations; it is written out
    /// uncompressed.
    Content(Vec<Operation>),
}

/// One operation of a content stream: an operator and its operands.
#[derive(Debug, PartialEq)]
pub struct Operation {
    pub operator: String,
    pub operands: Vec<Object>,
}

/// A PDF dictionary: keys in insertion order. A new dictionary holds each
/// key at most once, and every operation keeps it so.
#[derive(Debug, PartialEq)]
pub struct Dictionary {
    entries: Vec<(Vec<u8>, Object)>,
}

/// A PDF stream: a dictionary and a run of bytes.
#[derive(Debug, PartialEq)]
pub struct Stream {
    pub dict: Dictionary,
    pub content: Vec<u8>,
    pub allows_compression: bool,
}

/// The entries of a dictionary, as mathematical values.
pub type Entries = Seq<(Seq<u8>, Value)>;

/// The mathematical value of an [`Object`].
pub enum Value {
    Null,
    Boolean(bool),
    Integer(i64),
    Real(Real),
    Name(Seq<u8>),
    String(Seq<u8>, StringFormat),
    Array(Seq<Value>),
    Dictionary(Entries),
    Stream(Entries, Seq<u8>, bool),
    Reference(ObjectId),
    Content(Seq<OperationValue>),
}

/// The mathematical value of an [`Operation`].
pub struct OperationValue {
    pub operator: Seq<char>,
    pub operands: Seq<Value>,
}

/// The mathematical value of an object.
pub open spec fn value_of(o: Object) -> Value
    decreases o,
{
    match o {
        Object::Null => Value::Null,
        Object::Boolean(b) => Value::Boolean(b),
        Object::Integer(i) => Value::Integer(i),
        Object::Real(r) => Value::Real(r),
        Object::Name(n) => Value::Name(n@),
        Object::String(s, f) => Value::String(s@, f),
        Object::Array(v) => Value::Array(
            Seq::new(
                v@.len(),
                |i: int|
                    if 0 <= i < v@.len() {
                        value_of(v@[i])
                    } else {
                        Value::Null
                    },
            ),
        ),
        Object::Dictionary(d) => Value::Dictionary(entries_of(d)),
        Object::Stream(s) => Value::Stream(entries_of(s.dict), s.content@, s.allows_compression),
        Object::Reference(id) => Value::Reference(id),
        Object::Content(ops) => Value::Content(
            Seq::new(
                ops@.len(),
                |i: int|
                    if 0 <= i < ops@.len() {
                        OperationValue {
                            operator: ops@[i].operator@,
                            operands: Seq::new(
                                ops@[i].operands@.len(),
                                |j: int|
                                    if 0 <= j < ops@[i].operands@.len() {
                                        value_of(ops@[i].operands@[j])
                                    } else {
                                        Value::Null
                                    },
                            ),
                        }
                    } else {
                        OperationValue { operator: Seq::empty(), operands: Seq::empty() }
                    },
            ),
        ),
    }
}

/// The entries of a dictionary, in order.
pub closed spec fn entries_of(d: Dictionary) -> Entries
    decreases d,
{
    Seq::new(
        d.entries@.len(),
        |i: int|
            if 0 <= i < d.entries@.len() {
                (d.entries@[i].0@, value_of(d.entries@[i].1))
            } else {
                (Seq::empty(), Value::Null)
            },
    )
}

impl View for Object {
    type V = Value;

    open spec fn view(&self) -> Value {
        value_of(*self)
    }
}

impl View for Operation {
    type V = OperationValue;

    open spec fn view(&self) -> OperationValue {
        OperationValue { operator: self.operator@, operands: values_of(self.operands@) }
    }
}

impl View for Dictionary {
    type V = Entries;

    open spec fn view(&self) -> Entries {
        entries_of(*self)
    }
}

/// Position of the first entry at or after `from` whose key is `key`; the
/// number of entries when there is none.
pub open spec fn entries_find(e: Entries, key: Seq<u8>, from: int) -> int
    decreases e.len() - from,
{
    if from < 0 || from >= e.len() {
        e.len() as int
    } else if e[from].0 == key {
        from
    } else {
        entries_find(e, key, from + 1)
    }
}

/// Whether some entry has the key.
pub open spec fn entries_has(e: Entries, key: Seq<u8>) -> bool {
    entries_find(e, key, 0) < e.len()
}

/// The value under the key, if any.
pub open spec fn entries_get(e: Entries, key: Seq<u8>) -> Option<Value> {
    if entries_has(e, key) {
        Some(e[entries_find(e, key, 0)].1)
    } else {
        None
    }
}

/// The entries after `key` is set to `value`: an entry that had the key
/// leaves its place, and the new entry comes last.
pub open spec fn entries_set(e: Entries, key: Seq<u8>, value: Value) -> Entries {
    if entries_has(e, key) {
        e.remove(entries_find(e, key, 0)).push((key, value))
    } else {
        e.push((key, value))
    }
}

/// The entries after each entry of `other`, from the one at `from` on, is
/// set in turn.
pub open spec fn entries_extend(e: Entries, other: Entries, from: int) -> Entries
    decreases other.len() - from,
{
    if from < 0 || from >= other.len() {
        e
    } else {
        entries_extend(entries_set(e, other[from].0, other[from].1), other, from + 1)
    }
}

/// No key occurs twice.
pub open spec fn entries_distinct(e: Entries) -> bool {
    forall|i: int, j: int| 0 <= i < j < e.len() ==> e[i].0 != e[j].0
}

/// The result of a search is a position or the length, and nothing before it
/// has the key.
pub proof fn lemma_entries_find(e: Entries, key: Seq<u8>, from: int)
    requires
        0 <= from <= e.len(),
    ensures
        from <= entries_find(e, key, from) <= e.len(),
        entries_find(e, key, from) < e.len() ==> e[entries_find(e, key, from)].0 == key,
        forall|j: int| from <= j < entries_find(e, key, from) ==> e[j].0 != key,
    decreases e.len() - from,
{
    if from < e.len() && e[from].0 != key {
        lemma_entries_find(e, key, from + 1);
    }
}

/// Setting a key keeps the keys distinct, and the key is then present with
/// the value set.
pub proof fn lemma_entries_set(e: Entries, key: Seq<u8>, value: Value)
    requires
        entries_distinct(e),
    ensures
        entries_distinct(entries_set(e, key, value)),
        entries_get(entries_set(e, key, value), key) == Some(value),
        entries_set(e, key, value).len() == if entries_has(e, key) {
            e.len()
        } else {
            e.len() + 1
        },
{
    let r = entries_set(e, key, value);
    lemma_entries_find(e, key, 0);
    let i = entries_find(e, key, 0);
    assert forall|a: int, b: int| 0 <= a < b < r.len() implies r[a].0 != r[b].0 by {
        if i < e.len() {
            let a0 = if a < i { a } else { a + 1 };
            if b < r.len() - 1 {
                let b0 = if b < i { b } else { b + 1 };
                assert(r[a] == e[a0] && r[b] == e[b0]);
            } else {
                assert(r[a] == e[a0]);
                assert(a0 != i);
                if a0 < i {
                    assert(e[a0].0 != e[i].0);
                } else {
                    assert(e[i].0 != e[a0].0);
                }
            }
        } else {
            if b < r.len() - 1 {
                assert(r[a] == e[a] && r[b] == e[b]);
            } else {
                assert(r[a] == e[a]);
            }
        }
    }
    lemma_entries_find(r, key, 0);
    let k = entries_find(r, key, 0);
    assert(r[r.len() - 1].0 == key);
    assert(k < r.len());
    if k < r.len() - 1 {
        assert(r[k].0 != r[r.len() - 1].0);
    }
}

/// The values of a run of objects, in order.
pub open spec fn values_of(v: Seq<Object>) -> Seq<Value> {
    Seq::new(v.len(), |i: int| value_of(v[i]))
}

/// The value of an array is the array of its items' values.
pub proof fn lemma_array_value(v: Vec<Object>)
    ensures
        Object::Array(v)@ == Value::Array(values_of(v@)),
{
    assert(Object::Array(v)@->Array_0 =~= values_of(v@));
}

/// The values of a run of operations, in order.
pub open spec fn operations_of(v: Seq<Operation>) -> Seq<OperationValue> {
    Seq::new(v.len(), |i: int| v[i]@)
}

/// The value of a content stream is the run of its operations' values.
pub proof fn lemma_content_value(ops: Vec<Operation>)
    ensures
        Object::Content(ops)@ == Value::Content(operations_of(ops@)),
{
    let a = Object::Content(ops)@->Content_0;
    let b = operations_of(ops@);
    assert(a.len() == b.len());
    assert forall|i: int| 0 <= i < a.len() implies a[i] == b[i] by {
        assert(a[i].operands =~= b[i].operands);
    }
    assert(a =~= b);
}

/// The entries after the key, given as text, is set to the value.
pub open spec fn put(e: Entries, key: &str, value: Value) -> Entries {
    entries_set(e, key.spec_bytes(), value)
}

/// The name object with the given text.
pub open spec fn name_value(s: &str) -> Value {
    Value::Name(s.spec_bytes())
}

/// The literal string object with the given text.
pub open spec fn literal_value(s: &str) -> Value {
    Value::String(s.spec_bytes(), StringFormat::Literal)
}

/// The whole numbers of a run, as array items.
pub open spec fn integer_values(v: Seq<i64>) -> Seq<Value> {
    Seq::new(v.len(), |i: int| Value::Integer(v[i]))
}

/// The name object with the given text.
pub fn name(s: &str) -> (o: Object)
    ensures
        o@ == name_value(s),
{
    Object::Name(bytes_clone(s.as_bytes()))
}

/// The literal string object with the given text.
pub fn literal(s: &str) -> (o: Object)
    ensures
        o@ == literal_value(s),
{
    Object::String(bytes_clone(s.as_bytes()), StringFormat::Literal)
}

/// The array of the given objects.
pub fn array(items: Vec<Object>) -> (o: Object)
    ensures
        o@ == Value::Array(values_of(items@)),
{
    proof {
        lemma_array_value(items);
    }
    Object::Array(items)
}

/// The array of the given whole numbers.
pub fn integer_array(numbers: &Vec<i64>) -> (o: Object)
    ensures
        o@ == Value::Array(integer_values(numbers@)),
{
    let mut v: Vec<Object> = Vec::new();
    let mut i: usize = 0;
    while i < numbers.len()
        invariant
            i <= numbers@.len(),
            v@.len() == i,
            forall|j: int| 0 <= j < i ==> (#[trigger] v@[j])@ == Value::Integer(numbers@[j]),
        decreases numbers@.len() - i,
    {
        v.push(Object::Integer(numbers[i]));
        i += 1;
    }
    proof {
        lemma_array_value(v);
        assert(values_of(v@) =~= integer_values(numbers@));
    }
    Object::Array(v)
}

/// The references to a run of object identifiers, as array items.
pub open spec fn reference_values(ids: Seq<ObjectId>) -> Seq<Value> {
    Seq::new(ids.len(), |i: int| Value::Reference(ids[i]))
}

/// An array that refers to each of the objects in turn.
pub fn reference_array(ids: &Vec<ObjectId>) -> (o: Object)
    ensures
        o@ == Value::Array(reference_values(ids@)),
{
    let mut v: Vec<Object> = Vec::new();
    let mut i: usize = 0;
    while i < ids.len()
        invariant
            i <= ids@.len(),
            v@.len() == i,
            forall|j: int| 0 <= j < i ==> (#[trigger] v@[j])@ == Value::Reference(ids@[j]),
        decreases ids@.len() - i,
    {
        v.push(Object::Reference(ids[i]));
        i += 1;
    }
    proof {
        lemma_array_value(v);
        assert(values_of(v@) =~= reference_values(ids@));
    }
    Object::Array(v)
}

/// The position with the key before which no entry has the key, or the
/// length when no entry has it, is where the search for the key ends.
pub proof fn lemma_find_is(e: Entries, key: Seq<u8>, i: int)
    requires
        0 <= i <= e.len(),
        forall|j: int| 0 <= j < i ==> (#[trigger] e[j]).0 != key,
        i < e.len() ==> e[i].0 == key,
    ensures
        entries_find(e, key, 0) == i,
{
    lemma_entries_find(e, key, 0);
    let k = entries_find(e, key, 0);
    if k < i {
        assert(e[k].0 != key);
    }
}

/// Setting one key leaves what stands under every other key as it is.
pub proof fn lemma_set_other(e: Entries, key: Seq<u8>, value: Value, other: Seq<u8>)
    requires
        other != key,
    ensures
        entries_get(entries_set(e, key, value), other) == entries_get(e, other),
        entries_has(entries_set(e, key, value), other) == entries_has(e, other),
{
    let r = entries_set(e, key, value);
    lemma_entries_find(e, key, 0);
    lemma_entries_find(e, other, 0);
    let at = entries_find(e, key, 0);
    let i = entries_find(e, other, 0);
    if at < e.len() {
        if i < e.len() {
            let moved = if i < at {
                i
            } else {
                i - 1
            };
            assert(r[moved] == e[i]);
            assert forall|j: int| 0 <= j < moved implies (#[trigger] r[j]).0 != other by {
                if j < at {
                    assert(r[j] == e[j]);
                } else {
                    assert(r[j] == e[j + 1]);
                }
            }
            lemma_find_is(r, other, moved);
        } else {
            assert forall|j: int| 0 <= j < r.len() implies (#[trigger] r[j]).0 != other by {
                if j < at {
                    assert(r[j] == e[j]);
                } else if j < r.len() - 1 {
                    assert(r[j] == e[j + 1]);
                }
            }
            lemma_find_is(r, other, r.len() as int);
        }
    } else {
        if i < e.len() {
            assert(r[i] == e[i]);
            assert forall|j: int| 0 <= j < i implies (#[trigger] r[j]).0 != other by {
                assert(r[j] == e[j]);
            }
            lemma_find_is(r, other, i);
        } else {
            assert forall|j: int| 0 <= j < r.len() implies (#[trigger] r[j]).0 != other by {
                if j < e.len() {
                    assert(r[j] == e[j]);
                }
            }
            lemma_find_is(r, other, r.len() as int);
        }
    }
}

/// Setting the entries of a dictionary leaves what stands under a key that
/// is not among them as it is.
pub proof fn lemma_extend_other(e: Entries, added: Entries, from: int, other: Seq<u8>)
    requires
        0 <= from,
        forall|j: int| from <= j < added.len() ==> (#[trigger] added[j]).0 != other,
    ensures
        entries_get(entries_extend(e, added, from), other) == entries_get(e, other),
    decreases added.len() - from,
{
    if from < added.len() {
        assert(added[from].0 != other);
        lemma_set_other(e, added[from].0, added[from].1, other);
        lemma_extend_other(
            entries_set(e, added[from].0, added[from].1),
            added,
            from + 1,
            other,
        );
    }
}

/// After the entries of a dictionary with distinct keys are set, from the
/// place `from` on, the keys are still distinct, and each of those entries
/// stands under its key.
pub proof fn lemma_extend_holds(e: Entries, added: Entries, from: int)
    requires
        0 <= from,
        entries_distinct(e),
        entries_distinct(added),
    ensures
        entries_distinct(entries_extend(e, added, from)),
        forall|j: int|
            from <= j < added.len() ==> entries_get(
                entries_extend(e, added, from),
                (#[trigger] added[j]).0,
            ) == Some(added[j].1),
    decreases added.len() - from,
{
    if from < added.len() {
        let next = entries_set(e, added[from].0, added[from].1);
        lemma_entries_set(e, added[from].0, added[from].1);
        lemma_extend_holds(next, added, from + 1);
        assert forall|j: int| from + 1 <= j < added.len() implies (#[trigger] added[j]).0
            != added[from].0 by {
            assert(added[from].0 != added[j].0);
        }
        lemma_extend_other(next, added, from + 1, added[from].0);
    }
}

/// In entries with distinct keys, every entry stands under its key.
pub proof fn lemma_distinct_get(e: Entries, i: int)
    requires
        entries_distinct(e),
        0 <= i < e.len(),
    ensures
        entries_get(e, e[i].0) == Some(e[i].1),
{
    assert forall|j: int| 0 <= j < i implies (#[trigger] e[j]).0 != e[i].0 by {
        assert(e[j].0 != e[i].0);
    }
    lemma_find_is(e, e[i].0, i);
}

/// Whether two runs of bytes are equal.
pub fn bytes_eq(a: &[u8], b: &[u8]) -> (r: bool)
    ensures
        r == (a@ == b@),
{
    if a.len() != b.len() {
        return false;
    }
    let mut i: usize = 0;
    while i < a.len()
        invariant
            a.len() == b.len(),
            i <= a.len(),
            forall|j: int| 0 <= j < i ==> a@[j] == b@[j],
        decreases a.len() - i,
    {
        if a[i] != b[i] {
            return false;
        }
        i += 1;
    }
    assert(a@ =~= b@);
    true
}

/// A copy of a run of bytes.
pub fn bytes_clone(a: &[u8]) -> (r: Vec<u8>)
    ensures
        r@ == a@,
{
    let mut r: Vec<u8> = Vec::new();
    let mut i: usize = 0;
    while i < a.len()
        invariant
            i <= a.len(),
            r@ == a@.take(i as int),
        decreases a.len() - i,
    {
        r.push(a[i]);
        assert(a@.take(i + 1) =~= a@.take(i as int).push(a@[i as int]));
        i += 1;
    }
    assert(a@.take(a.len() as int) =~= a@);
    r
}

impl Dictionary {
    /// The keys are distinct.
    pub open spec fn wf(&self) -> bool {
        entries_distinct(self@)
    }

    /// An empty dictionary.
    pub fn new() -> (d: Dictionary)
        ensures
            d@ == Entries::empty(),
            d.wf(),
    {
        let d = Dictionary { entries: Vec::new() };
        assert(d@ =~= Entries::empty());
        d
    }

    /// The number of entries.
    pub fn len(&self) -> (n: usize)
        ensures
            n == self@.len(),
    {
        self.entries.len()
    }

    /// Whether the dictionary has no entry.
    pub fn is_empty(&self) -> (b: bool)
        ensures
            b == (self@.len() == 0),
    {
        self.entries.len() == 0
    }

    /// Position of the entry with the key, or the number of entries when
    /// there is none.
    pub fn find(&self, key: &[u8]) -> (i: usize)
        ensures
            i == entries_find(self@, key@, 0),
            i <= self@.len(),
    {
        let mut i: usize = 0;
        while i < self.entries.len()
            invariant
                i <= self.entries@.len(),
                self@.len() == self.entries@.len(),
                entries_find(self@, key@, 0) == entries_find(self@, key@, i as int),
            decreases self.entries@.len() - i,
        {
            if bytes_eq(self.entries[i].0.as_slice(), key) {
                return i;
            }
            i += 1;
        }
        i
    }

    /// Whether an entry has the key.
    pub fn has(&self, key: &[u8]) -> (b: bool)
        ensures
            b == entries_has(self@, key@),
    {
        self.find(key) < self.entries.len()
    }

    /// The object under the key, if any.
    pub fn get(&self, key: &[u8]) -> (r: Option<&Object>)
        ensures
            r.is_some() == entries_has(self@, key@),
            r matches Some(o) ==> Some(o@) == entries_get(self@, key@),
    {
        let i = self.find(key);
        if i < self.entries.len() {
            Some(&self.entries[i].1)
        } else {
            None
        }
    }

    /// The key of the entry at a position.
    pub fn key_at(&self, i: usize) -> (k: &Vec<u8>)
        requires
            i < self@.len(),
        ensures
            k@ == self@[i as int].0,
    {
        &self.entries[i].0
    }

    /// The object of the entry at a position.
    pub fn value_at(&self, i: usize) -> (o: &Object)
        requires
            i < self@.len(),
        ensures
            o@ == self@[i as int].1,
    {
        &self.entries[i].1
    }

    /// Sets `key` to `value`. An entry that had the key is replaced, and the
    /// new entry comes last.
    pub fn set(&mut self, key: Vec<u8>, value: Object)
        ensures
            final(self)@ == entries_set(old(self)@, key@, value@),
            old(self).wf() ==> final(self).wf(),
    {
        proof {
            if self.wf() {
                lemma_entries_set(self@, key@, value@);
            }
        }
        let i = self.find(key.as_slice());
        if i < self.entries.len() {
            let _ = self.entries.remove(i);
        }
        self.entries.push((key, value));
        assert(self@ =~= entries_set(old(self)@, key@, value@));
    }

    /// Sets the key, given as text, to `value`.
    pub fn put(&mut self, key: &str, value: Object)
        ensures
            final(self)@ == put(old(self)@, key, value@),
            old(self).wf() ==> final(self).wf(),
    {
        self.set(bytes_clone(key.as_bytes()), value);
    }

    /// Puts `value` in the place of the object at a position and hands the
    /// former object back. The key stays.
    pub fn replace_at(&mut self, i: usize, value: Object) -> (former: Object)
        requires
            i < old(self)@.len(),
        ensures
            final(self)@ == old(self)@.update(i as int, (old(self)@[i as int].0, value@)),
            former@ == old(self)@[i as int].1,
            old(self).wf() ==> final(self).wf(),
    {
        let (k, former) = self.entries.remove(i);
        self.entries.insert(i, (k, value));
        assert(self@ =~= old(self)@.update(i as int, (old(self)@[i as int].0, value@)));
        former
    }

    /// Takes the entries out, in order.
    pub fn into_entries(self) -> (v: Vec<(Vec<u8>, Object)>)
        ensures
            v@.len() == self@.len(),
            forall|i: int| 0 <= i < v@.len() ==> (#[trigger] v@[i]).0@ == self@[i].0 && v@[i].1@ == self@[i].1,
    {
        self.entries
    }

    /// Sets a copy of each entry of `other` in turn.
    pub fn extend(&mut self, other: &Dictionary)
        ensures
            final(self)@ == entries_extend(old(self)@, other@, 0),
            old(self).wf() ==> final(self).wf(),
    {
        let mut i: usize = 0;
        while i < other.entries.len()
            invariant
                i <= other.entries@.len(),
                other@.len() == other.entries@.len(),
                old(self).wf() ==> self.wf(),
                entries_extend(old(self)@, other@, 0) == entries_extend(self@, other@, i as int),
            decreases other.entries@.len() - i,
        {
            let k = bytes_clone(other.entries[i].0.as_slice());
            let v = other.entries[i].1.clone();
            self.set(k, v);
            i += 1;
        }
    }
}

impl Clone for Object {
    #[verifier::loop_isolation(false)]
    fn clone(&self) -> (r: Self)
        ensures
            r@ == self@,
        decreases self,
    {
        match self {
            Object::Null => Object::Null,
            Object::Boolean(b) => Object::Boolean(*b),
            Object::Integer(i) => Object::Integer(*i),
            Object::Real(x) => Object::Real(*x),
            Object::Name(n) => Object::Name(bytes_clone(n.as_slice())),
            Object::String(s, f) => Object::String(bytes_clone(s.as_slice()), *f),
            Object::Array(v) => {
                let mut r: Vec<Object> = Vec::new();
                let mut i: usize = 0;
                while i < v.len()
                    invariant
                        i <= v@.len(),
                        r@.len() == i,
                        forall|j: int| 0 <= j < i ==> (#[trigger] r@[j])@ == v@[j]@,
                    decreases v@.len() - i,
                {
                    r.push(v[i].clone());
                    i += 1;
                }
                let o = Object::Array(r);
                assert(o@->Array_0 =~= self@->Array_0);
                o
            },
            Object::Dictionary(d) => Object::Dictionary(d.clone()),
            Object::Stream(s) => Object::Stream(
                Stream {
                    dict: s.dict.clone(),
                    content: bytes_clone(s.content.as_slice()),
                    allows_compression: s.allows_compression,
                },
            ),
            Object::Reference(id) => Object::Reference(*id),
            Object::Content(ops) => {
                let mut r: Vec<Operation> = Vec::new();
                let mut i: usize = 0;
                while i < ops.len()
                    invariant
                        i <= ops@.len(),
                        r@.len() == i,
                        forall|j: int| 0 <= j < i ==> (#[trigger] r@[j])@ == ops@[j]@,
                    decreases ops@.len() - i,
                {
                    r.push(ops[i].clone());
                    i += 1;
                }
                proof {
                    lemma_content_value(r);
                    lemma_content_value(*ops);
                    assert(operations_of(r@) =~= operations_of(ops@));
                }
                Object::Content(r)
            },
        }
    }
}

impl Clone for Operation {
    #[verifier::loop_isolation(false)]
    fn clone(&self) -> (r: Self)
        ensures
            r@ == self@,
        decreases self,
    {
        let mut v: Vec<Object> = Vec::new();
        let mut i: usize = 0;
        while i < self.operands.len()
            invariant
                i <= self.operands@.len(),
                v@.len() == i,
                forall|j: int| 0 <= j < i ==> (#[trigger] v@[j])@ == self.operands@[j]@,
            decreases self.operands@.len() - i,
        {
            v.push(self.operands[i].clone());
            i += 1;
        }
        let r = Operation { operator: self.operator.clone(), operands: v };
        assert(r@.operands =~= self@.operands);
        r
    }
}

impl Operation {
    /// An operation with the given operator and operands.
    pub fn new(operator: &str, operands: Vec<Object>) -> (op: Operation)
        ensures
            op@ == (OperationValue { operator: operator@, operands: values_of(operands@) }),
    {
        Operation { operator: operator.to_owned(), operands }
    }
}

impl Clone for Dictionary {
    #[verifier::loop_isolation(false)]
    fn clone(&self) -> (r: Self)
        ensures
            r@ == self@,
        decreases self,
    {
        let mut e: Vec<(Vec<u8>, Object)> = Vec::new();
        let mut i: usize = 0;
        while i < self.entries.len()
            invariant
                i <= self.entries@.len(),
                e@.len() == i,
                forall|j: int| 0 <= j < i ==> (#[trigger] e@[j]).0@ == self.entries@[j].0@ && e@[j].1@ == self.entries@[j].1@,
            decreases self.entries@.len() - i,
        {
            let k = bytes_clone(self.entries[i].0.as_slice());
            let v = self.entries[i].1.clone();
            e.push((k, v));
            i += 1;
        }
        let r = Dictionary { entries: e };
        assert(r@ =~= self@);
        r
    }
}

impl Clone for Stream {
    fn clone(&self) -> (r: Self)
        ensures
            r.dict@ == self.dict@,
            r.content@ == self.content@,
            r.allows_compression == self.allows_compression,
    {
        Stream {
            dict: self.dict.clone(),
            content: bytes_clone(self.content.as_slice()),
            allows_compression: self.allows_compression,
        }
    }
}

} // verus!
