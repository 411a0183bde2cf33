//! The object graph of a document: numbered objects and a trailer.

use vstd::prelude::*;
use crate::object::{Dictionary, Entries, Object, ObjectId, Value};

verus! {

/// The numbered objects of a document, the trailer, and the highest object
/// number handed out so far.
#[derive(Debug)]
pub struct ObjectGraph {
    version: String,
    trailer: Dictionary,
    objects: Vec<(ObjectId, Object)>,
    max_id: u32,
}

/// The mathematical value of an [`ObjectGraph`].
pub struct GraphView {
    pub version: Seq<char>,
    pub trailer: Entries,
    pub objects: Seq<(ObjectId, Value)>,
    pub max_id: u32,
}

/// Position of the object with the identifier at or after `from`; the number
/// of objects when there is none.
pub open spec fn objects_find(objects: Seq<(ObjectId, Value)>, id: ObjectId, from: int) -> int
    decreases objects.len() - from,
{
    if from < 0 || from >= objects.len() {
        objects.len() as int
    } else if objects[from].0 == id {
        from
    } else {
        objects_find(objects, id, from + 1)
    }
}

/// The object stored under the identifier, if any.
pub open spec fn objects_get(objects: Seq<(ObjectId, Value)>, id: ObjectId) -> Option<Value> {
    let i = objects_find(objects, id, 0);
    if i < objects.len() {
        Some(objects[i].1)
    } else {
        None
    }
}

/// The objects after `value` is stored under `id`: in the place of the
/// object that had the identifier, or else at the end.
pub open spec fn objects_put(objects: Seq<(ObjectId, Value)>, id: ObjectId, value: Value) -> Seq<
    (ObjectId, Value),
> {
    let i = objects_find(objects, id, 0);
    if i < objects.len() {
        objects.update(i, (id, value))
    } else {
        objects.push((id, value))
    }
}

/// How often an identifier occurs among the first `n` objects.
pub open spec fn objects_count(objects: Seq<(ObjectId, Value)>, id: ObjectId, n: int) -> nat
    decreases n,
{
    if n <= 0 || n > objects.len() {
        0
    } else {
        objects_count(objects, id, n - 1) + if objects[n - 1].0 == id {
            1nat
        } else {
            0nat
        }
    }
}

/// No identifier is used twice, and none has a number above `max_id`.
pub open spec fn graph_wf(g: GraphView) -> bool {
    &&& forall|i: int, j: int| 0 <= i < j < g.objects.len() ==> g.objects[i].0 != g.objects[j].0
    &&& forall|i: int| 0 <= i < g.objects.len() ==> (#[trigger] g.objects[i]).0.number <= g.max_id
}

/// The identifier that is handed out `k` steps from now.
pub open spec fn nth_id(g: GraphView, k: int) -> ObjectId {
    ObjectId { number: (g.max_id + k) as u32, generation: 0 }
}

/// The identifier that is handed out next.
pub open spec fn next_id(g: GraphView) -> ObjectId {
    nth_id(g, 1)
}

/// The graph after `value` is added under the next identifier.
pub open spec fn graph_add(g: GraphView, value: Value) -> GraphView {
    GraphView {
        objects: g.objects.push((next_id(g), value)),
        max_id: (g.max_id + 1) as u32,
        ..g
    }
}

/// The graph after the next identifier is set aside.
pub open spec fn graph_reserve(g: GraphView) -> GraphView {
    GraphView { max_id: (g.max_id + 1) as u32, ..g }
}

/// The graph after `value` is stored under `id`.
pub open spec fn graph_put(g: GraphView, id: ObjectId, value: Value) -> GraphView {
    GraphView {
        objects: objects_put(g.objects, id, value),
        max_id: if id.number > g.max_id {
            id.number
        } else {
            g.max_id
        },
        ..g
    }
}

/// A search ends at a position or at the length, on the identifier.
pub proof fn lemma_objects_find(objects: Seq<(ObjectId, Value)>, id: ObjectId, from: int)
    requires
        0 <= from <= objects.len(),
    ensures
        from <= objects_find(objects, id, from) <= objects.len(),
        objects_find(objects, id, from) < objects.len() ==> objects[objects_find(
            objects,
            id,
            from,
        )].0 == id,
        forall|j: int| from <= j < objects_find(objects, id, from) ==> objects[j].0 != id,
    decreases objects.len() - from,
{
    if from < objects.len() && objects[from].0 != id {
        lemma_objects_find(objects, id, from + 1);
    }
}

/// Adding, reserving and storing keep a graph well formed.
pub proof fn lemma_graph_steps_wf(g: GraphView, id: ObjectId, value: Value)
    requires
        graph_wf(g),
    ensures
        g.max_id < u32::MAX ==> graph_wf(graph_add(g, value)),
        g.max_id < u32::MAX ==> graph_wf(graph_reserve(g)),
        graph_wf(graph_put(g, id, value)),
{
    lemma_objects_find(g.objects, id, 0);
    let p = graph_put(g, id, value);
    assert forall|i: int, j: int| 0 <= i < j < p.objects.len() implies p.objects[i].0
        != p.objects[j].0 by {
        let k = objects_find(g.objects, id, 0);
        if k < g.objects.len() {
            assert(p.objects[i].0 == g.objects[i].0);
            assert(p.objects[j].0 == g.objects[j].0);
        } else {
            if j < g.objects.len() {
            } else {
                assert(g.objects[i].0 != id);
            }
        }
    }
    if g.max_id < u32::MAX {
        let a = graph_add(g, value);
        assert forall|i: int, j: int| 0 <= i < j < a.objects.len() implies a.objects[i].0
            != a.objects[j].0 by {
            if j == g.objects.len() {
                assert(g.objects[i].0.number <= g.max_id);
            }
        }
    }
}

/// The position with the identifier before which no object has it, or the
/// length when no object has it, is where the search for it ends.
pub proof fn lemma_objects_find_is(objects: Seq<(ObjectId, Value)>, id: ObjectId, i: int)
    requires
        0 <= i <= objects.len(),
        forall|j: int| 0 <= j < i ==> (#[trigger] objects[j]).0 != id,
        i < objects.len() ==> objects[i].0 == id,
    ensures
        objects_find(objects, id, 0) == i,
{
    lemma_objects_find(objects, id, 0);
    let k = objects_find(objects, id, 0);
    if k < i {
        assert(objects[k].0 != id);
    }
}

/// Every object of `g` is an object of `h`, under the same identifier, and
/// `h` is well formed and has handed out no fewer identifiers.
pub open spec fn graph_extends(g: GraphView, h: GraphView) -> bool {
    &&& graph_wf(h)
    &&& g.max_id <= h.max_id
    &&& forall|id: ObjectId|
        objects_get(g.objects, id) is Some ==> #[trigger] objects_get(h.objects, id) == objects_get(
            g.objects,
            id,
        )
}

/// Every object of the graph has a number above `m`, or one of the given
/// identifiers.
pub open spec fn ids_above_or_among(g: GraphView, m: int, among: Set<ObjectId>) -> bool {
    forall|i: int|
        0 <= i < g.objects.len() ==> (#[trigger] g.objects[i]).0.number > m || among.contains(
            g.objects[i].0,
        )
}

/// A graph that extends another extends what that one extends.
pub proof fn lemma_extends_trans(a: GraphView, b: GraphView, c: GraphView)
    requires
        graph_extends(a, b),
        graph_extends(b, c),
    ensures
        graph_extends(a, c),
{
    assert forall|id: ObjectId| objects_get(a.objects, id) is Some implies #[trigger] objects_get(
        c.objects,
        id,
    ) == objects_get(a.objects, id) by {
        assert(objects_get(b.objects, id) == objects_get(a.objects, id));
    }
}

/// A well-formed graph extends itself.
pub proof fn lemma_extends_self(g: GraphView)
    requires
        graph_wf(g),
    ensures
        graph_extends(g, g),
{
}

/// Setting an identifier aside gives a well-formed graph that extends the
/// one before.
pub proof fn lemma_reserve_extends(g: GraphView)
    requires
        graph_wf(g),
        g.max_id < u32::MAX,
    ensures
        graph_extends(g, graph_reserve(g)),
{
}

/// Adding an object gives a well-formed graph that extends the one before
/// and holds the object under the next identifier, once.
pub proof fn lemma_add_extends(g: GraphView, value: Value)
    requires
        graph_wf(g),
        g.max_id < u32::MAX,
    ensures
        graph_extends(g, graph_add(g, value)),
        objects_get(graph_add(g, value).objects, next_id(g)) == Some(value),
        forall|m: int, among: Set<ObjectId>|
            m <= g.max_id && ids_above_or_among(g, m, among) ==> #[trigger] ids_above_or_among(
                graph_add(g, value),
                m,
                among,
            ),
{
    let h = graph_add(g, value);
    lemma_graph_steps_wf(g, next_id(g), value);
    assert forall|id: ObjectId| objects_get(g.objects, id) is Some implies #[trigger] objects_get(
        h.objects,
        id,
    ) == objects_get(g.objects, id) by {
        lemma_objects_find(g.objects, id, 0);
        let k = objects_find(g.objects, id, 0);
        assert forall|j: int| 0 <= j < k implies (#[trigger] h.objects[j]).0 != id by {
            assert(h.objects[j] == g.objects[j]);
        }
        assert(h.objects[k] == g.objects[k]);
        lemma_objects_find_is(h.objects, id, k);
    }
    assert forall|j: int| 0 <= j < g.objects.len() implies (#[trigger] h.objects[j]).0 != next_id(
        g,
    ) by {
        assert(h.objects[j] == g.objects[j]);
        assert(g.objects[j].0.number <= g.max_id);
    }
    lemma_objects_find_is(h.objects, next_id(g), g.objects.len() as int);
    assert forall|m: int, among: Set<ObjectId>|
        m <= g.max_id && ids_above_or_among(g, m, among) implies #[trigger] ids_above_or_among(
        h,
        m,
        among,
    ) by {
        assert forall|i: int| 0 <= i < h.objects.len() implies (#[trigger] h.objects[i]).0.number
            > m || among.contains(h.objects[i].0) by {
            if i < g.objects.len() {
                assert(h.objects[i] == g.objects[i]);
            }
        }
    }
}

/// Storing an object under an identifier that no object has gives a
/// well-formed graph that extends the one before and holds the object under
/// the identifier.
pub proof fn lemma_put_new_extends(g: GraphView, id: ObjectId, value: Value)
    requires
        graph_wf(g),
        objects_get(g.objects, id) is None,
    ensures
        graph_extends(g, graph_put(g, id, value)),
        objects_get(graph_put(g, id, value).objects, id) == Some(value),
        graph_put(g, id, value).objects == g.objects.push((id, value)),
{
    let h = graph_put(g, id, value);
    lemma_graph_steps_wf(g, id, value);
    lemma_objects_find(g.objects, id, 0);
    assert(h.objects == g.objects.push((id, value)));
    assert forall|other: ObjectId|
        objects_get(g.objects, other) is Some implies #[trigger] objects_get(h.objects, other)
        == objects_get(g.objects, other) by {
        lemma_objects_find(g.objects, other, 0);
        let k = objects_find(g.objects, other, 0);
        assert forall|j: int| 0 <= j < k implies (#[trigger] h.objects[j]).0 != other by {
            assert(h.objects[j] == g.objects[j]);
        }
        assert(h.objects[k] == g.objects[k]);
        lemma_objects_find_is(h.objects, other, k);
    }
    assert forall|j: int| 0 <= j < g.objects.len() implies (#[trigger] h.objects[j]).0 != id by {
        assert(h.objects[j] == g.objects[j]);
    }
    lemma_objects_find_is(h.objects, id, g.objects.len() as int);
}

/// An identifier that is neither above `m` nor among the given ones, in a
/// graph whose objects are all above `m` or among them, has no object.
pub proof fn lemma_absent(g: GraphView, m: int, among: Set<ObjectId>, id: ObjectId)
    requires
        ids_above_or_among(g, m, among),
        id.number <= m,
        !among.contains(id),
    ensures
        objects_get(g.objects, id) is None,
{
    lemma_objects_find(g.objects, id, 0);
    let k = objects_find(g.objects, id, 0);
    if k < g.objects.len() {
        assert(g.objects[k].0.number > m || among.contains(g.objects[k].0));
    }
}

impl View for ObjectGraph {
    type V = GraphView;

    closed spec fn view(&self) -> GraphView {
        GraphView {
            version: self.version@,
            trailer: self.trailer@,
            objects: Seq::new(
                self.objects@.len(),
                |i: int| (self.objects@[i].0, self.objects@[i].1@),
            ),
            max_id: self.max_id,
        }
    }
}

impl ObjectGraph {
    #[verifier::type_invariant]
    spec fn inv(self) -> bool {
        &&& forall|i: int, j: int|
            0 <= i < j < self.objects@.len() ==> self.objects@[i].0 != self.objects@[j].0
        &&& forall|i: int|
            0 <= i < self.objects@.len() ==> (#[trigger] self.objects@[i]).0.number <= self.max_id
    }

    /// An empty graph for the given PDF version.
    pub fn with_version(version: &str) -> (g: ObjectGraph)
        ensures
            g@.version == version@,
            g@.trailer == Entries::empty(),
            g@.objects == Seq::<(ObjectId, Value)>::empty(),
            g@.max_id == 0,
    {
        let g = ObjectGraph {
            version: version.to_owned(),
            trailer: Dictionary::new(),
            objects: Vec::new(),
            max_id: 0,
        };
        assert(g@.objects =~= Seq::<(ObjectId, Value)>::empty());
        g
    }

    /// An empty graph for PDF version 1.4.
    pub fn new() -> (g: ObjectGraph)
        ensures
            g@.version == "1.4"@,
            g@.trailer == Entries::empty(),
            g@.objects == Seq::<(ObjectId, Value)>::empty(),
            g@.max_id == 0,
    {
        ObjectGraph::with_version("1.4")
    }

    /// The graph is well formed.
    pub fn check_wf(&self)
        ensures
            graph_wf(self@),
    {
        proof {
            use_type_invariant(self);
        }
    }

    /// The highest object number handed out so far.
    pub fn max_id(&self) -> (m: u32)
        ensures
            m == self@.max_id,
    {
        self.max_id
    }

    /// How many more identifiers can be handed out.
    pub fn spare_ids(&self) -> (n: u32)
        ensures
            n == u32::MAX - self@.max_id,
    {
        u32::MAX - self.max_id
    }

    /// The number of objects stored.
    pub fn len(&self) -> (n: usize)
        ensures
            n == self@.objects.len(),
    {
        self.objects.len()
    }

    /// Sets aside a new object identifier.
    pub fn new_object_id(&mut self) -> (id: ObjectId)
        requires
            old(self)@.max_id < u32::MAX,
        ensures
            id == next_id(old(self)@),
            final(self)@ == graph_reserve(old(self)@),
    {
        proof {
            use_type_invariant(&*self);
        }
        self.max_id = self.max_id + 1;
        assert(self@.objects =~= old(self)@.objects);
        ObjectId { number: self.max_id, generation: 0 }
    }

    /// Stores an object under a new identifier.
    pub fn add_object(&mut self, object: Object) -> (id: ObjectId)
        requires
            old(self)@.max_id < u32::MAX,
        ensures
            id == next_id(old(self)@),
            final(self)@ == graph_add(old(self)@, object@),
    {
        proof {
            use_type_invariant(&*self);
        }
        let id = ObjectId { number: self.max_id + 1, generation: 0 };
        let mut objects: Vec<(ObjectId, Object)> = Vec::new();
        std::mem::swap(&mut self.objects, &mut objects);
        objects.push((id, object));
        self.max_id = self.max_id + 1;
        std::mem::swap(&mut self.objects, &mut objects);
        assert(self@.objects =~= graph_add(old(self)@, object@).objects);
        id
    }

    /// Position of the object with the identifier, or the number of objects
    /// when there is none.
    fn find(&self, id: ObjectId) -> (i: usize)
        ensures
            i == objects_find(self@.objects, id, 0),
            i <= self@.objects.len(),
    {
        let mut i: usize = 0;
        while i < self.objects.len()
            invariant
                i <= self.objects@.len(),
                self@.objects.len() == self.objects@.len(),
                objects_find(self@.objects, id, 0) == objects_find(self@.objects, id, i as int),
            decreases self.objects@.len() - i,
        {
            if self.objects[i].0 == id {
                return i;
            }
            i += 1;
        }
        i
    }

    /// Stores an object under the given identifier, in the place of the one
    /// that had it, if any.
    pub fn insert(&mut self, id: ObjectId, object: Object)
        ensures
            final(self)@ == graph_put(old(self)@, id, object@),
    {
        proof {
            use_type_invariant(&*self);
            lemma_objects_find(self@.objects, id, 0);
        }
        let i = self.find(id);
        let ghost before = self.objects@;
        proof {
            assert forall|j: int| 0 <= j < before.len() && j != i implies before[j].0 != id by {
                assert(self@.objects[j].0 == before[j].0);
                if i < before.len() {
                    assert(self@.objects[i as int].0 == before[i as int].0);
                }
            }
        }
        let mut objects: Vec<(ObjectId, Object)> = Vec::new();
        std::mem::swap(&mut self.objects, &mut objects);
        if i < objects.len() {
            objects.set(i, (id, object));
        } else {
            objects.push((id, object));
        }
        if id.number > self.max_id {
            self.max_id = id.number;
        }
        std::mem::swap(&mut self.objects, &mut objects);
        assert(self@.objects =~= graph_put(old(self)@, id, object@).objects);
    }

    /// The object under the identifier, if any.
    pub fn get(&self, id: ObjectId) -> (r: Option<&Object>)
        ensures
            r.is_some() == objects_get(self@.objects, id).is_some(),
            r matches Some(o) ==> Some(o@) == objects_get(self@.objects, id),
    {
        let i = self.find(id);
        if i < self.objects.len() {
            Some(&self.objects[i].1)
        } else {
            None
        }
    }

    /// Sets an entry of the trailer.
    pub fn set_trailer(&mut self, key: Vec<u8>, value: Object)
        ensures
            final(self)@ == (GraphView {
                trailer: crate::object::entries_set(old(self)@.trailer, key@, value@),
                ..old(self)@
            }),
    {
        proof {
            use_type_invariant(&*self);
        }
        let mut trailer = Dictionary::new();
        std::mem::swap(&mut self.trailer, &mut trailer);
        trailer.set(key, value);
        std::mem::swap(&mut self.trailer, &mut trailer);
        assert(self@.objects =~= old(self)@.objects);
    }

    /// The trailer.
    pub fn trailer(&self) -> (t: &Dictionary)
        ensures
            t@ == self@.trailer,
    {
        &self.trailer
    }

    /// The PDF version.
    pub fn version(&self) -> (v: &String)
        ensures
            v@ == self@.version,
    {
        &self.version
    }

    /// The identifier and object at a position.
    pub fn object_at(&self, i: usize) -> (r: (ObjectId, &Object))
        requires
            i < self@.objects.len(),
        ensures
            r.0 == self@.objects[i as int].0,
            r.1@ == self@.objects[i as int].1,
    {
        (self.objects[i].0, &self.objects[i].1)
    }
}

} // verus!
