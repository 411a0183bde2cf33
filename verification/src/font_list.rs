//! The fonts of a document, by name.

use vstd::prelude::*;
use crate::font::{text_bytes, Font, FontValue};
use crate::graph::{
    graph_extends, graph_put, graph_wf, ids_above_or_among, objects_get, GraphView, ObjectGraph,
};
use crate::graphics::IndirectFontRef;
use crate::object::{
    bytes_clone, entries_get, entries_set, Dictionary, Entries, Object, ObjectId, Value,
};

verus! {

/// A font of a document: the identifier set aside for its font dictionary,
/// and the font.
#[derive(Debug, Clone, PartialEq)]
pub struct DirectFontRef {
    pub inner_obj: ObjectId,
    pub data: Font,
}

/// The fonts of a document, each under its name, in the order in which they
/// were added.
#[derive(Debug)]
pub struct FontList {
    fonts: Vec<(String, DirectFontRef)>,
}

/// The mathematical value of one font of a [`FontList`].
pub struct FontEntry {
    pub name: Seq<char>,
    pub id: ObjectId,
    pub font: FontValue,
}

/// Position of the first font of that name at or after `from`; the number
/// of fonts when there is none.
pub open spec fn fonts_find(fonts: Seq<FontEntry>, name: Seq<char>, from: int) -> int
    decreases fonts.len() - from,
{
    if from < 0 || from >= fonts.len() {
        fonts.len() as int
    } else if fonts[from].name == name {
        from
    } else {
        fonts_find(fonts, name, from + 1)
    }
}

/// Whether the list has a font of that name.
pub open spec fn fonts_has(fonts: Seq<FontEntry>, name: Seq<char>) -> bool {
    fonts_find(fonts, name, 0) < fonts.len()
}

/// The fonts after one is added: in the place of the font of the same name,
/// if there is one, else at the end.
pub open spec fn fonts_added(fonts: Seq<FontEntry>, entry: FontEntry) -> Seq<FontEntry> {
    let i = fonts_find(fonts, entry.name, 0);
    if i < fonts.len() {
        fonts.update(i, entry)
    } else {
        fonts.push(entry)
    }
}

/// The number of objects that the first `n` fonts need beside their font
/// dictionaries.
pub open spec fn fonts_parts_count(fonts: Seq<FontEntry>, n: nat) -> nat
    decreases n,
{
    if n == 0 || n > fonts.len() {
        0
    } else {
        fonts_parts_count(fonts, (n - 1) as nat) + fonts[n - 1].font.parts_count()
    }
}

/// The graph after the first `n` fonts are written, each with its font
/// dictionary under the identifier set aside for it, and the dictionary
/// that lists them by name.
pub open spec fn fonts_written(g: GraphView, fonts: Seq<FontEntry>, n: nat) -> (
    GraphView,
    Entries,
)
    decreases n,
{
    if n == 0 || n > fonts.len() {
        (g, Entries::empty())
    } else {
        let (g1, listed) = fonts_written(g, fonts, (n - 1) as nat);
        let f = fonts[n - 1];
        (
            graph_put(f.font.graph_with_parts(g1), f.id, Value::Dictionary(f.font.dictionary(g1))),
            entries_set(listed, text_bytes(f.name), Value::Reference(f.id)),
        )
    }
}

/// No font has an identifier above `max_id`.
pub open spec fn fonts_within(fonts: Seq<FontEntry>, max_id: u32) -> bool {
    forall|i: int| 0 <= i < fonts.len() ==> (#[trigger] fonts[i]).id.number <= max_id
}

/// Writing fonts whose identifiers the graph has set aside raises the
/// highest identifier by the number of objects that the fonts need beside
/// their font dictionaries.
pub proof fn lemma_fonts_written_max_id(g: GraphView, fonts: Seq<FontEntry>, n: nat)
    requires
        n <= fonts.len(),
        fonts_within(fonts, g.max_id),
        g.max_id + fonts_parts_count(fonts, n) <= u32::MAX,
    ensures
        fonts_written(g, fonts, n).0.max_id == g.max_id + fonts_parts_count(fonts, n),
        fonts_written(g, fonts, n).0.version == g.version,
        fonts_written(g, fonts, n).0.trailer == g.trailer,
    decreases n,
{
    if n > 0 {
        lemma_fonts_written_max_id(g, fonts, (n - 1) as nat);
        assert(fonts[n - 1].id.number <= g.max_id);
        fonts[n - 1].font.lemma_graph_with_parts(fonts_written(g, fonts, (n - 1) as nat).0);
    }
}

impl View for FontList {
    type V = Seq<FontEntry>;

    closed spec fn view(&self) -> Seq<FontEntry> {
        Seq::new(
            self.fonts@.len(),
            |i: int|
                FontEntry {
                    name: self.fonts@[i].0@,
                    id: self.fonts@[i].1.inner_obj,
                    font: self.fonts@[i].1.data@,
                },
        )
    }
}

impl FontList {
    /// A list without fonts.
    pub fn new() -> (list: FontList)
        ensures
            list@ == Seq::<FontEntry>::empty(),
    {
        let list = FontList { fonts: Vec::new() };
        assert(list@ =~= Seq::<FontEntry>::empty());
        list
    }

    /// The number of fonts.
    pub fn len(&self) -> (n: usize)
        ensures
            n == self@.len(),
    {
        self.fonts.len()
    }

    /// Position of the font of that name, or the number of fonts when there
    /// is none.
    fn find(&self, name: &String) -> (i: usize)
        ensures
            i == fonts_find(self@, name@, 0),
            i <= self@.len(),
    {
        let mut i: usize = 0;
        while i < self.fonts.len()
            invariant
                i <= self.fonts@.len(),
                self@.len() == self.fonts@.len(),
                fonts_find(self@, name@, 0) == fonts_find(self@, name@, i as int),
            decreases self.fonts@.len() - i,
        {
            if self.fonts[i].0 == *name {
                return i;
            }
            i += 1;
        }
        i
    }

    /// Adds a font under a name, in the place of the font that had the name
    /// if there is one.
    pub fn add_font(&mut self, font_ref: IndirectFontRef, font: DirectFontRef) -> (r:
        IndirectFontRef)
        ensures
            r == font_ref,
            final(self)@ == fonts_added(
                old(self)@,
                FontEntry { name: font_ref.name@, id: font.inner_obj, font: font.data@ },
            ),
    {
        let i = self.find(&font_ref.name);
        if i < self.fonts.len() {
            self.fonts.set(i, (font_ref.name.clone(), font));
        } else {
            self.fonts.push((font_ref.name.clone(), font));
        }
        assert(self@ =~= fonts_added(
            old(self)@,
            FontEntry { name: font_ref.name@, id: font.inner_obj, font: font.data@ },
        ));
        font_ref
    }

    /// The font of that name, if the list has one.
    pub fn get_font(&self, font: &IndirectFontRef) -> (r: Option<&DirectFontRef>)
        ensures
            r.is_some() == fonts_has(self@, font.name@),
            r matches Some(d) ==> d.inner_obj == self@[fonts_find(self@, font.name@, 0)].id
                && d.data@ == self@[fonts_find(self@, font.name@, 0)].font,
    {
        let i = self.find(&font.name);
        if i < self.fonts.len() {
            Some(&self.fonts[i].1)
        } else {
            None
        }
    }

    /// The number of objects that the fonts need beside their font
    /// dictionaries, as far as it is below `limit`; else `limit`.
    pub fn parts_needed(&self, limit: u64) -> (n: u64)
        ensures
            n == if fonts_parts_count(self@, self@.len()) < limit {
                fonts_parts_count(self@, self@.len())
            } else {
                limit as nat
            },
    {
        let mut n: u64 = 0;
        let mut i: usize = 0;
        while i < self.fonts.len()
            invariant
                i <= self.fonts@.len(),
                self@.len() == self.fonts@.len(),
                n == fonts_parts_count(self@, i as nat),
                n <= limit,
            decreases self.fonts@.len() - i,
        {
            let k: u64 = match &self.fonts[i].1.data {
                Font::BuiltinFont(_) => 0,
                Font::ExternalFont(_) => 3,
            };
            if limit - n <= k {
                proof {
                    lemma_parts_count_grows(self@, (i + 1) as nat, self@.len());
                }
                return limit;
            }
            n = n + k;
            i += 1;
        }
        if n >= limit {
            limit
        } else {
            n
        }
    }

    /// Writes every font into the graph, each font dictionary under the
    /// identifier set aside for it, and gives the dictionary that lists the
    /// fonts by name.
    pub fn into_with_document(self, doc: &mut ObjectGraph) -> (dict: Dictionary)
        requires
            fonts_within(self@, old(doc)@.max_id),
            old(doc)@.max_id + fonts_parts_count(self@, self@.len()) <= u32::MAX,
        ensures
            (final(doc)@, dict@) == fonts_written(old(doc)@, self@, self@.len()),
    {
        let mut dict = Dictionary::new();
        let mut i: usize = 0;
        let ghost g0 = doc@;
        while i < self.fonts.len()
            invariant
                i <= self.fonts@.len(),
                self@.len() == self.fonts@.len(),
                fonts_within(self@, g0.max_id),
                g0.max_id + fonts_parts_count(self@, self@.len()) <= u32::MAX,
                (doc@, dict@) == fonts_written(g0, self@, i as nat),
            decreases self.fonts@.len() - i,
        {
            proof {
                lemma_parts_count_grows(self@, i as nat, (i + 1) as nat);
                lemma_parts_count_grows(self@, (i + 1) as nat, self@.len());
                lemma_fonts_written_max_id(g0, self@, i as nat);
            }
            let entry = &self.fonts[i];
            let font_dict = entry.1.data.write_parts(doc);
            doc.insert(entry.1.inner_obj, Object::Dictionary(font_dict));
            dict.set(
                bytes_clone(entry.0.as_str().as_bytes()),
                Object::Reference(entry.1.inner_obj),
            );
            i += 1;
        }
        dict
    }
}

/// A search for a name ends at a position or at the length, on the name.
pub proof fn lemma_fonts_find(fonts: Seq<FontEntry>, name: Seq<char>, from: int)
    requires
        0 <= from <= fonts.len(),
    ensures
        from <= fonts_find(fonts, name, from) <= fonts.len(),
        fonts_find(fonts, name, from) < fonts.len() ==> fonts[fonts_find(fonts, name, from)].name
            == name,
        forall|j: int| from <= j < fonts_find(fonts, name, from) ==> fonts[j].name != name,
    decreases fonts.len() - from,
{
    if from < fonts.len() && fonts[from].name != name {
        lemma_fonts_find(fonts, name, from + 1);
    }
}

/// No two fonts have the same identifier.
pub open spec fn font_ids_distinct(fonts: Seq<FontEntry>) -> bool {
    forall|i: int, j: int| 0 <= i < j < fonts.len() ==> fonts[i].id != fonts[j].id
}

/// The identifiers of the first `n` fonts.
pub open spec fn font_ids(fonts: Seq<FontEntry>, n: int) -> Set<ObjectId> {
    Set::new(|id: ObjectId| exists|j: int| 0 <= j < n && j < fonts.len() && (#[trigger] fonts[j]).id == id)
}

/// Fonts whose identifiers were set aside, and are not in use, are each
/// written once: after the first `n` fonts are written into a well-formed
/// graph, the graph is well formed, it holds every object that it held
/// before, and it holds the font dictionary of each of those fonts under the
/// identifier of the font.
pub proof fn lemma_fonts_written_once(g: GraphView, fonts: Seq<FontEntry>, n: nat, m: int)
    requires
        n <= fonts.len(),
        graph_wf(g),
        m <= g.max_id,
        fonts_within(fonts, m as u32),
        0 <= m,
        font_ids_distinct(fonts),
        ids_above_or_among(g, m, Set::empty()),
        g.max_id + fonts_parts_count(fonts, n) <= u32::MAX,
    ensures
        graph_extends(g, fonts_written(g, fonts, n).0),
        ids_above_or_among(fonts_written(g, fonts, n).0, m, font_ids(fonts, n as int)),
        forall|j: int|
            0 <= j < n ==> #[trigger] objects_get(
                fonts_written(g, fonts, n).0.objects,
                fonts[j].id,
            ) == Some(Value::Dictionary(fonts[j].font.dictionary(fonts_written(g, fonts, j as nat).0))),
    decreases n,
{
    if n == 0 {
        crate::graph::lemma_extends_self(g);
        assert forall|i: int| 0 <= i < g.objects.len() implies (#[trigger] g.objects[i]).0.number
            > m || font_ids(fonts, 0).contains(g.objects[i].0) by {
            assert(g.objects[i].0.number > m || Set::<ObjectId>::empty().contains(g.objects[i].0));
        }
    } else {
        let k = (n - 1) as nat;
        lemma_parts_count_grows(fonts, k, n);
        lemma_fonts_written_once(g, fonts, k, m);
        lemma_fonts_written_max_id_within(g, fonts, k, m);
        let w1 = fonts_written(g, fonts, k).0;
        let f = fonts[n - 1];
        let p = f.font.graph_with_parts(w1);
        f.font.lemma_parts_extend(w1, m, font_ids(fonts, k as int));
        assert(f.id.number <= m);
        assert(!font_ids(fonts, k as int).contains(f.id)) by {
            if font_ids(fonts, k as int).contains(f.id) {
                let j = choose|j: int| 0 <= j < k && j < fonts.len() && (#[trigger] fonts[j]).id == f.id;
                assert(fonts[j].id != fonts[n - 1].id);
            }
        }
        crate::graph::lemma_absent(p, m, font_ids(fonts, k as int), f.id);
        let value = Value::Dictionary(f.font.dictionary(w1));
        crate::graph::lemma_put_new_extends(p, f.id, value);
        let w = fonts_written(g, fonts, n).0;
        assert(w == graph_put(p, f.id, value));
        crate::graph::lemma_extends_trans(g, w1, p);
        crate::graph::lemma_extends_trans(g, p, w);
        crate::graph::lemma_extends_trans(w1, p, w);
        assert forall|i: int| 0 <= i < w.objects.len() implies (#[trigger] w.objects[i]).0.number
            > m || font_ids(fonts, n as int).contains(w.objects[i].0) by {
            if i < p.objects.len() {
                assert(w.objects[i] == p.objects[i]);
                if p.objects[i].0.number <= m {
                    assert(font_ids(fonts, k as int).contains(p.objects[i].0));
                    let j = choose|j: int|
                        0 <= j < k && j < fonts.len() && (#[trigger] fonts[j]).id == p.objects[i].0;
                    assert(0 <= j < n && fonts[j].id == w.objects[i].0);
                }
            } else {
                assert(fonts[n - 1].id == w.objects[i].0);
            }
        }
        assert forall|j: int| 0 <= j < n implies #[trigger] objects_get(w.objects, fonts[j].id)
            == Some(
            Value::Dictionary(fonts[j].font.dictionary(fonts_written(g, fonts, j as nat).0)),
        ) by {
            if j < k {
                assert(objects_get(w1.objects, fonts[j].id) is Some);
            }
        }
    }
}

/// Writing fonts whose identifiers lie at or below `m` raises the highest
/// identifier by the number of objects that the fonts need beside their
/// font dictionaries.
pub proof fn lemma_fonts_written_max_id_within(g: GraphView, fonts: Seq<FontEntry>, n: nat, m: int)
    requires
        n <= fonts.len(),
        0 <= m <= g.max_id,
        fonts_within(fonts, m as u32),
        g.max_id + fonts_parts_count(fonts, n) <= u32::MAX,
    ensures
        fonts_written(g, fonts, n).0.max_id == g.max_id + fonts_parts_count(fonts, n),
{
    assert forall|i: int| 0 <= i < fonts.len() implies (#[trigger] fonts[i]).id.number
        <= g.max_id by {
        assert(fonts[i].id.number <= m);
    }
    lemma_fonts_written_max_id(g, fonts, n);
}

/// The dictionary that lists fonts is empty only where there is no font.
pub proof fn lemma_fonts_listed_len(g: GraphView, fonts: Seq<FontEntry>, n: nat)
    requires
        n <= fonts.len(),
    ensures
        fonts_written(g, fonts, n).1.len() > 0 <==> n > 0,
{
    if n > 0 {
        lemma_fonts_listed_distinct(g, fonts, (n - 1) as nat);
        crate::object::lemma_entries_set(
            fonts_written(g, fonts, (n - 1) as nat).1,
            text_bytes(fonts[n - 1].name),
            Value::Reference(fonts[n - 1].id),
        );
    }
}

/// No two fonts have the same name.
pub open spec fn font_names_distinct(fonts: Seq<FontEntry>) -> bool {
    forall|i: int, j: int| 0 <= i < j < fonts.len() ==> fonts[i].name != fonts[j].name
}

/// The dictionary that lists the first `n` fonts holds no name twice.
pub proof fn lemma_fonts_listed_distinct(g: GraphView, fonts: Seq<FontEntry>, n: nat)
    ensures
        crate::object::entries_distinct(fonts_written(g, fonts, n).1),
    decreases n,
{
    if n > 0 && n <= fonts.len() {
        lemma_fonts_listed_distinct(g, fonts, (n - 1) as nat);
        crate::object::lemma_entries_set(
            fonts_written(g, fonts, (n - 1) as nat).1,
            text_bytes(fonts[n - 1].name),
            Value::Reference(fonts[n - 1].id),
        );
    }
}

/// The dictionary that lists fonts of distinct names binds the name of each
/// font to the identifier of the font.
pub proof fn lemma_fonts_listed(g: GraphView, fonts: Seq<FontEntry>, n: nat, i: int)
    requires
        0 <= i < n <= fonts.len(),
        font_names_distinct(fonts),
    ensures
        entries_get(fonts_written(g, fonts, n).1, text_bytes(fonts[i].name)) == Some(
            Value::Reference(fonts[i].id),
        ),
    decreases n,
{
    let before = fonts_written(g, fonts, (n - 1) as nat).1;
    let last = fonts[n - 1];
    lemma_fonts_listed_distinct(g, fonts, (n - 1) as nat);
    crate::object::lemma_entries_set(before, text_bytes(last.name), Value::Reference(last.id));
    if i < n - 1 {
        lemma_fonts_listed(g, fonts, (n - 1) as nat, i);
        assert(fonts[i].name != fonts[n - 1].name);
        assert(text_bytes(fonts[i].name) != text_bytes(last.name)) by {
            vstd::utf8::encode_utf8_decode_utf8(fonts[i].name);
            vstd::utf8::encode_utf8_decode_utf8(last.name);
        }
        crate::object::lemma_set_other(
            before,
            text_bytes(last.name),
            Value::Reference(last.id),
            text_bytes(fonts[i].name),
        );
    }
}

/// More fonts need at least as many objects.
pub proof fn lemma_parts_count_grows(fonts: Seq<FontEntry>, a: nat, b: nat)
    requires
        a <= b <= fonts.len(),
    ensures
        fonts_parts_count(fonts, a) <= fonts_parts_count(fonts, b),
    decreases b,
{
    if a < b {
        lemma_parts_count_grows(fonts, a, (b - 1) as nat);
    }
}

} // verus!
