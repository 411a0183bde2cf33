//! A document: its pages, its fonts, and what it says of itself.

use vstd::prelude::*;
use vstd::string::StringExecFns;
use crate::assembly::{
    assemble, assembled, font_lists, layer_names, lemma_layer_names_len, lemma_pages_count,
    object_count, page_layer_names, pages_count, preamble_count,
};
use crate::error::Error;
use crate::font::{BuiltinFont, ExternalFont, Font, FontValue};
use crate::font_list::{
    font_ids_distinct, font_names_distinct, fonts_added, fonts_find, fonts_has, fonts_within, DirectFontRef,
    FontEntry, FontList,
};
use crate::graph::{graph_reserve, next_id, GraphView, ObjectGraph};
use crate::graphics::IndirectFontRef;
use crate::pdf_conformance::PdfConformance;
use crate::pdf_metadata::{DateTime, IccProfile, MetadataValue, PdfMetadata};
use crate::pdf_page::{PageView, PdfPage};
use crate::text::{decimal_chars, push_decimal};
use crate::utils::{
    random_character_string_32, random_letters, seed_after_letters, RandomSource, ID_LEN,
};

verus! {

/// A document. It owns its pages, in the order in which they were added,
/// and its fonts.
#[derive(Debug)]
pub struct PdfDocument {
    pages: Vec<PdfPage>,
    fonts: FontList,
    inner_doc: ObjectGraph,
    document_id: String,
    metadata: PdfMetadata,
}

/// The mathematical value of a [`PdfDocument`].
pub struct DocumentView {
    pub pages: Seq<PageView>,
    pub fonts: Seq<FontEntry>,
    pub graph: GraphView,
    pub document_id: Seq<char>,
    pub metadata: MetadataValue,
}

/// The values of a list of pages.
pub open spec fn pages_of(pages: Seq<PdfPage>) -> Seq<PageView> {
    Seq::new(pages.len(), |i: int| pages[i]@)
}

/// The graph of a document holds no object yet, and it has set aside the
/// identifier of every font, for each font another.
pub open spec fn document_wf(doc: DocumentView) -> bool {
    &&& doc.graph.objects.len() == 0
    &&& fonts_within(doc.fonts, doc.graph.max_id)
    &&& font_ids_distinct(doc.fonts)
    &&& font_names_distinct(doc.fonts)
}

/// The name under which a document knows the outline font that is added
/// when it has `count` fonts.
pub open spec fn external_font_name(count: nat) -> Seq<char> {
    "F"@ + decimal_chars(count)
}

/// The document after a font is added under a name. A document that knows
/// the name stays as it is; otherwise an identifier is set aside for the
/// font and the font is added.
pub open spec fn document_with_font(doc: DocumentView, name: Seq<char>, font: FontValue)
    -> DocumentView {
    if fonts_has(doc.fonts, name) {
        doc
    } else {
        DocumentView {
            fonts: fonts_added(doc.fonts, FontEntry { name, id: next_id(doc.graph), font }),
            graph: graph_reserve(doc.graph),
            ..doc
        }
    }
}

/// Whether a font can be added under a name: the document knows the name,
/// or its graph has an identifier to spare.
pub open spec fn font_fits(doc: DocumentView, name: Seq<char>) -> bool {
    fonts_has(doc.fonts, name) || doc.graph.max_id < u32::MAX
}

impl View for PdfDocument {
    type V = DocumentView;

    closed spec fn view(&self) -> DocumentView {
        DocumentView {
            pages: pages_of(self.pages@),
            fonts: self.fonts@,
            graph: self.inner_doc@,
            document_id: self.document_id@,
            metadata: self.metadata@,
        }
    }
}

impl PdfDocument {
    #[verifier::type_invariant]
    spec fn inv(self) -> bool {
        &&& self.inner_doc@.objects.len() == 0
        &&& fonts_within(self.fonts@, self.inner_doc@.max_id)
        &&& font_ids_distinct(self.fonts@)
        &&& font_names_distinct(self.fonts@)
    }

    /// An empty document of the given title, of PDF version 1.3 and of the
    /// conformance PDF/X-3:2002. Its two identifiers are drawn from the
    /// source: first that of the document, then that of its XMP metadata.
    pub fn new(document_title: &str, now: DateTime, source: &mut RandomSource) -> (doc: PdfDocument)
        ensures
            doc@.pages == Seq::<PageView>::empty(),
            doc@.fonts == Seq::<FontEntry>::empty(),
            doc@.graph.objects.len() == 0,
            doc@.graph.max_id == 0,
            doc@.graph.version == "1.3"@,
            doc@.document_id == random_letters(old(source).seed, ID_LEN as nat),
            doc@.metadata.xmp_document_id == random_letters(
                seed_after_letters(old(source).seed, ID_LEN as nat),
                ID_LEN as nat,
            ),
            doc@.metadata.document_title == document_title@,
            doc@.metadata.creation_date == now,
            doc@.metadata.modification_date == now,
            doc@.metadata.metadata_date == now,
            doc@.metadata.document_version == 1,
            !doc@.metadata.trapping,
            doc@.metadata.conformance == PdfConformance::X3_2002_PDF_1_3@,
            doc@.metadata.target_icc_profile is None,
            doc@.metadata.xmp_rendition_class == "default"@,
            final(source).seed == seed_after_letters(
                seed_after_letters(old(source).seed, ID_LEN as nat),
                ID_LEN as nat,
            ),
            document_wf(doc@),
    {
        let document_id = random_character_string_32(source);
        let xmp_document_id = random_character_string_32(source);
        let doc = PdfDocument {
            pages: Vec::new(),
            fonts: FontList::new(),
            inner_doc: ObjectGraph::with_version("1.3"),
            document_id,
            metadata: PdfMetadata::new(
                document_title,
                1,
                false,
                PdfConformance::X3_2002_PDF_1_3,
                now,
                xmp_document_id,
            ),
        };
        assert(doc@.pages =~= Seq::<PageView>::empty());
        doc
    }

    /// The document is well formed.
    pub fn check_wf(&self)
        ensures
            document_wf(self@),
    {
        proof {
            use_type_invariant(self);
        }
    }

    /// Changes the title of the document.
    pub fn set_title(&mut self, new_title: &str)
        ensures
            final(self)@ == (DocumentView {
                metadata: MetadataValue { document_title: new_title@, ..old(self)@.metadata },
                ..old(self)@
            }),
    {
        proof {
            use_type_invariant(&*self);
        }
        self.metadata.document_title = new_title.to_owned();
    }

    /// Sets whether the document is trapped.
    pub fn set_trapping(&mut self, trapping: bool)
        ensures
            final(self)@ == (DocumentView {
                metadata: MetadataValue { trapping, ..old(self)@.metadata },
                ..old(self)@
            }),
    {
        proof {
            use_type_invariant(&*self);
        }
        self.metadata.trapping = trapping;
    }

    /// Sets the identifier that the XMP metadata gives the document.
    pub fn set_document_id(&mut self, id: String)
        ensures
            final(self)@ == (DocumentView {
                metadata: MetadataValue { xmp_document_id: id@, ..old(self)@.metadata },
                ..old(self)@
            }),
    {
        proof {
            use_type_invariant(&*self);
        }
        self.metadata.xmp_document_id = id;
    }

    /// Sets the version of the document.
    pub fn set_document_version(&mut self, version: u32)
        ensures
            final(self)@ == (DocumentView {
                metadata: MetadataValue { document_version: version, ..old(self)@.metadata },
                ..old(self)@
            }),
    {
        proof {
            use_type_invariant(&*self);
        }
        self.metadata.document_version = version;
    }

    /// Changes the conformance of the document.
    pub fn set_conformance(&mut self, conformance: PdfConformance)
        ensures
            final(self)@ == (DocumentView {
                metadata: MetadataValue { conformance: conformance@, ..old(self)@.metadata },
                ..old(self)@
            }),
    {
        proof {
            use_type_invariant(&*self);
        }
        self.metadata.conformance = conformance;
    }

    /// Sets the profile of the output that the document is made for.
    pub fn set_target_icc_profile(&mut self, profile: Option<IccProfile>)
        ensures
            final(self)@ == (DocumentView {
                metadata: MetadataValue {
                    target_icc_profile: match profile {
                        Some(p) => Some(p@),
                        None => None,
                    },
                    ..old(self)@.metadata
                },
                ..old(self)@
            }),
    {
        proof {
            use_type_invariant(&*self);
        }
        self.metadata.target_icc_profile = profile;
    }

    /// Sets the time at which the document was made.
    pub fn set_creation_date(&mut self, creation_date: DateTime)
        ensures
            final(self)@ == (DocumentView {
                metadata: MetadataValue { creation_date, ..old(self)@.metadata },
                ..old(self)@
            }),
    {
        proof {
            use_type_invariant(&*self);
        }
        self.metadata.creation_date = creation_date;
    }

    /// Sets the time at which the document was changed last.
    pub fn set_mod_date(&mut self, mod_date: DateTime)
        ensures
            final(self)@ == (DocumentView {
                metadata: MetadataValue { modification_date: mod_date, ..old(self)@.metadata },
                ..old(self)@
            }),
    {
        proof {
            use_type_invariant(&*self);
        }
        self.metadata.modification_date = mod_date;
    }

    /// Adds a page after the pages that the document has.
    pub fn add_page(&mut self, page: PdfPage)
        ensures
            final(self)@ == (DocumentView { pages: old(self)@.pages.push(page@), ..old(self)@ }),
    {
        proof {
            use_type_invariant(&*self);
        }
        let mut pages: Vec<PdfPage> = Vec::new();
        std::mem::swap(&mut self.pages, &mut pages);
        pages.push(page);
        std::mem::swap(&mut self.pages, &mut pages);
        assert(self@.pages =~= old(self)@.pages.push(page@));
    }

    /// Adds a font under a name, unless the document knows the name.
    fn add_font(&mut self, name: String, font: Font) -> (r: Result<IndirectFontRef, Error>)
        ensures
            r is Ok <==> font_fits(old(self)@, name@),
            r matches Ok(font_ref) ==> font_ref.name@ == name@ && final(self)@
                == document_with_font(old(self)@, name@, font@),
            r matches Err(e) ==> e == Error::ObjectLimit && final(self)@ == old(self)@,
    {
        proof {
            use_type_invariant(&*self);
        }
        let font_ref = IndirectFontRef { name };
        if self.fonts.get_font(&font_ref).is_some() {
            return Ok(font_ref);
        }
        if self.inner_doc.spare_ids() == 0 {
            return Err(Error::ObjectLimit);
        }
        let mut fonts = FontList::new();
        std::mem::swap(&mut self.fonts, &mut fonts);
        let mut graph = ObjectGraph::new();
        std::mem::swap(&mut self.inner_doc, &mut graph);
        let inner_obj = graph.new_object_id();
        let name = font_ref.name.clone();
        let font_ref = fonts.add_font(font_ref, DirectFontRef { inner_obj, data: font });
        proof {
            let added = fonts@;
            let before = old(self)@.fonts;
            crate::font_list::lemma_fonts_find(before, name@, 0);
            assert forall|i: int| 0 <= i < added.len() implies (#[trigger] added[i]).id.number
                <= graph@.max_id by {
                if i < before.len() {
                    assert(added[i] == before[i]);
                }
            }
            assert forall|i: int, j: int| 0 <= i < j < added.len() implies added[i].name
                != added[j].name by {
                assert(added[i] == before[i]);
                if j < before.len() {
                    assert(added[j] == before[j]);
                } else {
                    assert(before[i].name != name@);
                }
            }
            assert forall|i: int, j: int| 0 <= i < j < added.len() implies added[i].id
                != added[j].id by {
                assert(added[i] == before[i]);
                assert(before[i].id.number <= old(self)@.graph.max_id);
                if j < before.len() {
                    assert(added[j] == before[j]);
                }
            }
        }
        std::mem::swap(&mut self.inner_doc, &mut graph);
        std::mem::swap(&mut self.fonts, &mut fonts);
        Ok(font_ref)
    }

    /// What `add_external_font` gives for the bytes of a font file: the
    /// refusal of the bytes, or else whether the graph can number the font.
    pub open spec fn external_font_result(doc: DocumentView, bytes: Seq<u8>) -> Result<(), Error> {
        match ExternalFont::new_result(bytes) {
            Err(e) => Err(e),
            Ok(_) => if font_fits(doc, external_font_name(doc.fonts.len())) {
                Ok(())
            } else {
                Err(Error::ObjectLimit)
            },
        }
    }

    /// Adds an outline font from the bytes of a font file. The font gets a
    /// name made of `F` and the number of fonts that the document has.
    pub fn add_external_font(&mut self, font_bytes: Vec<u8>) -> (r: Result<IndirectFontRef, Error>)
        ensures
            r is Ok <==> PdfDocument::external_font_result(old(self)@, font_bytes@) is Ok,
            r matches Ok(font_ref) ==> font_ref.name@ == external_font_name(
                old(self)@.fonts.len(),
            ) && final(self)@ == document_with_font(
                old(self)@,
                font_ref.name@,
                FontValue::External { bytes: font_bytes@, vertical: false },
            ),
            r matches Err(e) ==> PdfDocument::external_font_result(old(self)@, font_bytes@)
                == Err::<(), Error>(e) && final(self)@ == old(self)@,
    {
        let font = match ExternalFont::new(font_bytes) {
            Ok(font) => font,
            Err(e) => {
                return Err(e);
            },
        };
        let mut name = String::new();
        name.append("F");
        push_decimal(&mut name, self.fonts.len() as u64);
        assert(name@ =~= external_font_name(self@.fonts.len()));
        self.add_font(name, Font::ExternalFont(font))
    }

    /// Adds a standard font, under its PostScript name. A document that has
    /// the font already stays as it is.
    pub fn add_builtin_font(&mut self, builtin_font: BuiltinFont) -> (r: Result<
        IndirectFontRef,
        Error,
    >)
        ensures
            r is Ok <==> font_fits(old(self)@, builtin_font.spec_name()@),
            r matches Ok(font_ref) ==> font_ref.name@ == builtin_font.spec_name()@ && final(self)@
                == document_with_font(
                old(self)@,
                font_ref.name@,
                FontValue::Builtin(builtin_font),
            ),
            r matches Err(e) ==> e == Error::ObjectLimit && final(self)@ == old(self)@,
    {
        self.add_font(builtin_font.name().to_owned(), Font::BuiltinFont(builtin_font))
    }

    /// The font of that name, if the document has one.
    pub fn get_font(&self, font: &IndirectFontRef) -> (r: Option<&DirectFontRef>)
        ensures
            r.is_some() == fonts_has(self@.fonts, font.name@),
            r matches Some(d) ==> d.inner_obj == self@.fonts[fonts_find(
                self@.fonts,
                font.name@,
                0,
            )].id && d.data@ == self@.fonts[fonts_find(self@.fonts, font.name@, 0)].font,
    {
        self.fonts.get_font(font)
    }

    /// The number of pages.
    pub fn page_count(&self) -> (n: usize)
        ensures
            n == self@.pages.len(),
    {
        self.pages.len()
    }

    /// The identifier of the document.
    pub fn document_id(&self) -> (id: &String)
        ensures
            id@ == self@.document_id,
    {
        &self.document_id
    }

    /// What the document says of itself.
    pub fn metadata(&self) -> (m: &PdfMetadata)
        ensures
            m@ == self@.metadata,
    {
        &self.metadata
    }

    /// Gives up the document and hands out its graph, which holds no
    /// object of the document yet.
    pub fn get_inner(self) -> (g: ObjectGraph)
        ensures
            g@ == self@.graph,
    {
        self.inner_doc
    }

    /// Looks for settings that do not fit the conformance of the document.
    /// Nothing is looked into for now: the result is always `Ok`.
    pub fn check_for_errors(&self) -> (r: Result<(), Error>)
        ensures
            r is Ok,
    {
        Ok(())
    }

    /// Brings the document in line with a conformance. Nothing is changed
    /// for now: the result is always `Ok`.
    pub fn repair_errors(&self, _conformance: PdfConformance) -> (r: Result<(), Error>)
        ensures
            r is Ok,
    {
        Ok(())
    }

    /// The number of objects that the assembly adds or sets aside, as far
    /// as it is below `2^32`; else `2^32`.
    fn objects_needed(&self) -> (n: u64)
        ensures
            n == if object_count(self@) < 0x1_0000_0000 {
                object_count(self@)
            } else {
                0x1_0000_0000nat
            },
    {
        let limit: u64 = 0x1_0000_0000;
        let ghost pages = self@.pages;
        let count = self.pages.len();
        let with_fonts = self.fonts.len() > 0;
        let mut n: u64 = 5;
        if self.metadata.conformance.must_have_xmp_metadata() {
            n += 1;
        }
        if self.metadata.conformance.must_have_icc_profile()
            && self.metadata.target_icc_profile.is_some() {
            n += 1;
        }
        if with_fonts {
            n += 1;
        }
        let ghost first = n;
        let mut i: usize = 0;
        while i < count
            invariant
                i <= count,
                count == self.pages@.len(),
                pages == pages_of(self.pages@),
                with_fonts == (self@.fonts.len() > 0),
                first == preamble_count(self@.metadata) + 1 + font_lists(self@.fonts),
                n == first + pages_count(pages, with_fonts, i as nat) + layer_names(
                    pages,
                    i as nat,
                ).len(),
                n < limit,
                limit == 0x1_0000_0000,
            decreases count - i,
        {
            let layers = self.pages[i].layer_count() as u64;
            let objects: u64 = if with_fonts || self.pages[i].has_resources() {
                3
            } else {
                2
            };
            proof {
                assert(pages[i as int] == self.pages@[i as int]@);
                assert(layer_names(pages, (i + 1) as nat) == layer_names(pages, i as nat)
                    + page_layer_names(pages[i as int]));
                lemma_layer_names_len(pages, (i + 1) as nat, count as nat);
                lemma_pages_count(pages, with_fonts, (i + 1) as nat, count as nat);
            }
            if layers >= limit - n || layers + objects >= limit - n {
                return limit;
            }
            n = n + layers + objects;
            i += 1;
        }
        let parts = self.fonts.parts_needed(limit - n);
        n + parts
    }

    /// The identifier of this writing that goes into the XMP metadata: drawn
    /// from the source if the conformance asks for XMP metadata, else empty.
    pub open spec fn xmp_instance_id(doc: DocumentView, seed: u64) -> Seq<char> {
        if doc.metadata.conformance.requires_xmp_metadata {
            random_letters(seed, ID_LEN as nat)
        } else {
            Seq::empty()
        }
    }

    /// The seed from which the identifier of this writing in the trailer is
    /// drawn.
    pub open spec fn instance_seed(doc: DocumentView, seed: u64) -> u64 {
        if doc.metadata.conformance.requires_xmp_metadata {
            seed_after_letters(seed, ID_LEN as nat)
        } else {
            seed
        }
    }

    /// Whether the graph of the document can number the objects that the
    /// assembly adds or sets aside: no fewer and no more.
    pub open spec fn can_save(doc: DocumentView) -> bool {
        doc.graph.max_id + object_count(doc) <= u32::MAX
    }

    /// Assembles the document into one object graph. The document is used
    /// up.
    ///
    /// The assembly is refused, before anything is drawn from the source,
    /// when the graph cannot number the objects that it adds.
    pub fn save(self, source: &mut RandomSource) -> (r: Result<ObjectGraph, Error>)
        ensures
            r is Ok <==> PdfDocument::can_save(self@),
            r matches Ok(g) ==> g@ == assembled(
                self@,
                PdfDocument::xmp_instance_id(self@, old(source).seed),
                random_letters(
                    PdfDocument::instance_seed(self@, old(source).seed),
                    ID_LEN as nat,
                ),
            ) && final(source).seed == seed_after_letters(
                PdfDocument::instance_seed(self@, old(source).seed),
                ID_LEN as nat,
            ),
            r matches Err(e) ==> e == Error::ObjectLimit && final(source).seed == old(source).seed,
    {
        proof {
            use_type_invariant(&self);
        }
        let needed = self.objects_needed();
        if needed > self.inner_doc.spare_ids() as u64 {
            return Err(Error::ObjectLimit);
        }
        let xmp_instance_id = if self.metadata.conformance.must_have_xmp_metadata() {
            random_character_string_32(source)
        } else {
            String::new()
        };
        let instance_id = random_character_string_32(source);
        let PdfDocument { pages, fonts, inner_doc, document_id, metadata } = self;
        Ok(assemble(inner_doc, pages, fonts, metadata, &document_id, &xmp_instance_id, &instance_id))
    }
}

} // verus!
