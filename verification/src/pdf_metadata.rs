//! What a document says of itself: title, dates, conformance.

use vstd::prelude::*;
use vstd::string::{StringExecFns, StringSliceAdditionalSpecFns};
use crate::font::text_bytes;
use crate::object::{
    array, bytes_clone, name, name_value, put, Dictionary, Entries,
    Object, Stream, StringFormat, Value,
};
use crate::pdf_conformance::{ConformanceValue, PdfConformance};
use crate::scale::{ratio, Real};
use crate::text::{decimal_chars, padded_decimal_chars, push_decimal, push_padded_decimal};

verus! {

/// A point in time, in universal time.
#[derive(Debug, Clone, Copy, PartialEq, Eq, Structural)]
pub struct DateTime {
    pub year: u16,
    pub month: u8,
    pub day: u8,
    pub hour: u8,
    pub minute: u8,
    pub second: u8,
}

impl DateTime {
    /// The time as a document information dictionary writes it.
    pub open spec fn spec_info_text(self) -> Seq<char> {
        "D:"@ + padded_decimal_chars(self.year as nat, 4) + padded_decimal_chars(
            self.month as nat,
            2,
        ) + padded_decimal_chars(self.day as nat, 2) + padded_decimal_chars(self.hour as nat, 2)
            + padded_decimal_chars(self.minute as nat, 2) + padded_decimal_chars(
            self.second as nat,
            2,
        ) + "+00'00'"@
    }

    /// The time as XMP metadata writes it.
    pub open spec fn spec_xmp_text(self) -> Seq<char> {
        padded_decimal_chars(self.year as nat, 4) + "-"@ + padded_decimal_chars(
            self.month as nat,
            2,
        ) + "-"@ + padded_decimal_chars(self.day as nat, 2) + "T"@ + padded_decimal_chars(
            self.hour as nat,
            2,
        ) + ":"@ + padded_decimal_chars(self.minute as nat, 2) + ":"@ + padded_decimal_chars(
            self.second as nat,
            2,
        ) + "+00:00"@
    }

    /// Appends the time as a document information dictionary writes it.
    pub fn push_info_text(&self, out: &mut String)
        ensures
            final(out)@ == old(out)@ + self.spec_info_text(),
    {
        out.append("D:");
        push_padded_decimal(out, self.year as u32, 4);
        push_padded_decimal(out, self.month as u32, 2);
        push_padded_decimal(out, self.day as u32, 2);
        push_padded_decimal(out, self.hour as u32, 2);
        push_padded_decimal(out, self.minute as u32, 2);
        push_padded_decimal(out, self.second as u32, 2);
        out.append("+00'00'");
        assert(out@ =~= old(out)@ + self.spec_info_text());
    }

    /// Appends the time as XMP metadata writes it.
    pub fn push_xmp_text(&self, out: &mut String)
        ensures
            final(out)@ == old(out)@ + self.spec_xmp_text(),
    {
        push_padded_decimal(out, self.year as u32, 4);
        out.append("-");
        push_padded_decimal(out, self.month as u32, 2);
        out.append("-");
        push_padded_decimal(out, self.day as u32, 2);
        out.append("T");
        push_padded_decimal(out, self.hour as u32, 2);
        out.append(":");
        push_padded_decimal(out, self.minute as u32, 2);
        out.append(":");
        push_padded_decimal(out, self.second as u32, 2);
        out.append("+00:00");
        assert(out@ =~= old(out)@ + self.spec_xmp_text());
    }
}

/// The colour model of an ICC profile.
#[derive(Debug, Clone, Copy, PartialEq, Eq, Structural)]
pub enum IccProfileType {
    Cmyk,
    Rgb,
    Greyscale,
}

impl IccProfileType {
    /// The number of colour components.
    pub open spec fn spec_components(self) -> i64 {
        match self {
            IccProfileType::Cmyk => 4,
            IccProfileType::Rgb => 3,
            IccProfileType::Greyscale => 1,
        }
    }

    /// The device colour space that stands in for the profile.
    pub open spec fn spec_alternate(self) -> &'static str {
        match self {
            IccProfileType::Cmyk => "DeviceCMYK",
            IccProfileType::Rgb => "DeviceRGB",
            IccProfileType::Greyscale => "DeviceGray",
        }
    }
}

/// An ICC colour profile.
#[derive(Debug, Clone, PartialEq)]
pub struct IccProfile {
    pub icc: Vec<u8>,
    pub icc_type: IccProfileType,
    pub has_alternate: bool,
    pub has_range: bool,
}

/// The mathematical value of an [`IccProfile`].
pub struct IccProfileValue {
    pub icc: Seq<u8>,
    pub icc_type: IccProfileType,
    pub has_alternate: bool,
    pub has_range: bool,
}

impl View for IccProfile {
    type V = IccProfileValue;

    open spec fn view(&self) -> IccProfileValue {
        IccProfileValue {
            icc: self.icc@,
            icc_type: self.icc_type,
            has_alternate: self.has_alternate,
            has_range: self.has_range,
        }
    }
}

/// The range of every component, from 0 to 1: two numbers for each.
pub open spec fn range_values(components: int) -> Seq<Value> {
    Seq::new(
        (2 * components) as nat,
        |i: int|
            if i % 2 == 0 {
                Value::Real(ratio(0, 1))
            } else {
                Value::Real(ratio(1, 1))
            },
    )
}

impl IccProfileValue {
    /// The dictionary of the stream that holds the profile.
    pub open spec fn stream_entries(self) -> Entries {
        let e0 = put(Entries::empty(), "N", Value::Integer(self.icc_type.spec_components()));
        let e1 = put(e0, "Length", Value::Integer(self.icc.len() as i64));
        let e2 = if self.has_alternate {
            put(e1, "Alternate", name_value(self.icc_type.spec_alternate()))
        } else {
            e1
        };
        if self.has_range {
            put(e2, "Range", Value::Array(range_values(self.icc_type.spec_components() as int)))
        } else {
            e2
        }
    }

    /// The stream that holds the profile.
    pub open spec fn stream_value(self) -> Value {
        Value::Stream(self.stream_entries(), self.icc, true)
    }
}

impl IccProfile {
    /// A profile of the given colour model, with an alternate colour space
    /// and without a range.
    pub fn new(icc: Vec<u8>, icc_type: IccProfileType) -> (p: IccProfile)
        ensures
            p@ == (IccProfileValue { icc: icc@, icc_type, has_alternate: true, has_range: false }),
    {
        IccProfile { icc, icc_type, has_alternate: true, has_range: false }
    }

    /// The stream that holds the profile.
    pub fn into_stream(self) -> (o: Object)
        ensures
            o@ == self@.stream_value(),
    {
        let (components, alternate): (i64, &'static str) = match self.icc_type {
            IccProfileType::Cmyk => (4, "DeviceCMYK"),
            IccProfileType::Rgb => (3, "DeviceRGB"),
            IccProfileType::Greyscale => (1, "DeviceGray"),
        };
        let mut dict = Dictionary::new();
        dict.put("N", Object::Integer(components));
        #[verifier::truncate]
        let length = self.icc.len() as i64;
        dict.put("Length", Object::Integer(length));
        if self.has_alternate {
            dict.put("Alternate", name(alternate));
        }
        if self.has_range {
            let mut range: Vec<Object> = Vec::new();
            let mut i: i64 = 0;
            while i < components
                invariant
                    0 <= i <= components <= 4,
                    range@.len() == 2 * i,
                    forall|j: int|
                        0 <= j < 2 * i ==> (#[trigger] range@[j])@ == range_values(
                            components as int,
                        )[j],
                decreases components - i,
            {
                range.push(Object::Real(Real::from_int(0)));
                range.push(Object::Real(Real::from_int(1)));
                i += 1;
            }
            let range = array(range);
            assert(range@->Array_0 =~= range_values(components as int));
            dict.put("Range", range);
        }
        Object::Stream(Stream { dict, content: self.icc, allows_compression: true })
    }
}

/// What a document says of itself.
#[derive(Debug, Clone, PartialEq)]
pub struct PdfMetadata {
    pub creation_date: DateTime,
    pub modification_date: DateTime,
    pub metadata_date: DateTime,
    pub document_title: String,
    pub trapping: bool,
    pub document_version: u32,
    pub conformance: PdfConformance,
    /// The identifier that the XMP metadata gives the document.
    pub xmp_document_id: String,
    /// The rendition class that the XMP metadata names.
    pub xmp_rendition_class: String,
    /// The profile of the output that the document is made for.
    pub target_icc_profile: Option<IccProfile>,
}

/// The mathematical value of a [`PdfMetadata`].
pub struct MetadataValue {
    pub creation_date: DateTime,
    pub modification_date: DateTime,
    pub metadata_date: DateTime,
    pub document_title: Seq<char>,
    pub trapping: bool,
    pub document_version: u32,
    pub conformance: ConformanceValue,
    pub xmp_document_id: Seq<char>,
    pub xmp_rendition_class: Seq<char>,
    pub target_icc_profile: Option<IccProfileValue>,
}

impl View for PdfMetadata {
    type V = MetadataValue;

    open spec fn view(&self) -> MetadataValue {
        MetadataValue {
            creation_date: self.creation_date,
            modification_date: self.modification_date,
            metadata_date: self.metadata_date,
            document_title: self.document_title@,
            trapping: self.trapping,
            document_version: self.document_version,
            conformance: self.conformance@,
            xmp_document_id: self.xmp_document_id@,
            xmp_rendition_class: self.xmp_rendition_class@,
            target_icc_profile: match self.target_icc_profile {
                Some(p) => Some(p@),
                None => None,
            },
        }
    }
}

/// The word for a truth value in metadata.
pub open spec fn truth_word(b: bool) -> &'static str {
    if b {
        "True"
    } else {
        "False"
    }
}

/// The literal string object with the bytes of a text.
pub open spec fn text_value(text: Seq<char>) -> Value {
    Value::String(text_bytes(text), StringFormat::Literal)
}

/// The text that opens an XMP packet, up to the title.
pub const XMP_HEAD: &'static str =
    "<?xpacket begin=\"\" id=\"W5M0MpCehiHzreSzNTczkc9d\"?>\n<x:xmpmeta xmlns:x=\"adobe:ns:meta/\">\n<rdf:RDF xmlns:rdf=\"http://www.w3.org/1999/02/22-rdf-syntax-ns#\">\n<rdf:Description rdf:about=\"\" xmlns:dc=\"http://purl.org/dc/elements/1.1/\" xmlns:xmp=\"http://ns.adobe.com/xap/1.0/\" xmlns:xmpMM=\"http://ns.adobe.com/xap/1.0/mm/\" xmlns:pdf=\"http://ns.adobe.com/pdf/1.3/\" xmlns:pdfx=\"http://ns.adobe.com/pdfx/1.3/\">\n<dc:title><rdf:Alt><rdf:li xml:lang=\"x-default\">";

/// The text that closes an XMP packet.
pub const XMP_TAIL: &'static str =
    "</pdfx:GTS_PDFXVersion>\n</rdf:Description>\n</rdf:RDF>\n</x:xmpmeta>\n<?xpacket end=\"w\"?>";

impl MetadataValue {
    /// The document information dictionary.
    pub open spec fn info_entries(self) -> Entries {
        let e0 = put(Entries::empty(), "Trapped", name_value(truth_word(self.trapping)));
        let e1 = put(e0, "CreationDate", text_value(self.creation_date.spec_info_text()));
        let e2 = put(e1, "ModDate", text_value(self.modification_date.spec_info_text()));
        let e3 = put(e2, "GTS_PDFXVersion", text_value(self.conformance.identifier));
        put(e3, "Title", text_value(self.document_title))
    }

    /// The text of the XMP packet, for the given instance identifier.
    pub open spec fn xmp_text(self, instance_id: Seq<char>) -> Seq<char> {
        XMP_HEAD@ + self.document_title + "</rdf:li></rdf:Alt></dc:title>\n<xmp:CreateDate>"@
            + self.creation_date.spec_xmp_text() + "</xmp:CreateDate>\n<xmp:ModifyDate>"@
            + self.modification_date.spec_xmp_text() + "</xmp:ModifyDate>\n<xmp:MetadataDate>"@
            + self.metadata_date.spec_xmp_text() + "</xmp:MetadataDate>\n<xmpMM:DocumentID>"@
            + self.xmp_document_id + "</xmpMM:DocumentID>\n<xmpMM:InstanceID>"@ + instance_id
            + "</xmpMM:InstanceID>\n<xmpMM:RenditionClass>"@ + self.xmp_rendition_class
            + "</xmpMM:RenditionClass>\n<xmpMM:VersionID>"@ + decimal_chars(
            self.document_version as nat,
        ) + "</xmpMM:VersionID>\n<pdf:Trapped>"@ + truth_word(self.trapping)@
            + "</pdf:Trapped>\n<pdfx:GTS_PDFXVersion>"@ + self.conformance.identifier + XMP_TAIL@
    }

    /// The stream that holds the XMP packet, never compressed.
    pub open spec fn xmp_value(self, instance_id: Seq<char>) -> Value {
        Value::Stream(
            put(put(Entries::empty(), "Type", name_value("Metadata")), "Subtype", name_value("XML")),
            text_bytes(self.xmp_text(instance_id)),
            false,
        )
    }
}

/// The literal string object with the bytes of a text.
pub fn text_object(text: &String) -> (o: Object)
    ensures
        o@ == text_value(text@),
{
    Object::String(bytes_clone(text.as_str().as_bytes()), StringFormat::Literal)
}

impl PdfMetadata {
    /// Metadata for a new document. All three dates are the given time.
    pub fn new(
        title: &str,
        document_version: u32,
        trapping: bool,
        conformance: PdfConformance,
        now: DateTime,
        xmp_document_id: String,
    ) -> (m: PdfMetadata)
        ensures
            m@ == (MetadataValue {
                creation_date: now,
                modification_date: now,
                metadata_date: now,
                document_title: title@,
                trapping,
                document_version,
                conformance: conformance@,
                xmp_document_id: xmp_document_id@,
                xmp_rendition_class: "default"@,
                target_icc_profile: None,
            }),
    {
        PdfMetadata {
            creation_date: now,
            modification_date: now,
            metadata_date: now,
            document_title: title.to_owned(),
            trapping,
            document_version,
            conformance,
            xmp_document_id,
            xmp_rendition_class: "default".to_owned(),
            target_icc_profile: None,
        }
    }

    /// The document information dictionary.
    pub fn info_dictionary(&self) -> (d: Dictionary)
        ensures
            d@ == self@.info_entries(),
    {
        let mut d = Dictionary::new();
        d.put(
            "Trapped",
            name(
                if self.trapping {
                    "True"
                } else {
                    "False"
                },
            ),
        );
        let mut created = String::new();
        self.creation_date.push_info_text(&mut created);
        assert(created@ =~= self.creation_date.spec_info_text());
        d.put("CreationDate", text_object(&created));
        let mut modified = String::new();
        self.modification_date.push_info_text(&mut modified);
        assert(modified@ =~= self.modification_date.spec_info_text());
        d.put("ModDate", text_object(&modified));
        d.put("GTS_PDFXVersion", text_object(&self.conformance.get_identifier_string()));
        d.put("Title", text_object(&self.document_title));
        d
    }

    /// The stream that holds the XMP packet, for the given instance
    /// identifier.
    pub fn xmp_stream(&self, instance_id: &String) -> (o: Object)
        ensures
            o@ == self@.xmp_value(instance_id@),
    {
        let mut text = String::new();
        text.append(XMP_HEAD);
        text.append(self.document_title.as_str());
        text.append("</rdf:li></rdf:Alt></dc:title>\n<xmp:CreateDate>");
        self.creation_date.push_xmp_text(&mut text);
        text.append("</xmp:CreateDate>\n<xmp:ModifyDate>");
        self.modification_date.push_xmp_text(&mut text);
        text.append("</xmp:ModifyDate>\n<xmp:MetadataDate>");
        self.metadata_date.push_xmp_text(&mut text);
        text.append("</xmp:MetadataDate>\n<xmpMM:DocumentID>");
        text.append(self.xmp_document_id.as_str());
        text.append("</xmpMM:DocumentID>\n<xmpMM:InstanceID>");
        text.append(instance_id.as_str());
        text.append("</xmpMM:InstanceID>\n<xmpMM:RenditionClass>");
        text.append(self.xmp_rendition_class.as_str());
        text.append("</xmpMM:RenditionClass>\n<xmpMM:VersionID>");
        push_decimal(&mut text, self.document_version as u64);
        text.append("</xmpMM:VersionID>\n<pdf:Trapped>");
        text.append(
            if self.trapping {
                "True"
            } else {
                "False"
            },
        );
        text.append("</pdf:Trapped>\n<pdfx:GTS_PDFXVersion>");
        text.append(self.conformance.get_identifier_string().as_str());
        text.append(XMP_TAIL);
        assert(text@ =~= self@.xmp_text(instance_id@));
        let mut dict = Dictionary::new();
        dict.put("Type", name("Metadata"));
        dict.put("Subtype", name("XML"));
        Object::Stream(
            Stream {
                dict,
                content: bytes_clone(text.as_str().as_bytes()),
                allows_compression: false,
            },
        )
    }
}

} // verus!
