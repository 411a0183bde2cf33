//! The standards that a document can claim to conform to.

use vstd::prelude::*;

verus! {

/// A conformance that is none of the standard ones.
#[derive(Debug, Clone, PartialEq)]
pub struct CustomPdfConformance {
    /// The name of the standard.
    pub identifier: String,
    /// Whether a document must carry an ICC profile.
    pub requires_icc_profile: bool,
    /// Whether a document must carry XMP metadata.
    pub requires_xmp_metadata: bool,
}

/// The standard that a document claims to conform to.
#[allow(non_camel_case_types)]
#[derive(Debug, Clone, PartialEq)]
pub enum PdfConformance {
    A1B_2005_PDF_1_4,
    A1A_2005_PDF_1_4,
    A2_2011_PDF_1_7,
    A2A_2011_PDF_1_7,
    A2B_2011_PDF_1_7,
    A2U_2011_PDF_1_7,
    A3_2012_PDF_1_7,
    UA_2014_PDF_1_6,
    X1A_2001_PDF_1_3,
    X3_2002_PDF_1_3,
    X1A_2003_PDF_1_4,
    X3_2003_PDF_1_4,
    X4_2010_PDF_1_4,
    X4P_2010_PDF_1_6,
    X5G_2010_PDF_1_6,
    X5PG_2010_PDF_1_6,
    X5N_2010_PDF_1_6,
    E1_2008_PDF_1_6,
    VT_2010_PDF_1_4,
    Custom(CustomPdfConformance),
}

/// The mathematical value of a [`PdfConformance`].
pub struct ConformanceValue {
    pub identifier: Seq<char>,
    pub requires_icc_profile: bool,
    pub requires_xmp_metadata: bool,
}

impl PdfConformance {
    /// The name of a standard one; for a custom one, the empty text.
    pub open spec fn spec_standard_name(self) -> &'static str {
        match self {
            PdfConformance::A1B_2005_PDF_1_4 => "PDF/A-1b:2005",
            PdfConformance::A1A_2005_PDF_1_4 => "PDF/A-1a:2005",
            PdfConformance::A2_2011_PDF_1_7 => "PDF/A-2:2011",
            PdfConformance::A2A_2011_PDF_1_7 => "PDF/A-2a:2011",
            PdfConformance::A2B_2011_PDF_1_7 => "PDF/A-2b:2011",
            PdfConformance::A2U_2011_PDF_1_7 => "PDF/A-2u:2011",
            PdfConformance::A3_2012_PDF_1_7 => "PDF/A-3:2012",
            PdfConformance::UA_2014_PDF_1_6 => "PDF/UA",
            PdfConformance::X1A_2001_PDF_1_3 => "PDF/X-1a:2001",
            PdfConformance::X3_2002_PDF_1_3 => "PDF/X-3:2002",
            PdfConformance::X1A_2003_PDF_1_4 => "PDF/X-1a:2003",
            PdfConformance::X3_2003_PDF_1_4 => "PDF/X-3:2003",
            PdfConformance::X4_2010_PDF_1_4 => "PDF/X-4",
            PdfConformance::X4P_2010_PDF_1_6 => "PDF/X-4",
            PdfConformance::X5G_2010_PDF_1_6 => "PDF/X-5",
            PdfConformance::X5PG_2010_PDF_1_6 => "PDF/X-5",
            PdfConformance::X5N_2010_PDF_1_6 => "PDF/X-5",
            PdfConformance::E1_2008_PDF_1_6 => "PDF/E-1",
            PdfConformance::VT_2010_PDF_1_4 => "PDF/VT",
            PdfConformance::Custom(_) => "",
        }
    }
}

impl View for PdfConformance {
    type V = ConformanceValue;

    /// A standard conformance asks for both an ICC profile and XMP
    /// metadata; a custom one says for itself.
    open spec fn view(&self) -> ConformanceValue {
        match self {
            PdfConformance::Custom(c) => ConformanceValue {
                identifier: c.identifier@,
                requires_icc_profile: c.requires_icc_profile,
                requires_xmp_metadata: c.requires_xmp_metadata,
            },
            _ => ConformanceValue {
                identifier: self.spec_standard_name()@,
                requires_icc_profile: true,
                requires_xmp_metadata: true,
            },
        }
    }
}

impl PdfConformance {
    /// The name of the standard.
    pub fn get_identifier_string(&self) -> (name: String)
        ensures
            name@ == self@.identifier,
    {
        match self {
            PdfConformance::A1B_2005_PDF_1_4 => "PDF/A-1b:2005".to_owned(),
            PdfConformance::A1A_2005_PDF_1_4 => "PDF/A-1a:2005".to_owned(),
            PdfConformance::A2_2011_PDF_1_7 => "PDF/A-2:2011".to_owned(),
            PdfConformance::A2A_2011_PDF_1_7 => "PDF/A-2a:2011".to_owned(),
            PdfConformance::A2B_2011_PDF_1_7 => "PDF/A-2b:2011".to_owned(),
            PdfConformance::A2U_2011_PDF_1_7 => "PDF/A-2u:2011".to_owned(),
            PdfConformance::A3_2012_PDF_1_7 => "PDF/A-3:2012".to_owned(),
            PdfConformance::UA_2014_PDF_1_6 => "PDF/UA".to_owned(),
            PdfConformance::X1A_2001_PDF_1_3 => "PDF/X-1a:2001".to_owned(),
            PdfConformance::X3_2002_PDF_1_3 => "PDF/X-3:2002".to_owned(),
            PdfConformance::X1A_2003_PDF_1_4 => "PDF/X-1a:2003".to_owned(),
            PdfConformance::X3_2003_PDF_1_4 => "PDF/X-3:2003".to_owned(),
            PdfConformance::X4_2010_PDF_1_4 => "PDF/X-4".to_owned(),
            PdfConformance::X4P_2010_PDF_1_6 => "PDF/X-4".to_owned(),
            PdfConformance::X5G_2010_PDF_1_6 => "PDF/X-5".to_owned(),
            PdfConformance::X5PG_2010_PDF_1_6 => "PDF/X-5".to_owned(),
            PdfConformance::X5N_2010_PDF_1_6 => "PDF/X-5".to_owned(),
            PdfConformance::E1_2008_PDF_1_6 => "PDF/E-1".to_owned(),
            PdfConformance::VT_2010_PDF_1_4 => "PDF/VT".to_owned(),
            PdfConformance::Custom(c) => c.identifier.clone(),
        }
    }

    /// Whether a document of this conformance must carry XMP metadata.
    pub fn must_have_xmp_metadata(&self) -> (b: bool)
        ensures
            b == self@.requires_xmp_metadata,
    {
        match self {
            PdfConformance::Custom(c) => c.requires_xmp_metadata,
            _ => true,
        }
    }

    /// Whether a document of this conformance must carry an ICC profile.
    pub fn must_have_icc_profile(&self) -> (b: bool)
        ensures
            b == self@.requires_icc_profile,
    {
        match self {
            PdfConformance::Custom(c) => c.requires_icc_profile,
            _ => true,
        }
    }
}

} // verus!
