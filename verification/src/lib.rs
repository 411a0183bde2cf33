//! Programmatic construction of PDF documents: pages, layers, fonts and
//! vector graphics, assembled into a PDF object graph.
//!
//! A document is built from pages, a page from layers, and a layer from
//! drawing operations. Fonts and images are embedded in the document once
//! and registered with each page that uses them. Saving a document gives
//! its object graph; writing the graph out as bytes is left to the caller.
//!
//! Lengths and numbers are exact: see [`scale`].

pub mod assembled_graph;
pub mod assembly;
pub mod cmap;
pub mod error;
pub mod font;
pub mod font_check;
pub mod font_list;
pub mod font_parser;
pub mod glyph_table;
pub mod graph;
pub mod graphics;
pub mod image;
pub mod object;
pub mod page_resources;
pub mod pdf_conformance;
pub mod pdf_document;
pub mod pdf_layer;
pub mod pdf_metadata;
pub mod pdf_page;
pub mod pdf_resources;
pub mod scale;
pub mod text;
pub mod text_encoding;
pub mod utils;
pub mod widths;

pub use crate::error::{Error, FontError};
pub use crate::font::{BuiltinFont, ExternalFont, Font, TextRenderingMode};
pub use crate::font_list::{DirectFontRef, FontList};
pub use crate::graph::ObjectGraph;
pub use crate::graphics::{
    Cmyk, Color, CurTransMat, ExtendedGraphicsStateRef, Greyscale, IndirectFontRef, Line,
    LineCapStyle, LineDashPattern, LineJoinStyle, PdfColor, Point, Rgb, Rotation, SpotColor,
    TextMatrix, XObjectRef,
};
pub use crate::image::{ColorBits, ColorSpace, Image, ImageXObject};
pub use crate::object::{Dictionary, Object, ObjectId, Operation, Stream, StringFormat};
pub use crate::page_resources::{
    OCGList, OCGRef, Pattern, PatternList, PatternRef, PdfResources,
};
pub use crate::pdf_conformance::{CustomPdfConformance, PdfConformance};
pub use crate::pdf_document::PdfDocument;
pub use crate::pdf_layer::PdfLayer;
pub use crate::pdf_metadata::{DateTime, IccProfile, IccProfileType, PdfMetadata};
pub use crate::pdf_page::PdfPage;
pub use crate::pdf_resources::{
    embed, register, Embeddable, Embedded, Registered, RegisteredXObject,
};
pub use crate::scale::{Mm, Pt, Real};
pub use crate::utils::{
    calculate_points_for_circle, calculate_points_for_rect, rand, random_character_string_32,
    u8_to_char, RandomSource,
};
