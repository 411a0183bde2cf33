//! What can go wrong while a document is built.

use vstd::prelude::*;

verus! {

/// Why font data was refused.
#[derive(Clone, Copy, Debug, PartialEq, Eq, Structural)]
pub enum FontError {
    /// The data is shorter than a font header.
    TooShort,
    /// The data is not in a format that the font parser recognizes.
    UnrecognizedFormat,
    /// The data lacks necessary tables.
    IllFormed,
    /// The collection holds no font.
    CollectionIndexOutOfBounds,
    /// The collection holds more than one font.
    CollectionContainsMultipleFonts,
    /// The font parser would lose its way in the font: on a question that
    /// this library asks of it, it would read beyond the data, meet a form
    /// that it does not know, compute a number that leaves its width, or
    /// come to a glyph that is a part of itself.
    Unreadable,
}

/// An error of this library.
#[derive(Clone, Copy, Debug, PartialEq, Eq, Structural)]
pub enum Error {
    /// Font data could not be used.
    Font(FontError),
    /// The object graph cannot number as many objects as are needed.
    ObjectLimit,
}

} // verus!
