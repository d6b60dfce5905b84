//! The ways in which a conversion ends without output.

use vstd::prelude::*;

verus! {

/// Why a conversion produced no output. A conversion either returns a whole
/// document or image, or one of these.
#[derive(Clone, Debug, PartialEq, Eq)]
pub enum ConvertError {
    /// The source text is not a well-formed drawing; holds the parser's own
    /// description of what is wrong.
    SourceParse(String),
    /// The drawing's length along one axis is not positive.
    InvalidGeometry,
    /// No pixel buffer of the computed size could be had.
    Allocation,
    /// The image encoder failed; holds the encoder's own description.
    Encoding(String),
    /// The merged object graph cannot make a sound document: its root has no
    /// new number, the fresh numbers ran out, or two objects share a number.
    InternalInvariant,
}

impl ConvertError {
    /// The text that describes this error.
    pub open spec fn message_text(self) -> Seq<char> {
        match self {
            ConvertError::SourceParse(text) => text@,
            ConvertError::InvalidGeometry => "SVG has invalid dimensions"@,
            ConvertError::Allocation => "Failed to allocate PNG pixmap"@,
            ConvertError::Encoding(text) => text@,
            ConvertError::InternalInvariant => "Failed to map SVG reference"@,
        }
    }

    /// Describes this error in words; a failure of the parser or the encoder
    /// in their own words.
    pub fn message(&self) -> (text: String)
        ensures
            text@ == self.message_text(),
    {
        match self {
            ConvertError::SourceParse(text) => text.clone(),
            ConvertError::InvalidGeometry => "SVG has invalid dimensions".to_owned(),
            ConvertError::Allocation => "Failed to allocate PNG pixmap".to_owned(),
            ConvertError::Encoding(text) => text.clone(),
            ConvertError::InternalInvariant => "Failed to map SVG reference".to_owned(),
        }
    }
}

} // verus!
