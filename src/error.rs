use vstd::prelude::*;

verus! {

/// The errors of the contact sheet pipeline.
#[derive(Clone, Copy, Debug, PartialEq, Eq, Structural)]
pub enum VcsrError {
    /// Mutually exclusive or malformed argument combinations.
    ArgumentError,
    /// A colour that is not a hexadecimal string of even length.
    ColourError,
    /// A grid that is not of the form `MxN`.
    GridShape,
    /// An integer field that does not parse.
    IntError,
    /// A time or decimal field that does not parse.
    FloatError,
    /// Media attributes that could not all be found.
    MediaError,
    /// Manual timestamps of which none lies inside the clip.
    TimestampError,
    /// A probe without a video stream.
    VideoStreamError,
}

impl VcsrError {
    /// A human readable description of the error.
    pub fn message(&self) -> (r: &'static str) {
        match self {
            VcsrError::ArgumentError => "Arguments are invalid",
            VcsrError::ColourError => "Input colours are invalid",
            VcsrError::GridShape => "Grid must be of the form mxn, where m is the number of columns and n is the number of rows.",
            VcsrError::IntError => "Invalid integer",
            VcsrError::FloatError => "Invalid number",
            VcsrError::MediaError => "Could not find all media attributes",
            VcsrError::TimestampError => "Invalid timestamps: no manual timestamps less than input duration.",
            VcsrError::VideoStreamError => "The file does not contain a video stream.",
        }
    }
}

} // verus!
