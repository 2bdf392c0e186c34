//! Errors of the PDF export.
use vstd::prelude::*;
use crate::text::concat;

verus! {

/// Why a PDF export failed; each variant carries the underlying message.
#[derive(Debug, Clone, PartialEq, Eq)]
pub enum ExportError {
    /// The SVG document could not be parsed.
    Parse(String),
    /// The parsed document could not be converted to PDF.
    Convert(String),
    /// Reading or writing a file failed.
    Io(String),
}

/// The user-facing text of an export error.
pub open spec fn export_error_text(e: ExportError) -> Seq<char> {
    match e {
        ExportError::Parse(m) => "SVG parsing failed: "@ + m@,
        ExportError::Convert(m) => "PDF conversion failed: "@ + m@,
        ExportError::Io(m) => "I/O error: "@ + m@,
    }
}

impl ExportError {
    /// The user-facing text of the error.
    pub fn message(&self) -> (res: String)
        ensures
            res@ == export_error_text(*self),
    {
        match self {
            ExportError::Parse(m) => concat("SVG parsing failed: ", m.as_str()),
            ExportError::Convert(m) => concat("PDF conversion failed: ", m.as_str()),
            ExportError::Io(m) => concat("I/O error: ", m.as_str()),
        }
    }
}

} // verus!
