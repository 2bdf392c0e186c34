//! Vector export: the text-level pieces of the SVG writer, the export
//! settings and file names derived from the dashboard, and the errors of
//! the PDF conversion.
pub mod svg;
pub mod dashboard;
pub mod pdf;
