//! The command-line options of the converter.

use vstd::prelude::*;

verus! {

/// What the converter is asked to do.
#[derive(Debug, Clone)]
pub struct Cli {
    /// PDF document to convert.
    pub input: String,
    /// Path to the PDFium shared library, overriding the environment.
    pub pdfium_path: Option<String>,
    /// Inspect PDFium's text and page-object capabilities without writing
    /// HTML.
    pub probe: bool,
    /// Directory the HTML document is written to.
    pub output: String,
    /// Print the extracted document model as JSON instead of writing HTML.
    pub diagnostic: bool,
}

} // verus!
