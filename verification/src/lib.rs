//! Building blocks for converting PDF documents to HTML: the embedded-font
//! cmap checks, the font catalog and the rest of the document model, the
//! HTML markup helpers, the font-job decisions and the PDFium library lookup.

pub mod cli;
pub mod fonts;
pub mod model;
pub mod output;
pub mod pdfium;
pub mod text;
