pub mod background;
pub mod extraction;
pub mod library;
pub mod paint;
pub mod probe;

pub use library::{PdfiumLibrary, PdfiumLibraryError};
