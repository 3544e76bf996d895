pub mod markup;
pub mod html;
pub mod document;
pub mod page;

pub use document::{HtmlDocument, HtmlWriter, OutputError, TextIntegrityError};
