pub mod document;
pub mod font;
pub mod geometry;
pub mod navigation;
pub mod page;
pub mod text;

pub use document::{
    discovered_text_failures, DiagnosticScope, DocumentDiagnostic, PageTextSummary, TextObjectSummary,
};
pub use font::{FontCatalog, FontId, FontSource, ProcessedFont};
pub use geometry::Color;
pub use navigation::{LinkTarget, OutlineItem};
pub use page::{ClipState, GraphicsKind, GraphicsObject, PaintOpacity, RasterBackground};
pub use text::{ReconstructionDecision, TextFailureReason, TextIntegrityFailure, TextRenderMode, VisibilityDecision};
