//! Text-related decisions of the document model.

use vstd::prelude::*;

verus! {

/// How PDFium paints a text object.
#[derive(Debug, Clone, Copy, PartialEq, Eq, Structural)]
pub enum TextRenderMode {
    Fill,
    Stroke,
    FillStroke,
    Invisible,
    Unknown,
}

/// Whether a text object is emitted as native HTML text.
#[derive(Debug, Clone, Copy, PartialEq, Eq, Structural)]
pub enum ReconstructionDecision {
    NativeText,
    TextFailure(TextFailureReason),
}

/// Why a text object cannot be emitted as native text.
#[derive(Debug, Clone, Copy, PartialEq, Eq, Structural)]
pub enum TextFailureReason {
    MissingUnicode,
    UnprovenFontMapping,
    FontProcessingFailed,
    MissingGeometry,
    UnsupportedRenderMode,
    ExtractionError,
    CoveredByOpaquePaint,
    AmbiguousVisibility,
}

/// The outcome of the visibility analysis of a text object.
#[derive(Debug, Clone, Copy, PartialEq, Eq, Structural)]
pub enum VisibilityDecision {
    Visible,
    CoveredByOpaquePaint,
    AmbiguousVisibility,
}

/// A text object that could not be converted to native text.
#[derive(Debug, Clone, PartialEq, Eq, Structural)]
pub struct TextIntegrityFailure {
    pub page: usize,
    pub paint_order: usize,
    pub reason: TextFailureReason,
    pub semantic_text_available: bool,
}

} // verus!
