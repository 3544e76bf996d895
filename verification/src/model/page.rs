//! Page-level values of the document model that carry no coordinates.

use vstd::prelude::*;

verus! {

/// A rendered PNG image of a page, used behind the native text.
#[derive(Debug, Clone, PartialEq, Eq)]
pub struct RasterBackground {
    pub width: u32,
    pub height: u32,
    pub png: Vec<u8>,
}

/// A non-text page object, with the objects nested in it (the contents of a
/// form). Its bounds are rectangles of the type `R` that the caller measures
/// pages with; nothing here reads inside them.
#[derive(Debug)]
#[verifier::reject_recursive_types(R)]
pub struct GraphicsObject<R> {
    pub paint_order: usize,
    pub kind: GraphicsKind,
    pub bounds: Option<R>,
    pub active: Option<bool>,
    pub opacity: PaintOpacity,
    pub clipping: ClipState,
    pub children: Vec<GraphicsObject<R>>,
}

/// The kind of a non-text page object.
#[derive(Debug, Clone, Copy, PartialEq, Eq, Structural)]
pub enum GraphicsKind {
    Path,
    Image,
    Shading,
    Form,
    Unsupported,
}

/// Whether a page object is drawn through a clip path.
#[derive(Debug, Clone, Copy, PartialEq, Eq, Structural)]
pub enum ClipState {
    Clipped,
    Unclipped,
}

/// How much a page object hides what lies below it.
#[derive(Debug, Clone, Copy, PartialEq, Eq, Structural)]
pub enum PaintOpacity {
    Opaque,
    Transparent,
    Unknown,
}

} // verus!
