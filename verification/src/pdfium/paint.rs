//! How much a page object hides what lies below it.

use vstd::prelude::*;

use crate::model::{GraphicsKind, PaintOpacity};

verus! {

/// The opacity of a page object of kind `kind`. A path paints with its fill
/// (when it has one) and its stroke (when it has one), each with an alpha
/// that may be unknown (`None`); the other arguments do not matter for
/// other kinds. A form counts as opaque; images, shadings and unsupported
/// objects as unknown.
pub open spec fn spec_paint_opacity(
    kind: GraphicsKind,
    has_fill: bool,
    fill_alpha: Option<u8>,
    has_stroke: bool,
    stroke_alpha: Option<u8>,
) -> PaintOpacity {
    match kind {
        GraphicsKind::Form => PaintOpacity::Opaque,
        GraphicsKind::Path => if !has_fill && !has_stroke {
            PaintOpacity::Unknown
        } else if (has_fill && fill_alpha is None) || (has_stroke && stroke_alpha is None) {
            PaintOpacity::Unknown
        } else if (has_fill && fill_alpha.unwrap() < 255) || (has_stroke && stroke_alpha.unwrap() < 255) {
            PaintOpacity::Transparent
        } else {
            PaintOpacity::Opaque
        },
        _ => PaintOpacity::Unknown,
    }
}

pub fn paint_opacity(
    kind: GraphicsKind,
    has_fill: bool,
    fill_alpha: Option<u8>,
    has_stroke: bool,
    stroke_alpha: Option<u8>,
) -> (opacity: PaintOpacity)
    ensures
        opacity == spec_paint_opacity(kind, has_fill, fill_alpha, has_stroke, stroke_alpha),
{
    match kind {
        GraphicsKind::Form => PaintOpacity::Opaque,
        GraphicsKind::Path => {
            if !has_fill && !has_stroke {
                return PaintOpacity::Unknown;
            }
            let fill = if has_fill {
                match fill_alpha {
                    None => return PaintOpacity::Unknown,
                    Some(alpha) => alpha,
                }
            } else {
                255
            };
            let stroke = if has_stroke {
                match stroke_alpha {
                    None => return PaintOpacity::Unknown,
                    Some(alpha) => alpha,
                }
            } else {
                255
            };
            if fill < 255 || stroke < 255 {
                PaintOpacity::Transparent
            } else {
                PaintOpacity::Opaque
            }
        },
        _ => PaintOpacity::Unknown,
    }
}

/// Only a path whose every painted part is known to be fully opaque, or a
/// form, counts as opaque.
pub proof fn law_opaque_paint_is_known_to_be_opaque(
    kind: GraphicsKind,
    has_fill: bool,
    fill_alpha: Option<u8>,
    has_stroke: bool,
    stroke_alpha: Option<u8>,
)
    requires
        spec_paint_opacity(kind, has_fill, fill_alpha, has_stroke, stroke_alpha) == PaintOpacity::Opaque,
    ensures
        kind == GraphicsKind::Form || (kind == GraphicsKind::Path && (has_fill || has_stroke) && (
        has_fill ==> fill_alpha == Some(255u8)) && (has_stroke ==> stroke_alpha == Some(255u8))),
{
}

} // verus!
