//! The conservative visibility policy for text: text is native only when no
//! later paint may hide it, and it counts as covered only when a later opaque,
//! unclipped object contains it entirely.

use vstd::prelude::*;

use crate::model::{
    ClipState, GraphicsKind, GraphicsObject, PaintOpacity, ReconstructionDecision,
    TextFailureReason, VisibilityDecision,
};

verus! {

// ---------------------------------------------------------------------------
// Paint objects
// ---------------------------------------------------------------------------

/// A page object that paints, with the clipping of the forms it sits in
/// folded into its own.
#[derive(Debug, Clone, Copy)]
pub struct PaintObject<R> {
    pub paint_order: usize,
    pub bounds: Option<R>,
    pub active: Option<bool>,
    pub opacity: PaintOpacity,
    pub clipping: ClipState,
}

/// The paint objects of `object` and of the objects nested in it, in tree
/// order. A form paints nothing of its own: only its contents count. An
/// object is clipped when it or a form around it (`inherited`) is clipped.
pub open spec fn spec_paint_objects<R>(object: GraphicsObject<R>, inherited: bool) -> Seq<PaintObject<R>>
    decreases object,
{
    let clipped = inherited || object.clipping == ClipState::Clipped;
    let own = if object.kind == GraphicsKind::Form {
        Seq::empty()
    } else {
        seq![
            PaintObject {
                paint_order: object.paint_order,
                bounds: object.bounds,
                active: object.active,
                opacity: object.opacity,
                clipping: if clipped {
                    ClipState::Clipped
                } else {
                    ClipState::Unclipped
                },
            },
        ]
    };
    own + spec_paint_objects_of(object.children@, clipped)
}

/// The paint objects of a list of page objects, in order.
pub open spec fn spec_paint_objects_of<R>(objects: Seq<GraphicsObject<R>>, inherited: bool) -> Seq<PaintObject<R>>
    decreases objects,
{
    if objects.len() == 0 {
        Seq::empty()
    } else {
        spec_paint_objects_of(objects.drop_last(), inherited) + spec_paint_objects(objects.last(), inherited)
    }
}

/// Everything drawn inside a clipped form is clipped: every paint object of
/// an object whose surroundings clip is clipped.
pub proof fn law_clipping_reaches_nested_objects<R>(object: GraphicsObject<R>)
    ensures
        forall|k: int|
            0 <= k < spec_paint_objects(object, true).len() ==> (#[trigger] spec_paint_objects(
                object,
                true,
            )[k]).clipping == ClipState::Clipped,
    decreases object, 1nat,
{
    assert(decreases_to!(object => object.children@));
    lemma_clipping_reaches_list(object.children@);
}

proof fn lemma_clipping_reaches_list<R>(objects: Seq<GraphicsObject<R>>)
    ensures
        forall|k: int|
            0 <= k < spec_paint_objects_of(objects, true).len() ==> (#[trigger] spec_paint_objects_of(
                objects,
                true,
            )[k]).clipping == ClipState::Clipped,
    decreases objects, 0nat,
{
    if objects.len() > 0 {
        assert(decreases_to!(objects => objects[objects.len() - 1]));
        lemma_clipping_reaches_list(objects.drop_last());
        law_clipping_reaches_nested_objects(objects.last());
    }
}

fn collect_paint_objects_of<R: Copy>(
    objects: &Vec<GraphicsObject<R>>,
    inherited: bool,
    output: &mut Vec<PaintObject<R>>,
)
    ensures
        final(output)@ == old(output)@ + spec_paint_objects_of(objects@, inherited),
    decreases objects@, 0nat,
{
    let ghost start = output@;
    let mut index: usize = 0;
    while index < objects.len()
        invariant
            index <= objects@.len(),
            output@ == start + spec_paint_objects_of(objects@.take(index as int), inherited),
        decreases objects@.len() - index,
    {
        proof {
            assert(objects@.take(index + 1).drop_last() =~= objects@.take(index as int));
            assert(decreases_to!(objects@ => objects@[index as int]));
        }
        collect_paint_objects(&objects[index], inherited, output);
        proof {
            assert(objects@.take(index + 1).last() == objects@[index as int]);
            assert(output@ =~= start + spec_paint_objects_of(objects@.take(index + 1), inherited));
        }
        index = index + 1;
    }
    assert(objects@.take(objects@.len() as int) =~= objects@);
}

/// Appends the paint objects of `object`, nested in forms whose clipping is
/// `inherited`, to `output`.
pub fn collect_paint_objects<R: Copy>(
    object: &GraphicsObject<R>,
    inherited: bool,
    output: &mut Vec<PaintObject<R>>,
)
    ensures
        final(output)@ == old(output)@ + spec_paint_objects(*object, inherited),
    decreases object, 1nat,
{
    let ghost start = output@;
    let clipped = inherited || object.clipping == ClipState::Clipped;
    if object.kind != GraphicsKind::Form {
        output.push(
            PaintObject {
                paint_order: object.paint_order,
                bounds: object.bounds,
                active: object.active,
                opacity: object.opacity,
                clipping: if clipped {
                    ClipState::Clipped
                } else {
                    ClipState::Unclipped
                },
            },
        );
    }
    let ghost own = output@;
    proof {
        assert(decreases_to!(object => object.children@));
    }
    collect_paint_objects_of(&object.children, clipped, output);
    assert(output@ =~= start + spec_paint_objects(*object, inherited));
}

/// The paint objects of a page's graphics, in tree order.
pub fn paint_objects<R: Copy>(graphics: &Vec<GraphicsObject<R>>) -> (paint: Vec<PaintObject<R>>)
    ensures
        paint@ == spec_paint_objects_of(graphics@, false),
{
    let mut paint: Vec<PaintObject<R>> = Vec::new();
    collect_paint_objects_of(graphics, false, &mut paint);
    assert(paint@ =~= spec_paint_objects_of(graphics@, false));
    paint
}

/// How a paint object's bounds relate to the bounds of a text object.
#[derive(Debug, Clone, Copy, PartialEq, Eq, Structural)]
pub struct BoundsRelation {
    /// The interiors of the two bounds overlap.
    pub intersects: bool,
    /// The paint object's bounds contain the text's bounds.
    pub contains: bool,
}

/// What the visibility policy needs to know of one paint object (a non-text
/// page object, with the forms it sits in already resolved) relative to one
/// text object.
#[derive(Debug, Clone, Copy, PartialEq, Eq, Structural)]
pub struct PaintFacts {
    pub paint_order: usize,
    pub active: Option<bool>,
    /// `None` when the paint object has no known bounds.
    pub relation: Option<BoundsRelation>,
    pub opacity: PaintOpacity,
    pub clipping: ClipState,
}

/// A paint object matters to a text object painted at `text_order` when it
/// is painted later, is not known to be inactive, and may overlap the text.
pub open spec fn is_relevant(paint: PaintFacts, text_order: usize) -> bool {
    &&& paint.paint_order > text_order
    &&& paint.active != Some(false)
    &&& match paint.relation {
        None => true,
        Some(relation) => relation.intersects,
    }
}

/// Among the first `n` paint objects, the index of the relevant one painted
/// first (the earliest listed among equal paint orders).
pub open spec fn decisive_among(paint: Seq<PaintFacts>, text_order: usize, n: int) -> Option<int>
    decreases n,
{
    if n <= 0 {
        None
    } else {
        let previous = decisive_among(paint, text_order, n - 1);
        if is_relevant(paint[n - 1], text_order) && match previous {
            None => true,
            Some(b) => paint[n - 1].paint_order < paint[b].paint_order,
        } {
            Some(n - 1)
        } else {
            previous
        }
    }
}

/// The visibility of a text object: ambiguous when the text is clipped or
/// has no bounds; otherwise decided by the first relevant later paint
/// object: none leaves it visible, one that is opaque, unclipped and
/// contains the text covers it, any other makes it ambiguous.
pub open spec fn spec_text_visibility(
    text_order: usize,
    text_clipped: bool,
    text_has_bounds: bool,
    paint: Seq<PaintFacts>,
) -> VisibilityDecision {
    if text_clipped || !text_has_bounds {
        VisibilityDecision::AmbiguousVisibility
    } else {
        match decisive_among(paint, text_order, paint.len() as int) {
            None => VisibilityDecision::Visible,
            Some(k) => match paint[k].relation {
                Some(relation) => if paint[k].opacity == PaintOpacity::Opaque && paint[k].clipping
                    == ClipState::Unclipped && relation.contains {
                    VisibilityDecision::CoveredByOpaquePaint
                } else {
                    VisibilityDecision::AmbiguousVisibility
                },
                None => VisibilityDecision::AmbiguousVisibility,
            },
        }
    }
}

/// The object `decisive_among` picks is relevant, and no relevant object
/// among the first `n` is painted before it; the ones painted at the same
/// time come after it in the list. Without a pick, none is relevant.
pub proof fn law_decisive_object_is_the_first_relevant(paint: Seq<PaintFacts>, text_order: usize, n: int)
    requires
        0 <= n <= paint.len(),
    ensures
        decisive_among(paint, text_order, n) matches Some(k) ==> {
            &&& 0 <= k < n
            &&& is_relevant(paint[k], text_order)
            &&& forall|j: int|
                0 <= j < n && is_relevant(#[trigger] paint[j], text_order) ==> paint[k].paint_order
                    <= paint[j].paint_order && (j < k ==> paint[k].paint_order < paint[j].paint_order)
        },
        decisive_among(paint, text_order, n) is None ==> forall|j: int|
            0 <= j < n ==> !is_relevant(#[trigger] paint[j], text_order),
    decreases n,
{
    if n > 0 {
        law_decisive_object_is_the_first_relevant(paint, text_order, n - 1);
    }
}

/// Text counts as covered only when a relevant later object is opaque,
/// unclipped and contains the text's bounds entirely.
pub proof fn law_covered_needs_full_opaque_containment(
    text_order: usize,
    text_clipped: bool,
    text_has_bounds: bool,
    paint: Seq<PaintFacts>,
)
    requires
        spec_text_visibility(text_order, text_clipped, text_has_bounds, paint)
            == VisibilityDecision::CoveredByOpaquePaint,
    ensures
        !text_clipped,
        exists|k: int|
            #![trigger paint[k]]
            0 <= k < paint.len() && is_relevant(paint[k], text_order) && paint[k].opacity
                == PaintOpacity::Opaque && paint[k].clipping == ClipState::Unclipped && (
            paint[k].relation matches Some(relation) && relation.contains),
{
    law_decisive_object_is_the_first_relevant(paint, text_order, paint.len() as int);
}

/// Clipped text, or text without bounds, is never treated as plainly visible
/// or as covered: its visibility is ambiguous.
pub proof fn law_clipped_or_unbounded_text_is_ambiguous(
    text_order: usize,
    text_clipped: bool,
    text_has_bounds: bool,
    paint: Seq<PaintFacts>,
)
    requires
        text_clipped || !text_has_bounds,
    ensures
        spec_text_visibility(text_order, text_clipped, text_has_bounds, paint)
            == VisibilityDecision::AmbiguousVisibility,
{
}

/// Text is visible exactly when it is unclipped, has bounds, and no paint
/// object is painted after it, is not known to be inactive, and may overlap
/// it (it overlaps the text, or its bounds are unknown).
pub proof fn law_visible_exactly_without_later_overlap(
    text_order: usize,
    text_clipped: bool,
    text_has_bounds: bool,
    paint: Seq<PaintFacts>,
)
    ensures
        spec_text_visibility(text_order, text_clipped, text_has_bounds, paint) == VisibilityDecision::Visible
            <==> {
            &&& !text_clipped
            &&& text_has_bounds
            &&& forall|j: int|
                0 <= j < paint.len() ==> !{
                    &&& (#[trigger] paint[j]).paint_order > text_order
                    &&& paint[j].active != Some(false)
                    &&& match paint[j].relation {
                        None => true,
                        Some(relation) => relation.intersects,
                    }
                }
        },
{
    law_decisive_object_is_the_first_relevant(paint, text_order, paint.len() as int);
    if !text_clipped && text_has_bounds {
        if let Some(k) = decisive_among(paint, text_order, paint.len() as int) {
            assert(is_relevant(paint[k], text_order));
        } else {
            assert forall|j: int| 0 <= j < paint.len() implies !is_relevant(#[trigger] paint[j], text_order) by {}
        }
    }
}

/// Later paint that may overlap the text and is not known to hide it
/// completely (an opaque, unclipped object whose bounds contain the text)
/// makes unclipped text with bounds ambiguous, when it is painted before
/// every later object that would hide the text.
pub proof fn law_paint_that_may_not_hide_text_makes_it_ambiguous(
    text_order: usize,
    paint: Seq<PaintFacts>,
    j: int,
)
    requires
        0 <= j < paint.len(),
        paint[j].paint_order > text_order,
        paint[j].active != Some(false),
        match paint[j].relation {
            None => true,
            Some(relation) => relation.intersects,
        },
        !(paint[j].opacity == PaintOpacity::Opaque && paint[j].clipping == ClipState::Unclipped && (
        paint[j].relation matches Some(relation) && relation.contains)),
        forall|i: int|
            0 <= i < paint.len() && (#[trigger] paint[i]).paint_order < paint[j].paint_order ==> !{
                &&& paint[i].paint_order > text_order
                &&& paint[i].active != Some(false)
                &&& match paint[i].relation {
                    None => true,
                    Some(relation) => relation.intersects,
                }
            },
        forall|i: int|
            0 <= i < paint.len() && (#[trigger] paint[i]).paint_order == paint[j].paint_order ==> !(
            paint[i].opacity == PaintOpacity::Opaque && paint[i].clipping == ClipState::Unclipped && (
            paint[i].relation matches Some(relation) && relation.contains)),
    ensures
        spec_text_visibility(text_order, false, true, paint) == VisibilityDecision::AmbiguousVisibility,
{
    law_decisive_object_is_the_first_relevant(paint, text_order, paint.len() as int);
    assert(is_relevant(paint[j], text_order));
    let k = decisive_among(paint, text_order, paint.len() as int)->0;
    assert(paint[k].paint_order <= paint[j].paint_order);
    assert(paint[k].paint_order == paint[j].paint_order) by {
        if paint[k].paint_order < paint[j].paint_order {
            assert(is_relevant(paint[k], text_order));
        }
    }
}

/// Unclipped text with bounds stays visible when no later paint may overlap
/// it.
pub proof fn law_text_without_later_overlap_is_visible(
    text_order: usize,
    paint: Seq<PaintFacts>,
)
    requires
        forall|j: int| 0 <= j < paint.len() ==> !is_relevant(#[trigger] paint[j], text_order),
    ensures
        spec_text_visibility(text_order, false, true, paint) == VisibilityDecision::Visible,
{
    law_decisive_object_is_the_first_relevant(paint, text_order, paint.len() as int);
}

/// The visibility analysis never turns a text failure into native text:
/// after it, text is native only when it was native and is visible.
pub proof fn law_visibility_never_restores_native_text(
    decision: ReconstructionDecision,
    visibility: VisibilityDecision,
)
    ensures
        spec_apply_visibility(decision, visibility) == ReconstructionDecision::NativeText <==> (
        decision == ReconstructionDecision::NativeText && visibility == VisibilityDecision::Visible),
{
}

/// The visibility of the text object painted at `text_order`, given whether
/// it is clipped, whether it has bounds, and the facts of every paint object
/// of its page.
pub fn text_visibility(
    text_order: usize,
    text_clipped: bool,
    text_has_bounds: bool,
    paint: &[PaintFacts],
) -> (visibility: VisibilityDecision)
    ensures
        visibility == spec_text_visibility(text_order, text_clipped, text_has_bounds, paint@),
{
    if text_clipped || !text_has_bounds {
        return VisibilityDecision::AmbiguousVisibility;
    }
    let mut decisive: Option<usize> = None;
    let mut index: usize = 0;
    while index < paint.len()
        invariant
            index <= paint@.len(),
            decisive_among(paint@, text_order, index as int) == match decisive {
                Some(k) => Some(k as int),
                None => None::<int>,
            },
            decisive matches Some(k) ==> k < index,
        decreases paint@.len() - index,
    {
        let object = paint[index];
        let relevant = object.paint_order > text_order && object.active != Some(false) && match
            object.relation {
            None => true,
            Some(relation) => relation.intersects,
        };
        let earlier = match decisive {
            None => true,
            Some(b) => object.paint_order < paint[b].paint_order,
        };
        if relevant && earlier {
            decisive = Some(index);
        }
        index = index + 1;
    }
    match decisive {
        None => VisibilityDecision::Visible,
        Some(k) => match paint[k].relation {
            Some(relation) => if paint[k].opacity == PaintOpacity::Opaque && paint[k].clipping
                == ClipState::Unclipped && relation.contains {
                VisibilityDecision::CoveredByOpaquePaint
            } else {
                VisibilityDecision::AmbiguousVisibility
            },
            None => VisibilityDecision::AmbiguousVisibility,
        },
    }
}

/// The reconstruction decision after the visibility analysis: native text
/// stays native only when visible; other decisions are kept.
pub open spec fn spec_apply_visibility(
    decision: ReconstructionDecision,
    visibility: VisibilityDecision,
) -> ReconstructionDecision {
    match decision {
        ReconstructionDecision::NativeText => match visibility {
            VisibilityDecision::Visible => ReconstructionDecision::NativeText,
            VisibilityDecision::CoveredByOpaquePaint => ReconstructionDecision::TextFailure(
                TextFailureReason::CoveredByOpaquePaint,
            ),
            VisibilityDecision::AmbiguousVisibility => ReconstructionDecision::TextFailure(
                TextFailureReason::AmbiguousVisibility,
            ),
        },
        _ => decision,
    }
}

pub fn apply_visibility(decision: ReconstructionDecision, visibility: VisibilityDecision) -> (updated:
    ReconstructionDecision)
    ensures
        updated == spec_apply_visibility(decision, visibility),
{
    match decision {
        ReconstructionDecision::NativeText => match visibility {
            VisibilityDecision::Visible => ReconstructionDecision::NativeText,
            VisibilityDecision::CoveredByOpaquePaint => ReconstructionDecision::TextFailure(
                TextFailureReason::CoveredByOpaquePaint,
            ),
            VisibilityDecision::AmbiguousVisibility => ReconstructionDecision::TextFailure(
                TextFailureReason::AmbiguousVisibility,
            ),
        },
        _ => decision,
    }
}

} // verus!
