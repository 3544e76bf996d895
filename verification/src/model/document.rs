//! Diagnostics collected while building the document model, and the text
//! integrity failures that a finished model carries.

use vstd::prelude::*;

use super::font::{FontCatalog, FontId};
use super::text::{ReconstructionDecision, TextFailureReason, TextIntegrityFailure};
use crate::pdfium::extraction::{all_some, all_unicode};

verus! {

/// A problem found while building the model, with where it was found.
#[derive(Debug, Clone, PartialEq, Eq)]
pub struct DocumentDiagnostic {
    pub scope: DiagnosticScope,
    pub message: String,
}

/// The part of the document a diagnostic is about.
#[derive(Debug, Clone, PartialEq, Eq, Structural)]
pub enum DiagnosticScope {
    Document,
    Page(usize),
    Object { page: usize, paint_order: usize },
    Font(usize),
}

/// What the integrity check reads of a text object: where it is painted,
/// its font, its reconstruction decision and the Unicode value of each of
/// its glyphs.
#[derive(Debug, Clone)]
pub struct TextObjectSummary {
    pub paint_order: usize,
    pub font: FontId,
    pub reconstruction: ReconstructionDecision,
    pub unicode: Vec<Option<char>>,
}

/// The text objects of one page, in paint order.
#[derive(Debug, Clone)]
pub struct PageTextSummary {
    pub number: usize,
    pub text_objects: Vec<TextObjectSummary>,
}

/// A font job for `font` failed: its failure was recorded among the
/// diagnostics, which are about a font only when its job failed.
pub open spec fn font_job_failed(diagnostics: Seq<DocumentDiagnostic>, font: FontId) -> bool {
    exists|i: int| 0 <= i < diagnostics.len() && #[trigger] diagnostics[i].scope == DiagnosticScope::Font(font)
}

/// Whether a diagnostic records a failed job for `font`.
pub fn has_font_job_failure(diagnostics: &Vec<DocumentDiagnostic>, font: FontId) -> (failed: bool)
    ensures
        failed == font_job_failed(diagnostics@, font),
{
    for i in 0..diagnostics.len()
        invariant
            forall|j: int| 0 <= j < i ==> (#[trigger] diagnostics@[j]).scope != DiagnosticScope::Font(font),
    {
        if diagnostics[i].scope == DiagnosticScope::Font(font) {
            return true;
        }
    }
    false
}

/// A font of the catalog whose processing failed.
pub open spec fn font_processing_failed(
    fonts: FontCatalog,
    diagnostics: Seq<DocumentDiagnostic>,
    font: FontId,
) -> bool {
    &&& fonts.fonts@.contains_key(font)
    &&& font_job_failed(diagnostics, font)
}

/// The failure recorded for a text object of page `page`: its own failure
/// reason; for native text whose font failed processing, that failure; none
/// for other native text.
pub open spec fn spec_object_failure(
    page: usize,
    object: TextObjectSummary,
    fonts: FontCatalog,
    diagnostics: Seq<DocumentDiagnostic>,
) -> Option<TextIntegrityFailure> {
    let reason = match object.reconstruction {
        ReconstructionDecision::TextFailure(reason) => Some(reason),
        ReconstructionDecision::NativeText => if font_processing_failed(fonts, diagnostics, object.font) {
            Some(TextFailureReason::FontProcessingFailed)
        } else {
            None
        },
    };
    match reason {
        Some(reason) => Some(
            TextIntegrityFailure {
                page,
                paint_order: object.paint_order,
                reason,
                semantic_text_available: all_unicode(object.unicode@),
            },
        ),
        None => None,
    }
}

/// The failures of a page's text objects, in order.
pub open spec fn spec_objects_failures(
    page: usize,
    objects: Seq<TextObjectSummary>,
    fonts: FontCatalog,
    diagnostics: Seq<DocumentDiagnostic>,
) -> Seq<TextIntegrityFailure>
    decreases objects.len(),
{
    if objects.len() == 0 {
        Seq::empty()
    } else {
        spec_objects_failures(page, objects.drop_last(), fonts, diagnostics) + match spec_object_failure(
            page,
            objects.last(),
            fonts,
            diagnostics,
        ) {
            Some(failure) => seq![failure],
            None => Seq::empty(),
        }
    }
}

/// The failures of every page, page by page.
pub open spec fn spec_discovered_failures(
    pages: Seq<PageTextSummary>,
    fonts: FontCatalog,
    diagnostics: Seq<DocumentDiagnostic>,
) -> Seq<
    TextIntegrityFailure,
>
    decreases pages.len(),
{
    if pages.len() == 0 {
        Seq::empty()
    } else {
        spec_discovered_failures(pages.drop_last(), fonts, diagnostics) + spec_objects_failures(
            pages.last().number,
            pages.last().text_objects@,
            fonts,
            diagnostics,
        )
    }
}

/// Every text object of the pages is native text in a font whose
/// processing did not fail.
pub open spec fn all_text_native(
    pages: Seq<PageTextSummary>,
    fonts: FontCatalog,
    diagnostics: Seq<DocumentDiagnostic>,
) -> bool {
    forall|p: int, o: int|
        0 <= p < pages.len() && 0 <= o < pages[p].text_objects@.len() ==> {
            let object = #[trigger] pages[p].text_objects@[o];
            &&& object.reconstruction == ReconstructionDecision::NativeText
            &&& !font_processing_failed(fonts, diagnostics, object.font)
        }
}

proof fn lemma_objects_failures_empty(
    page: usize,
    objects: Seq<TextObjectSummary>,
    fonts: FontCatalog,
    diagnostics: Seq<DocumentDiagnostic>,
)
    ensures
        spec_objects_failures(page, objects, fonts, diagnostics).len() == 0 <==> forall|o: int|
            0 <= o < objects.len() ==> spec_object_failure(page, #[trigger] objects[o], fonts, diagnostics) is None,
    decreases objects.len(),
{
    if objects.len() > 0 {
        lemma_objects_failures_empty(page, objects.drop_last(), fonts, diagnostics);
        assert forall|o: int| 0 <= o < objects.len() - 1 implies objects.drop_last()[o] == objects[o] by {}
        if spec_objects_failures(page, objects, fonts, diagnostics).len() == 0 {
            assert forall|o: int| 0 <= o < objects.len() implies spec_object_failure(
                page,
                #[trigger] objects[o],
                fonts,
                diagnostics,
            ) is None by {
                if o < objects.len() - 1 {
                    assert(objects.drop_last()[o] == objects[o]);
                }
            }
        }
    }
}

/// A document has text integrity failures exactly when one of its text
/// objects is not native text, or is native text in a font whose processing
/// failed.
pub proof fn law_failures_found_exactly_when_text_is_not_native(
    pages: Seq<PageTextSummary>,
    fonts: FontCatalog,
    diagnostics: Seq<DocumentDiagnostic>,
)
    ensures
        spec_discovered_failures(pages, fonts, diagnostics).len() == 0 <==> all_text_native(pages, fonts, diagnostics),
    decreases pages.len(),
{
    if pages.len() > 0 {
        let last = pages.last();
        law_failures_found_exactly_when_text_is_not_native(pages.drop_last(), fonts, diagnostics);
        lemma_objects_failures_empty(last.number, last.text_objects@, fonts, diagnostics);
        assert forall|p: int| 0 <= p < pages.len() - 1 implies pages.drop_last()[p] == pages[p] by {}
        if all_text_native(pages, fonts, diagnostics) {
            assert forall|p: int, o: int|
                0 <= p < pages.drop_last().len() && 0 <= o < pages.drop_last()[p].text_objects@.len()
                implies {
                let object = #[trigger] pages.drop_last()[p].text_objects@[o];
                &&& object.reconstruction == ReconstructionDecision::NativeText
                &&& !font_processing_failed(fonts, diagnostics, object.font)
            } by {
                assert(pages.drop_last()[p] == pages[p]);
                assert(pages[p].text_objects@[o] == pages.drop_last()[p].text_objects@[o]);
            }
            assert forall|o: int| 0 <= o < last.text_objects@.len() implies spec_object_failure(
                last.number,
                #[trigger] last.text_objects@[o],
                fonts,
                diagnostics,
            ) is None by {
                assert(pages[pages.len() - 1].text_objects@[o] == last.text_objects@[o]);
            }
        }
        if spec_discovered_failures(pages, fonts, diagnostics).len() == 0 {
            assert forall|p: int, o: int|
                0 <= p < pages.len() && 0 <= o < pages[p].text_objects@.len() implies {
                let object = #[trigger] pages[p].text_objects@[o];
                &&& object.reconstruction == ReconstructionDecision::NativeText
                &&& !font_processing_failed(fonts, diagnostics, object.font)
            } by {
                if p < pages.len() - 1 {
                    assert(pages.drop_last()[p] == pages[p]);
                    assert(pages.drop_last()[p].text_objects@[o] == pages[p].text_objects@[o]);
                } else {
                    assert(spec_object_failure(last.number, last.text_objects@[o], fonts, diagnostics) is None);
                }
            }
        }
    }
}

/// The failures of a document made of the pages of `first` followed by
/// those of `second` are the failures of `first` followed by those of
/// `second`: no page's failures are lost or reordered.
pub proof fn law_failures_of_pages_concatenate(
    first: Seq<PageTextSummary>,
    second: Seq<PageTextSummary>,
    fonts: FontCatalog,
    diagnostics: Seq<DocumentDiagnostic>,
)
    ensures
        spec_discovered_failures(first + second, fonts, diagnostics) == spec_discovered_failures(
            first,
            fonts,
            diagnostics,
        ) + spec_discovered_failures(second, fonts, diagnostics),
    decreases second.len(),
{
    if second.len() == 0 {
        assert(first + second =~= first);
        assert(spec_discovered_failures(first, fonts, diagnostics) + Seq::<TextIntegrityFailure>::empty()
            =~= spec_discovered_failures(first, fonts, diagnostics));
    } else {
        law_failures_of_pages_concatenate(first, second.drop_last(), fonts, diagnostics);
        assert((first + second).drop_last() =~= first + second.drop_last());
        assert((first + second).last() == second.last());
        assert(spec_discovered_failures(first + second, fonts, diagnostics) =~= spec_discovered_failures(
            first,
            fonts,
            diagnostics,
        ) + spec_discovered_failures(second, fonts, diagnostics));
    }
}

/// The failure a text object of a page owes: a text failure with the
/// object's reason, or, for native text in a catalog font whose job failed,
/// a font-processing failure; none for other native text.
pub open spec fn owed_failure(
    page: usize,
    object: TextObjectSummary,
    fonts: FontCatalog,
    diagnostics: Seq<DocumentDiagnostic>,
) -> Option<TextIntegrityFailure> {
    let semantic = forall|i: int| 0 <= i < object.unicode@.len() ==> (#[trigger] object.unicode@[i]) is Some;
    match object.reconstruction {
        ReconstructionDecision::TextFailure(reason) => Some(
            TextIntegrityFailure {
                page,
                paint_order: object.paint_order,
                reason,
                semantic_text_available: semantic,
            },
        ),
        ReconstructionDecision::NativeText => if fonts.fonts@.contains_key(object.font) && exists|i: int|
            0 <= i < diagnostics.len() && #[trigger] diagnostics[i].scope == DiagnosticScope::Font(
                object.font,
            ) {
            Some(
                TextIntegrityFailure {
                    page,
                    paint_order: object.paint_order,
                    reason: TextFailureReason::FontProcessingFailed,
                    semantic_text_available: semantic,
                },
            )
        } else {
            None
        },
    }
}

proof fn lemma_object_failure_listed(
    page: usize,
    objects: Seq<TextObjectSummary>,
    fonts: FontCatalog,
    diagnostics: Seq<DocumentDiagnostic>,
    o: int,
)
    requires
        0 <= o < objects.len(),
        owed_failure(page, objects[o], fonts, diagnostics) is Some,
    ensures
        spec_objects_failures(page, objects, fonts, diagnostics).contains(
            owed_failure(page, objects[o], fonts, diagnostics)->0,
        ),
    decreases objects.len(),
{
    let listed = spec_objects_failures(page, objects, fonts, diagnostics);
    let before = spec_objects_failures(page, objects.drop_last(), fonts, diagnostics);
    if o < objects.len() - 1 {
        lemma_object_failure_listed(page, objects.drop_last(), fonts, diagnostics, o);
        assert(objects.drop_last()[o] == objects[o]);
        let w = choose|w: int| 0 <= w < before.len() && before[w] == owed_failure(page, objects[o], fonts, diagnostics)->0;
        assert(listed[w] == before[w]);
    } else {
        let f = owed_failure(page, objects[o], fonts, diagnostics)->0;
        assert(spec_object_failure(page, objects.last(), fonts, diagnostics) == Some(f));
        assert(listed[before.len() as int] == f);
    }
}

/// Every text object of every page that is not native text, or that is
/// native text in a catalog font whose job failed, is listed among the
/// document's failures with its page, paint order and reason.
pub proof fn law_every_failed_object_is_listed(
    pages: Seq<PageTextSummary>,
    fonts: FontCatalog,
    diagnostics: Seq<DocumentDiagnostic>,
    p: int,
    o: int,
)
    requires
        0 <= p < pages.len(),
        0 <= o < pages[p].text_objects@.len(),
        owed_failure(pages[p].number, pages[p].text_objects@[o], fonts, diagnostics) is Some,
    ensures
        spec_discovered_failures(pages, fonts, diagnostics).contains(
            owed_failure(pages[p].number, pages[p].text_objects@[o], fonts, diagnostics)->0,
        ),
    decreases pages.len(),
{
    let f = owed_failure(pages[p].number, pages[p].text_objects@[o], fonts, diagnostics)->0;
    let all = spec_discovered_failures(pages, fonts, diagnostics);
    let before = spec_discovered_failures(pages.drop_last(), fonts, diagnostics);
    if p < pages.len() - 1 {
        assert(pages.drop_last()[p] == pages[p]);
        law_every_failed_object_is_listed(pages.drop_last(), fonts, diagnostics, p, o);
        let w = choose|w: int| 0 <= w < before.len() && before[w] == f;
        assert(all[w] == before[w]);
    } else {
        let last = pages.last();
        lemma_object_failure_listed(last.number, last.text_objects@, fonts, diagnostics, o);
        let listed = spec_objects_failures(last.number, last.text_objects@, fonts, diagnostics);
        let w = choose|w: int| 0 <= w < listed.len() && listed[w] == f;
        assert(all[before.len() + w] == listed[w]);
    }
}

proof fn lemma_listed_failure_has_object(
    page: usize,
    objects: Seq<TextObjectSummary>,
    fonts: FontCatalog,
    diagnostics: Seq<DocumentDiagnostic>,
    w: int,
)
    requires
        0 <= w < spec_objects_failures(page, objects, fonts, diagnostics).len(),
    ensures
        exists|o: int|
            0 <= o < objects.len() && owed_failure(page, #[trigger] objects[o], fonts, diagnostics) == Some(
                spec_objects_failures(page, objects, fonts, diagnostics)[w],
            ),
    decreases objects.len(),
{
    let listed = spec_objects_failures(page, objects, fonts, diagnostics);
    let before = spec_objects_failures(page, objects.drop_last(), fonts, diagnostics);
    if w < before.len() {
        lemma_listed_failure_has_object(page, objects.drop_last(), fonts, diagnostics, w);
        let o = choose|o: int|
            0 <= o < objects.drop_last().len() && owed_failure(page, #[trigger] objects.drop_last()[o], fonts, diagnostics)
                == Some(before[w]);
        assert(objects.drop_last()[o] == objects[o]);
        assert(listed[w] == before[w]);
    } else {
        let o = objects.len() - 1;
        assert(owed_failure(page, objects[o], fonts, diagnostics) == spec_object_failure(page, objects.last(), fonts, diagnostics));
    }
}

/// Every failure listed for a document belongs to a text object of one of
/// its pages: the object's page number and paint order, and the failure
/// that object owes.
pub proof fn law_every_listed_failure_has_an_object(
    pages: Seq<PageTextSummary>,
    fonts: FontCatalog,
    diagnostics: Seq<DocumentDiagnostic>,
    w: int,
)
    requires
        0 <= w < spec_discovered_failures(pages, fonts, diagnostics).len(),
    ensures
        exists|p: int, o: int|
            0 <= p < pages.len() && 0 <= o < pages[p].text_objects@.len() && owed_failure(
                pages[p].number,
                #[trigger] pages[p].text_objects@[o],
                fonts,
                diagnostics,
            ) == Some(spec_discovered_failures(pages, fonts, diagnostics)[w]),
    decreases pages.len(),
{
    let all = spec_discovered_failures(pages, fonts, diagnostics);
    let before = spec_discovered_failures(pages.drop_last(), fonts, diagnostics);
    if w < before.len() {
        law_every_listed_failure_has_an_object(pages.drop_last(), fonts, diagnostics, w);
        let (p, o) = choose|p: int, o: int|
            0 <= p < pages.drop_last().len() && 0 <= o < pages.drop_last()[p].text_objects@.len()
                && owed_failure(
                pages.drop_last()[p].number,
                #[trigger] pages.drop_last()[p].text_objects@[o],
                fonts,
                diagnostics,
            ) == Some(before[w]);
        assert(pages.drop_last()[p] == pages[p]);
        assert(all[w] == before[w]);
        assert(owed_failure(pages[p].number, pages[p].text_objects@[o], fonts, diagnostics) == Some(all[w]));
    } else {
        let last = pages.last();
        lemma_listed_failure_has_object(last.number, last.text_objects@, fonts, diagnostics, w - before.len());
        let o = choose|o: int|
            0 <= o < last.text_objects@.len() && owed_failure(last.number, #[trigger] last.text_objects@[o], fonts, diagnostics)
                == Some(spec_objects_failures(last.number, last.text_objects@, fonts, diagnostics)[w - before.len()]);
        assert(pages[pages.len() - 1] == last);
        assert(owed_failure(pages[pages.len() - 1].number, pages[pages.len() - 1].text_objects@[o], fonts, diagnostics) == Some(all[w]));
    }
}

fn object_failure(
    page: usize,
    object: &TextObjectSummary,
    fonts: &FontCatalog,
    diagnostics: &Vec<DocumentDiagnostic>,
) -> (failure: Option<TextIntegrityFailure>)
    ensures
        failure == spec_object_failure(page, *object, *fonts, diagnostics@),
{
    let reason = match object.reconstruction {
        ReconstructionDecision::TextFailure(reason) => Some(reason),
        ReconstructionDecision::NativeText => {
            let failed = fonts.fonts.contains_key(&object.font) && has_font_job_failure(
                diagnostics,
                object.font,
            );
            if failed {
                Some(TextFailureReason::FontProcessingFailed)
            } else {
                None
            }
        },
    };
    match reason {
        Some(reason) => Some(
            TextIntegrityFailure {
                page,
                paint_order: object.paint_order,
                reason,
                semantic_text_available: all_some(object.unicode.as_slice()),
            },
        ),
        None => None,
    }
}

/// The text integrity failures of a document: every text object that is
/// not native text, and every native text object whose font failed
/// processing (as `diagnostics` record), page by page in paint order.
pub fn discovered_text_failures(
    pages: &Vec<PageTextSummary>,
    fonts: &FontCatalog,
    diagnostics: &Vec<DocumentDiagnostic>,
) -> (failures: Vec<TextIntegrityFailure>)
    ensures
        failures@ == spec_discovered_failures(pages@, *fonts, diagnostics@),
{
    let mut failures: Vec<TextIntegrityFailure> = Vec::new();
    for p in 0..pages.len()
        invariant
            failures@ == spec_discovered_failures(pages@.take(p as int), *fonts, diagnostics@),
    {
        let page = &pages[p];
        let ghost before_page = failures@;
        proof {
            assert(pages@.take(p + 1).drop_last() =~= pages@.take(p as int));
        }
        for o in 0..page.text_objects.len()
            invariant
                page == pages@[p as int],
                failures@ == before_page + spec_objects_failures(
                    page.number,
                    page.text_objects@.take(o as int),
                    *fonts,
                    diagnostics@,
                ),
        {
            proof {
                assert(page.text_objects@.take(o + 1).drop_last() =~= page.text_objects@.take(
                    o as int,
                ));
            }
            let ghost before = failures@;
            match object_failure(page.number, &page.text_objects[o], fonts, diagnostics) {
                Some(failure) => {
                    failures.push(failure);
                },
                None => {},
            }
            assert(failures@ =~= before_page + spec_objects_failures(
                page.number,
                page.text_objects@.take(o + 1),
                *fonts,
                diagnostics@,
            ));
        }
        assert(page.text_objects@.take(page.text_objects@.len() as int) =~= page.text_objects@);
        assert(failures@ =~= spec_discovered_failures(pages@.take(p + 1), *fonts, diagnostics@));
    }
    assert(pages@.take(pages@.len() as int) =~= pages@);
    failures
}

} // verus!
