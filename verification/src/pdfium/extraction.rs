//! The decisions made while a document is extracted from PDFium: whether a
//! text object can become native text, which fonts have a proven Unicode
//! mapping, and what is recorded about failed text.

use vstd::prelude::*;
use vstd::std_specs::btree::{increasing_seq, spec_btree_map_iter, spec_keys_iter};
use vstd::std_specs::cmp::OrdSpec;
use vstd::std_specs::iter::IteratorSpec;

use crate::fonts::mapping::{mapping_is_proven, spec_mapping_is_proven};
use crate::model::{
    DiagnosticScope, DocumentDiagnostic, FontCatalog, FontId, FontSource, GraphicsObject,
    ProcessedFont, ReconstructionDecision, TextFailureReason, TextIntegrityFailure,
    TextObjectSummary, TextRenderMode,
};

verus! {

broadcast use vstd::std_specs::btree::group_btree_axioms;

/// Every glyph of the object has a Unicode value.
pub open spec fn all_unicode(unicode: Seq<Option<char>>) -> bool {
    forall|i: int| 0 <= i < unicode.len() ==> (#[trigger] unicode[i]) is Some
}

/// Every glyph of the object has tight or loose bounds.
pub open spec fn all_true(flags: Seq<bool>) -> bool {
    forall|i: int| 0 <= i < flags.len() ==> #[trigger] flags[i]
}

/// A font blocks native text when it is embedded (or not known to be
/// unembedded) and its Unicode mapping is not proven.
pub open spec fn font_blocks_native_text(fonts: FontCatalog, font: FontId) -> bool {
    fonts.fonts@.contains_key(font) && match fonts.fonts@[font].embedded {
        Some(false) => false,
        _ => true,
    } && !fonts.fonts@[font].mapping_proven
}

/// Whether a text object becomes native text, and if not, the first reason
/// in this order: no glyphs, a glyph without Unicode, an invisible or unknown
/// render mode, a glyph without bounds, an unproven font mapping.
pub open spec fn spec_reconstruction_decision(
    unicode: Seq<Option<char>>,
    has_bounds: Seq<bool>,
    render_mode: TextRenderMode,
    fonts: FontCatalog,
    font: FontId,
) -> ReconstructionDecision {
    if unicode.len() == 0 {
        ReconstructionDecision::TextFailure(TextFailureReason::ExtractionError)
    } else if !all_unicode(unicode) {
        ReconstructionDecision::TextFailure(TextFailureReason::MissingUnicode)
    } else if render_mode == TextRenderMode::Invisible || render_mode == TextRenderMode::Unknown {
        ReconstructionDecision::TextFailure(TextFailureReason::UnsupportedRenderMode)
    } else if !all_true(has_bounds) {
        ReconstructionDecision::TextFailure(TextFailureReason::MissingGeometry)
    } else if font_blocks_native_text(fonts, font) {
        ReconstructionDecision::TextFailure(TextFailureReason::UnprovenFontMapping)
    } else {
        ReconstructionDecision::NativeText
    }
}

/// Native text has at least one glyph, every glyph has Unicode and
/// bounds, it is painted visibly, and its font does not block it.
pub proof fn law_native_text_is_complete(
    unicode: Seq<Option<char>>,
    has_bounds: Seq<bool>,
    render_mode: TextRenderMode,
    fonts: FontCatalog,
    font: FontId,
)
    requires
        spec_reconstruction_decision(unicode, has_bounds, render_mode, fonts, font)
            == ReconstructionDecision::NativeText,
    ensures
        unicode.len() > 0,
        all_unicode(unicode),
        all_true(has_bounds),
        render_mode != TextRenderMode::Invisible && render_mode != TextRenderMode::Unknown,
        !font_blocks_native_text(fonts, font),
{
}

/// A text object is recorded as failed exactly when it is not native text.
pub proof fn law_failures_are_exactly_the_non_native_objects(
    page: usize,
    paint_order: usize,
    decision: ReconstructionDecision,
    unicode: Seq<Option<char>>,
)
    ensures
        spec_text_integrity_failure(page, paint_order, decision, unicode) is Some <==> decision
            != ReconstructionDecision::NativeText,
{
}

pub(crate) fn all_some(unicode: &[Option<char>]) -> (all: bool)
    ensures
        all == all_unicode(unicode@),
{
    let mut index: usize = 0;
    while index < unicode.len()
        invariant
            index <= unicode@.len(),
            forall|i: int| 0 <= i < index ==> (#[trigger] unicode@[i]) is Some,
        decreases unicode@.len() - index,
    {
        if unicode[index].is_none() {
            return false;
        }
        index = index + 1;
    }
    true
}

fn all_set(flags: &[bool]) -> (all: bool)
    ensures
        all == all_true(flags@),
{
    let mut index: usize = 0;
    while index < flags.len()
        invariant
            index <= flags@.len(),
            forall|i: int| 0 <= i < index ==> #[trigger] flags@[i],
        decreases flags@.len() - index,
    {
        if !flags[index] {
            return false;
        }
        index = index + 1;
    }
    true
}

/// Decides whether a text object can be emitted as native text, from its
/// glyphs' Unicode values, whether each glyph has bounds, its render mode
/// and its font.
pub fn reconstruction_decision(
    unicode: &[Option<char>],
    has_bounds: &[bool],
    render_mode: TextRenderMode,
    fonts: &FontCatalog,
    font: FontId,
) -> (decision: ReconstructionDecision)
    ensures
        decision == spec_reconstruction_decision(unicode@, has_bounds@, render_mode, *fonts, font),
{
    if unicode.len() == 0 {
        return ReconstructionDecision::TextFailure(TextFailureReason::ExtractionError);
    }
    if !all_some(unicode) {
        return ReconstructionDecision::TextFailure(TextFailureReason::MissingUnicode);
    }
    if render_mode == TextRenderMode::Invisible || render_mode == TextRenderMode::Unknown {
        return ReconstructionDecision::TextFailure(TextFailureReason::UnsupportedRenderMode);
    }
    if !all_set(has_bounds) {
        return ReconstructionDecision::TextFailure(TextFailureReason::MissingGeometry);
    }
    let blocked = match fonts.fonts.get(&font) {
        Some(source) => {
            let embedded = match source.embedded {
                Some(e) => e,
                None => true,
            };
            embedded && !source.mapping_proven
        },
        None => false,
    };
    if blocked {
        return ReconstructionDecision::TextFailure(TextFailureReason::UnprovenFontMapping);
    }
    ReconstructionDecision::NativeText
}

/// The record of a text object that is not native text.
pub open spec fn spec_text_integrity_failure(
    page: usize,
    paint_order: usize,
    decision: ReconstructionDecision,
    unicode: Seq<Option<char>>,
) -> Option<TextIntegrityFailure> {
    match decision {
        ReconstructionDecision::NativeText => None,
        ReconstructionDecision::TextFailure(reason) => Some(
            TextIntegrityFailure {
                page,
                paint_order,
                reason,
                semantic_text_available: all_unicode(unicode),
            },
        ),
    }
}

/// The failure to record for a text object on `page` painted at
/// `paint_order`: none for native text; otherwise its reason and whether
/// every glyph's text is known.
pub fn text_integrity_failure(
    page: usize,
    paint_order: usize,
    decision: &ReconstructionDecision,
    unicode: &[Option<char>],
) -> (failure: Option<TextIntegrityFailure>)
    ensures
        failure == spec_text_integrity_failure(page, paint_order, *decision, unicode@),
{
    match decision {
        ReconstructionDecision::NativeText => None,
        ReconstructionDecision::TextFailure(reason) => Some(
            TextIntegrityFailure {
                page,
                paint_order,
                reason: *reason,
                semantic_text_available: all_some(unicode),
            },
        ),
    }
}

/// Whether the mapping of `font` is proven: it has data whose cmap maps
/// every used character.
pub open spec fn spec_font_mapping_proven(font: FontSource) -> bool {
    match font.data {
        Some(data) => spec_mapping_is_proven(data@, font.used_unicode@),
        None => false,
    }
}

/// `font` with its proof flag recomputed.
pub open spec fn with_mapping_checked(font: FontSource) -> FontSource {
    FontSource { mapping_proven: spec_font_mapping_proven(font), ..font }
}

/// Recomputes, for every font of the catalog, whether its Unicode mapping
/// is proven.
pub fn prove_font_mappings(fonts: &mut FontCatalog)
    ensures
        final(fonts).fonts@.dom() == old(fonts).fonts@.dom(),
        forall|id: FontId| #[trigger]
            old(fonts).fonts@.contains_key(id) ==> final(fonts).fonts@[id] == with_mapping_checked(
                old(fonts).fonts@[id],
            ),
{
    let ghost original = fonts.fonts@;
    let mut ids: Vec<FontId> = Vec::new();
    let keys = fonts.fonts.keys();
    let ghost all_keys = keys.remaining();
    assert(all_keys == spec_keys_iter(&fonts.fonts).remaining());
    assert(all_keys.unref().to_set() == original.dom());
    assert(all_keys.no_duplicates());
    for key in it: keys
        invariant
            it.seq() == all_keys,
            ids@ == all_keys.take(it.index()).map_values(|k: &FontId| *k),
    {
        ids.push(*key);
        proof {
            assert(all_keys.take(it.index() + 1).map_values(|k: &FontId| *k) =~= all_keys.take(
                it.index(),
            ).map_values(|k: &FontId| *k).push(*key));
        }
    }
    assert(all_keys.take(all_keys.len() as int) =~= all_keys);
    assert(ids@.to_set() =~= original.dom()) by {
        assert forall|k: FontId| ids@.to_set().contains(k) implies original.dom().contains(k) by {
            let i = choose|i: int| 0 <= i < ids@.len() && ids@[i] == k;
            assert(all_keys.unref()[i] == k);
            assert(all_keys.unref().contains(k));
        }
        assert forall|k: FontId| original.dom().contains(k) implies ids@.to_set().contains(k) by {
            assert(all_keys.unref().to_set().contains(k));
            assert(all_keys.unref().contains(k));
            let i = choose|i: int| 0 <= i < all_keys.len() && all_keys.unref()[i] == k;
            assert(ids@[i] == k);
            assert(ids@.contains(k));
        }
    }
    assert(ids@.no_duplicates()) by {
        assert forall|i: int, j: int| 0 <= i < j < ids@.len() implies ids@[i] != ids@[j] by {
            assert(all_keys[i] != all_keys[j]);
            assert(ids@[i] == *all_keys[i]);
            assert(ids@[j] == *all_keys[j]);
        }
    }
    let mut index: usize = 0;
    while index < ids.len()
        invariant
            index <= ids@.len(),
            ids@.to_set() == original.dom(),
            ids@.no_duplicates(),
            fonts.fonts@.dom() == original.dom(),
            forall|i: int| 0 <= i < index ==> #[trigger] fonts.fonts@[ids@[i]] == with_mapping_checked(
                original[ids@[i]],
            ),
            forall|i: int| index <= i < ids@.len() ==> #[trigger] fonts.fonts@[ids@[i]] == original[ids@[i]],
        decreases ids@.len() - index,
    {
        let id = ids[index];
        assert(ids@.to_set().contains(id));
        let removed = fonts.fonts.remove(&id);
        match removed {
            Some(mut font) => {
                let proven = match &font.data {
                    Some(data) => mapping_is_proven(data.as_slice(), font.used_unicode.as_slice()),
                    None => false,
                };
                font.mapping_proven = proven;
                fonts.fonts.insert(id, font);
            },
            None => {},
        }
        proof {
            assert(fonts.fonts@.dom() =~= original.dom());
            assert forall|i: int| 0 <= i < ids@.len() && i != index implies ids@[i] != id by {}
        }
        index = index + 1;
    }
    proof {
        assert forall|id: FontId| #[trigger] original.contains_key(id) implies fonts.fonts@[id]
            == with_mapping_checked(original[id]) by {
            assert(ids@.to_set().contains(id));
            let i = choose|i: int| 0 <= i < ids@.len() && ids@[i] == id;
            assert(fonts.fonts@[ids@[i]] == with_mapping_checked(original[ids@[i]]));
        }
    }
}

// ---------------------------------------------------------------------------
// Font jobs
// ---------------------------------------------------------------------------

/// The embedded fonts of the catalog, in increasing id order: the fonts
/// that are made into web fonts.
pub open spec fn spec_fonts_to_process(entries: Seq<(&FontId, &FontSource)>) -> Seq<FontId>
    decreases entries.len(),
{
    if entries.len() == 0 {
        Seq::empty()
    } else {
        spec_fonts_to_process(entries.drop_last()) + if entries.last().1.embedded == Some(true) {
            seq![*entries.last().0]
        } else {
            Seq::empty()
        }
    }
}

pub fn fonts_to_process(fonts: &FontCatalog) -> (ids: Vec<FontId>)
    ensures
        ids@ == spec_fonts_to_process(vstd::std_specs::btree::spec_btree_map_iter(&fonts.fonts).remaining()),
{
    let mut ids: Vec<FontId> = Vec::new();
    let entries_iter = fonts.fonts.iter();
    let ghost entries = entries_iter.remaining();
    for entry in it: entries_iter
        invariant
            it.seq() == entries,
            entries == vstd::std_specs::btree::spec_btree_map_iter(&fonts.fonts).remaining(),
            ids@ == spec_fonts_to_process(entries.take(it.index())),
    {
        proof {
            assert(entries.take(it.index() + 1).drop_last() =~= entries.take(it.index()));
            assert(entries.take(it.index() + 1).last() == entries[it.index()]);
        }
        let (id, source) = entry;
        if source.embedded == Some(true) {
            ids.push(*id);
        } else {
            assert(ids@ =~= ids@ + Seq::<FontId>::empty());
        }
    }
    assert(entries.take(entries.len() as int) =~= entries);
    ids
}

/// Records the outcome of the font job for font `id`: the web font on
/// success; on failure a diagnostic about the font with the job's error
/// message, leaving the font without a web font.
pub fn record_font_job(
    fonts: &mut FontCatalog,
    diagnostics: &mut Vec<DocumentDiagnostic>,
    id: FontId,
    outcome: Result<ProcessedFont, String>,
)
    ensures
        match outcome {
            Ok(font) => {
                &&& final(diagnostics)@ == old(diagnostics)@
                &&& old(fonts).fonts@.contains_key(id) ==> final(fonts).fonts@ == old(fonts).fonts@.insert(
                    id,
                    FontSource { processed: Some(font), ..old(fonts).fonts@[id] },
                )
                &&& !old(fonts).fonts@.contains_key(id) ==> final(fonts).fonts@ == old(fonts).fonts@
            },
            Err(message) => {
                &&& final(fonts).fonts@ == old(fonts).fonts@
                &&& final(diagnostics)@.len() == old(diagnostics)@.len() + 1
                &&& final(diagnostics)@.take(old(diagnostics)@.len() as int) == old(diagnostics)@
                &&& final(diagnostics)@.last().scope == DiagnosticScope::Font(id)
                &&& final(diagnostics)@.last().message@ == message@
            },
        },
{
    match outcome {
        Ok(font) => {
            if let Some(mut source) = fonts.fonts.remove(&id) {
                source.processed = Some(font);
                fonts.fonts.insert(id, source);
                proof {
                    assert(fonts.fonts@ =~= old(fonts).fonts@.insert(
                        id,
                        FontSource { processed: Some(font), ..old(fonts).fonts@[id] },
                    ));
                }
            }
        },
        Err(message) => {
            diagnostics.push(DocumentDiagnostic { scope: DiagnosticScope::Font(id), message });
            assert(diagnostics@.take(old(diagnostics)@.len() as int) =~= old(diagnostics)@);
        },
    }
}

// ---------------------------------------------------------------------------
// Pages
// ---------------------------------------------------------------------------

/// The number of the page a destination's zero-based page index points at,
/// when the index is not negative.
pub fn page_number_of_index(index: i32) -> (number: Option<usize>)
    ensures
        index < 0 ==> number is None,
        index >= 0 ==> number == Some((index + 1) as usize),
{
    if index < 0 {
        None
    } else {
        Some(index as usize + 1)
    }
}

/// The font a text object falls back to when none of its glyphs names one:
/// the catalog's first font, or id 0 in an empty catalog.
pub fn first_font_id(fonts: &FontCatalog) -> (id: FontId)
    ensures
        fonts.fonts@.dom().len() == 0 ==> id == 0,
        fonts.fonts@.dom().len() > 0 ==> {
            &&& fonts.fonts@.contains_key(id)
            &&& forall|other: FontId| #[trigger] fonts.fonts@.contains_key(other) ==> id <= other
        },
{
    let mut first: Option<FontId> = None;
    let entries_iter = fonts.fonts.iter();
    let ghost entries = entries_iter.remaining();
    assert(increasing_seq(entries.map_values(|kv: (&FontId, &FontSource)| *kv.0)));
    for entry in it: entries_iter
        invariant
            it.seq() == entries,
            it.index() == 0 ==> first is None,
            it.index() > 0 ==> first == Some(*entries[0].0),
    {
        let (id, _) = entry;
        if first.is_none() {
            first = Some(*id);
        }
    }
    match first {
        Some(id) => {
            proof {
                let keys = entries.map_values(|kv: (&FontId, &FontSource)| *kv.0);
                assert(fonts.fonts@.contains_key(*entries[0].0));
                assert forall|other: FontId| #[trigger] fonts.fonts@.contains_key(other) implies id <= other by {
                    assert(entries.contains((&other, &fonts.fonts@[other])));
                    let p = choose|p: int| 0 <= p < entries.len() && entries[p] == (&other, &fonts.fonts@[other]);
                    assert(keys[p] == other);
                    assert(keys[0] == id);
                    if p > 0 {
                        assert(keys[0].cmp_spec(&keys[p]) is Less);
                    }
                }
            }
            id
        },
        None => 0,
    }
}

/// `after` is `before` with character `unicode` noted as used by `font`:
/// appended to the font's used characters when the glyph has both, the font
/// is in the catalog and the character is not listed yet; otherwise nothing
/// changes.
pub open spec fn records_used_character(
    before: FontCatalog,
    font: Option<FontId>,
    unicode: Option<char>,
    after: FontCatalog,
) -> bool {
    match (font, unicode) {
        (Some(id), Some(c)) => if before.fonts@.contains_key(id) && !before.fonts@[id].used_unicode@.contains(c) {
            &&& after.fonts@ == before.fonts@.insert(
                id,
                FontSource { used_unicode: after.fonts@[id].used_unicode, ..before.fonts@[id] },
            )
            &&& after.fonts@[id].used_unicode@ == before.fonts@[id].used_unicode@.push(c)
        } else {
            after.fonts@ == before.fonts@
        },
        _ => after.fonts@ == before.fonts@,
    }
}

/// Notes that `font` was used for character `unicode`: the character is
/// added to the font's used characters unless it is already there, or the
/// glyph has no known font or no Unicode value.
pub fn record_used_character(fonts: &mut FontCatalog, font: Option<FontId>, unicode: Option<char>)
    ensures
        records_used_character(*old(fonts), font, unicode, *final(fonts)),
{
    let (id, c) = match (font, unicode) {
        (Some(id), Some(c)) => (id, c),
        _ => return ,
    };
    let used = match fonts.fonts.get(&id) {
        Some(source) => contains_char(&source.used_unicode, c),
        None => return ,
    };
    if used {
        return ;
    }
    if let Some(mut source) = fonts.fonts.remove(&id) {
        let ghost before = source;
        source.used_unicode.push(c);
        fonts.fonts.insert(id, source);
        proof {
            assert(fonts.fonts@ =~= old(fonts).fonts@.insert(
                id,
                FontSource { used_unicode: fonts.fonts@[id].used_unicode, ..old(fonts).fonts@[id] },
            ));
        }
    }
}

fn contains_char(chars: &Vec<char>, c: char) -> (found: bool)
    ensures
        found == chars@.contains(c),
{
    for i in 0..chars.len()
        invariant
            forall|j: int| 0 <= j < i ==> chars@[j] != c,
    {
        if chars[i] == c {
            return true;
        }
    }
    false
}

/// Recording characters never lists one twice: a font whose used
/// characters have no repeats keeps none after a character is recorded.
pub proof fn law_used_characters_stay_distinct(
    before: FontCatalog,
    after: FontCatalog,
    font: Option<FontId>,
    unicode: Option<char>,
    id: FontId,
)
    requires
        before.fonts@.contains_key(id),
        before.fonts@[id].used_unicode@.no_duplicates(),
        records_used_character(before, font, unicode, after),
    ensures
        after.fonts@.contains_key(id),
        after.fonts@[id].used_unicode@.no_duplicates(),
{
    if let (Some(f), Some(c)) = (font, unicode) {
        if f == id && before.fonts@.contains_key(f) && !before.fonts@[f].used_unicode@.contains(c) {
            let old_used = before.fonts@[f].used_unicode@;
            let new_used = after.fonts@[f].used_unicode@;
            assert forall|i: int, j: int| 0 <= i < j < new_used.len() implies new_used[i] != new_used[j] by {
                if j == new_used.len() - 1 {
                    assert(new_used[j] == c);
                    assert(new_used[i] == old_used[i]);
                    if new_used[i] == c {
                        assert(old_used.contains(c));
                    }
                }
            }
        }
    }
}

/// The paint orders of a page's text objects that are not native text, in
/// order.
pub open spec fn spec_failed_paint_orders(objects: Seq<TextObjectSummary>) -> Seq<usize>
    decreases objects.len(),
{
    if objects.len() == 0 {
        Seq::empty()
    } else {
        spec_failed_paint_orders(objects.drop_last()) + if objects.last().reconstruction
            is TextFailure {
            seq![objects.last().paint_order]
        } else {
            Seq::empty()
        }
    }
}

/// The failures of a page's text objects that are not native text, in
/// order.
pub open spec fn spec_page_text_failures(page: usize, objects: Seq<TextObjectSummary>) -> Seq<TextIntegrityFailure>
    decreases objects.len(),
{
    if objects.len() == 0 {
        Seq::empty()
    } else {
        spec_page_text_failures(page, objects.drop_last()) + match spec_text_integrity_failure(
            page,
            objects.last().paint_order,
            objects.last().reconstruction,
            objects.last().unicode@,
        ) {
            Some(failure) => seq![failure],
            None => Seq::empty(),
        }
    }
}

/// The failures of the text objects of page `page`, and their paint orders:
/// the objects whose text has to be painted by the page background.
pub fn page_text_failures(page: usize, objects: &Vec<TextObjectSummary>) -> (found: (
    Vec<TextIntegrityFailure>,
    Vec<usize>,
))
    ensures
        found.0@ == spec_page_text_failures(page, objects@),
        found.1@ == spec_failed_paint_orders(objects@),
{
    let mut failures: Vec<TextIntegrityFailure> = Vec::new();
    let mut orders: Vec<usize> = Vec::new();
    for i in 0..objects.len()
        invariant
            failures@ == spec_page_text_failures(page, objects@.take(i as int)),
            orders@ == spec_failed_paint_orders(objects@.take(i as int)),
    {
        proof {
            assert(objects@.take(i + 1).drop_last() =~= objects@.take(i as int));
        }
        let object = &objects[i];
        let ghost before = (failures@, orders@);
        match text_integrity_failure(page, object.paint_order, &object.reconstruction, object.unicode.as_slice()) {
            Some(failure) => {
                failures.push(failure);
                orders.push(object.paint_order);
            },
            None => {},
        }
        assert(failures@ =~= spec_page_text_failures(page, objects@.take(i + 1)));
        assert(orders@ =~= spec_failed_paint_orders(objects@.take(i + 1)));
    }
    assert(objects@.take(objects@.len() as int) =~= objects@);
    (failures, orders)
}

/// A page needs a raster background when some of its text is not native
/// text or when it has graphics.
pub fn needs_raster_background<R>(failed_text_paint_orders: &[usize], graphics: &Vec<GraphicsObject<R>>) -> (needed: bool)
    ensures
        needed == (failed_text_paint_orders@.len() > 0 || graphics@.len() > 0),
{
    failed_text_paint_orders.len() > 0 || graphics.len() > 0
}

/// While the page background is rendered, the native text is hidden: a
/// text object is hidden (and shown again afterwards) unless its paint order
/// is among those of the failed text, which the background has to show.
pub fn hides_for_background(is_text: bool, paint_order: usize, failed_text_paint_orders: &[usize]) -> (hide: bool)
    ensures
        hide == (is_text && !failed_text_paint_orders@.contains(paint_order)),
{
    if !is_text {
        return false;
    }
    for i in 0..failed_text_paint_orders.len()
        invariant
            forall|j: int| 0 <= j < i ==> failed_text_paint_orders@[j] != paint_order,
    {
        if failed_text_paint_orders[i] == paint_order {
            return false;
        }
    }
    true
}

} // verus!
