//! The output document: its stylesheet, its web-font assets and the errors
//! that stop it from being written.

use vstd::prelude::*;
use vstd::std_specs::btree::spec_btree_map_iter;
use vstd::std_specs::iter::IteratorSpec;

use super::html::{page_background_name, spec_page_background_name, spec_web_font, web_font};
use super::markup::{bool_text, decimal, io_error_text, joined_text, push_bool, push_decimal, starts_with};
use super::page::{render_index, spec_index_html, PageMarkup};
use crate::model::document::spec_discovered_failures;
use crate::model::{
    discovered_text_failures, DocumentDiagnostic, FontCatalog, FontId, FontSource, OutlineItem,
    PageTextSummary,
    TextFailureReason, TextIntegrityFailure,
};

verus! {

/// The fixed part of the document stylesheet.
pub const DOCUMENT_CSS: &'static str = ":root { color-scheme: light; }
* { box-sizing: border-box; }
html, body { margin: 0; padding: 0; background: #666; }
body { padding: 24px; }
.document { display: flex; flex-direction: column; align-items: center; gap: 24px; }
.page { position: relative; overflow: hidden; background: white; box-shadow: 0 2px 12px #2228; }
.page-content { position: absolute; inset: 0; overflow: hidden; transform-origin: 0 0; }
.text-run { position: absolute; white-space: pre; transform-origin: left bottom; }
.text-offset { display: inline-block; width: 0; height: 0; }
.page-background { position: absolute; inset: 0; width: 100%; height: 100%; }
.page-link { position: absolute; z-index: 2; }
@media print {
  .page { break-after: page; break-inside: avoid; box-shadow: none; }
}
";

/// The files of a rendered document: `index.html`, `document.css` and the
/// named assets.
#[derive(Debug, Clone, PartialEq, Eq)]
pub struct HtmlDocument {
    pub index_html: String,
    pub document_css: String,
    pub assets: Vec<(String, Vec<u8>)>,
}

/// The `@font-face` rule that makes a web font available under its family
/// name.
pub open spec fn font_face_rule(family_name: Seq<char>, asset_name: Seq<char>) -> Seq<char> {
    "@font-face{font-family:'"@ + family_name + "';src:url('assets/"@ + asset_name + "');}\n"@
}

/// The `@font-face` rules of the web fonts of `entries`, in order.
pub open spec fn font_face_css(entries: Seq<(&FontId, &FontSource)>, diagnostics: Seq<DocumentDiagnostic>) -> Seq<
    char,
>
    decreases entries.len(),
{
    if entries.len() == 0 {
        Seq::empty()
    } else {
        font_face_css(entries.drop_last(), diagnostics) + match spec_web_font(
            *entries.last().0,
            *entries.last().1,
            diagnostics,
        ) {
            Some(w) => font_face_rule(w.0, w.1),
            None => Seq::empty(),
        }
    }
}

/// The web-font assets (file name and bytes) of `entries`, in order.
pub open spec fn font_assets(entries: Seq<(&FontId, &FontSource)>, diagnostics: Seq<DocumentDiagnostic>) -> Seq<
    (Seq<char>, Seq<u8>),
>
    decreases entries.len(),
{
    if entries.len() == 0 {
        Seq::empty()
    } else {
        font_assets(entries.drop_last(), diagnostics) + match spec_web_font(
            *entries.last().0,
            *entries.last().1,
            diagnostics,
        ) {
            Some(w) => seq![(w.1, w.2)],
            None => Seq::empty(),
        }
    }
}

/// The font part of the stylesheet and the web-font assets of a catalog. The
/// fonts are taken in increasing id order, as the catalog's map yields them.
pub fn font_faces(fonts: &FontCatalog, diagnostics: &Vec<DocumentDiagnostic>) -> (faces: (
    String,
    Vec<(String, Vec<u8>)>,
))
    ensures
        faces.0@ == font_face_css(spec_btree_map_iter(&fonts.fonts).remaining(), diagnostics@),
        faces.1@.map_values(|a: (String, Vec<u8>)| (a.0@, a.1@)) == font_assets(
            spec_btree_map_iter(&fonts.fonts).remaining(),
            diagnostics@,
        ),
{
    let mut css = String::new();
    let mut assets: Vec<(String, Vec<u8>)> = Vec::new();
    let entries_iter = fonts.fonts.iter();
    let ghost entries = entries_iter.remaining();
    for entry in it: entries_iter
        invariant
            it.seq() == entries,
            entries == spec_btree_map_iter(&fonts.fonts).remaining(),
            css@ == font_face_css(entries.take(it.index()), diagnostics@),
            assets@.map_values(|a: (String, Vec<u8>)| (a.0@, a.1@)) == font_assets(
                entries.take(it.index()),
                diagnostics@,
            ),
    {
        proof {
            assert(entries.take(it.index() + 1).drop_last() =~= entries.take(it.index()));
            assert(entries.take(it.index() + 1).last() == entries[it.index()]);
        }
        let (id, font) = entry;
        let ghost css_before = css@;
        let ghost assets_before = assets@;
        match web_font(*id, font, diagnostics) {
            Some((family, asset, data)) => {
                css.append("@font-face{font-family:'");
                css.append(family.as_str());
                css.append("';src:url('assets/");
                css.append(asset.as_str());
                css.append("');}\n");
                let ghost asset_view = (asset@, data@);
                assets.push((asset, data));
                proof {
                    assert(css@ =~= css_before + font_face_rule(family@, asset_view.0));
                    assert(assets@.map_values(|a: (String, Vec<u8>)| (a.0@, a.1@)) =~= assets_before.map_values(
                        |a: (String, Vec<u8>)| (a.0@, a.1@),
                    ) + seq![asset_view]);
                }
            },
            None => {
                proof {
                    assert(css@ =~= css_before + Seq::<char>::empty());
                    assert(assets@.map_values(|a: (String, Vec<u8>)| (a.0@, a.1@)) =~= assets_before.map_values(
                        |a: (String, Vec<u8>)| (a.0@, a.1@),
                    ) + Seq::<(Seq<char>, Seq<u8>)>::empty());
                }
            },
        }
    }
    assert(entries.take(entries.len() as int) =~= entries);
    (css, assets)
}

/// The stylesheet of a document: its `@font-face` rules, then the fixed
/// rules.
pub fn document_css(font_css: &str) -> (css: String)
    ensures
        css@ == font_css@ + DOCUMENT_CSS@,
{
    let mut css = String::new();
    css.append(font_css);
    css.append(DOCUMENT_CSS);
    assert(css@ =~= font_css@ + DOCUMENT_CSS@);
    css
}

// ---------------------------------------------------------------------------
// The whole document
// ---------------------------------------------------------------------------

/// A document ready to be written: its outline, its pages and its fonts,
/// with what the integrity check reads of its text.
#[derive(Debug, Clone)]
pub struct DocumentMarkup {
    pub outlines: Vec<OutlineItem>,
    pub pages: Vec<PageMarkup>,
    pub fonts: FontCatalog,
    /// What went wrong while the document was read and its fonts prepared;
    /// a diagnostic about a font records that its font job failed.
    pub diagnostics: Vec<DocumentDiagnostic>,
    /// What the text integrity check reads of the text objects of each
    /// page, in page order.
    pub text: Vec<PageTextSummary>,
}

/// Writes documents as HTML.
pub struct HtmlWriter;

/// The assets as file names and bytes.
pub open spec fn asset_views(assets: Seq<(String, Vec<u8>)>) -> Seq<(Seq<char>, Seq<u8>)> {
    assets.map_values(|a: (String, Vec<u8>)| (a.0@, a.1@))
}

/// The raster backgrounds of `pages`, in page order, each named after its
/// page.
pub open spec fn background_assets(pages: Seq<PageMarkup>) -> Seq<(Seq<char>, Seq<u8>)>
    decreases pages.len(),
{
    if pages.len() == 0 {
        Seq::empty()
    } else {
        background_assets(pages.drop_last()) + match pages.last().background {
            Some(background) => seq![
                (spec_page_background_name(pages.last().number), background.png@),
            ],
            None => Seq::empty(),
        }
    }
}

/// `rendered` is the rendering of `document`, whose catalog yields the font
/// `entries`: its index page, its stylesheet with the `@font-face` rules of
/// the web fonts, and as assets the page backgrounds followed by the web
/// fonts.
pub open spec fn is_rendering_of(
    rendered: HtmlDocument,
    document: DocumentMarkup,
    entries: Seq<(&FontId, &FontSource)>,
) -> bool {
    &&& rendered.index_html@ == spec_index_html(
        document.outlines@,
        document.pages@,
        document.fonts,
        document.diagnostics@,
    )
    &&& rendered.document_css@ == font_face_css(entries, document.diagnostics@) + DOCUMENT_CSS@
    &&& asset_views(rendered.assets@) == background_assets(document.pages@) + font_assets(
        entries,
        document.diagnostics@,
    )
}

/// The background assets of the pages of `first` followed by those of
/// `second` are those of `first` followed by those of `second`.
pub proof fn law_background_assets_concatenate(first: Seq<PageMarkup>, second: Seq<PageMarkup>)
    ensures
        background_assets(first + second) == background_assets(first) + background_assets(second),
    decreases second.len(),
{
    if second.len() == 0 {
        assert(first + second =~= first);
        assert(background_assets(first) + Seq::<(Seq<char>, Seq<u8>)>::empty() =~= background_assets(first));
    } else {
        law_background_assets_concatenate(first, second.drop_last());
        assert((first + second).drop_last() =~= first + second.drop_last());
        assert((first + second).last() == second.last());
        assert(background_assets(first + second) =~= background_assets(first) + background_assets(second));
    }
}

/// The number of pages among `pages` that have a raster background.
pub open spec fn pages_with_background(pages: Seq<PageMarkup>) -> nat
    decreases pages.len(),
{
    if pages.len() == 0 {
        0
    } else {
        pages_with_background(pages.drop_last()) + if pages.last().background is Some {
            1nat
        } else {
            0nat
        }
    }
}

/// Every page with a raster background gives one asset, named
/// `page-<number>.png` and holding the background's PNG bytes, and there is
/// no other background asset.
pub proof fn law_every_background_is_an_asset(pages: Seq<PageMarkup>, i: int)
    requires
        0 <= i < pages.len(),
    ensures
        background_assets(pages).len() == pages_with_background(pages),
        pages[i].background matches Some(background) ==> background_assets(pages).contains(
            ("page-"@ + decimal(pages[i].number as nat) + ".png"@, background.png@),
        ),
    decreases pages.len(),
{
    let before = background_assets(pages.drop_last());
    let all = background_assets(pages);
    if pages.len() > 1 {
        let j = if i < pages.len() - 1 { i } else { 0 };
        law_every_background_is_an_asset(pages.drop_last(), j);
    } else {
        assert(pages.drop_last().len() == 0);
        assert(before.len() == 0);
        assert(pages_with_background(pages.drop_last()) == 0);
    }
    assert(all == before + match pages.last().background {
        Some(background) => seq![(spec_page_background_name(pages.last().number), background.png@)],
        None => Seq::<(Seq<char>, Seq<u8>)>::empty(),
    });
    if let Some(background) = pages[i].background {
        let asset = ("page-"@ + decimal(pages[i].number as nat) + ".png"@, background.png@);
        if i < pages.len() - 1 {
            law_every_background_is_an_asset(pages.drop_last(), i);
            assert(pages.drop_last()[i] == pages[i]);
            let w = choose|w: int| 0 <= w < before.len() && before[w] == asset;
            assert(all[w] == before[w]);
        } else {
            assert(all[before.len() as int] == asset);
        }
    }
}

fn background_asset_list(pages: &Vec<PageMarkup>) -> (assets: Vec<(String, Vec<u8>)>)
    ensures
        asset_views(assets@) == background_assets(pages@),
{
    let mut assets: Vec<(String, Vec<u8>)> = Vec::new();
    for i in 0..pages.len()
        invariant
            asset_views(assets@) == background_assets(pages@.take(i as int)),
    {
        proof {
            assert(pages@.take(i + 1).drop_last() =~= pages@.take(i as int));
        }
        let ghost before = asset_views(assets@);
        let page = &pages[i];
        match &page.background {
            Some(background) => {
                let png = background.png.clone();
                assert(png@ =~= background.png@);
                assets.push((page_background_name(page.number), png));
                assert(asset_views(assets@) =~= before + seq![
                    (spec_page_background_name(page.number), background.png@),
                ]);
            },
            None => {
                assert(asset_views(assets@) =~= before + Seq::<(Seq<char>, Seq<u8>)>::empty());
            },
        }
        assert(asset_views(assets@) == background_assets(pages@.take(i + 1)));
    }
    assert(pages@.take(pages@.len() as int) =~= pages@);
    assets
}

impl HtmlWriter {
    /// The files of `document`.
    pub fn render(document: &DocumentMarkup) -> (rendered: HtmlDocument)
        ensures
            is_rendering_of(
                rendered,
                *document,
                spec_btree_map_iter(&document.fonts.fonts).remaining(),
            ),
    {
        let index_html = render_index(
            &document.outlines,
            &document.pages,
            &document.fonts,
            &document.diagnostics,
        );
        let mut assets = background_asset_list(&document.pages);
        let (font_css, mut font_files) = font_faces(&document.fonts, &document.diagnostics);
        let ghost backgrounds = assets@;
        let ghost fonts = font_files@;
        assets.append(&mut font_files);
        assert(asset_views(assets@) =~= asset_views(backgrounds) + asset_views(fonts));
        HtmlDocument { index_html, document_css: document_css(font_css.as_str()), assets }
    }

    /// The files of `document`, unless text of its pages that should have
    /// been native text failed: then the failures, and nothing is rendered.
    pub fn render_checked(document: &DocumentMarkup) -> (result: Result<
        HtmlDocument,
        OutputError,
    >)
        ensures
            match result {
                Ok(rendered) => spec_discovered_failures(
                    document.text@,
                    document.fonts,
                    document.diagnostics@,
                ).len() == 0
                    && is_rendering_of(
                    rendered,
                    *document,
                    spec_btree_map_iter(&document.fonts.fonts).remaining(),
                ),
                Err(OutputError::TextIntegrity(error)) => error.failures@ == spec_discovered_failures(
                    document.text@,
                    document.fonts,
                    document.diagnostics@,
                ) && error.failures@.len() > 0,
                Err(_) => false,
            },
    {
        let failures = discovered_text_failures(&document.text, &document.fonts, &document.diagnostics);
        if failures.len() > 0 {
            return Err(OutputError::TextIntegrity(TextIntegrityError { failures }));
        }
        Ok(Self::render(document))
    }
}

// ---------------------------------------------------------------------------
// Errors
// ---------------------------------------------------------------------------

/// Native text that could not be converted stops the output.
#[derive(Debug, Clone, PartialEq, Eq)]
pub struct TextIntegrityError {
    pub failures: Vec<TextIntegrityFailure>,
}

/// Why writing the output document failed.
#[derive(Debug)]
pub enum OutputError {
    TextIntegrity(TextIntegrityError),
    CreateDirectory(std::io::Error),
    WriteFile(std::io::Error),
}

impl OutputError {
    /// The error message. The messages of failures that come from the
    /// operating system end with text that is not modelled here.
    pub fn message(&self) -> (text: String)
        ensures
            match *self {
                OutputError::TextIntegrity(error) => text@ == error.spec_message(),
                OutputError::CreateDirectory(_) => starts_with(text@, "could not create output directory: "@),
                OutputError::WriteFile(_) => starts_with(text@, "could not write output file: "@),
            },
    {
        match self {
            OutputError::TextIntegrity(error) => error.message(),
            OutputError::CreateDirectory(error) => joined_text(
                "could not create output directory: ",
                io_error_text(error).as_str(),
            ),
            OutputError::WriteFile(error) => joined_text("could not write output file: ", io_error_text(error).as_str()),
        }
    }
}

/// `std::io::Error`, carried through the output and font-job errors
/// without being looked into.
#[verifier::external_type_specification]
#[verifier::external_body]
pub struct ExIoError(std::io::Error);

/// The name of a failure reason, as `{:?}` prints it.
pub open spec fn reason_name(reason: TextFailureReason) -> Seq<char> {
    match reason {
        TextFailureReason::MissingUnicode => "MissingUnicode"@,
        TextFailureReason::UnprovenFontMapping => "UnprovenFontMapping"@,
        TextFailureReason::FontProcessingFailed => "FontProcessingFailed"@,
        TextFailureReason::MissingGeometry => "MissingGeometry"@,
        TextFailureReason::UnsupportedRenderMode => "UnsupportedRenderMode"@,
        TextFailureReason::ExtractionError => "ExtractionError"@,
        TextFailureReason::CoveredByOpaquePaint => "CoveredByOpaquePaint"@,
        TextFailureReason::AmbiguousVisibility => "AmbiguousVisibility"@,
    }
}

pub fn reason_text(reason: &TextFailureReason) -> (name: &'static str)
    ensures
        name@ == reason_name(*reason),
{
    match reason {
        TextFailureReason::MissingUnicode => "MissingUnicode",
        TextFailureReason::UnprovenFontMapping => "UnprovenFontMapping",
        TextFailureReason::FontProcessingFailed => "FontProcessingFailed",
        TextFailureReason::MissingGeometry => "MissingGeometry",
        TextFailureReason::UnsupportedRenderMode => "UnsupportedRenderMode",
        TextFailureReason::ExtractionError => "ExtractionError",
        TextFailureReason::CoveredByOpaquePaint => "CoveredByOpaquePaint",
        TextFailureReason::AmbiguousVisibility => "AmbiguousVisibility",
    }
}

/// How one failure is reported.
pub open spec fn failure_text(failure: TextIntegrityFailure) -> Seq<char> {
    "; page "@ + decimal(failure.page as nat) + " object "@ + decimal(failure.paint_order as nat)
        + ": "@ + reason_name(failure.reason) + " (semantic text available: "@ + bool_text(
        failure.semantic_text_available,
    ) + ")"@
}

/// The reports of `failures`, in order.
pub open spec fn failures_text(failures: Seq<TextIntegrityFailure>) -> Seq<char>
    decreases failures.len(),
{
    if failures.len() == 0 {
        Seq::empty()
    } else {
        failures_text(failures.drop_last()) + failure_text(failures.last())
    }
}

fn push_failure(text: &mut String, failure: &TextIntegrityFailure)
    ensures
        final(text)@ == old(text)@ + failure_text(*failure),
{
    let ghost before = text@;
    text.append("; page ");
    push_decimal(text, failure.page);
    text.append(" object ");
    push_decimal(text, failure.paint_order);
    text.append(": ");
    text.append(reason_text(&failure.reason));
    text.append(" (semantic text available: ");
    push_bool(text, failure.semantic_text_available);
    text.append(")");
    assert(text@ =~= before + failure_text(*failure));
}

impl TextIntegrityError {
    /// The error message: a summary, then each failure with its page, paint
    /// order, reason and whether its text is known.
    pub open spec fn spec_message(&self) -> Seq<char> {
        "native text conversion failed"@ + failures_text(self.failures@)
    }

    pub fn message(&self) -> (text: String)
        ensures
            text@ == self.spec_message(),
    {
        let mut text = String::new();
        text.append("native text conversion failed");
        let mut index: usize = 0;
        while index < self.failures.len()
            invariant
                index <= self.failures@.len(),
                text@ == "native text conversion failed"@ + failures_text(
                    self.failures@.take(index as int),
                ),
            decreases self.failures@.len() - index,
        {
            let ghost before = text@;
            push_failure(&mut text, &self.failures[index]);
            proof {
                assert(self.failures@.take(index + 1).drop_last() =~= self.failures@.take(
                    index as int,
                ));
            }
            index = index + 1;
        }
        assert(self.failures@.take(self.failures@.len() as int) =~= self.failures@);
        text
    }
}

} // verus!
