//! The markup of the document's pages, text runs and links. Coordinates
//! reach these functions already written as CSS numbers.

use vstd::prelude::*;

use super::html::{
    css_color, escape_char, link_href, link_target_kind, render_mode_style,
    render_outline_navigation, run_font_family, spec_css_color, spec_link_href,
    spec_link_target_kind, spec_outline_navigation, spec_render_mode_style, spec_run_font_family,
};
use super::markup::{decimal, push_decimal};
use crate::model::{
    Color, DocumentDiagnostic, FontCatalog, FontId, LinkTarget, OutlineItem, RasterBackground,
    TextRenderMode,
};

verus! {

// ---------------------------------------------------------------------------
// The index document
// ---------------------------------------------------------------------------

/// Everything of `index.html` before its first page: the head, the outline
/// navigation and the opening of the page container.
pub open spec fn spec_index_start(outlines: Seq<OutlineItem>) -> Seq<char> {
    "<!doctype html><html lang=\"en\"><head><meta charset=\"utf-8\"><title>PDF</title><link rel=\"stylesheet\" href=\"document.css\"></head><body>"@
        + spec_outline_navigation(outlines) + "<main id=\"page-container\" class=\"document\">"@
}

pub open spec fn spec_index_end() -> Seq<char> {
    "</main></body></html>"@
}

pub fn push_index_start(html: &mut String, outlines: &Vec<OutlineItem>)
    ensures
        final(html)@ == old(html)@ + spec_index_start(outlines@),
{
    let ghost start = html@;
    html.append(
        "<!doctype html><html lang=\"en\"><head><meta charset=\"utf-8\"><title>PDF</title><link rel=\"stylesheet\" href=\"document.css\"></head><body>",
    );
    let nav = render_outline_navigation(outlines);
    html.append(nav.as_str());
    html.append("<main id=\"page-container\" class=\"document\">");
    assert(html@ =~= start + spec_index_start(outlines@));
}

pub fn push_index_end(html: &mut String)
    ensures
        final(html)@ == old(html)@ + spec_index_end(),
{
    html.append("</main></body></html>");
}

// ---------------------------------------------------------------------------
// Pages
// ---------------------------------------------------------------------------

/// The opening of page `number`'s section, sized `width` by `height` CSS
/// pixels, with its raster background when it has one.
pub open spec fn spec_page_start(number: usize, width: Seq<char>, height: Seq<char>, has_background: bool) -> Seq<char> {
    "<section id=\"page-"@ + decimal(number as nat) + "\" class=\"page\" data-page-no=\""@ + decimal(
        number as nat,
    ) + "\" aria-label=\"Page "@ + decimal(number as nat) + "\" style=\"width:"@ + width
        + "px;height:"@ + height + "px\"><div class=\"page-content\">"@ + if has_background {
        "<img class=\"page-background\" alt=\"\" src=\"assets/page-"@ + decimal(number as nat)
            + ".png\">"@
    } else {
        Seq::empty()
    }
}

pub open spec fn spec_page_end() -> Seq<char> {
    "</div></section>"@
}

pub fn push_page_start(html: &mut String, number: usize, width: &str, height: &str, has_background: bool)
    ensures
        final(html)@ == old(html)@ + spec_page_start(number, width@, height@, has_background),
{
    let ghost start = html@;
    html.append("<section id=\"page-");
    push_decimal(html, number);
    html.append("\" class=\"page\" data-page-no=\"");
    push_decimal(html, number);
    html.append("\" aria-label=\"Page ");
    push_decimal(html, number);
    html.append("\" style=\"width:");
    html.append(width);
    html.append("px;height:");
    html.append(height);
    html.append("px\"><div class=\"page-content\">");
    let ghost opened = html@;
    if has_background {
        html.append("<img class=\"page-background\" alt=\"\" src=\"assets/page-");
        push_decimal(html, number);
        html.append(".png\">");
    }
    assert(html@ =~= start + spec_page_start(number, width@, height@, has_background));
}

pub fn push_page_end(html: &mut String)
    ensures
        final(html)@ == old(html)@ + spec_page_end(),
{
    html.append("</div></section>");
}

// ---------------------------------------------------------------------------
// Links
// ---------------------------------------------------------------------------

/// The transparent anchor of a link, placed at `left`/`top` and sized
/// `width` by `height` CSS pixels.
pub open spec fn spec_link_markup(
    target: LinkTarget,
    left: Seq<char>,
    top: Seq<char>,
    width: Seq<char>,
    height: Seq<char>,
) -> Seq<char> {
    "<a class=\"page-link\" aria-label=\"PDF link\" data-target=\""@ + spec_link_target_kind(target)
        + "\""@ + spec_link_href(target) + " style=\"left:"@ + left + "px;top:"@ + top + "px;width:"@
        + width + "px;height:"@ + height + "px\"></a>"@
}

pub fn push_link_markup(
    html: &mut String,
    target: &LinkTarget,
    left: &str,
    top: &str,
    width: &str,
    height: &str,
)
    ensures
        final(html)@ == old(html)@ + spec_link_markup(*target, left@, top@, width@, height@),
{
    let ghost start = html@;
    html.append("<a class=\"page-link\" aria-label=\"PDF link\" data-target=\"");
    html.append(link_target_kind(target));
    html.append("\"");
    let href = link_href(target);
    html.append(href.as_str());
    html.append(" style=\"left:");
    html.append(left);
    html.append("px;top:");
    html.append(top);
    html.append("px;width:");
    html.append(width);
    html.append("px;height:");
    html.append(height);
    html.append("px\"></a>");
    assert(html@ =~= start + spec_link_markup(*target, left@, top@, width@, height@));
}

// ---------------------------------------------------------------------------
// Text runs
// ---------------------------------------------------------------------------

/// A horizontal adjustment inside a run, before the character at
/// `character_index`, by `amount` CSS pixels.
#[derive(Debug, Clone, PartialEq, Eq)]
pub struct OffsetMarkup {
    pub character_index: usize,
    pub amount: String,
}

/// The empty span that shifts the following character by `amount`.
pub open spec fn offset_span(amount: Seq<char>) -> Seq<char> {
    "<span class=\"text-offset\" aria-hidden=\"true\" style=\"margin-left:"@ + amount
        + "px\"></span>"@
}

/// The spans of the offsets from `next` on that stand before character
/// `index`, and the first offset after them.
pub open spec fn offsets_before(offsets: Seq<OffsetMarkup>, next: int, index: int) -> (Seq<char>, int)
    decreases offsets.len() - next,
{
    if 0 <= next < offsets.len() && offsets[next].character_index == index {
        let rest = offsets_before(offsets, next + 1, index);
        (offset_span(offsets[next].amount@) + rest.0, rest.1)
    } else {
        (Seq::empty(), next)
    }
}

/// The markup of characters `index ..` of a run's text: each character
/// escaped, preceded by the spans of the offsets placed before it. Offsets
/// are taken in their order, and only while they name the current character.
pub open spec fn run_text_from(text: Seq<char>, offsets: Seq<OffsetMarkup>, index: int, next: int) -> Seq<char>
    decreases text.len() - index,
{
    if index < 0 || index >= text.len() {
        Seq::empty()
    } else {
        let before = offsets_before(offsets, next, index);
        before.0 + escape_char(text[index]) + run_text_from(text, offsets, index + 1, before.1)
    }
}

pub open spec fn spec_run_text(text: Seq<char>, offsets: Seq<OffsetMarkup>) -> Seq<char> {
    run_text_from(text, offsets, 0, 0)
}

proof fn lemma_offsets_before_advances(offsets: Seq<OffsetMarkup>, next: int, index: int)
    requires
        0 <= next,
    ensures
        next <= offsets_before(offsets, next, index).1,
    decreases offsets.len() - next,
{
    if 0 <= next < offsets.len() && offsets[next].character_index == index {
        lemma_offsets_before_advances(offsets, next + 1, index);
    }
}

fn push_offset_span(html: &mut String, amount: &str)
    ensures
        final(html)@ == old(html)@ + offset_span(amount@),
{
    let ghost start = html@;
    html.append("<span class=\"text-offset\" aria-hidden=\"true\" style=\"margin-left:");
    html.append(amount);
    html.append("px\"></span>");
    assert(html@ =~= start + offset_span(amount@));
}

/// The markup of a run's text, with its offsets.
pub fn run_text_markup(text: &str, offsets: &[OffsetMarkup]) -> (markup: String)
    ensures
        markup@ == spec_run_text(text@, offsets@),
{
    let length = text.unicode_len();
    let mut markup = String::new();
    let mut next: usize = 0;
    let mut position: usize = 0;
    for c in it: text.chars()
        invariant
            it.seq() == text@,
            length == text@.len(),
            position == it.index(),
            next <= offsets@.len(),
            markup@ + run_text_from(text@, offsets@, position as int, next as int) == spec_run_text(
                text@,
                offsets@,
            ),
    {
        let ghost outer = markup@;
        let ghost before = offsets_before(offsets@, next as int, position as int);
        assert(text@[position as int] == c);
        assert(run_text_from(text@, offsets@, position as int, next as int) == before.0 + escape_char(c)
            + run_text_from(text@, offsets@, position + 1, before.1));
        while next < offsets.len() && offsets[next].character_index == position
            invariant
                next <= offsets@.len(),
                markup@ + offsets_before(offsets@, next as int, position as int).0 == outer + before.0,
                offsets_before(offsets@, next as int, position as int).1 == before.1,
            decreases offsets@.len() - next,
        {
            let ghost step = markup@;
            push_offset_span(&mut markup, offsets[next].amount.as_str());
            proof {
                let rest = offsets_before(offsets@, next + 1, position as int);
                assert(offsets_before(offsets@, next as int, position as int).0 == offset_span(
                    offsets@[next as int].amount@,
                ) + rest.0);
                assert(markup@ + rest.0 =~= step + (offset_span(offsets@[next as int].amount@)
                    + rest.0));
            }
            next = next + 1;
        }
        assert(markup@ =~= outer + before.0);
        super::html::push_escaped(&mut markup, c);
        proof {
            assert(markup@ + run_text_from(text@, offsets@, position + 1, next as int) =~= outer + (
            before.0 + escape_char(c) + run_text_from(text@, offsets@, position + 1, before.1)));
        }
        position = position + 1;
    }
    assert(run_text_from(text@, offsets@, text@.len() as int, next as int) =~= Seq::<char>::empty());
    assert(markup@ =~= spec_run_text(text@, offsets@));
    markup
}

/// Where a run stands, with its coordinates written as CSS numbers: by the
/// top left corner of its bounds, or by its baseline origin with a CSS
/// matrix (already flipped to CSS orientation) for rotated or scaled text.
#[derive(Debug, Clone, PartialEq, Eq)]
pub enum PlacementMarkup {
    Bounded { left: String, top: String },
    Transformed { left: String, bottom: String, a: String, b: String, c: String, d: String },
}

pub open spec fn spec_placement(placement: PlacementMarkup) -> Seq<char> {
    match placement {
        PlacementMarkup::Bounded { left, top } => "left:"@ + left@ + "px;top:"@ + top@ + "px;"@,
        PlacementMarkup::Transformed { left, bottom, a, b, c, d } => "left:"@ + left@ + "px;bottom:"@
            + bottom@ + "px;transform:matrix("@ + a@ + ","@ + b@ + ","@ + c@ + ","@ + d@ + ",0,0);"@,
    }
}

fn push_placement(html: &mut String, placement: &PlacementMarkup)
    ensures
        final(html)@ == old(html)@ + spec_placement(*placement),
{
    let ghost start = html@;
    match placement {
        PlacementMarkup::Bounded { left, top } => {
            html.append("left:");
            html.append(left.as_str());
            html.append("px;top:");
            html.append(top.as_str());
            html.append("px;");
        },
        PlacementMarkup::Transformed { left, bottom, a, b, c, d } => {
            html.append("left:");
            html.append(left.as_str());
            html.append("px;bottom:");
            html.append(bottom.as_str());
            html.append("px;transform:matrix(");
            html.append(a.as_str());
            html.append(",");
            html.append(b.as_str());
            html.append(",");
            html.append(c.as_str());
            html.append(",");
            html.append(d.as_str());
            html.append(",0,0);");
        },
    }
    assert(html@ =~= start + spec_placement(*placement));
}

/// What a text run's `<span>` is made of, with its numbers already written
/// as CSS numbers.
#[derive(Debug, Clone)]
pub struct RunMarkup {
    pub source: usize,
    pub placement: PlacementMarkup,
    /// The catalog font the run is set in, if any.
    pub font: Option<FontId>,
    pub font_size: String,
    pub fill: Option<Color>,
    /// The letter spacing, when it is not negligible.
    pub letter_spacing: Option<String>,
    pub render_mode: TextRenderMode,
    pub stroke: Option<Color>,
    pub text: String,
    pub offsets: Vec<OffsetMarkup>,
}

/// The fill colour of a run: black when it has none.
pub open spec fn run_fill(run: RunMarkup) -> Color {
    match run.fill {
        Some(color) => color,
        None => Color { red: 0, green: 0, blue: 0, alpha: 255 },
    }
}

/// The font part of a run's style: its CSS font family and size.
pub open spec fn spec_run_font(run: RunMarkup, family: Seq<char>) -> Seq<char> {
    "font-family:"@ + family + ";font-size:"@ + run.font_size@ + "px;"@
}

/// The paint part of a run's style: fill colour, letter spacing and stroke.
pub open spec fn spec_run_paint(run: RunMarkup) -> Seq<char> {
    let spacing = match run.letter_spacing {
        Some(amount) => "letter-spacing:"@ + amount@ + "px;"@,
        None => Seq::empty(),
    };
    "color:"@ + spec_css_color(run_fill(run)) + ";"@ + spacing + spec_render_mode_style(
        run.render_mode,
        run.stroke,
    )
}

/// The `style` attribute of a run's `<span>`: its position, font family and
/// size, fill colour, letter spacing and stroke.
pub open spec fn spec_run_style(run: RunMarkup, family: Seq<char>) -> Seq<char> {
    spec_placement(run.placement) + spec_run_font(run, family) + spec_run_paint(run)
}

/// The `<span>` of a text run set in the CSS font `family`, holding its
/// escaped text and offsets.
pub open spec fn spec_run_markup(run: RunMarkup, family: Seq<char>) -> Seq<char> {
    "<span class=\"text-run\" data-source=\""@ + decimal(run.source as nat) + "\" style=\""@
        + spec_run_style(run, family) + "\">"@ + spec_run_text(run.text@, run.offsets@) + "</span>"@
}

/// What a run adds to its page: its `<span>` in the family its font gives,
/// or nothing while its font has no usable web font.
pub open spec fn spec_run_html(run: RunMarkup, fonts: FontCatalog, diagnostics: Seq<DocumentDiagnostic>) -> Seq<
    char,
> {
    match spec_run_font_family(run.font, fonts, diagnostics) {
        Some(family) => spec_run_markup(run, family),
        None => Seq::empty(),
    }
}

fn push_run_font(html: &mut String, run: &RunMarkup, family: &str)
    ensures
        final(html)@ == old(html)@ + spec_run_font(*run, family@),
{
    let ghost start = html@;
    html.append("font-family:");
    html.append(family);
    html.append(";font-size:");
    html.append(run.font_size.as_str());
    html.append("px;");
    assert(html@ =~= start + spec_run_font(*run, family@));
}

fn push_run_paint(html: &mut String, run: &RunMarkup)
    ensures
        final(html)@ == old(html)@ + spec_run_paint(*run),
{
    let ghost start = html@;
    let fill = match run.fill {
        Some(color) => color,
        None => Color::black(),
    };
    html.append("color:");
    let color = css_color(fill);
    html.append(color.as_str());
    html.append(";");
    let ghost colored = html@;
    if let Some(amount) = &run.letter_spacing {
        html.append("letter-spacing:");
        html.append(amount.as_str());
        html.append("px;");
    }
    let ghost spaced = html@;
    let style = render_mode_style(run.render_mode, run.stroke);
    html.append(style.as_str());
    assert(html@ =~= start + spec_run_paint(*run));
}

fn push_run_style(html: &mut String, run: &RunMarkup, family: &str)
    ensures
        final(html)@ == old(html)@ + spec_run_style(*run, family@),
{
    let ghost start = html@;
    push_placement(html, &run.placement);
    push_run_font(html, run, family);
    push_run_paint(html, run);
    assert(html@ =~= start + spec_run_style(*run, family@));
}

/// Appends the `<span>` of `run`, set in the CSS font `family`.
pub fn push_run_markup(html: &mut String, run: &RunMarkup, family: &str)
    ensures
        final(html)@ == old(html)@ + spec_run_markup(*run, family@),
{
    let ghost start = html@;
    html.append("<span class=\"text-run\" data-source=\"");
    push_decimal(html, run.source);
    html.append("\" style=\"");
    push_run_style(html, run, family);
    html.append("\">");
    let text = run_text_markup(run.text.as_str(), run.offsets.as_slice());
    html.append(text.as_str());
    html.append("</span>");
    assert(html@ =~= start + spec_run_markup(*run, family@));
}

/// Appends what `run` adds to its page: nothing while its font is an
/// embedded font without a web font.
pub fn render_run(html: &mut String, run: &RunMarkup, fonts: &FontCatalog, diagnostics: &Vec<DocumentDiagnostic>)
    ensures
        final(html)@ == old(html)@ + spec_run_html(*run, *fonts, diagnostics@),
{
    match run_font_family(run.font, fonts, diagnostics) {
        Some(family) => push_run_markup(html, run, family.as_str()),
        None => {
            assert(html@ =~= old(html)@ + Seq::<char>::empty());
        },
    }
}

// ---------------------------------------------------------------------------
// Whole pages and the index document
// ---------------------------------------------------------------------------

/// A link of a page, with its box written as CSS numbers relative to the
/// page's top left corner.
#[derive(Debug, Clone)]
pub struct LinkMarkup {
    pub target: LinkTarget,
    pub left: String,
    pub top: String,
    pub width: String,
    pub height: String,
}

pub open spec fn spec_link_html(link: LinkMarkup) -> Seq<char> {
    spec_link_markup(link.target, link.left@, link.top@, link.width@, link.height@)
}

/// A page ready to be written: its number, its size as CSS numbers, its
/// raster background, its text runs in paint order and its links.
#[derive(Debug, Clone)]
pub struct PageMarkup {
    pub number: usize,
    pub width: String,
    pub height: String,
    pub background: Option<RasterBackground>,
    pub runs: Vec<RunMarkup>,
    pub links: Vec<LinkMarkup>,
}

pub open spec fn spec_runs_html(runs: Seq<RunMarkup>, fonts: FontCatalog, diagnostics: Seq<DocumentDiagnostic>) -> Seq<char>
    decreases runs.len(),
{
    if runs.len() == 0 {
        Seq::empty()
    } else {
        spec_runs_html(runs.drop_last(), fonts, diagnostics) + spec_run_html(runs.last(), fonts, diagnostics)
    }
}

pub open spec fn spec_links_html(links: Seq<LinkMarkup>) -> Seq<char>
    decreases links.len(),
{
    if links.len() == 0 {
        Seq::empty()
    } else {
        spec_links_html(links.drop_last()) + spec_link_html(links.last())
    }
}

/// The `<section>` of a page: its background image, then its runs, then
/// its links, which lie above the text.
pub open spec fn spec_page_html(page: PageMarkup, fonts: FontCatalog, diagnostics: Seq<DocumentDiagnostic>) -> Seq<char> {
    spec_page_start(page.number, page.width@, page.height@, page.background is Some)
        + spec_runs_html(page.runs@, fonts, diagnostics) + spec_links_html(page.links@) + spec_page_end()
}

pub open spec fn spec_pages_html(pages: Seq<PageMarkup>, fonts: FontCatalog, diagnostics: Seq<DocumentDiagnostic>) -> Seq<char>
    decreases pages.len(),
{
    if pages.len() == 0 {
        Seq::empty()
    } else {
        spec_pages_html(pages.drop_last(), fonts, diagnostics) + spec_page_html(pages.last(), fonts, diagnostics)
    }
}

/// The whole `index.html` of a document.
pub open spec fn spec_index_html(outlines: Seq<OutlineItem>, pages: Seq<PageMarkup>, fonts: FontCatalog, diagnostics: Seq<DocumentDiagnostic>) -> Seq<char> {
    spec_index_start(outlines) + spec_pages_html(pages, fonts, diagnostics) + spec_index_end()
}

fn push_runs(html: &mut String, runs: &Vec<RunMarkup>, fonts: &FontCatalog, diagnostics: &Vec<DocumentDiagnostic>)
    ensures
        final(html)@ == old(html)@ + spec_runs_html(runs@, *fonts, diagnostics@),
{
    let ghost start = html@;
    for i in 0..runs.len()
        invariant
            html@ == start + spec_runs_html(runs@.take(i as int), *fonts, diagnostics@),
    {
        proof {
            assert(runs@.take(i + 1).drop_last() =~= runs@.take(i as int));
        }
        render_run(html, &runs[i], fonts, diagnostics);
        assert(html@ =~= start + spec_runs_html(runs@.take(i + 1), *fonts, diagnostics@));
    }
    assert(runs@.take(runs@.len() as int) =~= runs@);
}

fn push_links(html: &mut String, links: &Vec<LinkMarkup>)
    ensures
        final(html)@ == old(html)@ + spec_links_html(links@),
{
    let ghost start = html@;
    for i in 0..links.len()
        invariant
            html@ == start + spec_links_html(links@.take(i as int)),
    {
        proof {
            assert(links@.take(i + 1).drop_last() =~= links@.take(i as int));
        }
        let link = &links[i];
        push_link_markup(
            html,
            &link.target,
            link.left.as_str(),
            link.top.as_str(),
            link.width.as_str(),
            link.height.as_str(),
        );
        assert(html@ =~= start + spec_links_html(links@.take(i + 1)));
    }
    assert(links@.take(links@.len() as int) =~= links@);
}

/// Appends the `<section>` of `page`.
pub fn render_page(html: &mut String, page: &PageMarkup, fonts: &FontCatalog, diagnostics: &Vec<DocumentDiagnostic>)
    ensures
        final(html)@ == old(html)@ + spec_page_html(*page, *fonts, diagnostics@),
{
    let ghost start = html@;
    push_page_start(
        html,
        page.number,
        page.width.as_str(),
        page.height.as_str(),
        page.background.is_some(),
    );
    push_runs(html, &page.runs, fonts, diagnostics);
    push_links(html, &page.links);
    push_page_end(html);
    assert(html@ =~= start + spec_page_html(*page, *fonts, diagnostics@));
}

proof fn lemma_pages_html_step(
    pages: Seq<PageMarkup>,
    i: int,
    fonts: FontCatalog,
    diagnostics: Seq<DocumentDiagnostic>,
)
    requires
        0 <= i < pages.len(),
    ensures
        spec_pages_html(pages.take(i + 1), fonts, diagnostics) == spec_pages_html(pages.take(i), fonts, diagnostics)
            + spec_page_html(pages[i], fonts, diagnostics),
{
    assert(pages.take(i + 1).drop_last() =~= pages.take(i));
    assert(pages.take(i + 1).last() == pages[i]);
}

/// The `index.html` of a document with `outlines` and `pages`.
pub fn render_index(outlines: &Vec<OutlineItem>, pages: &Vec<PageMarkup>, fonts: &FontCatalog, diagnostics: &Vec<DocumentDiagnostic>) -> (html: String)
    ensures
        html@ == spec_index_html(outlines@, pages@, *fonts, diagnostics@),
{
    let mut html = String::new();
    push_index_start(&mut html, outlines);
    let ghost opened = html@;
    for i in 0..pages.len()
        invariant
            html@ == opened + spec_pages_html(pages@.take(i as int), *fonts, diagnostics@),
    {
        let ghost before = html@;
        proof {
            lemma_pages_html_step(pages@, i as int, *fonts, diagnostics@);
        }
        render_page(&mut html, &pages[i], fonts, diagnostics);
        assert(html@ =~= opened + spec_pages_html(pages@.take(i + 1), *fonts, diagnostics@));
    }
    assert(pages@.take(pages@.len() as int) =~= pages@);
    push_index_end(&mut html);
    assert(html@ =~= spec_index_html(outlines@, pages@, *fonts, diagnostics@));
    html
}

} // verus!
