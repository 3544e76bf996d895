//! The HTML fragments of the output document that involve no coordinates.

use vstd::prelude::*;

use super::markup::{decimal, digit_char, push_char, push_decimal};
use crate::fonts::worker::{family_name, spec_family_name};
use crate::model::document::{font_job_failed, has_font_job_failure};
use crate::model::{
    Color, DocumentDiagnostic, FontCatalog, FontId, FontSource, LinkTarget, OutlineItem,
    TextRenderMode,
};

verus! {

/// The HTML text for one character: the five markup characters become
/// entities, every other character stands for itself.
pub open spec fn escape_char(c: char) -> Seq<char> {
    if c == '&' {
        seq!['&', 'a', 'm', 'p', ';']
    } else if c == '<' {
        seq!['&', 'l', 't', ';']
    } else if c == '>' {
        seq!['&', 'g', 't', ';']
    } else if c == '"' {
        seq!['&', 'q', 'u', 'o', 't', ';']
    } else if c == '\'' {
        seq!['&', '#', '3', '9', ';']
    } else {
        seq![c]
    }
}

/// `s` escaped for use as HTML text or attribute value.
pub open spec fn spec_escape_html(s: Seq<char>) -> Seq<char>
    decreases s.len(),
{
    if s.len() == 0 {
        Seq::empty()
    } else {
        spec_escape_html(s.drop_last()) + escape_char(s.last())
    }
}

pub(crate) fn push_escaped(s: &mut String, c: char)
    ensures
        final(s)@ == old(s)@ + escape_char(c),
{
    if c == '&' {
        push_char(s, '&');
        push_char(s, 'a');
        push_char(s, 'm');
        push_char(s, 'p');
        push_char(s, ';');
    } else if c == '<' {
        push_char(s, '&');
        push_char(s, 'l');
        push_char(s, 't');
        push_char(s, ';');
    } else if c == '>' {
        push_char(s, '&');
        push_char(s, 'g');
        push_char(s, 't');
        push_char(s, ';');
    } else if c == '"' {
        push_char(s, '&');
        push_char(s, 'q');
        push_char(s, 'u');
        push_char(s, 'o');
        push_char(s, 't');
        push_char(s, ';');
    } else if c == '\'' {
        push_char(s, '&');
        push_char(s, '#');
        push_char(s, '3');
        push_char(s, '9');
        push_char(s, ';');
    } else {
        push_char(s, c);
    }
    assert(final(s)@ =~= old(s)@ + escape_char(c));
}

/// Escaped text contains none of the characters that could start or end
/// markup or an attribute value: `<`, `>`, `"` and `'`.
pub proof fn law_escaped_text_has_no_markup_characters(s: Seq<char>)
    ensures
        forall|i: int|
            0 <= i < spec_escape_html(s).len() ==> {
                let c = #[trigger] spec_escape_html(s)[i];
                c != '<' && c != '>' && c != '"' && c != '\''
            },
    decreases s.len(),
{
    if s.len() > 0 {
        law_escaped_text_has_no_markup_characters(s.drop_last());
        let prefix = spec_escape_html(s.drop_last());
        let tail = escape_char(s.last());
        assert forall|i: int| 0 <= i < spec_escape_html(s).len() implies {
            let c = #[trigger] spec_escape_html(s)[i];
            c != '<' && c != '>' && c != '"' && c != '\''
        } by {
            if i < prefix.len() {
                assert(spec_escape_html(s)[i] == prefix[i]);
            } else {
                assert(spec_escape_html(s)[i] == tail[i - prefix.len()]);
            }
        }
    }
}

/// Text without any of the five markup characters is written unchanged.
pub proof fn law_plain_text_is_unchanged(s: Seq<char>)
    requires
        forall|i: int|
            0 <= i < s.len() ==> {
                let c = #[trigger] s[i];
                c != '&' && c != '<' && c != '>' && c != '"' && c != '\''
            },
    ensures
        spec_escape_html(s) == s,
    decreases s.len(),
{
    if s.len() > 0 {
        let rest = s.drop_last();
        assert forall|i: int| 0 <= i < rest.len() implies {
            let c = #[trigger] rest[i];
            c != '&' && c != '<' && c != '>' && c != '"' && c != '\''
        } by {
            assert(rest[i] == s[i]);
        }
        law_plain_text_is_unchanged(rest);
        assert(s.last() == s[s.len() - 1]);
        assert(spec_escape_html(s) =~= s);
    }
}

/// Appends `value`, escaped for HTML, to `html`.
pub fn push_escaped_html(html: &mut String, value: &str)
    ensures
        final(html)@ == old(html)@ + spec_escape_html(value@),
{
    let ghost start = html@;
    for c in it: value.chars()
        invariant
            it.seq() == value@,
            html@ == start + spec_escape_html(value@.take(it.index())),
    {
        proof {
            assert(value@.take(it.index() + 1).drop_last() =~= value@.take(it.index()));
        }
        push_escaped(html, c);
        proof {
            assert(start + spec_escape_html(value@.take(it.index())) + escape_char(c) =~= start + (
            spec_escape_html(value@.take(it.index())) + escape_char(c)));
        }
    }
    assert(value@.take(value@.len() as int) =~= value@);
}

/// Escapes the characters of `value` that are significant in HTML text and
/// attribute values.
pub fn escape_html(value: &str) -> (escaped: String)
    ensures
        escaped@ == spec_escape_html(value@),
{
    let mut escaped = String::new();
    push_escaped_html(&mut escaped, value);
    assert(escaped@ =~= spec_escape_html(value@));
    escaped
}

// ---------------------------------------------------------------------------
// Links
// ---------------------------------------------------------------------------

/// The character code of `c` after ASCII lower-casing.
pub open spec fn lower_code(c: char) -> u32 {
    if 65 <= c as u32 <= 90 {
        (c as u32 + 32) as u32
    } else {
        c as u32
    }
}

/// `scheme` equals the lower-case ASCII word `word` ignoring ASCII case.
pub open spec fn scheme_matches(scheme: Seq<char>, word: Seq<char>) -> bool {
    &&& scheme.len() == word.len()
    &&& forall|i: int| 0 <= i < scheme.len() ==> lower_code(#[trigger] scheme[i]) == word[i] as u32
}

/// The text before the first `:` of `s` at or after position `i`, if `s`
/// has a `:` there.
pub open spec fn scheme_from(s: Seq<char>, i: int) -> Option<Seq<char>>
    decreases s.len() - i,
{
    if i < 0 || i >= s.len() {
        None
    } else if s[i] == ':' {
        Some(s.take(i))
    } else {
        scheme_from(s, i + 1)
    }
}

/// A URI is safe to link to when its scheme (the text before its first `:`)
/// is `http`, `https`, `mailto` or `tel`, in any ASCII case.
pub open spec fn spec_is_safe_uri(uri: Seq<char>) -> bool {
    match scheme_from(uri, 0) {
        None => false,
        Some(scheme) => {
            ||| scheme_matches(scheme, seq!['h', 't', 't', 'p'])
            ||| scheme_matches(scheme, seq!['h', 't', 't', 'p', 's'])
            ||| scheme_matches(scheme, seq!['m', 'a', 'i', 'l', 't', 'o'])
            ||| scheme_matches(scheme, seq!['t', 'e', 'l'])
        },
    }
}

proof fn lemma_scheme_from_skip(s: Seq<char>, i: int)
    requires
        0 <= i <= s.len(),
        forall|j: int| 0 <= j < i ==> s[j] != ':',
    ensures
        scheme_from(s, 0) == scheme_from(s, i),
    decreases i,
{
    if i > 0 {
        lemma_scheme_from_skip(s, i - 1);
    }
}

fn lower_code_of(c: char) -> (code: u32)
    ensures
        code == lower_code(c),
{
    let code = c as u32;
    if 65 <= code && code <= 90 {
        code + 32
    } else {
        code
    }
}

fn matches_word(scheme: &Vec<char>, word: &[char]) -> (r: bool)
    ensures
        r == scheme_matches(scheme@, word@),
{
    if scheme.len() != word.len() {
        return false;
    }
    let mut index: usize = 0;
    while index < scheme.len()
        invariant
            scheme@.len() == word@.len(),
            index <= scheme@.len(),
            forall|i: int| 0 <= i < index ==> lower_code(#[trigger] scheme@[i]) == word@[i] as u32,
        decreases scheme@.len() - index,
    {
        if lower_code_of(scheme[index]) != word[index] as u32 {
            return false;
        }
        index = index + 1;
    }
    true
}

/// Whether `uri` uses a scheme that is safe to link to from the document.
pub fn is_safe_uri(uri: &str) -> (safe: bool)
    ensures
        safe == spec_is_safe_uri(uri@),
{
    let mut scheme: Vec<char> = Vec::new();
    let mut found = false;
    for c in it: uri.chars()
        invariant
            it.seq() == uri@,
            !found ==> scheme@ == uri@.take(it.index()),
            !found ==> forall|j: int| 0 <= j < it.index() ==> uri@[j] != ':',
            found ==> scheme_from(uri@, 0) == Some(scheme@),
    {
        if !found {
            if c == ':' {
                proof {
                    lemma_scheme_from_skip(uri@, it.index());
                }
                found = true;
            } else {
                scheme.push(c);
                proof {
                    assert(uri@.take(it.index() + 1) =~= uri@.take(it.index()).push(c));
                }
            }
        }
    }
    if !found {
        proof {
            lemma_scheme_from_skip(uri@, uri@.len() as int);
        }
        return false;
    }
    let http = ['h', 't', 't', 'p'];
    let https = ['h', 't', 't', 'p', 's'];
    let mailto = ['m', 'a', 'i', 'l', 't', 'o'];
    let tel = ['t', 'e', 'l'];
    assert(http@ == seq!['h', 't', 't', 'p']);
    assert(https@ == seq!['h', 't', 't', 'p', 's']);
    assert(mailto@ == seq!['m', 'a', 'i', 'l', 't', 'o']);
    assert(tel@ == seq!['t', 'e', 'l']);
    matches_word(&scheme, &http) || matches_word(&scheme, &https) || matches_word(&scheme, &mailto)
        || matches_word(&scheme, &tel)
}

/// The `data-target` word for a link target.
pub open spec fn spec_link_target_kind(target: LinkTarget) -> Seq<char> {
    match target {
        LinkTarget::Uri(_) => "uri"@,
        LinkTarget::LocalDestination(_) => "local"@,
        LinkTarget::RemoteDestination => "remote"@,
        LinkTarget::Unknown => "unknown"@,
    }
}

pub fn link_target_kind(target: &LinkTarget) -> (kind: &'static str)
    ensures
        kind@ == spec_link_target_kind(*target),
{
    match target {
        LinkTarget::Uri(_) => "uri",
        LinkTarget::LocalDestination(_) => "local",
        LinkTarget::RemoteDestination => "remote",
        LinkTarget::Unknown => "unknown",
    }
}

/// The `href` attribute (with its leading space) of a link: safe URIs and
/// local page destinations navigate, every other target gets none.
pub open spec fn spec_link_href(target: LinkTarget) -> Seq<char> {
    match target {
        LinkTarget::Uri(uri) => if spec_is_safe_uri(uri@) {
            " href=\""@ + spec_escape_html(uri@) + "\""@
        } else {
            Seq::empty()
        },
        LinkTarget::LocalDestination(page) => " href=\"#page-"@ + decimal(page as nat) + "\""@,
        _ => Seq::empty(),
    }
}

/// A link navigates only to a safe URI or to a page of the document: a
/// URI target gets an `href` exactly when its scheme is safe.
pub proof fn law_links_navigate_only_to_safe_targets(target: LinkTarget)
    ensures
        spec_link_href(target).len() > 0 ==> match target {
            LinkTarget::Uri(uri) => spec_is_safe_uri(uri@),
            LinkTarget::LocalDestination(_) => true,
            _ => false,
        },
        target matches LinkTarget::Uri(uri) ==> (spec_link_href(target).len() > 0 <==> spec_is_safe_uri(
            uri@,
        )),
{
    if let LinkTarget::Uri(uri) = target {
        if spec_is_safe_uri(uri@) {
            assert(spec_link_href(target).len() >= " href=\""@.len());
            assert(" href=\""@.len() > 0) by {
                reveal_strlit(" href=\"");
            }
        }
    }
}

pub fn link_href(target: &LinkTarget) -> (href: String)
    ensures
        href@ == spec_link_href(*target),
{
    let mut href = String::new();
    match target {
        LinkTarget::Uri(uri) => {
            if is_safe_uri(uri.as_str()) {
                href.append(" href=\"");
                push_escaped_html(&mut href, uri.as_str());
                href.append("\"");
            }
        },
        LinkTarget::LocalDestination(page) => {
            href.append(" href=\"#page-");
            push_decimal(&mut href, *page);
            href.append("\"");
        },
        _ => {},
    }
    assert(href@ =~= spec_link_href(*target));
    href
}

// ---------------------------------------------------------------------------
// Colours and render modes
// ---------------------------------------------------------------------------

/// `alpha / 255` rounded to four decimals, scaled by 10000.
pub open spec fn alpha_ten_thousandths(alpha: u8) -> nat {
    ((20000 * alpha + 255) / 510) as nat
}

/// `alpha / 255` written with four decimals, as `{:.4}` prints it.
pub open spec fn alpha_text(alpha: u8) -> Seq<char> {
    let q = alpha_ten_thousandths(alpha);
    seq![
        digit_char(q / 10000),
        '.',
        digit_char((q / 1000) % 10),
        digit_char((q / 100) % 10),
        digit_char((q / 10) % 10),
        digit_char(q % 10),
    ]
}

/// The CSS `rgba(...)` notation of a colour.
pub open spec fn spec_css_color(color: Color) -> Seq<char> {
    "rgba("@ + decimal(color.red as nat) + ", "@ + decimal(color.green as nat) + ", "@ + decimal(
        color.blue as nat,
    ) + ", "@ + alpha_text(color.alpha) + ")"@
}

fn push_alpha(s: &mut String, alpha: u8)
    ensures
        final(s)@ == old(s)@ + alpha_text(alpha),
{
    let q: u32 = (20000 * alpha as u32 + 255) / 510;
    assert(q <= 10000);
    push_decimal(s, (q / 10000) as usize);
    push_char(s, '.');
    push_decimal(s, ((q / 1000) % 10) as usize);
    push_decimal(s, ((q / 100) % 10) as usize);
    push_decimal(s, ((q / 10) % 10) as usize);
    push_decimal(s, (q % 10) as usize);
    assert(final(s)@ =~= old(s)@ + alpha_text(alpha));
}

pub fn css_color(color: Color) -> (css: String)
    ensures
        css@ == spec_css_color(color),
{
    let mut css = String::new();
    css.append("rgba(");
    push_decimal(&mut css, color.red as usize);
    css.append(", ");
    push_decimal(&mut css, color.green as usize);
    css.append(", ");
    push_decimal(&mut css, color.blue as usize);
    css.append(", ");
    push_alpha(&mut css, color.alpha);
    css.append(")");
    assert(css@ =~= spec_css_color(color));
    css
}

/// The extra CSS of a run for its render mode: stroked text gets a one-pixel
/// text stroke in its stroke colour, when it has one.
pub open spec fn spec_render_mode_style(mode: TextRenderMode, stroke: Option<Color>) -> Seq<char> {
    match (mode, stroke) {
        (TextRenderMode::Stroke, Some(color)) => "-webkit-text-stroke:1px "@ + spec_css_color(color)
            + ";"@,
        (TextRenderMode::FillStroke, Some(color)) => "-webkit-text-stroke:1px "@ + spec_css_color(
            color,
        ) + ";"@,
        _ => Seq::empty(),
    }
}

pub fn render_mode_style(mode: TextRenderMode, stroke: Option<Color>) -> (style: String)
    ensures
        style@ == spec_render_mode_style(mode, stroke),
{
    let mut style = String::new();
    match mode {
        TextRenderMode::Stroke | TextRenderMode::FillStroke => {
            if let Some(color) = stroke {
                style.append("-webkit-text-stroke:1px ");
                let css = css_color(color);
                style.append(css.as_str());
                style.append(";");
            }
        },
        _ => {},
    }
    assert(style@ =~= spec_render_mode_style(mode, stroke));
    style
}

// ---------------------------------------------------------------------------
// Outline navigation
// ---------------------------------------------------------------------------

/// The label of an outline entry: its escaped title, linked to its target
/// page when it has one.
pub open spec fn spec_outline_label(item: OutlineItem) -> Seq<char> {
    match item.target_page {
        Some(page) => "<a href=\"#page-"@ + decimal(page as nat) + "\">"@ + spec_escape_html(
            item.title@,
        ) + "</a>"@,
        None => spec_escape_html(item.title@),
    }
}

/// The `<li>` element of an outline entry, with a nested `<ol>` for its
/// children when it has any.
pub open spec fn spec_outline_item(item: OutlineItem) -> Seq<char>
    decreases item,
{
    let nested = if item.children@.len() == 0 {
        Seq::empty()
    } else {
        "<ol>"@ + spec_outline_list(item.children@) + "</ol>"@
    };
    "<li>"@ + spec_outline_label(item) + nested + "</li>"@
}

/// The `<li>` elements of a list of outline entries, in order.
pub open spec fn spec_outline_list(items: Seq<OutlineItem>) -> Seq<char>
    decreases items,
{
    if items.len() == 0 {
        Seq::empty()
    } else {
        spec_outline_list(items.drop_last()) + spec_outline_item(items.last())
    }
}

/// The document's outline navigation: nothing when it has no outline.
pub open spec fn spec_outline_navigation(items: Seq<OutlineItem>) -> Seq<char> {
    if items.len() == 0 {
        Seq::empty()
    } else {
        "<nav aria-label=\"Document outline\"><ol>"@ + spec_outline_list(items) + "</ol></nav>"@
    }
}

/// Appends the `<li>` elements of `items` to `html`.
fn push_outline_list(html: &mut String, items: &Vec<OutlineItem>)
    ensures
        final(html)@ == old(html)@ + spec_outline_list(items@),
    decreases items@, 0nat,
{
    let ghost start = html@;
    let mut index: usize = 0;
    while index < items.len()
        invariant
            index <= items@.len(),
            html@ == start + spec_outline_list(items@.take(index as int)),
        decreases items@.len() - index,
    {
        proof {
            assert(items@.take(index + 1).drop_last() =~= items@.take(index as int));
            assert(decreases_to!(items@ => items@[index as int]));
        }
        let ghost before = html@;
        render_outline_item(html, &items[index]);
        proof {
            assert(items@.take(index + 1).last() == items@[index as int]);
            assert(html@ =~= start + spec_outline_list(items@.take(index + 1)));
        }
        index = index + 1;
    }
    assert(items@.take(items@.len() as int) =~= items@);
}

/// Appends the `<li>` element of an outline entry, and of its children, to
/// `html`.
pub fn render_outline_item(html: &mut String, item: &OutlineItem)
    ensures
        final(html)@ == old(html)@ + spec_outline_item(*item),
    decreases item, 1nat,
{
    let ghost start = html@;
    html.append("<li>");
    match item.target_page {
        Some(page) => {
            html.append("<a href=\"#page-");
            push_decimal(html, page);
            html.append("\">");
            push_escaped_html(html, item.title.as_str());
            html.append("</a>");
        },
        None => {
            push_escaped_html(html, item.title.as_str());
        },
    }
    let ghost labelled = html@;
    assert(labelled =~= start + "<li>"@ + spec_outline_label(*item));
    if item.children.len() > 0 {
        html.append("<ol>");
        proof {
            assert(decreases_to!(item => item.children@));
        }
        push_outline_list(html, &item.children);
        html.append("</ol>");
    }
    html.append("</li>");
    assert(html@ =~= start + spec_outline_item(*item));
}

/// The outline navigation of a document.
pub fn render_outline_navigation(items: &Vec<OutlineItem>) -> (nav: String)
    ensures
        nav@ == spec_outline_navigation(items@),
{
    let mut nav = String::new();
    if items.len() > 0 {
        nav.append("<nav aria-label=\"Document outline\"><ol>");
        push_outline_list(&mut nav, items);
        nav.append("</ol></nav>");
    }
    assert(nav@ =~= spec_outline_navigation(items@));
    nav
}

// ---------------------------------------------------------------------------
// Fonts of text runs and page assets
// ---------------------------------------------------------------------------

/// The asset file name under which the data of embedded font `id` is
/// written when it was not processed.
pub open spec fn spec_raw_asset_name(id: FontId) -> Seq<char> {
    "font-"@ + decimal(id as nat) + ".ttf"@
}

pub fn raw_asset_name(id: FontId) -> (name: String)
    ensures
        name@ == spec_raw_asset_name(id),
{
    let mut name = String::new();
    name.append("font-");
    push_decimal(&mut name, id);
    name.append(".ttf");
    assert(name@ =~= spec_raw_asset_name(id));
    name
}

/// The web font of catalog font `id`, as its CSS family name, asset file
/// name and bytes: the web font FontForge made from it; for an embedded font
/// that was not processed and whose job did not fail (`diagnostics` record
/// failed jobs), its own data under the family `pdf-font-<id>` and the asset
/// `font-<id>.ttf`; none otherwise.
pub open spec fn spec_web_font(id: FontId, source: FontSource, diagnostics: Seq<DocumentDiagnostic>) -> Option<
    (Seq<char>, Seq<char>, Seq<u8>),
> {
    match source.processed {
        Some(processed) => Some((processed.family_name@, processed.asset_name@, processed.data@)),
        None => if source.embedded == Some(true) && !font_job_failed(diagnostics, id) {
            match source.data {
                Some(data) => Some((spec_family_name(id), spec_raw_asset_name(id), data@)),
                None => None,
            }
        } else {
            None
        },
    }
}

/// The web font of catalog font `id`, if it has one.
pub fn web_font(id: FontId, source: &FontSource, diagnostics: &Vec<DocumentDiagnostic>) -> (font: Option<
    (String, String, Vec<u8>),
>)
    ensures
        match spec_web_font(id, *source, diagnostics@) {
            Some(w) => font matches Some(f) && f.0@ == w.0 && f.1@ == w.1 && f.2@ == w.2,
            None => font is None,
        },
{
    match &source.processed {
        Some(processed) => {
            let data = processed.data.clone();
            assert(data@ =~= processed.data@);
            Some((processed.family_name.clone(), processed.asset_name.clone(), data))
        },
        None => {
            if source.embedded != Some(true) || has_font_job_failure(diagnostics, id) {
                return None;
            }
            match &source.data {
                Some(bytes) => {
                    let data = bytes.clone();
                    assert(data@ =~= bytes@);
                    Some((family_name(id), raw_asset_name(id), data))
                },
                None => None,
            }
        },
    }
}

/// The CSS `font-family` of a text run drawn in `font`: the font's web
/// font when it has one; the generic family for runs without a known font
/// or in a font that is not embedded; none (the run is left out) for an
/// embedded font without a web font.
pub open spec fn spec_run_font_family(
    font: Option<FontId>,
    fonts: FontCatalog,
    diagnostics: Seq<DocumentDiagnostic>,
) -> Option<Seq<char>> {
    match font {
        None => Some("sans-serif"@),
        Some(id) => if !fonts.fonts@.contains_key(id) {
            Some("sans-serif"@)
        } else {
            match spec_web_font(id, fonts.fonts@[id], diagnostics) {
                Some(w) => Some("'"@ + w.0 + "',sans-serif"@),
                None => if fonts.fonts@[id].embedded == Some(true) {
                    None
                } else {
                    Some("sans-serif"@)
                },
            }
        },
    }
}

pub fn run_font_family(font: Option<FontId>, fonts: &FontCatalog, diagnostics: &Vec<DocumentDiagnostic>) -> (family:
    Option<String>)
    ensures
        match spec_run_font_family(font, *fonts, diagnostics@) {
            Some(f) => family matches Some(g) && g@ == f,
            None => family is None,
        },
{
    let (id, source) = match font {
        None => return Some("sans-serif".to_owned()),
        Some(id) => match fonts.fonts.get(&id) {
            None => return Some("sans-serif".to_owned()),
            Some(source) => (id, source),
        },
    };
    match web_font(id, source, diagnostics) {
        Some((web_family, _, _)) => {
            let mut family = String::new();
            family.append("'");
            family.append(web_family.as_str());
            family.append("',sans-serif");
            assert(family@ =~= "'"@ + web_family@ + "',sans-serif"@);
            Some(family)
        },
        None => if source.embedded == Some(true) {
            None
        } else {
            Some("sans-serif".to_owned())
        },
    }
}

/// The asset file name of the raster background of page `number`.
pub open spec fn spec_page_background_name(number: usize) -> Seq<char> {
    "page-"@ + decimal(number as nat) + ".png"@
}

pub fn page_background_name(number: usize) -> (name: String)
    ensures
        name@ == spec_page_background_name(number),
{
    let mut name = String::new();
    name.append("page-");
    push_decimal(&mut name, number);
    name.append(".png");
    assert(name@ =~= spec_page_background_name(number));
    name
}

} // verus!
