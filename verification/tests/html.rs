use abolishpdfs::model::{
    Color, DiagnosticScope, DocumentDiagnostic, FontCatalog, FontSource, LinkTarget, OutlineItem, ProcessedFont,
    TextRenderMode,
};
use abolishpdfs::output::document::{document_css, font_faces, DOCUMENT_CSS};
use abolishpdfs::output::html::{
    css_color, escape_html, is_safe_uri, link_href, link_target_kind, page_background_name,
    render_mode_style, render_outline_item, render_outline_navigation, run_font_family,
};

fn outline(title: &str, target_page: Option<usize>, children: Vec<OutlineItem>) -> OutlineItem {
    OutlineItem { title: title.to_owned(), target_page, children }
}

fn font(name: &str, embedded: Option<bool>, processed: Option<ProcessedFont>) -> FontSource {
    FontSource {
        name: name.to_owned(),
        embedded,
        data: Some(vec![0, 1, 0, 0, 1]),
        used_unicode: vec!['A'],
        mapping_proven: true,
        processed,
    }
}

fn processed(id: usize) -> ProcessedFont {
    ProcessedFont {
        asset_name: format!("font-{id}.woff2"),
        family_name: format!("pdf-font-{id}"),
        data: vec![0x77, 0x4F, 0x46, 0x32, id as u8],
        glyph_count: 1,
        advance_widths: vec![500],
    }
}

#[test]
fn markup_characters_are_escaped() {
    assert_eq!(escape_html("<"), "&lt;");
    assert_eq!(escape_html("Intro & setup"), "Intro &amp; setup");
    assert_eq!(escape_html("a\"b'c>d"), "a&quot;b&#39;c&gt;d");
    assert_eq!(escape_html("plain ünïcode"), "plain ünïcode");
    assert_eq!(escape_html(""), "");
}

#[test]
fn escaped_text_never_contains_markup_characters() {
    for text in ["<script>alert('x')</script>", "\"quoted\" & 'single'", "a<b>c"] {
        let escaped = escape_html(text);
        assert!(!escaped.contains(['<', '>', '"', '\'']));
    }
}

#[test]
fn only_web_mail_and_phone_schemes_are_safe() {
    assert!(is_safe_uri("https://example.com/?a=1&b=2"));
    assert!(is_safe_uri("HTTP://example.com"));
    assert!(is_safe_uri("mailto:someone@example.com"));
    assert!(is_safe_uri("tel:+123"));
    assert!(!is_safe_uri("javascript:alert(1)"));
    assert!(!is_safe_uri("ftp://example.com"));
    assert!(!is_safe_uri("https"));
    assert!(!is_safe_uri("data:text/html,x"));
    assert!(!is_safe_uri("httpss://example.com"));
}

#[test]
fn link_targets_have_kinds_and_hrefs() {
    let uri = LinkTarget::Uri("https://example.com/?a=1&b=2".to_owned());
    assert_eq!(link_target_kind(&uri), "uri");
    assert_eq!(link_href(&uri), " href=\"https://example.com/?a=1&amp;b=2\"");
    let local = LinkTarget::LocalDestination(2);
    assert_eq!(link_target_kind(&local), "local");
    assert_eq!(link_href(&local), " href=\"#page-2\"");
    assert_eq!(link_target_kind(&LinkTarget::RemoteDestination), "remote");
    assert_eq!(link_href(&LinkTarget::RemoteDestination), "");
    assert_eq!(link_target_kind(&LinkTarget::Unknown), "unknown");
    assert_eq!(link_href(&LinkTarget::Unknown), "");
}

#[test]
fn unsafe_uri_links_get_no_href() {
    let target = LinkTarget::Uri("javascript:alert(1)".to_owned());
    assert_eq!(link_target_kind(&target), "uri");
    assert_eq!(link_href(&target), "");
}

#[test]
fn colours_are_written_as_rgba_with_four_decimals() {
    assert_eq!(css_color(Color::black()), "rgba(0, 0, 0, 1.0000)");
    assert_eq!(css_color(Color { red: 255, green: 0, blue: 0, alpha: 255 }), "rgba(255, 0, 0, 1.0000)");
    assert_eq!(css_color(Color { red: 1, green: 22, blue: 133, alpha: 128 }), "rgba(1, 22, 133, 0.5020)");
    assert_eq!(css_color(Color { red: 0, green: 0, blue: 0, alpha: 0 }), "rgba(0, 0, 0, 0.0000)");
}

#[test]
fn alpha_fraction_matches_float_formatting_for_every_alpha() {
    for alpha in 0..=255u8 {
        let expected = format!("rgba(1, 2, 3, {:.4})", alpha as f32 / 255.0);
        assert_eq!(css_color(Color { red: 1, green: 2, blue: 3, alpha }), expected, "alpha {alpha}");
    }
}

#[test]
fn stroked_text_gets_a_text_stroke() {
    let red = Some(Color { red: 255, green: 0, blue: 0, alpha: 255 });
    assert_eq!(render_mode_style(TextRenderMode::Stroke, red), "-webkit-text-stroke:1px rgba(255, 0, 0, 1.0000);");
    assert_eq!(
        render_mode_style(TextRenderMode::FillStroke, red),
        "-webkit-text-stroke:1px rgba(255, 0, 0, 1.0000);"
    );
    assert_eq!(render_mode_style(TextRenderMode::Stroke, None), "");
    assert_eq!(render_mode_style(TextRenderMode::Fill, red), "");
    assert_eq!(render_mode_style(TextRenderMode::Invisible, red), "");
}

#[test]
fn outline_entries_link_to_their_pages() {
    let mut html = String::new();
    render_outline_item(&mut html, &outline("Intro & setup", Some(1), Vec::new()));
    assert_eq!(html, "<li><a href=\"#page-1\">Intro &amp; setup</a></li>");
    assert!(html.contains("href=\"#page-1\">Intro &amp; setup</a>"));
}

#[test]
fn nested_outline_entries_form_nested_lists() {
    let items = vec![
        outline("One", Some(1), vec![outline("One.a", None, Vec::new()), outline("One.b", Some(12), Vec::new())]),
        outline("Two", None, Vec::new()),
    ];
    assert_eq!(
        render_outline_navigation(&items),
        "<nav aria-label=\"Document outline\"><ol><li><a href=\"#page-1\">One</a><ol><li>One.a</li><li><a href=\"#page-12\">One.b</a></li></ol></li><li>Two</li></ol></nav>"
    );
    assert_eq!(render_outline_navigation(&Vec::new()), "");
}

#[test]
fn outline_items_clone_deeply() {
    let item = outline("One", Some(1), vec![outline("One.a", None, Vec::new())]);
    assert_eq!(item.clone(), item);
}

#[test]
fn processed_fonts_become_font_faces_and_assets() {
    let mut fonts = FontCatalog::new();
    fonts.insert(font("Plain", Some(false), None));
    fonts.insert(font("Embedded", Some(true), Some(processed(1))));
    fonts.insert(font("Other", Some(true), Some(processed(2))));
    let (css, assets) = font_faces(&fonts, &Vec::new());
    assert_eq!(
        css,
        "@font-face{font-family:'pdf-font-1';src:url('assets/font-1.woff2');}\n@font-face{font-family:'pdf-font-2';src:url('assets/font-2.woff2');}\n"
    );
    assert_eq!(
        assets,
        vec![
            ("font-1.woff2".to_owned(), vec![0x77, 0x4F, 0x46, 0x32, 1]),
            ("font-2.woff2".to_owned(), vec![0x77, 0x4F, 0x46, 0x32, 2])
        ]
    );
    let stylesheet = document_css(&css);
    assert!(stylesheet.starts_with(&css));
    assert!(stylesheet.ends_with(DOCUMENT_CSS));
}

#[test]
fn runs_use_the_web_font_or_the_generic_family() {
    let mut fonts = FontCatalog::new();
    fonts.insert(font("Plain", Some(false), None));
    fonts.insert(font("Embedded", Some(true), Some(processed(1))));
    fonts.insert(font("Unprocessed", Some(true), None));
    fonts.insert(font("Unknown", None, None));
    let mut without_data = font("Without data", Some(true), None);
    without_data.data = None;
    fonts.insert(without_data);
    let none = Vec::new();
    assert_eq!(run_font_family(None, &fonts, &none), Some("sans-serif".to_owned()));
    assert_eq!(run_font_family(Some(0), &fonts, &none), Some("sans-serif".to_owned()));
    assert_eq!(run_font_family(Some(1), &fonts, &none), Some("'pdf-font-1',sans-serif".to_owned()));
    assert_eq!(run_font_family(Some(2), &fonts, &none), Some("'pdf-font-2',sans-serif".to_owned()));
    assert_eq!(run_font_family(Some(3), &fonts, &none), Some("sans-serif".to_owned()));
    assert_eq!(run_font_family(Some(4), &fonts, &none), None);
    assert_eq!(run_font_family(Some(9), &fonts, &none), Some("sans-serif".to_owned()));
    let failed = vec![DocumentDiagnostic { scope: DiagnosticScope::Font(2), message: "timed out".to_owned() }];
    assert_eq!(run_font_family(Some(2), &fonts, &failed), None);
    assert_eq!(run_font_family(Some(1), &fonts, &failed), Some("'pdf-font-1',sans-serif".to_owned()));
}

#[test]
fn unprocessed_embedded_fonts_are_written_as_they_are() {
    let mut fonts = FontCatalog::new();
    fonts.insert(font("Embedded", Some(true), None));
    fonts.insert(font("Plain", Some(false), None));
    fonts.insert(font("Failed", Some(true), None));
    let failed = vec![DocumentDiagnostic { scope: DiagnosticScope::Font(2), message: "timed out".to_owned() }];
    let (css, assets) = font_faces(&fonts, &failed);
    assert_eq!(css, "@font-face{font-family:'pdf-font-0';src:url('assets/font-0.ttf');}\n");
    assert_eq!(assets, vec![("font-0.ttf".to_owned(), vec![0, 1, 0, 0, 1])]);
}

#[test]
fn page_backgrounds_are_named_by_page_number() {
    assert_eq!(page_background_name(1), "page-1.png");
    assert_eq!(page_background_name(120), "page-120.png");
}
