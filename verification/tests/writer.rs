use abolishpdfs::model::{
    Color, DiagnosticScope, DocumentDiagnostic, FontCatalog, FontSource, LinkTarget, OutlineItem, PageTextSummary, ProcessedFont, RasterBackground,
    ReconstructionDecision, TextFailureReason, TextIntegrityFailure, TextObjectSummary, TextRenderMode,
};
use abolishpdfs::output::document::{DocumentMarkup, HtmlWriter, OutputError, DOCUMENT_CSS};
use abolishpdfs::output::page::{LinkMarkup, OffsetMarkup, PageMarkup, PlacementMarkup, RunMarkup};
use abolishpdfs::text::runs::{glyph_runs, run_text};

fn run(text: &str, left: &str, top: &str) -> RunMarkup {
    RunMarkup {
        source: 4,
        placement: PlacementMarkup::Bounded { left: left.to_owned(), top: top.to_owned() },
        font: None,
        font_size: "12".to_owned(),
        fill: Some(Color::black()),
        letter_spacing: None,
        render_mode: TextRenderMode::Fill,
        stroke: None,
        text: text.to_owned(),
        offsets: Vec::new(),
    }
}

fn page(number: usize, runs: Vec<RunMarkup>) -> PageMarkup {
    PageMarkup {
        number,
        width: "612".to_owned(),
        height: "792".to_owned(),
        background: None,
        runs,
        links: Vec::new(),
    }
}

fn document_with_text(text: &str) -> DocumentMarkup {
    DocumentMarkup {
        outlines: Vec::new(),
        pages: vec![page(1, vec![run(text, "72", "68")])],
        fonts: FontCatalog::new(),
        diagnostics: Vec::new(),
        text: Vec::new(),
    }
}

fn link(target: LinkTarget, left: &str, top: &str, width: &str, height: &str) -> LinkMarkup {
    LinkMarkup {
        target,
        left: left.to_owned(),
        top: top.to_owned(),
        width: width.to_owned(),
        height: height.to_owned(),
    }
}

#[test]
fn writer_places_bounded_runs_and_escapes_their_text() {
    let output = HtmlWriter::render(&document_with_text("<"));
    assert!(output.index_html.contains("left:72px;top:68px"));
    assert!(output.index_html.contains("&lt;"));
}

#[test]
fn writer_writes_page_size_and_run_position() {
    let mut document = document_with_text("A");
    document.pages[0].width = "540".to_owned();
    document.pages[0].height = "720".to_owned();
    document.pages[0].runs[0] = run("A", "36", "32");
    let output = HtmlWriter::render(&document);
    assert!(output.index_html.contains("width:540px;height:720px"));
    assert!(output.index_html.contains("left:36px;top:32px"));
}

#[test]
fn bounded_runs_have_no_transform_matrix() {
    let output = HtmlWriter::render(&document_with_text("A"));
    assert!(!output.index_html.contains("transform:matrix"));
}

#[test]
fn transformed_runs_are_placed_by_baseline_and_matrix() {
    let mut document = document_with_text("R");
    let rotated = &mut document.pages[0].runs[0];
    rotated.font_size = "24".to_owned();
    rotated.placement = PlacementMarkup::Transformed {
        left: "220".to_owned(),
        bottom: "420".to_owned(),
        a: "0".to_owned(),
        b: "-1".to_owned(),
        c: "1".to_owned(),
        d: "0".to_owned(),
    };
    let output = HtmlWriter::render(&document);
    assert!(output
        .index_html
        .contains("left:220px;bottom:420px;transform:matrix(0,-1,1,0,0,0);font-family:sans-serif;font-size:24px"));
}

#[test]
fn writer_emits_axis_aligned_glyph_without_transform_matrix() {
    let output = HtmlWriter::render(&document_with_text("A"));
    let page = &output.index_html;
    assert!(page.contains("left:72px;top:68px;font-family:sans-serif;font-size:12px"));
    assert!(!page.contains("transform:matrix"));
}

#[test]
fn writer_serializes_prepared_run_text_and_spacing() {
    let mut document = document_with_text("AB");
    document.pages[0].runs[0].letter_spacing = Some("1.25".to_owned());
    let output = HtmlWriter::render(&document);
    assert_eq!(output.index_html.matches("class=\"text-run\"").count(), 1);
    assert!(output.index_html.contains(">AB</span>"));
    assert!(output.index_html.contains("letter-spacing:1.25px;"));
}

#[test]
fn fallback_text_is_not_emitted_as_native_text() {
    let unicode = vec![Some('A')];
    let decision = ReconstructionDecision::TextFailure(TextFailureReason::UnprovenFontMapping);
    let runs: Vec<RunMarkup> = glyph_runs(decision, &unicode, |_, _, _| true)
        .iter()
        .map(|glyphs| run(&run_text(&unicode, glyphs), "72", "68"))
        .collect();
    let document =
        DocumentMarkup { outlines: Vec::new(), pages: vec![page(1, runs)], fonts: FontCatalog::new(), diagnostics: Vec::new(), text: Vec::new() };
    let output = HtmlWriter::render(&document);
    assert!(!output.index_html.contains("data-source=\"4\""));
}

#[test]
fn writer_renders_safe_uri_links_at_pdf_coordinates() {
    let mut document = document_with_text("A");
    document.pages[0]
        .links
        .push(link(LinkTarget::Uri("https://example.com/?a=1&b=2".to_owned()), "36", "56", "108", "36"));
    let output = HtmlWriter::render(&document);
    assert!(output.index_html.contains(
        "class=\"page-link\" aria-label=\"PDF link\" data-target=\"uri\" href=\"https://example.com/?a=1&amp;b=2\" style=\"left:36px;top:56px;width:108px;height:36px\""
    ));
}

#[test]
fn writer_renders_local_links_and_outline_navigation() {
    let mut document = document_with_text("A");
    document.pages[0].links.push(link(LinkTarget::LocalDestination(2), "0", "782", "10", "10"));
    document.outlines.push(OutlineItem { title: "Intro & setup".to_owned(), target_page: Some(1), children: Vec::new() });
    let output = HtmlWriter::render(&document);
    assert!(output.index_html.contains("data-target=\"local\" href=\"#page-2\""));
    assert!(output.index_html.contains("href=\"#page-1\">Intro &amp; setup</a>"));
}

fn embedded(processed: Option<ProcessedFont>) -> FontSource {
    FontSource {
        name: "Embedded".to_owned(),
        embedded: Some(true),
        data: Some(vec![0, 1, 0, 0, 1]),
        used_unicode: vec!['A'],
        mapping_proven: true,
        processed,
    }
}

#[test]
fn writer_embeds_fonts_and_assigns_native_glyphs() {
    let mut document = document_with_text("A");
    document.pages[0].runs[0].font = Some(0);
    document.fonts.insert(embedded(None));
    let output = HtmlWriter::render(&document);
    assert!(output.document_css.contains("@font-face{font-family:'pdf-font-0';src:url('assets/font-0.ttf');}"));
    assert!(output.assets.contains(&("font-0.ttf".to_owned(), vec![0, 1, 0, 0, 1])));
    assert!(output.index_html.contains("font-family:'pdf-font-0',sans-serif"));
}

#[test]
fn writer_does_not_create_unsafe_uri_navigation() {
    let mut document = document_with_text("A");
    document.pages[0].links.push(link(LinkTarget::Uri("javascript:alert(1)".to_owned()), "0", "782", "10", "10"));
    let output = HtmlWriter::render(&document);
    assert!(output.index_html.contains("data-target=\"uri\" style="));
    assert!(!output.index_html.contains("href=\"javascript:"));
}

#[test]
fn writer_emits_all_pages_in_document_order() {
    let mut document = document_with_text("A");
    document.pages.push(page(2, vec![run("A", "72", "68")]));
    let output = HtmlWriter::render(&document);
    let first_page = output.index_html.find("id=\"page-1\"").unwrap();
    let second_page = output.index_html.find("id=\"page-2\"").unwrap();
    assert!(first_page < second_page);
    assert_eq!(output.index_html.matches("class=\"page\"").count(), 2);
}

#[test]
fn writer_renders_the_whole_page_markup() {
    let mut document = document_with_text("A&");
    document.pages[0].background = Some(RasterBackground { width: 2, height: 2, png: vec![137, 80, 78, 71] });
    document.pages[0].runs[0].offsets.push(OffsetMarkup { character_index: 1, amount: "-2.5".to_owned() });
    document.pages[0].runs[0].fill = None;
    document.pages[0].runs[0].render_mode = TextRenderMode::FillStroke;
    document.pages[0].runs[0].stroke = Some(Color { red: 255, green: 0, blue: 0, alpha: 128 });
    document.pages[0].links.push(link(LinkTarget::RemoteDestination, "1", "2", "3", "4"));
    let output = HtmlWriter::render(&document);
    assert_eq!(
        output.index_html,
        "<!doctype html><html lang=\"en\"><head><meta charset=\"utf-8\"><title>PDF</title><link rel=\"stylesheet\" href=\"document.css\"></head><body>\
<main id=\"page-container\" class=\"document\">\
<section id=\"page-1\" class=\"page\" data-page-no=\"1\" aria-label=\"Page 1\" style=\"width:612px;height:792px\"><div class=\"page-content\">\
<img class=\"page-background\" alt=\"\" src=\"assets/page-1.png\">\
<span class=\"text-run\" data-source=\"4\" style=\"left:72px;top:68px;font-family:sans-serif;font-size:12px;color:rgba(0, 0, 0, 1.0000);-webkit-text-stroke:1px rgba(255, 0, 0, 0.5020);\">A\
<span class=\"text-offset\" aria-hidden=\"true\" style=\"margin-left:-2.5px\"></span>&amp;</span>\
<a class=\"page-link\" aria-label=\"PDF link\" data-target=\"remote\" style=\"left:1px;top:2px;width:3px;height:4px\"></a>\
</div></section></main></body></html>"
    );
    assert_eq!(output.document_css, DOCUMENT_CSS);
    assert_eq!(output.assets, vec![("page-1.png".to_owned(), vec![137, 80, 78, 71])]);
}

fn font_job_failed(id: usize) -> DocumentDiagnostic {
    DocumentDiagnostic { scope: DiagnosticScope::Font(id), message: "could not start FontForge".to_owned() }
}

#[test]
fn processed_fonts_replace_the_embedded_data() {
    let mut document = document_with_text("A");
    document.pages[0].runs[0].font = Some(0);
    document.fonts.insert(embedded(Some(ProcessedFont {
        asset_name: "font-0.woff2".to_owned(),
        family_name: "pdf-font-0".to_owned(),
        data: vec![0x77, 0x4F, 0x46, 0x32],
        glyph_count: 1,
        advance_widths: vec![500],
    })));
    let output = HtmlWriter::render(&document);
    assert!(output.document_css.contains("@font-face{font-family:'pdf-font-0';src:url('assets/font-0.woff2');}"));
    assert_eq!(output.assets, vec![("font-0.woff2".to_owned(), vec![0x77, 0x4F, 0x46, 0x32])]);
    assert!(output.index_html.contains("font-family:'pdf-font-0',sans-serif"));
}

#[test]
fn runs_in_fonts_without_web_fonts_are_left_out() {
    let mut document = document_with_text("A");
    document.pages[0].runs[0].font = Some(0);
    document.fonts.insert(embedded(None));
    document.diagnostics.push(font_job_failed(0));
    let output = HtmlWriter::render(&document);
    assert!(!output.index_html.contains("text-run"));
    assert!(output.assets.is_empty());
    assert_eq!(output.document_css, DOCUMENT_CSS);
    let mut without_data = embedded(None);
    without_data.data = None;
    let mut other = document_with_text("A");
    other.pages[0].runs[0].font = Some(0);
    other.fonts.insert(without_data);
    assert!(!HtmlWriter::render(&other).index_html.contains("text-run"));
}

fn text_pages(reconstruction: ReconstructionDecision) -> Vec<PageTextSummary> {
    vec![PageTextSummary {
        number: 3,
        text_objects: vec![TextObjectSummary { paint_order: 7, font: 0, reconstruction, unicode: vec![Some('A'), None] }],
    }]
}

#[test]
fn text_failures_stop_the_output() {
    let mut document = document_with_text("A");
    document.text = text_pages(ReconstructionDecision::TextFailure(TextFailureReason::MissingUnicode));
    match HtmlWriter::render_checked(&document) {
        Err(OutputError::TextIntegrity(error)) => {
            assert_eq!(
                error.failures,
                vec![TextIntegrityFailure {
                    page: 3,
                    paint_order: 7,
                    reason: TextFailureReason::MissingUnicode,
                    semantic_text_available: false,
                }]
            );
            assert_eq!(
                error.message(),
                "native text conversion failed; page 3 object 7: MissingUnicode (semantic text available: false)"
            );
        }
        _ => panic!("text failures must stop the output"),
    }
    document.text = text_pages(ReconstructionDecision::NativeText);
    let rendered = HtmlWriter::render_checked(&document);
    assert_eq!(rendered.ok(), Some(HtmlWriter::render(&document)));
}

#[test]
fn native_text_in_a_failed_embedded_font_is_a_failure() {
    let mut document = document_with_text("A");
    document.fonts.insert(embedded(None));
    document.text = text_pages(ReconstructionDecision::NativeText);
    assert!(HtmlWriter::render_checked(&document).is_ok());
    document.diagnostics.push(font_job_failed(0));
    match HtmlWriter::render_checked(&document) {
        Err(error) => {
            assert_eq!(
                error.message(),
                "native text conversion failed; page 3 object 7: FontProcessingFailed (semantic text available: false)"
            );
            match error {
                OutputError::TextIntegrity(error) => {
                    assert_eq!(error.failures.len(), 1);
                    assert_eq!(error.failures[0].reason, TextFailureReason::FontProcessingFailed);
                }
                _ => panic!("a font that failed processing is a text failure"),
            }
        }
        _ => panic!("a font that failed processing must stop the output"),
    }
}

#[test]
fn output_errors_have_messages() {
    let error = OutputError::WriteFile(std::io::Error::new(std::io::ErrorKind::Other, "disk full"));
    assert_eq!(error.message(), "could not write output file: disk full");
    let error = OutputError::CreateDirectory(std::io::Error::new(std::io::ErrorKind::Other, "read-only"));
    assert_eq!(error.message(), "could not create output directory: read-only");
}
