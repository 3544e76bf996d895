use abolishpdfs::model::{
    ClipState, DiagnosticScope, DocumentDiagnostic, FontCatalog, FontSource, GraphicsKind, GraphicsObject,
    PaintOpacity, ProcessedFont, ReconstructionDecision, TextFailureReason, TextIntegrityFailure, TextObjectSummary,
    TextRenderMode,
};
use abolishpdfs::pdfium::extraction::{
    first_font_id, fonts_to_process, hides_for_background, needs_raster_background, page_number_of_index,
    page_text_failures, prove_font_mappings, reconstruction_decision, record_font_job, record_used_character,
    text_integrity_failure,
};
use abolishpdfs::pdfium::paint::paint_opacity;

fn font(embedded: Option<bool>, mapping_proven: bool) -> FontSource {
    FontSource {
        name: "Font".to_owned(),
        embedded,
        data: None,
        used_unicode: Vec::new(),
        mapping_proven,
        processed: None,
    }
}

fn failure(reason: TextFailureReason) -> ReconstructionDecision {
    ReconstructionDecision::TextFailure(reason)
}

#[test]
fn reconstruction_reasons_come_in_order() {
    let mut fonts = FontCatalog::new();
    fonts.insert(font(Some(false), false));
    fonts.insert(font(Some(true), false));
    fonts.insert(font(None, false));
    fonts.insert(font(Some(true), true));
    let fill = TextRenderMode::Fill;
    assert_eq!(reconstruction_decision(&[], &[], fill, &fonts, 0), failure(TextFailureReason::ExtractionError));
    assert_eq!(
        reconstruction_decision(&[Some('A'), None], &[false, false], TextRenderMode::Invisible, &fonts, 1),
        failure(TextFailureReason::MissingUnicode)
    );
    assert_eq!(
        reconstruction_decision(&[Some('A')], &[false], TextRenderMode::Unknown, &fonts, 1),
        failure(TextFailureReason::UnsupportedRenderMode)
    );
    assert_eq!(
        reconstruction_decision(&[Some('A'), Some('B')], &[true, false], fill, &fonts, 1),
        failure(TextFailureReason::MissingGeometry)
    );
    assert_eq!(
        reconstruction_decision(&[Some('A')], &[true], fill, &fonts, 1),
        failure(TextFailureReason::UnprovenFontMapping)
    );
    assert_eq!(
        reconstruction_decision(&[Some('A')], &[true], fill, &fonts, 2),
        failure(TextFailureReason::UnprovenFontMapping)
    );
    assert_eq!(reconstruction_decision(&[Some('A')], &[true], fill, &fonts, 0), ReconstructionDecision::NativeText);
    assert_eq!(reconstruction_decision(&[Some('A')], &[true], fill, &fonts, 3), ReconstructionDecision::NativeText);
    assert_eq!(reconstruction_decision(&[Some('A')], &[true], fill, &fonts, 7), ReconstructionDecision::NativeText);
}

#[test]
fn failures_record_page_order_and_semantic_text() {
    assert_eq!(text_integrity_failure(1, 4, &ReconstructionDecision::NativeText, &[Some('A')]), None);
    assert_eq!(
        text_integrity_failure(2, 7, &failure(TextFailureReason::MissingUnicode), &[Some('A'), None]),
        Some(TextIntegrityFailure {
            page: 2,
            paint_order: 7,
            reason: TextFailureReason::MissingUnicode,
            semantic_text_available: false
        })
    );
    assert_eq!(
        text_integrity_failure(3, 1, &failure(TextFailureReason::AmbiguousVisibility), &[Some('A')]),
        Some(TextIntegrityFailure {
            page: 3,
            paint_order: 1,
            reason: TextFailureReason::AmbiguousVisibility,
            semantic_text_available: true
        })
    );
}

fn sfnt_with_format_six_cmap() -> Vec<u8> {
    let mut cmap = vec![0, 0, 0, 1, 0, 3, 0, 1, 0, 0, 0, 12, 0, 6, 0, 14, 0, 0, 0, 65, 0, 2];
    cmap.extend_from_slice(&[0, 1, 0, 2]);
    let mut font = vec![0; 28];
    font[..4].copy_from_slice(&0x0001_0000u32.to_be_bytes());
    font[4..6].copy_from_slice(&1u16.to_be_bytes());
    font[12..16].copy_from_slice(b"cmap");
    font[20..24].copy_from_slice(&28u32.to_be_bytes());
    font[24..28].copy_from_slice(&u32::try_from(cmap.len()).unwrap().to_be_bytes());
    font.extend_from_slice(&cmap);
    font
}

#[test]
fn font_mappings_are_recomputed_for_every_font() {
    let mut fonts = FontCatalog::new();
    let mut proven = font(Some(true), false);
    proven.data = Some(sfnt_with_format_six_cmap());
    proven.used_unicode = vec!['A', 'B'];
    let mut unproven = proven.clone();
    unproven.used_unicode = vec!['A', 'C'];
    let mut without_data = font(Some(true), true);
    without_data.used_unicode = vec!['A'];
    fonts.insert(proven);
    fonts.insert(unproven);
    fonts.insert(without_data);
    prove_font_mappings(&mut fonts);
    assert!(fonts.fonts[&0].mapping_proven);
    assert!(!fonts.fonts[&1].mapping_proven);
    assert!(!fonts.fonts[&2].mapping_proven);
    assert_eq!(fonts.fonts.len(), 3);
    assert_eq!(fonts.fonts[&1].used_unicode, vec!['A', 'C']);
}

fn web_font() -> ProcessedFont {
    ProcessedFont {
        asset_name: "font-1.woff2".to_owned(),
        family_name: "pdf-font-1".to_owned(),
        data: vec![0x77, 0x4F, 0x46, 0x32],
        glyph_count: 2,
        advance_widths: vec![500, 600],
    }
}

#[test]
fn only_embedded_fonts_are_processed_in_id_order() {
    let mut fonts = FontCatalog::new();
    fonts.insert(font(Some(false), true));
    fonts.insert(font(Some(true), true));
    fonts.insert(font(None, true));
    fonts.insert(font(Some(true), false));
    assert_eq!(fonts_to_process(&fonts), vec![1, 3]);
    assert!(fonts_to_process(&FontCatalog::new()).is_empty());
}

#[test]
fn finished_font_jobs_attach_the_web_font() {
    let mut fonts = FontCatalog::new();
    fonts.insert(font(Some(false), true));
    fonts.insert(font(Some(true), true));
    let mut diagnostics = Vec::new();
    record_font_job(&mut fonts, &mut diagnostics, 1, Ok(web_font()));
    assert_eq!(fonts.fonts[&1].processed, Some(web_font()));
    assert_eq!(fonts.fonts[&0].processed, None);
    assert!(diagnostics.is_empty());
}

#[test]
fn failed_embedded_font_preserves_worker_error_and_state() {
    let mut fonts = FontCatalog::new();
    fonts.insert(font(Some(true), true));
    let mut diagnostics: Vec<DocumentDiagnostic> = Vec::new();
    record_font_job(&mut fonts, &mut diagnostics, 0, Err("could not start FontForge: missing-fontforge".to_owned()));
    assert_eq!(fonts.fonts[&0].processed, None);
    assert_eq!(diagnostics.len(), 1);
    assert_eq!(diagnostics[0].scope, DiagnosticScope::Font(0));
    assert!(diagnostics[0].message.contains("could not start FontForge"));
    let mut earlier = vec![DocumentDiagnostic { scope: DiagnosticScope::Document, message: "earlier".to_owned() }];
    record_font_job(&mut fonts, &mut earlier, 0, Err("timed out".to_owned()));
    assert_eq!(earlier[0].message, "earlier");
    assert_eq!(earlier[1], DocumentDiagnostic { scope: DiagnosticScope::Font(0), message: "timed out".to_owned() });
}

#[test]
fn graphics_require_a_raster_background() {
    let graphics = vec![GraphicsObject {
        paint_order: 0,
        kind: GraphicsKind::Path,
        bounds: None::<()>,
        active: Some(true),
        opacity: PaintOpacity::Unknown,
        clipping: ClipState::Unclipped,
        children: Vec::new(),
    }];
    assert!(needs_raster_background(&[], &graphics));
}

#[test]
fn text_only_pages_do_not_require_a_raster_background() {
    let graphics: Vec<GraphicsObject<()>> = Vec::new();
    assert!(!needs_raster_background(&[], &graphics));
    assert!(needs_raster_background(&[3], &graphics));
}

#[test]
fn destination_indices_become_page_numbers() {
    assert_eq!(page_number_of_index(0), Some(1));
    assert_eq!(page_number_of_index(41), Some(42));
    assert_eq!(page_number_of_index(-1), None);
    assert_eq!(page_number_of_index(i32::MAX), Some(i32::MAX as usize + 1));
}

#[test]
fn text_objects_fall_back_to_the_first_font() {
    let mut fonts = FontCatalog::new();
    assert_eq!(first_font_id(&fonts), 0);
    fonts.fonts.insert(7, font(Some(false), true));
    fonts.fonts.insert(3, font(Some(true), true));
    assert_eq!(first_font_id(&fonts), 3);
}

#[test]
fn used_characters_are_recorded_once() {
    let mut fonts = FontCatalog::new();
    fonts.insert(font(Some(true), false));
    record_used_character(&mut fonts, Some(0), Some('A'));
    record_used_character(&mut fonts, Some(0), Some('B'));
    record_used_character(&mut fonts, Some(0), Some('A'));
    record_used_character(&mut fonts, Some(0), None);
    record_used_character(&mut fonts, None, Some('C'));
    record_used_character(&mut fonts, Some(5), Some('D'));
    assert_eq!(fonts.fonts[&0].used_unicode, vec!['A', 'B']);
    assert_eq!(fonts.fonts.len(), 1);
}

fn object(paint_order: usize, reconstruction: ReconstructionDecision) -> TextObjectSummary {
    TextObjectSummary { paint_order, font: 0, reconstruction, unicode: vec![Some('A')] }
}

#[test]
fn failed_text_is_listed_with_its_paint_order() {
    let objects = vec![
        object(1, ReconstructionDecision::NativeText),
        object(4, failure(TextFailureReason::MissingGeometry)),
        object(6, ReconstructionDecision::NativeText),
        object(9, failure(TextFailureReason::UnprovenFontMapping)),
    ];
    let (failures, orders) = page_text_failures(2, &objects);
    assert_eq!(orders, vec![4, 9]);
    assert_eq!(
        failures,
        vec![
            TextIntegrityFailure {
                page: 2,
                paint_order: 4,
                reason: TextFailureReason::MissingGeometry,
                semantic_text_available: true,
            },
            TextIntegrityFailure {
                page: 2,
                paint_order: 9,
                reason: TextFailureReason::UnprovenFontMapping,
                semantic_text_available: true,
            },
        ]
    );
}

#[test]
fn the_background_hides_only_native_text() {
    assert!(hides_for_background(true, 2, &[1, 3]));
    assert!(!hides_for_background(true, 3, &[1, 3]));
    assert!(!hides_for_background(false, 2, &[1, 3]));
}

#[test]
fn paint_opacity_follows_fill_and_stroke_alpha() {
    let path = GraphicsKind::Path;
    assert_eq!(paint_opacity(path, true, Some(255), false, None), PaintOpacity::Opaque);
    assert_eq!(paint_opacity(path, true, Some(255), true, Some(255)), PaintOpacity::Opaque);
    assert_eq!(paint_opacity(path, true, Some(128), true, Some(255)), PaintOpacity::Transparent);
    assert_eq!(paint_opacity(path, false, None, true, Some(0)), PaintOpacity::Transparent);
    assert_eq!(paint_opacity(path, true, None, true, Some(255)), PaintOpacity::Unknown);
    assert_eq!(paint_opacity(path, false, Some(255), false, Some(255)), PaintOpacity::Unknown);
    assert_eq!(paint_opacity(GraphicsKind::Form, false, None, false, None), PaintOpacity::Opaque);
    assert_eq!(paint_opacity(GraphicsKind::Image, true, Some(255), false, None), PaintOpacity::Unknown);
}
