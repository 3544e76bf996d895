use abolishpdfs::fonts::worker::{
    asset_name, check_source, complete_job, family_name, is_supported_font, poll_action, unicode_argument,
    validate_report, PollAction,
};
use abolishpdfs::fonts::{FontJobError, FontOutputFormat, WorkerConfig, WorkerReport};
use abolishpdfs::model::FontSource;

fn source() -> FontSource {
    FontSource {
        name: "Example".to_owned(),
        embedded: Some(true),
        data: Some(vec![0, 1, 0, 0]),
        used_unicode: vec!['A'],
        mapping_proven: true,
        processed: None,
    }
}

fn report(family: &str, glyph_count: usize, widths: Vec<u16>) -> WorkerReport {
    WorkerReport { family_name: family.to_owned(), glyph_count, advance_widths: widths }
}

#[test]
fn config_defaults_to_woff2_and_ten_seconds() {
    let config = WorkerConfig::new("fontforge");
    assert_eq!(config.executable, "fontforge");
    assert_eq!(config.output_format, FontOutputFormat::Woff2);
    assert_eq!(config.timeout_millis, 10_000);
    let config = config.with_format(FontOutputFormat::Woff);
    assert_eq!(config.output_format, FontOutputFormat::Woff);
    assert_eq!(config.executable, "fontforge");
}

#[test]
fn formats_have_extensions_and_signatures() {
    assert_eq!(FontOutputFormat::Woff2.extension(), "woff2");
    assert_eq!(FontOutputFormat::Woff.extension(), "woff");
    assert!(FontOutputFormat::Woff2.has_signature(b"wOF2fake-font"));
    assert!(!FontOutputFormat::Woff2.has_signature(b"wOFFfake-font"));
    assert!(FontOutputFormat::Woff.has_signature(b"wOFF"));
    assert!(!FontOutputFormat::Woff.has_signature(b"not-a-web-font"));
    assert!(!FontOutputFormat::Woff2.has_signature(b"wOF"));
}

#[test]
fn only_truetype_and_cff_fonts_are_supported() {
    assert!(is_supported_font(&[0, 1, 0, 0]));
    assert!(is_supported_font(b"OTTO and more"));
    assert!(!is_supported_font(b"true"));
    assert!(!is_supported_font(&[0, 1, 0]));
}

#[test]
fn check_source_rejects_unproven_mapping_before_starting() {
    let mut unproven = source();
    unproven.mapping_proven = false;
    assert!(matches!(check_source(&unproven), Err(FontJobError::UnprovenMapping)));
}

#[test]
fn check_source_reports_missing_and_unsupported_data() {
    let mut missing = source();
    missing.data = None;
    assert!(matches!(check_source(&missing), Err(FontJobError::MissingData)));
    let mut unsupported = source();
    unsupported.data = Some(b"wOF2".to_vec());
    assert!(matches!(check_source(&unsupported), Err(FontJobError::UnsupportedFormat)));
    let accepted = source();
    assert_eq!(check_source(&accepted).unwrap(), &[0, 1, 0, 0]);
}

#[test]
fn job_names_follow_the_font_id() {
    assert_eq!(family_name(3), "pdf-font-3");
    assert_eq!(asset_name(3, FontOutputFormat::Woff2), "font-3.woff2");
    assert_eq!(asset_name(41, FontOutputFormat::Woff), "font-41.woff");
    assert_eq!(unicode_argument(&['A', 'é', '\u{1F600}']), "65,233,128512");
    assert_eq!(unicode_argument(&[]), "");
}

#[test]
fn reports_must_match_the_request() {
    assert!(validate_report(&report("pdf-font-3", 2, vec![500, 600]), "pdf-font-3", 1).is_ok());
    for bad in [
        report("pdf-font-4", 2, vec![500, 600]),
        report("pdf-font-3", 0, vec![]),
        report("pdf-font-3", 2, vec![500]),
    ] {
        match validate_report(&bad, "pdf-font-3", 1) {
            Err(FontJobError::InvalidResponse(message)) => {
                assert_eq!(message, "family, glyph count, or metrics do not match the request")
            }
            other => panic!("unexpected {other:?}"),
        }
    }
}

#[test]
fn completed_job_carries_the_generated_font() {
    let result = complete_job(
        3,
        FontOutputFormat::Woff2,
        Some(b"wOF2fake-font".to_vec()),
        Ok(report("pdf-font-3", 2, vec![500, 600])),
        1,
    )
    .unwrap();
    assert_eq!(result.font.asset_name, "font-3.woff2");
    assert_eq!(result.font.family_name, "pdf-font-3");
    assert_eq!(result.font.glyph_count, 2);
    assert_eq!(result.font.advance_widths, vec![500, 600]);
    assert_eq!(result.font.data, b"wOF2fake-font".to_vec());
    assert!(matches!(
        complete_job(3, FontOutputFormat::Woff2, Some(b"wOF2".to_vec()), Ok(report("other", 2, vec![500, 600])), 1),
        Err(FontJobError::InvalidResponse(_))
    ));
}

#[test]
fn invalid_generated_assets_are_refused() {
    let good = || Ok(report("pdf-font-3", 2, vec![500, 600]));
    for output in [None, Some(b"not-a-web-font".to_vec()), Some(b"wOFFfont".to_vec()), Some(b"wOF".to_vec())] {
        assert!(matches!(
            complete_job(3, FontOutputFormat::Woff2, output, good(), 1),
            Err(FontJobError::InvalidOutput)
        ));
    }
    assert!(complete_job(3, FontOutputFormat::Woff, Some(b"wOFFfont".to_vec()), good(), 1).is_ok());
}

#[test]
fn unreadable_reports_are_invalid_responses() {
    match complete_job(3, FontOutputFormat::Woff2, Some(b"wOF2".to_vec()), Err("missing response file".to_owned()), 1) {
        Err(FontJobError::InvalidResponse(message)) => assert_eq!(message, "missing response file"),
        other => panic!("unexpected {other:?}"),
    }
    assert!(matches!(
        complete_job(3, FontOutputFormat::Woff2, None, Err("missing response file".to_owned()), 1),
        Err(FontJobError::InvalidOutput)
    ));
}

#[test]
fn polling_decides_between_waiting_and_finishing() {
    assert_eq!(poll_action(Some(true), false), PollAction::Finished);
    assert_eq!(poll_action(Some(true), true), PollAction::Finished);
    assert_eq!(poll_action(Some(false), true), PollAction::Failed);
    assert_eq!(poll_action(None, true), PollAction::TimedOut);
    assert_eq!(poll_action(None, false), PollAction::Wait);
}

#[test]
fn font_job_errors_have_messages() {
    assert_eq!(FontJobError::MissingData.message(), "font has no embedded data");
    assert_eq!(FontJobError::UnsupportedFormat.message(), "font format is not supported by the FontForge pipeline");
    assert_eq!(FontJobError::UnprovenMapping.message(), "font mapping is not proven");
    assert_eq!(FontJobError::InvalidOutput.message(), "FontForge did not produce a valid web-font asset");
    assert_eq!(
        FontJobError::InvalidResponse("missing response file".to_owned()).message(),
        "FontForge response was invalid: missing response file"
    );
    assert_eq!(FontJobError::Process("crashed".to_owned()).message(), "FontForge exited unsuccessfully: crashed");
    assert_eq!(
        FontJobError::Timeout(std::time::Duration::from_secs(10)).message(),
        "FontForge job timed out after 10s"
    );
    let missing = std::io::Error::new(std::io::ErrorKind::NotFound, "missing-fontforge");
    assert_eq!(FontJobError::Start(missing).message(), "could not start FontForge: missing-fontforge");
    let denied = std::io::Error::new(std::io::ErrorKind::PermissionDenied, "denied");
    assert_eq!(FontJobError::Workspace(denied).message(), "could not create font job workspace: denied");
}
