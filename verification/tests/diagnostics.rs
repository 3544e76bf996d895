use abolishpdfs::model::{TextFailureReason, TextIntegrityFailure};
use abolishpdfs::output::document::TextIntegrityError;

#[test]
fn text_integrity_error_lists_every_failure() {
    let error = TextIntegrityError {
        failures: vec![
            TextIntegrityFailure {
                page: 2,
                paint_order: 7,
                reason: TextFailureReason::MissingUnicode,
                semantic_text_available: false,
            },
            TextIntegrityFailure {
                page: 10,
                paint_order: 0,
                reason: TextFailureReason::CoveredByOpaquePaint,
                semantic_text_available: true,
            },
        ],
    };
    assert_eq!(
        error.message(),
        "native text conversion failed; page 2 object 7: MissingUnicode (semantic text available: false); page 10 object 0: CoveredByOpaquePaint (semantic text available: true)"
    );
    assert_eq!(TextIntegrityError { failures: Vec::new() }.message(), "native text conversion failed");
}
