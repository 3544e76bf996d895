use abolishpdfs::model::{ReconstructionDecision, TextFailureReason};

#[test]
fn missing_unicode_is_a_text_failure() {
    let decision = ReconstructionDecision::TextFailure(TextFailureReason::MissingUnicode);
    assert_eq!(decision, ReconstructionDecision::TextFailure(TextFailureReason::MissingUnicode));
    assert_ne!(decision, ReconstructionDecision::NativeText);
}
