use rpdf::reading::{native_text_quality, normalize_extracted_text, TextQuality};

#[test]
fn normalizes_whitespace_for_quality_checks() {
    assert_eq!(
        normalize_extracted_text("alpha\n beta\tgamma"),
        "alpha beta gamma"
    );
}

#[test]
fn rejects_very_short_or_sparse_text() {
    assert_eq!(native_text_quality("figure 1"), TextQuality::Unusable);
}

#[test]
fn marks_reasonable_running_text_as_good() {
    let text = "This PDF contains readable study notes with sentences that have ordinary word lengths and enough alphabetic content to support follow along reading.";
    assert_eq!(native_text_quality(text), TextQuality::Good);
}

#[test]
fn marks_garbled_long_token_text_as_weak() {
    let text = "AABBCCDDEEFFGGHHIIJJKKLLMMNNOOPP syntheticcontentwithoutspaces repeatedtoken repeatedtoken repeatedtoken repeatedtoken repeatedtoken repeatedtoken repeatedtoken repeatedtoken repeatedtoken repeatedtoken";
    assert_eq!(native_text_quality(text), TextQuality::Weak);
}
