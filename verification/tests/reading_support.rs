use rpdf::model::{HighlightMode, ReadingReliability, TextSupportSource, WarningCode};
use rpdf::reading::{build_reading_spans, native_text_quality, ReadingSupportService, TextQuality};

const GOOD_TEXT: &str = "This PDF contains readable study notes with sentences that have ordinary word lengths and enough alphabetic content to support follow along reading.";

#[test]
fn word_spans_take_the_first_twenty_four_words() {
    let text = (1..=30).map(|i| format!("w{i}")).collect::<Vec<_>>().join(" ");
    let spans = build_reading_spans(&text, HighlightMode::Word);
    assert_eq!(spans.len(), 24);
    assert_eq!(spans[0], "w1");
    assert_eq!(spans[23], "w24");
}

#[test]
fn line_spans_group_eight_words() {
    let text = (1..=20).map(|i| format!("w{i}")).collect::<Vec<_>>().join("  ");
    let spans = build_reading_spans(&text, HighlightMode::Line);
    assert_eq!(
        spans,
        vec![
            "w1 w2 w3 w4 w5 w6 w7 w8",
            "w9 w10 w11 w12 w13 w14 w15 w16",
            "w17 w18 w19 w20",
        ]
    );
}

#[test]
fn line_spans_stop_after_sixteen_lines() {
    let text = (1..=200).map(|i| format!("w{i}")).collect::<Vec<_>>().join(" ");
    let spans = build_reading_spans(&text, HighlightMode::Line);
    assert_eq!(spans.len(), 16);
    assert_eq!(spans[15], "w121 w122 w123 w124 w125 w126 w127 w128");
}

#[test]
fn sentence_spans_are_trimmed_and_non_empty() {
    let spans = build_reading_spans(" First one.  Second!?  third ", HighlightMode::Sentence);
    assert_eq!(spans, vec!["First one", "Second", "third"]);
    let many = "a. ".repeat(20);
    assert_eq!(build_reading_spans(&many, HighlightMode::Sentence).len(), 12);
}

#[test]
fn manual_fallback_is_one_span_of_at_most_120_chars() {
    let text = "x".repeat(300);
    let spans = build_reading_spans(&text, HighlightMode::ManualFallback);
    assert_eq!(spans.len(), 1);
    assert_eq!(spans[0].chars().count(), 120);
    assert_eq!(build_reading_spans("", HighlightMode::ManualFallback), vec![String::new()]);
}

#[test]
fn quality_thresholds() {
    assert_eq!(native_text_quality(""), TextQuality::Unusable);
    assert_eq!(native_text_quality(GOOD_TEXT), TextQuality::Good);
    assert!(TextQuality::Weak.is_usable());
    assert!(!TextQuality::Unusable.is_usable());
    assert_eq!(TextQuality::Good.reliability(), ReadingReliability::Reliable);
    assert_eq!(TextQuality::Weak.reliability(), ReadingReliability::BestEffort);
    assert_eq!(TextQuality::Unusable.reliability(), ReadingReliability::Unreliable);
}

#[test]
fn resolution_prefers_native_text() {
    let service = ReadingSupportService;
    let r = service.resolve_reading_support(GOOD_TEXT, "ignored", HighlightMode::Word);
    assert_eq!(r.text_source, TextSupportSource::NativePdfText);
    assert_eq!(r.reliability, ReadingReliability::Reliable);
    assert_eq!(r.effective_highlight_mode, HighlightMode::Word);
    assert!(r.warning.is_none());
    assert_eq!(r.spans.len(), 22);
}

#[test]
fn resolution_falls_back_to_ocr() {
    let service = ReadingSupportService;
    let r = service.resolve_reading_support("figure 1", GOOD_TEXT, HighlightMode::Word);
    assert_eq!(r.text_source, TextSupportSource::OcrDerivedText);
    assert_eq!(r.reliability, ReadingReliability::BestEffort);
    assert_eq!(r.effective_highlight_mode, HighlightMode::ManualFallback);
    assert_eq!(r.spans.len(), 1);
    let warning = r.warning.expect("warning");
    assert_eq!(warning.code, WarningCode::OcrFallbackUsed);
    assert_eq!(
        warning.message,
        "Native PDF text was too weak, so offline OCR fallback was used. Highlighting is running in manual fallback mode."
    );
}

#[test]
fn resolution_reports_unavailable_text() {
    let service = ReadingSupportService;
    let r = service.resolve_reading_support("", "1 2 3", HighlightMode::Sentence);
    assert_eq!(r.text_source, TextSupportSource::Unavailable);
    assert_eq!(r.reliability, ReadingReliability::Unreliable);
    assert_eq!(r.effective_highlight_mode, HighlightMode::ManualFallback);
    assert!(r.spans.is_empty());
    let warning = r.warning.expect("warning");
    assert_eq!(warning.code, WarningCode::ReadingSupportUnavailable);
    assert_eq!(
        warning.message,
        "Native PDF text was too weak and offline OCR could not recover usable reading text."
    );
}

#[test]
fn page_count_counts_page_markers() {
    let service = ReadingSupportService;
    assert_eq!(service.best_effort_pdf_page_count(None), 1);
    assert_eq!(service.best_effort_pdf_page_count(Some(b"no pages here")), 1);
    let pdf = b"<< /Type /Pages >> << /Type /Page >>\xff\xfe << /Type /Page >>";
    assert_eq!(service.best_effort_pdf_page_count(Some(pdf)), 3);
}

#[test]
fn extraction_prefers_tool_output() {
    let service = ReadingSupportService;
    assert_eq!(
        service.best_effort_extract_pdf_text(Some(b"  hello \n world "), Some(b"raw")),
        "hello world"
    );
    assert_eq!(
        service.best_effort_extract_pdf_text(Some(b"   "), Some(b"BT\x00(Hi)\nTj\x7f ET")),
        "BT (Hi) Tj ET"
    );
    assert_eq!(service.best_effort_extract_pdf_text(None, None), "");
    assert_eq!(service.best_effort_extract_pdf_text(Some(b"caf\xc3\xa9 \xff ok"), None), "caf\u{e9} \u{fffd} ok");
}

#[test]
fn file_bytes_are_needed_only_without_tool_text() {
    let service = ReadingSupportService;
    assert!(service.needs_pdf_bytes(None));
    assert!(service.needs_pdf_bytes(Some(b" \n\t ")));
    assert!(!service.needs_pdf_bytes(Some(b"page text")));
}

#[test]
fn ocr_pages_are_normalized_and_joined() {
    let service = ReadingSupportService;
    let pages = vec![" page\none ".to_string(), "  ".to_string(), "page two".to_string()];
    assert_eq!(service.combine_ocr_page_texts(&pages), "page one page two");
    assert_eq!(service.combine_ocr_page_texts(&Vec::new()), "");
}

#[test]
fn line_spans_read_back_as_the_first_words() {
    let words: Vec<String> = (0..130).map(|i| format!("w{i}")).collect();
    let text = words.join(" \n ");
    let spans = build_reading_spans(&text, HighlightMode::Line);
    assert_eq!(spans.len(), 16);
    assert_eq!(spans[0], "w0 w1 w2 w3 w4 w5 w6 w7");
    let read_back: Vec<String> = spans.join(" ").split_whitespace().map(str::to_string).collect();
    assert_eq!(read_back, words[..128].to_vec());

    let short = build_reading_spans("one two three four five six seven eight nine", HighlightMode::Line);
    assert_eq!(short, vec!["one two three four five six seven eight".to_string(), "nine".to_string()]);
}

#[test]
fn combined_ocr_text_is_already_normalized() {
    let service = ReadingSupportService;
    let pages = vec!["  one\ttwo \n".to_string(), " \n ".to_string(), "three   four".to_string()];
    let combined = service.combine_ocr_page_texts(&pages);
    assert_eq!(combined, "one two three four");
    assert_eq!(combined.split_whitespace().collect::<Vec<_>>().join(" "), combined);
}
