//! Reading support for PDF mode: judging extracted text, cutting it into reading spans,
//! and choosing between native text and OCR text.
//!
//! Running `pdftotext`, `tesseract` and the speech backend, and reading files, are the
//! shell's work; the functions here take what those produced.

use crate::model::{
    HighlightMode, ReadingReliability, TextSupportSource, UserVisibleWarning, WarningCode,
};
use crate::text::{
    at_most, char_rows, char_utf8_width, join, join_range, normalize_whitespace,
    normalize_whitespace_chars, split_on, split_whitespace, str_chars, string_from_chars,
    string_views, strings_from_rows, trimmed_nonblank, trimmed_nonblank_pieces, utf8_len, words,
    is_sentence_end, occurs_at, join_chars,
};
use crate::speech::{utf8_lossy, utf8_lossy_text};
use vstd::prelude::*;

verus! {

broadcast use vstd::string::group_string_axioms;

// ---------------------------------------------------------------------------
// Specifications
// ---------------------------------------------------------------------------

/// How usable extracted text is for reading support.
#[derive(Debug, Clone, Copy, PartialEq, Eq, Structural)]
pub enum TextQuality {
    Unusable,
    Weak,
    Good,
}

/// ASCII letter.
pub open spec fn is_ascii_alpha(c: char) -> bool {
    ('a' <= c && c <= 'z') || ('A' <= c && c <= 'Z')
}

/// Number of ASCII letters in `s`.
pub open spec fn count_ascii_alpha(s: Seq<char>) -> nat
    decreases s.len(),
{
    if s.len() == 0 {
        0
    } else {
        count_ascii_alpha(s.drop_last()) + if is_ascii_alpha(s.last()) {
            1nat
        } else {
            0nat
        }
    }
}

/// Total UTF-8 byte length of the words.
pub open spec fn total_utf8_len(ws: Seq<Seq<char>>) -> nat
    decreases ws.len(),
{
    if ws.len() == 0 {
        0
    } else {
        total_utf8_len(ws.drop_last()) + utf8_len(ws.last())
    }
}

/// Number of words of at least 20 UTF-8 bytes.
pub open spec fn count_long_words(ws: Seq<Seq<char>>) -> nat
    decreases ws.len(),
{
    if ws.len() == 0 {
        0
    } else {
        count_long_words(ws.drop_last()) + if utf8_len(ws.last()) >= 20 {
            1nat
        } else {
            0nat
        }
    }
}

/// The quality of extracted text.  Text is unusable when, after whitespace
/// normalization, it has fewer than 12 words or fewer than 48 ASCII letters; it is weak
/// when the average word is longer than 9.5 bytes or more than a third of the words are
/// 20 bytes or longer; otherwise it is good.
pub open spec fn text_quality(text: Seq<char>) -> TextQuality {
    let n = normalize_whitespace(text);
    let ws = words(n);
    if n.len() == 0 {
        TextQuality::Unusable
    } else if ws.len() < 12 || count_ascii_alpha(n) < 48 {
        TextQuality::Unusable
    } else if 2 * total_utf8_len(ws) > 19 * ws.len() || count_long_words(ws) * 3 > ws.len() {
        TextQuality::Weak
    } else {
        TextQuality::Good
    }
}

/// The reliability that text of the given quality supports.
pub open spec fn reliability_of(q: TextQuality) -> ReadingReliability {
    match q {
        TextQuality::Good => ReadingReliability::Reliable,
        TextQuality::Weak => ReadingReliability::BestEffort,
        TextQuality::Unusable => ReadingReliability::Unreliable,
    }
}

/// Consecutive groups of eight words, each joined by single spaces.
pub open spec fn word_lines(ws: Seq<Seq<char>>) -> Seq<Seq<char>>
    decreases ws.len(),
{
    if ws.len() == 0 {
        seq![]
    } else if ws.len() <= 8 {
        seq![join(ws, seq![' '])]
    } else {
        seq![join(ws.take(8), seq![' '])] + word_lines(ws.skip(8))
    }
}

/// The reading spans of `text` in the given highlight mode: up to 24 words; up to 16
/// lines of eight words; up to 12 trimmed non-empty sentences (split at `.`, `!`, `?`);
/// or, in manual fallback, one span of the first 120 characters.
pub open spec fn reading_spans(text: Seq<char>, mode: HighlightMode) -> Seq<Seq<char>> {
    match mode {
        HighlightMode::Word => at_most(words(text), 24),
        HighlightMode::Line => at_most(word_lines(words(text)), 16),
        HighlightMode::Sentence => at_most(
            trimmed_nonblank(split_on(text, |c: char| is_sentence_end(c))),
            12,
        ),
        HighlightMode::ManualFallback => seq![at_most(text, 120)],
    }
}

// ---------------------------------------------------------------------------
// Text quality
// ---------------------------------------------------------------------------

impl TextQuality {
    /// Whether the text can be used at all.
    pub fn is_usable(self) -> (b: bool)
        ensures
            b == (self != TextQuality::Unusable),
    {
        !matches!(self, TextQuality::Unusable)
    }

    /// The reliability that text of this quality supports.
    pub fn reliability(self) -> (r: ReadingReliability)
        ensures
            r == reliability_of(self),
    {
        match self {
            TextQuality::Good => ReadingReliability::Reliable,
            TextQuality::Weak => ReadingReliability::BestEffort,
            TextQuality::Unusable => ReadingReliability::Unreliable,
        }
    }
}

/// Collapses every run of whitespace to a single space and drops leading and trailing
/// whitespace.
pub fn normalize_extracted_text(text: &str) -> (out: String)
    ensures
        out@ == normalize_whitespace(text@),
{
    let chars = str_chars(text);
    let normalized = normalize_whitespace_chars(&chars);
    string_from_chars(&normalized)
}

/// UTF-8 byte length of a character vector.
pub fn utf8_len_chars(w: &Vec<char>) -> (n: u128)
    ensures
        n == utf8_len(w@),
        n <= 4 * w@.len(),
{
    let mut n: u128 = 0;
    let mut i: usize = 0;
    while i < w.len()
        invariant
            i <= w.len(),
            n == utf8_len(w@.take(i as int)),
            n <= 4 * i,
        decreases w.len() - i,
    {
        assert(w@.take(i + 1).drop_last() == w@.take(i as int));
        n = n + char_utf8_width(w[i]) as u128;
        i = i + 1;
    }
    assert(w@.take(w.len() as int) == w@);
    n
}

/// Cap on the running byte total: any value above it already decides the average test.
pub const BYTE_TOTAL_CAP: u128 = 0x1_0000_0000_0000_0000_0000_0000;

/// Judges how usable extracted text is for reading support.
pub fn native_text_quality(text: &str) -> (q: TextQuality)
    ensures
        q == text_quality(text@),
{
    let chars = str_chars(text);
    let normalized = normalize_whitespace_chars(&chars);
    if normalized.len() == 0 {
        return TextQuality::Unusable;
    }
    let ws = split_whitespace(&normalized);
    let word_count = ws.len();
    let mut alpha_count: usize = 0;
    let mut i: usize = 0;
    while i < normalized.len()
        invariant
            i <= normalized.len(),
            alpha_count == count_ascii_alpha(normalized@.take(i as int)),
            alpha_count <= i,
        decreases normalized.len() - i,
    {
        assert(normalized@.take(i + 1).drop_last() == normalized@.take(i as int));
        let c = normalized[i];
        if ('a' <= c && c <= 'z') || ('A' <= c && c <= 'Z') {
            alpha_count = alpha_count + 1;
        }
        i = i + 1;
    }
    assert(normalized@.take(normalized.len() as int) == normalized@);
    let ghost rows = char_rows(ws@);
    let mut total: u128 = 0;
    let mut long_count: usize = 0;
    let mut k: usize = 0;
    while k < word_count
        invariant
            k <= word_count == ws.len(),
            rows == char_rows(ws@),
            total == (if total_utf8_len(rows.take(k as int)) < BYTE_TOTAL_CAP {
                total_utf8_len(rows.take(k as int))
            } else {
                BYTE_TOTAL_CAP as nat
            }),
            long_count == count_long_words(rows.take(k as int)),
            long_count <= k,
        decreases word_count - k,
    {
        assert(rows.take(k + 1).drop_last() == rows.take(k as int));
        assert(rows.take(k + 1).last() == ws@[k as int]@);
        let len = utf8_len_chars(&ws[k]);
        assert(ws@[k as int].len() <= usize::MAX);
        assert(len < BYTE_TOTAL_CAP);
        if len >= 20 {
            long_count = long_count + 1;
        }
        if total >= BYTE_TOTAL_CAP - len {
            total = BYTE_TOTAL_CAP;
        } else {
            total = total + len;
        }
        k = k + 1;
    }
    assert(rows.take(word_count as int) == rows);
    if word_count < 12 || alpha_count < 48 {
        return TextQuality::Unusable;
    }
    if 2 * total > 19 * (word_count as u128) || (long_count as u128) * 3 > word_count as u128 {
        TextQuality::Weak
    } else {
        TextQuality::Good
    }
}

// ---------------------------------------------------------------------------
// Reading spans
// ---------------------------------------------------------------------------

/// Keeps at most the first `k` rows.
fn keep_first(rows: &mut Vec<Vec<char>>, k: usize)
    ensures
        char_rows(final(rows)@) == at_most(char_rows(old(rows)@), k as nat),
{
    let ghost before = char_rows(rows@);
    rows.truncate(k);
    assert(char_rows(rows@) =~= at_most(before, k as nat));
}

/// Groups the words into lines of eight, keeping at most `max_lines` lines.
fn word_lines_exec(ws: &Vec<Vec<char>>, max_lines: usize) -> (out: Vec<Vec<char>>)
    ensures
        char_rows(out@) == at_most(word_lines(char_rows(ws@)), max_lines as nat),
{
    let ghost all = char_rows(ws@);
    let n = ws.len();
    let mut sep: Vec<char> = Vec::new();
    sep.push(' ');
    assert(sep@ == seq![' ']);
    let mut out: Vec<Vec<char>> = Vec::new();
    let mut i: usize = 0;
    assert(all.skip(0) == all);
    while i < n && out.len() < max_lines
        invariant
            i <= n == ws.len(),
            all == char_rows(ws@),
            sep@ == seq![' '],
            out.len() <= max_lines,
            char_rows(out@) + word_lines(all.skip(i as int)) == word_lines(all),
        decreases n - i,
    {
        let rest = n - i;
        let end = if rest <= 8 {
            n
        } else {
            i + 8
        };
        let line = join_range(ws, i, end, &sep);
        let ghost tail = all.skip(i as int);
        if rest <= 8 {
            assert(tail == all.subrange(i as int, end as int));
            assert(word_lines(tail) == seq![join(tail, seq![' '])]);
            assert(all.skip(end as int) =~= Seq::<Seq<char>>::empty());
        } else {
            assert(tail.take(8) == all.subrange(i as int, end as int));
            assert(tail.skip(8) == all.skip(end as int));
            assert(word_lines(tail) == seq![join(tail.take(8), seq![' '])] + word_lines(
                tail.skip(8),
            ));
        }
        let ghost prev = char_rows(out@);
        out.push(line);
        assert(char_rows(out@) =~= prev.push(line@));
        assert(prev.push(line@) + word_lines(all.skip(end as int)) =~= prev + word_lines(tail));
        i = end;
    }
    if i >= n {
        assert(all.skip(i as int) =~= Seq::<Seq<char>>::empty());
        assert(char_rows(out@) + Seq::<Seq<char>>::empty() == char_rows(out@));
    } else {
        assert(word_lines(all).take(max_lines as int) =~= char_rows(out@));
    }
    out
}

/// The reading spans of `text` in the given highlight mode.
pub fn build_reading_spans(text: &str, mode: HighlightMode) -> (spans: Vec<String>)
    ensures
        string_views(spans@) == reading_spans(text@, mode),
{
    let chars = str_chars(text);
    let rows = match mode {
        HighlightMode::Word => {
            let mut ws = split_whitespace(&chars);
            keep_first(&mut ws, 24);
            ws
        },
        HighlightMode::Line => {
            let ws = split_whitespace(&chars);
            word_lines_exec(&ws, 16)
        },
        HighlightMode::Sentence => {
            let mut sentences = trimmed_nonblank_pieces(&chars, true);
            keep_first(&mut sentences, 12);
            sentences
        },
        HighlightMode::ManualFallback => {
            let mut head: Vec<char> = Vec::new();
            let mut i: usize = 0;
            while i < chars.len() && i < 120
                invariant
                    i <= chars.len(),
                    i <= 120,
                    head@ == chars@.take(i as int),
                decreases chars.len() - i,
            {
                head.push(chars[i]);
                i = i + 1;
                assert(head@ == chars@.take(i as int));
            }
            if chars.len() <= 120 {
                assert(i == chars.len());
                assert(chars@.take(i as int) == chars@);
                assert(head@ == at_most(chars@, 120));
            } else {
                assert(i == 120);
                assert(head@ == at_most(chars@, 120));
            }
            let mut rows: Vec<Vec<char>> = Vec::new();
            rows.push(head);
            assert(char_rows(rows@) =~= seq![at_most(text@, 120)]);
            rows
        },
    };
    strings_from_rows(&rows)
}

// ---------------------------------------------------------------------------
// Reading support resolution
// ---------------------------------------------------------------------------

/// Finds reading text for a PDF and cuts it into spans.
#[derive(Debug)]
pub struct ReadingSupportService;

/// The outcome of looking for reading text.
#[derive(Debug, Clone, PartialEq, Eq)]
pub struct ReadingSupportResolution {
    pub spans: Vec<String>,
    pub text_source: TextSupportSource,
    pub reliability: ReadingReliability,
    pub effective_highlight_mode: HighlightMode,
    pub warning: Option<UserVisibleWarning>,
}

/// The message shown when OCR text replaced weak native text.
pub open spec fn ocr_fallback_message() -> Seq<char> {
    "Native PDF text was too weak, so offline OCR fallback was used. Highlighting is running in manual fallback mode."@
}

/// The message shown when neither native text nor OCR gave usable text.
pub open spec fn reading_unavailable_message() -> Seq<char> {
    "Native PDF text was too weak and offline OCR could not recover usable reading text."@
}

/// The page marker whose occurrences estimate a PDF's page count: the bytes of `/Type /Page`.
pub open spec fn page_marker() -> Seq<u8> {
    seq![0x2Fu8, 0x54u8, 0x79u8, 0x70u8, 0x65u8, 0x20u8, 0x2Fu8, 0x50u8, 0x61u8, 0x67u8, 0x65u8]
}

/// Number of positions before `end` at which `needle` occurs in `hay`.
pub open spec fn occurrences_before<A>(hay: Seq<A>, needle: Seq<A>, end: int) -> nat
    decreases end,
{
    if end <= 0 {
        0
    } else {
        occurrences_before(hay, needle, end - 1) + if occurs_at(hay, needle, end - 1) {
            1nat
        } else {
            0nat
        }
    }
}

/// The page count estimated from a PDF file's bytes: the number of `/Type /Page`
/// markers (which also match `/Type /Pages`), at least 1; 1 when the file could not be
/// read.  Two markers never overlap, so counting positions counts the matches that
/// `str::matches` yields; replacing invalid UTF-8 never touches ASCII bytes, so
/// counting in the bytes counts in the lossily decoded text.
pub open spec fn estimated_page_count(pdf_bytes: Option<Seq<u8>>) -> nat {
    match pdf_bytes {
        None => 1,
        Some(b) => {
            let n = occurrences_before(b, page_marker(), b.len() as int);
            if n == 0 {
                1
            } else {
                n
            }
        },
    }
}

/// The character a PDF byte stands for in the raw-text fallback: printable ASCII is kept,
/// every other byte becomes a space.
pub open spec fn printable_char(b: u8) -> char {
    if 32 <= b && b <= 126 {
        b as char
    } else {
        ' '
    }
}

/// Text extracted from a PDF: `pdftotext`'s output, normalized, when it holds any text;
/// else the printable bytes of the file, normalized; else nothing.
/// Whether `pdftotext`'s standard output (`None` when the tool did not run or failed)
/// holds any text.
pub open spec fn tool_output_is_usable(tool_output: Option<Seq<u8>>) -> bool {
    tool_output is Some && normalize_whitespace(utf8_lossy_text(tool_output->0)).len() > 0
}

pub open spec fn extracted_text(tool_output: Option<Seq<u8>>, pdf_bytes: Option<Seq<u8>>) -> Seq<
    char,
> {
    if tool_output_is_usable(tool_output) {
        normalize_whitespace(utf8_lossy_text(tool_output->0))
    } else {
        match pdf_bytes {
            None => seq![],
            Some(b) => normalize_whitespace(Seq::new(b.len(), |i: int| printable_char(b[i]))),
        }
    }
}

/// The normalized page texts that are not empty, in order.
pub open spec fn nonempty_normalized(pages: Seq<Seq<char>>) -> Seq<Seq<char>>
    decreases pages.len(),
{
    if pages.len() == 0 {
        seq![]
    } else {
        let prev = nonempty_normalized(pages.drop_last());
        let n = normalize_whitespace(pages.last());
        if n.len() > 0 {
            prev.push(n)
        } else {
            prev
        }
    }
}

/// The text of several OCR'd pages: each normalized, empty ones left out, joined by spaces.
pub open spec fn combined_ocr_text(pages: Seq<Seq<char>>) -> Seq<char> {
    join(nonempty_normalized(pages), seq![' '])
}

/// Whether `needle` occurs in `hay` at `p`.
fn bytes_occur_at(hay: &[u8], needle: &Vec<u8>, p: usize) -> (b: bool)
    ensures
        b == occurs_at(hay@, needle@, p as int),
{
    if p > hay.len() || needle.len() > hay.len() - p {
        return false;
    }
    let mut k: usize = 0;
    while k < needle.len()
        invariant
            p + needle.len() <= hay.len(),
            k <= needle.len(),
            forall|q: int| 0 <= q < k ==> hay@[p + q] == needle@[q],
        decreases needle.len() - k,
    {
        if hay[p + k] != needle[k] {
            assert(hay@.subrange(p as int, p + needle.len())[k as int] == hay@[p + k]);
            return false;
        }
        k = k + 1;
    }
    assert(hay@.subrange(p as int, p + needle.len()) =~= needle@);
    true
}

impl ReadingSupportService {
    /// Estimates the page count of a PDF from its bytes (`None` when the file could not be
    /// read).
    pub fn best_effort_pdf_page_count(&self, pdf_bytes: Option<&[u8]>) -> (n: usize)
        ensures
            n == estimated_page_count(
                match pdf_bytes {
                    Some(b) => Some(b@),
                    None => None,
                },
            ),
    {
        let bytes = match pdf_bytes {
            None => return 1,
            Some(b) => b,
        };
        let mut marker: Vec<u8> = Vec::new();
        marker.push(0x2F);
        marker.push(0x54);
        marker.push(0x79);
        marker.push(0x70);
        marker.push(0x65);
        marker.push(0x20);
        marker.push(0x2F);
        marker.push(0x50);
        marker.push(0x61);
        marker.push(0x67);
        marker.push(0x65);
        assert(marker@ =~= page_marker());
        let mut count: usize = 0;
        let mut p: usize = 0;
        while p < bytes.len()
            invariant
                p <= bytes.len(),
                marker@ == page_marker(),
                count == occurrences_before(bytes@, page_marker(), p as int),
                count <= p,
            decreases bytes.len() - p,
        {
            if bytes_occur_at(bytes, &marker, p) {
                count = count + 1;
            }
            p = p + 1;
        }
        if count == 0 {
            1
        } else {
            count
        }
    }

    /// Whether the file's own bytes are needed for the text of a PDF: `pdftotext`'s
    /// standard output (`None` when the tool did not run or failed) holds no text.
    pub fn needs_pdf_bytes(&self, tool_output: Option<&[u8]>) -> (needed: bool)
        ensures
            needed == !tool_output_is_usable(
                match tool_output {
                    Some(o) => Some(o@),
                    None => None,
                },
            ),
    {
        match tool_output {
            None => true,
            Some(output) => normalize_extracted_text(utf8_lossy(output).as_str()).as_str().is_empty(),
        }
    }

    /// Text of a PDF, from `pdftotext`'s output (`None` when the tool did not run or
    /// failed) or else from the file's bytes (`None` when they could not be read).
    pub fn best_effort_extract_pdf_text(
        &self,
        tool_output: Option<&[u8]>,
        pdf_bytes: Option<&[u8]>,
    ) -> (text: String)
        ensures
            text@ == extracted_text(
                match tool_output {
                    Some(o) => Some(o@),
                    None => None,
                },
                match pdf_bytes {
                    Some(b) => Some(b@),
                    None => None,
                },
            ),
    {
        if let Some(output) = tool_output {
            let normalized = normalize_extracted_text(utf8_lossy(output).as_str());
            if !normalized.as_str().is_empty() {
                return normalized;
            }
        }
        let bytes = match pdf_bytes {
            None => return String::new(),
            Some(b) => b,
        };
        let mut printable: Vec<char> = Vec::new();
        let mut i: usize = 0;
        while i < bytes.len()
            invariant
                i <= bytes.len(),
                printable@ =~= Seq::new(i as nat, |j: int| printable_char(bytes@[j])),
            decreases bytes.len() - i,
        {
            let b = bytes[i];
            let c = if 32 <= b && b <= 126 {
                b as char
            } else {
                ' '
            };
            printable.push(c);
            i = i + 1;
        }
        let normalized = normalize_whitespace_chars(&printable);
        string_from_chars(&normalized)
    }

    /// The reading spans of `text` in the given highlight mode.
    pub fn build_reading_spans(&self, text: &str, mode: HighlightMode) -> (spans: Vec<String>)
        ensures
            string_views(spans@) == reading_spans(text@, mode),
    {
        build_reading_spans(text, mode)
    }

    /// The text of several OCR'd pages, normalized and joined.
    pub fn combine_ocr_page_texts(&self, pages: &Vec<String>) -> (text: String)
        ensures
            text@ == combined_ocr_text(string_views(pages@)),
    {
        let mut kept: Vec<Vec<char>> = Vec::new();
        let mut i: usize = 0;
        while i < pages.len()
            invariant
                i <= pages.len(),
                char_rows(kept@) == nonempty_normalized(string_views(pages@).take(i as int)),
            decreases pages.len() - i,
        {
            let ghost all = string_views(pages@);
            assert(all.take(i + 1).drop_last() == all.take(i as int));
            assert(all.take(i + 1).last() == pages@[i as int]@);
            let chars = str_chars(pages[i].as_str());
            let normalized = normalize_whitespace_chars(&chars);
            if normalized.len() > 0 {
                let ghost prev = char_rows(kept@);
                kept.push(normalized);
                assert(char_rows(kept@) =~= prev.push(normalized@));
            }
            i = i + 1;
        }
        assert(string_views(pages@).take(pages.len() as int) == string_views(pages@));
        let mut sep: Vec<char> = Vec::new();
        sep.push(' ');
        assert(sep@ == seq![' ']);
        let joined = join_chars(&kept, &sep);
        string_from_chars(&joined)
    }

    /// Chooses the reading text: native text when it is usable, in the preferred highlight
    /// mode; else the OCR text when it is usable, in manual fallback mode with a warning;
    /// else no spans, with a warning.  `ocr_text` is looked at only when the native text
    /// is unusable.
    pub fn resolve_reading_support(
        &self,
        native_text: &str,
        ocr_text: &str,
        preferred_mode: HighlightMode,
    ) -> (r: ReadingSupportResolution)
        ensures
            (r.warning is None) == (r.text_source == TextSupportSource::NativePdfText),
            r.text_source != TextSupportSource::NativePdfText ==> r.effective_highlight_mode
                == HighlightMode::ManualFallback,
            (r.spans@.len() == 0) == (r.text_source == TextSupportSource::Unavailable),
            text_quality(native_text@) != TextQuality::Unusable ==> {
                &&& string_views(r.spans@) == reading_spans(native_text@, preferred_mode)
                &&& r.text_source == TextSupportSource::NativePdfText
                &&& r.reliability == reliability_of(text_quality(native_text@))
                &&& r.effective_highlight_mode == preferred_mode
                &&& r.warning is None
            },
            text_quality(native_text@) == TextQuality::Unusable && text_quality(ocr_text@)
                != TextQuality::Unusable ==> {
                &&& string_views(r.spans@) == reading_spans(
                    ocr_text@,
                    HighlightMode::ManualFallback,
                )
                &&& r.text_source == TextSupportSource::OcrDerivedText
                &&& r.reliability == ReadingReliability::BestEffort
                &&& r.effective_highlight_mode == HighlightMode::ManualFallback
                &&& r.warning matches Some(w) && w.code == WarningCode::OcrFallbackUsed
                    && w.message@ == ocr_fallback_message()
            },
            text_quality(native_text@) == TextQuality::Unusable && text_quality(ocr_text@)
                == TextQuality::Unusable ==> {
                &&& r.spans@.len() == 0
                &&& r.text_source == TextSupportSource::Unavailable
                &&& r.reliability == ReadingReliability::Unreliable
                &&& r.effective_highlight_mode == HighlightMode::ManualFallback
                &&& r.warning matches Some(w) && w.code == WarningCode::ReadingSupportUnavailable
                    && w.message@ == reading_unavailable_message()
            },
    {
        let native_quality = native_text_quality(native_text);
        proof {
            if text_quality(native_text@) != TextQuality::Unusable {
                crate::laws::law_usable_text_has_spans(native_text@, preferred_mode);
            }
            if text_quality(ocr_text@) != TextQuality::Unusable {
                crate::laws::law_usable_text_has_spans(ocr_text@, HighlightMode::ManualFallback);
            }
        }
        if native_quality.is_usable() {
            return ReadingSupportResolution {
                spans: self.build_reading_spans(native_text, preferred_mode),
                text_source: TextSupportSource::NativePdfText,
                reliability: native_quality.reliability(),
                effective_highlight_mode: preferred_mode,
                warning: None,
            };
        }
        if native_text_quality(ocr_text).is_usable() {
            let effective_highlight_mode = HighlightMode::ManualFallback;
            return ReadingSupportResolution {
                spans: self.build_reading_spans(ocr_text, effective_highlight_mode),
                text_source: TextSupportSource::OcrDerivedText,
                reliability: ReadingReliability::BestEffort,
                effective_highlight_mode,
                warning: Some(
                    UserVisibleWarning {
                        code: WarningCode::OcrFallbackUsed,
                        message: "Native PDF text was too weak, so offline OCR fallback was used. Highlighting is running in manual fallback mode.".to_string(),
                    },
                ),
            };
        }
        ReadingSupportResolution {
            spans: Vec::new(),
            text_source: TextSupportSource::Unavailable,
            reliability: ReadingReliability::Unreliable,
            effective_highlight_mode: HighlightMode::ManualFallback,
            warning: Some(
                UserVisibleWarning {
                    code: WarningCode::ReadingSupportUnavailable,
                    message: "Native PDF text was too weak and offline OCR could not recover usable reading text.".to_string(),
                },
            ),
        }
    }
}

} // verus!
