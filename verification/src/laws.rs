//! Properties of the library that hold across its functions and all inputs.

use crate::backend::{config_path_for, ends_with, starts_with, svg_file_name_for};
use crate::export::{
    ids_strictly_sorted, canvas_export_decision, escape_char, escaped_svg_text, first_incompatibility_of, kinds_at,
};
use crate::model::{
    svg_compatibility_of, CanvasItemKind, HighlightMode, SelectionTarget, SvgCompatibility,
};
use crate::reading::{
    count_long_words, total_utf8_len, combined_ocr_text, nonempty_normalized, count_ascii_alpha, estimated_page_count, is_ascii_alpha, reading_spans, text_quality, word_lines,
    TextQuality,
};
use crate::speech::{
    any_contains, all_nonblank_lines, could_not_connect_message, dummy_message, espeak_and_dummy_message,
    espeak_message, festival_message, first_containing, nonblank_logs, openjtalk_message,
    runtime_log_diagnosis, source_diagnosis, speech_diagnosis, speech_error_message,
    stderr_only_diagnosis,
};
use crate::text::{
    lemma_name_le_antisymmetric, lemma_name_le_reflexive, lemma_name_le_total,
    lemma_name_le_transitive, name_le, names_sorted, ascii_lowercase, at_most, decimal, digit_char, is_sentence_end, is_whitespace, join,
    newline_pieces, nonblank_lines, normalize_whitespace, split_on, trim, trim_end, trim_start, trimmed_nonblank, words,
};
use crate::workspace::{page_index_for, export_guidance_of, feedback_tone_of, stepped_page, BannerTone};
use crate::pressure::{is_stylus_source, source_label, DeviceSource};
use crate::paths::joined;
use crate::text::{contains, utf8_len};
use vstd::prelude::*;
use vstd::relations::{sorted_by, total_ordering};

verus! {

/// No character of `w` is whitespace.
pub open spec fn has_no_whitespace(w: Seq<char>) -> bool {
    forall|i: int| 0 <= i < w.len() ==> !is_whitespace(#[trigger] w[i])
}

/// Every word is non-empty and free of whitespace.
pub open spec fn all_proper_words(ws: Seq<Seq<char>>) -> bool {
    forall|i: int| 0 <= i < ws.len() ==> (#[trigger] ws[i]).len() > 0 && has_no_whitespace(ws[i])
}

/// The words of any text are non-empty and contain no whitespace.
pub proof fn lemma_words_are_proper(s: Seq<char>)
    ensures
        all_proper_words(words(s)),
    decreases s.len(),
{
    if s.len() > 0 {
        lemma_words_are_proper(s.drop_last());
        let prev = words(s.drop_last());
        let c = s.last();
        if !is_whitespace(c) && !(s.len() == 1 || is_whitespace(s[s.len() - 2])) {
            crate::text::lemma_words_nonempty_when_ends_in_word(s.drop_last());
            let w = prev.last().push(c);
            assert forall|i: int| 0 <= i < w.len() implies !is_whitespace(#[trigger] w[i]) by {
                if i < w.len() - 1 {
                    assert(w[i] == prev.last()[i]);
                }
            }
        }
    }
}

/// Appending a whitespace character adds no word.
pub proof fn lemma_words_push_whitespace(a: Seq<char>, c: char)
    requires
        is_whitespace(c),
    ensures
        words(a.push(c)) == words(a),
{
    assert(a.push(c).drop_last() == a);
}

/// Appending a word after whitespace (or to nothing) adds exactly that word.
pub proof fn lemma_words_append_word(a: Seq<char>, b: Seq<char>)
    requires
        b.len() > 0,
        has_no_whitespace(b),
        a.len() == 0 || is_whitespace(a.last()),
    ensures
        words(a + b) == words(a).push(b),
    decreases b.len(),
{
    let ab = a + b;
    let c = b.last();
    assert(ab.drop_last() == a + b.drop_last());
    assert(ab.last() == c);
    assert(!is_whitespace(c));
    if b.len() == 1 {
        assert(a + b.drop_last() == a);
        assert(b == seq![c]);
        if a.len() > 0 {
            assert(ab[ab.len() - 2] == a.last());
        }
    } else {
        let b1 = b.drop_last();
        assert(has_no_whitespace(b1)) by {
            assert forall|i: int| 0 <= i < b1.len() implies !is_whitespace(#[trigger] b1[i]) by {
                assert(b1[i] == b[i]);
            }
        }
        lemma_words_append_word(a, b1);
        assert(ab[ab.len() - 2] == b[b.len() - 2]);
        assert(!is_whitespace(b[b.len() - 2]));
        assert(b1.push(c) == b);
    }
}

/// Splitting words joined by single spaces gives back the words.
pub proof fn lemma_words_of_joined_words(ws: Seq<Seq<char>>)
    requires
        all_proper_words(ws),
    ensures
        words(join(ws, seq![' '])) == ws,
    decreases ws.len(),
{
    if ws.len() == 0 {
    } else if ws.len() == 1 {
        assert(Seq::<char>::empty() + ws[0] == ws[0]);
        lemma_words_append_word(Seq::<char>::empty(), ws[0]);
        assert(words(Seq::<char>::empty()).push(ws[0]) == ws);
    } else {
        let init = ws.drop_last();
        assert(all_proper_words(init)) by {
            assert forall|i: int| 0 <= i < init.len() implies (#[trigger] init[i]).len() > 0
                && has_no_whitespace(init[i]) by {
                assert(init[i] == ws[i]);
            }
        }
        lemma_words_of_joined_words(init);
        let a = join(init, seq![' ']);
        let a2 = a + seq![' '];
        assert(a2 == a.push(' '));
        lemma_words_push_whitespace(a, ' ');
        assert(ws[ws.len() - 1] == ws.last());
        lemma_words_append_word(a2, ws.last());
        assert(init.push(ws.last()) == ws);
    }
}

/// Whitespace normalization leaves the words of a text unchanged.
pub proof fn law_normalization_keeps_words(s: Seq<char>)
    ensures
        words(normalize_whitespace(s)) == words(s),
{
    lemma_words_are_proper(s);
    lemma_words_of_joined_words(words(s));
}

/// Normalizing whitespace twice gives what normalizing once gives.
pub proof fn law_normalization_is_idempotent(s: Seq<char>)
    ensures
        normalize_whitespace(normalize_whitespace(s)) == normalize_whitespace(s),
{
    law_normalization_keeps_words(s);
}

// ---------------------------------------------------------------------------
// Trimming
// ---------------------------------------------------------------------------

/// Trimmed text that is not empty starts and ends with a non-whitespace character.
pub proof fn lemma_trimmed_ends(s: Seq<char>)
    requires
        trim(s).len() > 0,
    ensures
        !is_whitespace(trim(s)[0]),
        !is_whitespace(trim(s).last()),
{
    lemma_trim_start_first(s);
    lemma_trim_end_prefix(trim_start(s));
}

/// What `trim_start` leaves starts with a non-whitespace character.
proof fn lemma_trim_start_first(s: Seq<char>)
    ensures
        trim_start(s).len() > 0 ==> !is_whitespace(trim_start(s)[0]),
    decreases s.len(),
{
    if s.len() > 0 && is_whitespace(s[0]) {
        lemma_trim_start_first(s.drop_first());
    }
}

/// `trim_end` leaves a prefix that, when not empty, ends with a non-whitespace character.
proof fn lemma_trim_end_prefix(s: Seq<char>)
    ensures
        trim_end(s).len() <= s.len(),
        trim_end(s) == s.take(trim_end(s).len() as int),
        trim_end(s).len() > 0 ==> !is_whitespace(trim_end(s).last()),
    decreases s.len(),
{
    if s.len() > 0 && is_whitespace(s.last()) {
        lemma_trim_end_prefix(s.drop_last());
        assert(s.drop_last().take(trim_end(s).len() as int) == s.take(trim_end(s).len() as int));
    } else {
        assert(s.take(s.len() as int) == s);
    }
}

/// Text that starts and ends with non-whitespace characters is its own trim.
pub proof fn lemma_trim_of_tight(s: Seq<char>)
    requires
        s.len() > 0,
        !is_whitespace(s[0]),
        !is_whitespace(s.last()),
    ensures
        trim(s) == s,
{
}

/// Trimming twice gives what trimming once gives.
pub proof fn law_trim_is_idempotent(s: Seq<char>)
    ensures
        trim(trim(s)) == trim(s),
{
    if trim(s).len() > 0 {
        lemma_trimmed_ends(s);
        lemma_trim_of_tight(trim(s));
    }
}

// ---------------------------------------------------------------------------
// Reading spans
// ---------------------------------------------------------------------------

/// Every piece kept by `trimmed_nonblank` is non-empty and has no surrounding whitespace.
pub proof fn lemma_trimmed_nonblank_tight(pieces: Seq<Seq<char>>)
    ensures
        forall|i: int|
            0 <= i < trimmed_nonblank(pieces).len() ==> (#[trigger] trimmed_nonblank(pieces)[i]).len()
                > 0 && !is_whitespace(trimmed_nonblank(pieces)[i][0]) && !is_whitespace(
                trimmed_nonblank(pieces)[i].last(),
            ),
    decreases pieces.len(),
{
    if pieces.len() > 0 {
        lemma_trimmed_nonblank_tight(pieces.drop_last());
        let prev = trimmed_nonblank(pieces.drop_last());
        let t = trim(pieces.last());
        if t.len() > 0 {
            lemma_trimmed_ends(pieces.last());
            let all = prev.push(t);
            assert forall|i: int| 0 <= i < all.len() implies (#[trigger] all[i]).len() > 0
                && !is_whitespace(all[i][0]) && !is_whitespace(all[i].last()) by {
                if i < prev.len() {
                    assert(all[i] == prev[i]);
                }
            }
        }
    }
}

/// Reading spans come in bounded numbers: at most 24 words, each non-empty and free of
/// whitespace; at most 16 lines; at most 12 sentences, each non-empty with no surrounding
/// whitespace; or, in manual fallback, exactly one span holding the first (at most 120)
/// characters of the text.
pub proof fn law_reading_span_shapes(text: Seq<char>, mode: HighlightMode)
    ensures
        mode == HighlightMode::Word ==> reading_spans(text, mode).len() <= 24 && all_proper_words(
            reading_spans(text, mode),
        ),
        mode == HighlightMode::Line ==> reading_spans(text, mode).len() <= 16,
        mode == HighlightMode::Sentence ==> reading_spans(text, mode).len() <= 12 && forall|i: int|
            0 <= i < reading_spans(text, mode).len() ==> (#[trigger] reading_spans(text, mode)[i]).len()
                > 0 && !is_whitespace(reading_spans(text, mode)[i][0]) && !is_whitespace(
                reading_spans(text, mode)[i].last(),
            ),
        mode == HighlightMode::ManualFallback ==> reading_spans(text, mode).len() == 1
            && reading_spans(text, mode)[0].len() <= 120 && reading_spans(text, mode)[0]
            == text.take(reading_spans(text, mode)[0].len() as int),
{
    match mode {
        HighlightMode::Word => {
            lemma_words_are_proper(text);
            let ws = words(text);
            let r = at_most(ws, 24);
            assert forall|i: int| 0 <= i < r.len() implies (#[trigger] r[i]).len() > 0
                && has_no_whitespace(r[i]) by {
                assert(r[i] == ws[i]);
            }
        },
        HighlightMode::Sentence => {
            let pieces = split_on(text, |c: char| is_sentence_end(c));
            lemma_trimmed_nonblank_tight(pieces);
            let t = trimmed_nonblank(pieces);
            let r = at_most(t, 12);
            assert forall|i: int| 0 <= i < r.len() implies (#[trigger] r[i]).len() > 0
                && !is_whitespace(r[i][0]) && !is_whitespace(r[i].last()) by {
                assert(r[i] == t[i]);
            }
        },
        HighlightMode::ManualFallback => {
            assert(text.take(text.len() as int) == text);
        },
        _ => {},
    }
}

// ---------------------------------------------------------------------------
// Page counts, escaping and export
// ---------------------------------------------------------------------------

/// The estimated page count is at least one page.
pub proof fn law_page_count_is_positive(pdf_bytes: Option<Seq<u8>>)
    ensures
        estimated_page_count(pdf_bytes) >= 1,
{
}

/// Escaped SVG text contains no angle brackets.
pub proof fn law_escaped_text_has_no_angle_brackets(s: Seq<char>)
    ensures
        forall|i: int|
            0 <= i < escaped_svg_text(s).len() ==> #[trigger] escaped_svg_text(s)[i] != '<'
                && escaped_svg_text(s)[i] != '>',
    decreases s.len(),
{
    if s.len() > 0 {
        law_escaped_text_has_no_angle_brackets(s.drop_last());
        reveal_strlit("&amp;");
        reveal_strlit("&lt;");
        reveal_strlit("&gt;");
        let prev = escaped_svg_text(s.drop_last());
        let e = escape_char(s.last());
        assert forall|i: int| 0 <= i < e.len() implies e[i] != '<' && e[i] != '>' by {}
        assert forall|i: int| 0 <= i < (prev + e).len() implies #[trigger] (prev + e)[i] != '<'
            && (prev + e)[i] != '>' by {
            if i < prev.len() {
                assert((prev + e)[i] == prev[i]);
            } else {
                assert((prev + e)[i] == e[i - prev.len()]);
            }
        }
    }
}

/// No item of vector content stands in the way of an SVG export, and every other item
/// does: there is no incompatibility exactly when every item is a stroke or text.
pub proof fn law_export_blocked_exactly_by_non_vector_items(kinds: Seq<CanvasItemKind>)
    ensures
        first_incompatibility_of(kinds) is None <==> forall|i: int|
            0 <= i < kinds.len() ==> svg_compatibility_of(#[trigger] kinds[i])
                == SvgCompatibility::Compatible,
    decreases kinds.len(),
{
    if kinds.len() > 0 {
        law_export_blocked_exactly_by_non_vector_items(kinds.drop_first());
        if first_incompatibility_of(kinds) is None {
            assert forall|i: int| 0 <= i < kinds.len() implies svg_compatibility_of(
                #[trigger] kinds[i],
            ) == SvgCompatibility::Compatible by {
                if i > 0 {
                    assert(kinds[i] == kinds.drop_first()[i - 1]);
                }
            }
        } else if forall|i: int|
            0 <= i < kinds.len() ==> svg_compatibility_of(#[trigger] kinds[i])
                == SvgCompatibility::Compatible {
            assert(svg_compatibility_of(kinds[0]) == SvgCompatibility::Compatible);
            assert forall|i: int| 0 <= i < kinds.drop_first().len() implies svg_compatibility_of(
                #[trigger] kinds.drop_first()[i],
            ) == SvgCompatibility::Compatible by {
                assert(kinds.drop_first()[i] == kinds[i + 1]);
            }
        }
    }
}

/// An export that goes ahead covers at least one item, and only strokes and text.
pub proof fn law_accepted_export_is_vector_only(
    export_path: Seq<char>,
    selection: SelectionTarget,
    item_ids: Seq<Seq<char>>,
    kinds: Seq<CanvasItemKind>,
)
    requires
        canvas_export_decision(export_path, selection, item_ids, kinds) is Ok,
    ensures
        ({
            let targets = canvas_export_decision(export_path, selection, item_ids, kinds)->Ok_0;
            &&& targets.len() > 0
            &&& forall|i: int|
                0 <= i < targets.len() ==> svg_compatibility_of(kinds_at(kinds, targets)[i])
                    == SvgCompatibility::Compatible
        }),
{
    let targets = canvas_export_decision(export_path, selection, item_ids, kinds)->Ok_0;
    law_export_blocked_exactly_by_non_vector_items(kinds_at(kinds, targets));
}

// ---------------------------------------------------------------------------
// File names, pages, messages
// ---------------------------------------------------------------------------

/// The lower-case form of `.svg` is itself.
proof fn lemma_svg_suffix_lowercase()
    ensures
        ascii_lowercase(".svg"@) == ".svg"@,
        ".svg"@.len() == 4,
        ".svg"@.last() == 'g',
{
    reveal_strlit(".svg");
    assert(ascii_lowercase(".svg"@) =~= ".svg"@);
}

/// Lower-casing distributes over concatenation.
proof fn lemma_lowercase_concat(a: Seq<char>, b: Seq<char>)
    ensures
        ascii_lowercase(a + b) == ascii_lowercase(a) + ascii_lowercase(b),
{
    assert(ascii_lowercase(a + b) =~= ascii_lowercase(a) + ascii_lowercase(b));
}

/// The proposed SVG file name always ends in `.svg` (in some case).
pub proof fn law_svg_file_name_has_svg_suffix(suggested: Seq<char>)
    ensures
        ends_with(ascii_lowercase(svg_file_name_for(suggested)), ".svg"@),
{
    lemma_svg_suffix_lowercase();
    let t = trim(suggested);
    if t.len() == 0 {
        reveal_strlit("canvas-export.svg");
        reveal_strlit(".svg");
        assert(ascii_lowercase("canvas-export.svg"@) =~= "canvas-export.svg"@);
        assert("canvas-export.svg"@.skip(13) =~= ".svg"@);
    } else if !ends_with(ascii_lowercase(t), ".svg"@) {
        lemma_lowercase_concat(t, ".svg"@);
        let l = ascii_lowercase(t) + ".svg"@;
        assert(l.skip(l.len() - 4) =~= ".svg"@);
    }
}

/// Proposing a file name for an already proposed name changes nothing.
pub proof fn law_svg_file_name_is_idempotent(suggested: Seq<char>)
    ensures
        svg_file_name_for(svg_file_name_for(suggested)) == svg_file_name_for(suggested),
{
    lemma_svg_suffix_lowercase();
    law_svg_file_name_has_svg_suffix(suggested);
    let t = trim(suggested);
    let name = svg_file_name_for(suggested);
    if t.len() == 0 {
        reveal_strlit("canvas-export.svg");
        assert(!is_whitespace(name[0]));
        assert(!is_whitespace(name.last()));
        lemma_trim_of_tight(name);
    } else {
        lemma_trimmed_ends(suggested);
        if ends_with(ascii_lowercase(t), ".svg"@) {
            law_trim_is_idempotent(suggested);
        } else {
            assert(name[0] == t[0]);
            assert(name.last() == 'g');
            lemma_trim_of_tight(name);
        }
    }
}

/// Stepping through a document with at least one page stays on a valid page, and a step of
/// zero from a valid page stays there.
pub proof fn law_page_steps_stay_in_document(current: int, delta: int, page_count: int)
    requires
        page_count >= 1,
    ensures
        0 <= stepped_page(current, delta, page_count) < page_count,
        0 <= current < page_count ==> stepped_page(current, 0, page_count) == current,
{
}

/// A status message gets a banner exactly when it is not empty.
pub proof fn law_feedback_banner_iff_message(message: Seq<char>)
    ensures
        feedback_tone_of(message) is None <==> message.len() == 0,
{
}

/// Every speech error message starts with its prefix.
pub proof fn law_speech_error_starts_with_prefix(
    prefix: Seq<char>,
    stderr_text: Seq<char>,
    logs: Seq<Seq<char>>,
)
    ensures
        speech_error_message(prefix, stderr_text, logs).len() >= prefix.len(),
        speech_error_message(prefix, stderr_text, logs).take(prefix.len() as int) == prefix,
{
    let m = speech_error_message(prefix, stderr_text, logs);
    assert(m.take(prefix.len() as int) =~= prefix);
}

/// A decimal rendering is a non-empty string of digits.
pub proof fn law_decimal_is_digits(n: nat)
    ensures
        decimal(n).len() > 0,
        forall|i: int| 0 <= i < decimal(n).len() ==> '0' <= #[trigger] decimal(n)[i] <= '9',
    decreases n,
{
    if n >= 10 {
        law_decimal_is_digits(n / 10);
        let d = decimal(n / 10);
        assert forall|i: int| 0 <= i < decimal(n).len() implies '0' <= #[trigger] decimal(n)[i]
            <= '9' by {
            if i < d.len() {
                assert(decimal(n)[i] == d[i]);
            }
        }
    }
}

// ---------------------------------------------------------------------------
// Usable text always has something to read
// ---------------------------------------------------------------------------

/// A text with an ASCII letter count above zero has an ASCII letter.
proof fn lemma_alpha_witness(s: Seq<char>)
    requires
        count_ascii_alpha(s) > 0,
    ensures
        exists|i: int| 0 <= i < s.len() && is_ascii_alpha(#[trigger] s[i]),
    decreases s.len(),
{
    if is_ascii_alpha(s.last()) {
        assert(is_ascii_alpha(s[s.len() - 1]));
    } else {
        lemma_alpha_witness(s.drop_last());
        let i = choose|i: int| 0 <= i < s.drop_last().len() && is_ascii_alpha(
            #[trigger] s.drop_last()[i],
        );
        assert(s[i] == s.drop_last()[i]);
    }
}

/// Every character of a joined text comes from a piece or from the separator.
proof fn lemma_join_chars_origin(parts: Seq<Seq<char>>, sep: Seq<char>, i: int)
    requires
        0 <= i < join(parts, sep).len(),
    ensures
        (exists|k: int, j: int|
            0 <= k < parts.len() && 0 <= j < parts[k].len() && #[trigger] parts[k][j] == join(
                parts,
                sep,
            )[i]) || (exists|j: int| 0 <= j < sep.len() && #[trigger] sep[j] == join(parts, sep)[i]),
    decreases parts.len(),
{
    if parts.len() == 1 {
        assert(parts[0][i] == join(parts, sep)[i]);
    } else if parts.len() > 1 {
        let a = join(parts.drop_last(), sep);
        let j = join(parts, sep);
        if i < a.len() {
            assert(j[i] == a[i]);
            lemma_join_chars_origin(parts.drop_last(), sep, i);
            if exists|k: int, m: int|
                0 <= k < parts.drop_last().len() && 0 <= m < parts.drop_last()[k].len()
                    && #[trigger] parts.drop_last()[k][m] == a[i] {
                let (k, m) = choose|k: int, m: int|
                    0 <= k < parts.drop_last().len() && 0 <= m < parts.drop_last()[k].len()
                        && #[trigger] parts.drop_last()[k][m] == a[i];
                assert(parts[k][m] == j[i]);
            }
        } else if i < a.len() + sep.len() {
            assert(j[i] == sep[i - a.len()]);
        } else {
            let k = parts.len() - 1;
            assert(j[i] == parts[k][i - a.len() - sep.len()]);
        }
    }
}

/// Every character of a word of `s` is a character of `s`.
proof fn lemma_word_chars_in_text(s: Seq<char>, k: int, m: int)
    requires
        0 <= k < words(s).len(),
        0 <= m < words(s)[k].len(),
    ensures
        exists|j: int| 0 <= j < s.len() && #[trigger] s[j] == words(s)[k][m],
    decreases s.len(),
{
    let prev = words(s.drop_last());
    let c = s.last();
    let ws = words(s);
    if !is_whitespace(c) && (s.len() == 1 || is_whitespace(s[s.len() - 2])) && k == ws.len() - 1 {
        assert(ws[k] == seq![c]);
        assert(s[s.len() - 1] == c);
    } else if !is_whitespace(c) && !(s.len() == 1 || is_whitespace(s[s.len() - 2])) && k
        == ws.len() - 1 {
        crate::text::lemma_words_nonempty_when_ends_in_word(s.drop_last());
        if m == ws[k].len() - 1 {
            assert(ws[k][m] == c);
            assert(s[s.len() - 1] == c);
        } else {
            assert(ws[k][m] == prev[k][m]);
            lemma_word_chars_in_text(s.drop_last(), k, m);
            let j = choose|j: int| 0 <= j < s.drop_last().len() && #[trigger] s.drop_last()[j]
                == prev[k][m];
            assert(s[j] == s.drop_last()[j]);
        }
    } else {
        if !is_whitespace(c) && !(s.len() == 1 || is_whitespace(s[s.len() - 2])) {
            crate::text::lemma_words_nonempty_when_ends_in_word(s.drop_last());
            assert(k < prev.len() - 1);
        } else if !is_whitespace(c) {
            assert(k < prev.len());
        }
        assert(ws[k] == prev[k]);
        lemma_word_chars_in_text(s.drop_last(), k, m);
        let j = choose|j: int| 0 <= j < s.drop_last().len() && #[trigger] s.drop_last()[j]
            == prev[k][m];
        assert(s[j] == s.drop_last()[j]);
    }
}

/// Text with a non-whitespace character does not trim to nothing.
proof fn lemma_trim_nonempty(s: Seq<char>, i: int)
    requires
        0 <= i < s.len(),
        !is_whitespace(s[i]),
    ensures
        trim(s).len() > 0,
{
    lemma_trim_start_keeps(s, i);
    let t = trim_start(s);
    lemma_trim_end_nonempty(t);
}

/// `trim_start` keeps a non-whitespace character, and starts with one.
proof fn lemma_trim_start_keeps(s: Seq<char>, i: int)
    requires
        0 <= i < s.len(),
        !is_whitespace(s[i]),
    ensures
        trim_start(s).len() > 0,
        !is_whitespace(trim_start(s)[0]),
    decreases s.len(),
{
    if is_whitespace(s[0]) {
        assert(i > 0);
        assert(s.drop_first()[i - 1] == s[i]);
        lemma_trim_start_keeps(s.drop_first(), i - 1);
    }
}

/// `trim_end` keeps a first character that is not whitespace.
proof fn lemma_trim_end_nonempty(t: Seq<char>)
    requires
        t.len() > 0,
        !is_whitespace(t[0]),
    ensures
        trim_end(t).len() > 0,
    decreases t.len(),
{
    if is_whitespace(t.last()) {
        assert(t.len() > 1);
        assert(t.drop_last()[0] == t[0]);
        lemma_trim_end_nonempty(t.drop_last());
    }
}

/// Keeping the non-blank trimmed pieces never loses earlier ones.
proof fn lemma_trimmed_nonblank_grows(pieces: Seq<Seq<char>>)
    requires
        pieces.len() > 0,
    ensures
        trimmed_nonblank(pieces).len() >= trimmed_nonblank(pieces.drop_last()).len(),
{
}

/// Text with a character that is neither whitespace nor a sentence end has a sentence.
proof fn lemma_sentence_exists(t: Seq<char>, j: int)
    requires
        0 <= j < t.len(),
        !is_whitespace(t[j]),
        !is_sentence_end(t[j]),
    ensures
        trimmed_nonblank(split_on(t, |c: char| is_sentence_end(c))).len() > 0,
    decreases t.len(),
{
    let sep = |c: char| is_sentence_end(c);
    let pieces = split_on(t, sep);
    let prev = split_on(t.drop_last(), sep);
    crate::text::lemma_split_on_nonempty(t.drop_last(), sep);
    if j == t.len() - 1 {
        let last = prev.last().push(t.last());
        assert(pieces == prev.update(prev.len() - 1, last));
        assert(pieces.last() == last);
        assert(last[last.len() - 1] == t[j]);
        lemma_trim_nonempty(last, last.len() - 1);
    } else {
        assert(t.drop_last()[j] == t[j]);
        lemma_sentence_exists(t.drop_last(), j);
        if sep(t.last()) {
            assert(pieces == prev.push(seq![]));
            assert(pieces.drop_last() == prev);
            lemma_trimmed_nonblank_grows(pieces);
        } else {
            let last = prev.last().push(t.last());
            assert(pieces == prev.update(prev.len() - 1, last));
            assert(pieces.drop_last() == prev.drop_last());
            if trimmed_nonblank(prev.drop_last()).len() == 0 {
                assert(trim(prev.last()).len() > 0);
                let u = trim(prev.last());
                lemma_trimmed_ends(prev.last());
                lemma_trim_start_keeps_index(prev.last());
                let k = choose|k: int| 0 <= k < prev.last().len() && !is_whitespace(
                    #[trigger] prev.last()[k],
                );
                assert(last[k] == prev.last()[k]);
                lemma_trim_nonempty(last, k);
            }
            lemma_trimmed_nonblank_grows(pieces);
        }
    }
}

/// Text that does not trim to nothing has a non-whitespace character.
proof fn lemma_trim_start_keeps_index(s: Seq<char>)
    requires
        trim(s).len() > 0,
    ensures
        exists|k: int| 0 <= k < s.len() && !is_whitespace(#[trigger] s[k]),
    decreases s.len(),
{
    if s.len() > 0 && is_whitespace(s[0]) {
        assert(trim(s) == trim(s.drop_first()));
        lemma_trim_start_keeps_index(s.drop_first());
        let k = choose|k: int| 0 <= k < s.drop_first().len() && !is_whitespace(
            #[trigger] s.drop_first()[k],
        );
        assert(s[k + 1] == s.drop_first()[k]);
    } else if s.len() > 0 {
        assert(!is_whitespace(s[0]));
    } else {
        assert(trim_start(s) == s);
        assert(trim_end(s) == s);
    }
}

/// Text that is good enough for reading support yields at least one reading span in every
/// highlight mode.
pub proof fn law_usable_text_has_spans(text: Seq<char>, mode: HighlightMode)
    requires
        text_quality(text) != TextQuality::Unusable,
    ensures
        reading_spans(text, mode).len() > 0,
{
    law_normalization_keeps_words(text);
    let n = normalize_whitespace(text);
    let ws = words(text);
    assert(ws.len() >= 12);
    match mode {
        HighlightMode::Line => {
            assert(word_lines(ws).len() > 0);
        },
        HighlightMode::Sentence => {
            lemma_alpha_witness(n);
            let i = choose|i: int| 0 <= i < n.len() && is_ascii_alpha(#[trigger] n[i]);
            lemma_join_chars_origin(ws, seq![' '], i);
            assert(!is_ascii_alpha(' '));
            if exists|j: int| 0 <= j < 1 && #[trigger] seq![' '][j] == n[i] {
                let j = choose|j: int| 0 <= j < 1 && #[trigger] seq![' '][j] == n[i];
                assert(seq![' '][j] == ' ');
            }
            let (k, m) = choose|k: int, m: int|
                0 <= k < ws.len() && 0 <= m < ws[k].len() && #[trigger] ws[k][m] == n[i];
            lemma_word_chars_in_text(text, k, m);
            let j = choose|j: int| 0 <= j < text.len() && #[trigger] text[j] == ws[k][m];
            lemma_sentence_exists(text, j);
        },
        _ => {},
    }
}

/// The order in which the OCR fallback reads page images is fixed by the images alone:
/// two name-ordered sequences holding the same names are the same sequence.
pub proof fn law_page_image_order_is_unique(x: Seq<Seq<char>>, y: Seq<Seq<char>>)
    requires
        names_sorted(x),
        names_sorted(y),
        x.to_multiset() == y.to_multiset(),
    ensures
        x == y,
{
    let leq = |a: Seq<char>, b: Seq<char>| name_le(a, b);
    assert(total_ordering(leq)) by {
        assert forall|a: Seq<char>| #[trigger] leq(a, a) by {
            lemma_name_le_reflexive(a);
        }
        assert forall|a: Seq<char>, b: Seq<char>| #[trigger] leq(a, b) && #[trigger] leq(b, a) implies a
            == b by {
            lemma_name_le_antisymmetric(a, b);
        }
        assert forall|a: Seq<char>, b: Seq<char>, c: Seq<char>| #[trigger] leq(a, b) && #[trigger] leq(
            b,
            c,
        ) implies leq(a, c) by {
            lemma_name_le_transitive(a, b, c);
        }
        assert forall|a: Seq<char>, b: Seq<char>| #[trigger] leq(a, b) || #[trigger] leq(b, a) by {
            lemma_name_le_total(a, b);
        }
    }
    assert(sorted_by(x, leq)) by {
        assert forall|i: int, j: int| 0 <= i < j < x.len() implies #[trigger] leq(x[i], x[j]) by {
            assert(name_le(x[i], x[j]));
        }
    }
    assert(sorted_by(y, leq)) by {
        assert forall|i: int, j: int| 0 <= i < j < y.len() implies #[trigger] leq(y[i], y[j]) by {
            assert(name_le(y[i], y[j]));
        }
    }
    vstd::seq_lib::lemma_sorted_unique(x, y, leq);
}

/// A selection of canvas items has one canonical form: two lists of ids, each without
/// repeats and in code point order, that hold the same ids are the same list.
pub proof fn law_item_selection_is_canonical(x: Seq<Seq<char>>, y: Seq<Seq<char>>)
    requires
        ids_strictly_sorted(x),
        ids_strictly_sorted(y),
        x.to_set() == y.to_set(),
    ensures
        x == y,
    decreases x.len(),
{
    if x.len() == 0 || y.len() == 0 {
        if y.len() > 0 {
            assert(y.to_set().contains(y[0]));
            assert(x.contains(y[0]));
        }
        if x.len() > 0 {
            assert(x.to_set().contains(x[0]));
            assert(y.contains(x[0]));
        }
        assert(x =~= y);
    } else {
        assert(x.to_set().contains(x[0]));
        assert(y.contains(x[0]));
        let j = choose|j: int| 0 <= j < y.len() && y[j] == x[0];
        assert(y.to_set().contains(y[0]));
        assert(x.contains(y[0]));
        let i = choose|i: int| 0 <= i < x.len() && x[i] == y[0];
        if i > 0 {
            assert(name_le(x[0], x[i]));
        } else {
            lemma_name_le_reflexive(x[0]);
        }
        if j > 0 {
            assert(name_le(y[0], y[j]));
        } else {
            lemma_name_le_reflexive(y[0]);
        }
        lemma_name_le_antisymmetric(x[0], y[0]);
        let xs = x.drop_first();
        let ys = y.drop_first();
        assert(ids_strictly_sorted(xs)) by {
            assert forall|p: int, q: int| 0 <= p < q < xs.len() implies #[trigger] name_le(
                xs[p],
                xs[q],
            ) && xs[p] != xs[q] by {
                assert(name_le(x[p + 1], x[q + 1]) && x[p + 1] != x[q + 1]);
            }
        }
        assert(ids_strictly_sorted(ys)) by {
            assert forall|p: int, q: int| 0 <= p < q < ys.len() implies #[trigger] name_le(
                ys[p],
                ys[q],
            ) && ys[p] != ys[q] by {
                assert(name_le(y[p + 1], y[q + 1]) && y[p + 1] != y[q + 1]);
            }
        }
        assert(xs.to_set() =~= ys.to_set()) by {
            assert forall|z: Seq<char>| xs.contains(z) implies ys.contains(z) by {
                let k = choose|k: int| 0 <= k < xs.len() && xs[k] == z;
                assert(x[k + 1] == z && x[0] != x[k + 1]);
                assert(x.to_set().contains(z));
                assert(y.contains(z));
                let m = choose|m: int| 0 <= m < y.len() && y[m] == z;
                assert(m != 0);
                assert(ys[m - 1] == z);
            }
            assert forall|z: Seq<char>| ys.contains(z) implies xs.contains(z) by {
                let k = choose|k: int| 0 <= k < ys.len() && ys[k] == z;
                assert(y[k + 1] == z && y[0] != y[k + 1]);
                assert(y.to_set().contains(z));
                assert(x.contains(z));
                let m = choose|m: int| 0 <= m < x.len() && x[m] == z;
                assert(m != 0);
                assert(xs[m - 1] == z);
            }
        }
        law_item_selection_is_canonical(xs, ys);
        assert(x =~= seq![x[0]] + xs);
        assert(y =~= seq![y[0]] + ys);
    }
}

/// The export guidance and the export agree: with a target path given, an export goes
/// ahead exactly when the guidance for the same canvas and selection is the reassuring
/// one.
pub proof fn law_export_guidance_matches_export(
    export_path: Seq<char>,
    selection: SelectionTarget,
    item_ids: Seq<Seq<char>>,
    kinds: Seq<CanvasItemKind>,
)
    requires
        trim(export_path).len() > 0,
    ensures
        (canvas_export_decision(export_path, selection, item_ids, kinds) is Ok) == (export_guidance_of(
            selection,
            item_ids,
            kinds,
        ).0 == BannerTone::Success),
{
}

/// Decimal renderings of different numbers differ.
pub proof fn lemma_decimal_injective(a: nat, b: nat)
    requires
        decimal(a) == decimal(b),
    ensures
        a == b,
    decreases a,
{
    law_decimal_is_digits(a);
    law_decimal_is_digits(b);
    if a >= 10 && b >= 10 {
        assert(decimal(a).drop_last() == decimal(a / 10));
        assert(decimal(b).drop_last() == decimal(b / 10));
        lemma_decimal_injective(a / 10, b / 10);
        assert(decimal(a).last() == digit_char(a % 10));
        assert(decimal(b).last() == digit_char(b % 10));
    } else if a >= 10 {
        law_decimal_is_digits(a / 10);
        assert(decimal(a).len() == decimal(a / 10).len() + 1);
    } else if b >= 10 {
        law_decimal_is_digits(b / 10);
        assert(decimal(b).len() == decimal(b / 10).len() + 1);
    } else {
        assert(decimal(a)[0] == digit_char(a));
        assert(decimal(b)[0] == digit_char(b));
    }
}

/// Item labels built from one prefix and different numbers differ, so ids taken from a
/// counter never repeat.
pub proof fn law_item_labels_are_distinct(prefix: Seq<char>, a: nat, b: nat)
    requires
        a != b,
    ensures
        prefix + decimal(a) != prefix + decimal(b),
{
    if prefix + decimal(a) == prefix + decimal(b) {
        assert((prefix + decimal(a)).skip(prefix.len() as int) =~= decimal(a));
        assert((prefix + decimal(b)).skip(prefix.len() as int) =~= decimal(b));
        lemma_decimal_injective(a, b);
    }
}

// ---------------------------------------------------------------------------
// Line spans keep the words of the text
// ---------------------------------------------------------------------------

/// Joining two non-empty lists of parts joins each and puts the separator between them.
pub proof fn lemma_join_append(a: Seq<Seq<char>>, b: Seq<Seq<char>>, sep: Seq<char>)
    requires
        a.len() > 0,
        b.len() > 0,
    ensures
        join(a + b, sep) == join(a, sep) + sep + join(b, sep),
    decreases b.len(),
{
    if b.len() == 1 {
        assert((a + b).drop_last() =~= a);
        assert((a + b).last() == b[0]);
    } else {
        lemma_join_append(a, b.drop_last(), sep);
        assert((a + b).drop_last() =~= a + b.drop_last());
        assert((a + b).last() == b.last());
    }
}

/// Joining the lines of eight words gives what joining the words gives.
pub proof fn lemma_word_lines_join(ws: Seq<Seq<char>>)
    ensures
        join(word_lines(ws), seq![' ']) == join(ws, seq![' ']),
    decreases ws.len(),
{
    let sp = seq![' '];
    if ws.len() > 8 {
        let head = ws.take(8);
        let rest = ws.skip(8);
        lemma_word_lines_join(rest);
        assert(word_lines(rest).len() > 0);
        lemma_join_append(seq![join(head, sp)], word_lines(rest), sp);
        assert(join(seq![join(head, sp)], sp) == join(head, sp));
        lemma_join_append(head, rest, sp);
        assert(head + rest =~= ws);
    }
}

/// The first `k` lines of eight words are the lines of the first `8 * k` words.
pub proof fn lemma_word_lines_take(ws: Seq<Seq<char>>, k: nat)
    requires
        ws.len() >= 8 * k,
    ensures
        word_lines(ws).take(k as int) == word_lines(ws.take((8 * k) as int)),
    decreases k,
{
    let sp = seq![' '];
    if k == 0 {
        assert(ws.take(0) =~= Seq::<Seq<char>>::empty());
        assert(word_lines(ws).take(0) =~= Seq::<Seq<char>>::empty());
    } else if ws.len() == 8 {
        assert(ws.take((8 * k) as int) =~= ws);
        assert(word_lines(ws).take(1) =~= word_lines(ws));
    } else {
        let rest = ws.skip(8);
        lemma_word_lines_take(rest, (k - 1) as nat);
        let front = ws.take((8 * k) as int);
        assert(front.take(8) =~= ws.take(8));
        assert(front.skip(8) =~= rest.take(8 * (k - 1)));
        if k == 1 {
            assert(front =~= ws.take(8));
            assert(word_lines(ws).take(1) =~= seq![join(ws.take(8), sp)]);
        } else {
            lemma_word_lines_len(ws);
            lemma_word_lines_len(rest);
            assert(word_lines(ws) == seq![join(ws.take(8), sp)] + word_lines(rest));
            assert(word_lines(ws).take(k as int) =~= seq![join(ws.take(8), sp)] + word_lines(
                rest,
            ).take(k - 1));
            assert(word_lines(front) == seq![join(front.take(8), sp)] + word_lines(front.skip(8)));
        }
    }
}

/// There are as many lines as groups of eight words, the last group possibly shorter.
pub proof fn lemma_word_lines_len(ws: Seq<Seq<char>>)
    ensures
        word_lines(ws).len() == (ws.len() + 7) / 8,
    decreases ws.len(),
{
    if ws.len() > 8 {
        lemma_word_lines_len(ws.skip(8));
    }
}

/// Line spans keep the words of the text: read back, they hold the first 128 words of
/// the text (sixteen lines of eight), in order.
pub proof fn law_line_spans_keep_the_words(text: Seq<char>)
    ensures
        words(join(reading_spans(text, HighlightMode::Line), seq![' '])) == at_most(words(text), 128),
{
    let ws = words(text);
    let kept = at_most(ws, 128);
    lemma_word_lines_len(ws);
    if ws.len() > 128 {
        lemma_word_lines_take(ws, 16);
        assert(at_most(word_lines(ws), 16) == word_lines(kept));
    } else {
        assert(at_most(word_lines(ws), 16) == word_lines(kept));
    }
    lemma_word_lines_join(kept);
    lemma_words_are_proper(text);
    assert(all_proper_words(kept)) by {
        assert forall|i: int| 0 <= i < kept.len() implies (#[trigger] kept[i]).len() > 0
            && has_no_whitespace(kept[i]) by {
            assert(kept[i] == ws[i]);
        }
    }
    lemma_words_of_joined_words(kept);
}

// ---------------------------------------------------------------------------
// Speech error messages add one line at most
// ---------------------------------------------------------------------------

/// No character of `s` is a line break.
pub open spec fn has_no_newline(s: Seq<char>) -> bool {
    forall|i: int| 0 <= i < s.len() ==> s[i] != '\n'
}

/// The fixed diagnoses are single lines.
proof fn lemma_fixed_diagnoses_are_single_lines()
    ensures
        has_no_newline(espeak_and_dummy_message()),
        has_no_newline(espeak_message()),
        has_no_newline(dummy_message()),
        has_no_newline(festival_message()),
        has_no_newline(openjtalk_message()),
        has_no_newline(could_not_connect_message()),
        has_no_newline(": "@),
{
    reveal_strlit("Speech Dispatcher is running, but it has no usable speech backend: the espeak-ng modules cannot load because `libespeak-ng.so.1` is missing, and the remaining dummy backend cannot open audio. Install the package that provides `libespeak-ng.so.1` or configure another real Speech Dispatcher output module.");
    reveal_strlit("Speech Dispatcher is running, but its espeak-ng output modules cannot load because `libespeak-ng.so.1` is missing. Install the package that provides `libespeak-ng.so.1` or configure another real Speech Dispatcher output module.");
    reveal_strlit("Speech Dispatcher is running, but the remaining backend cannot open audio (`server audio is not supported`). Configure a working audio-capable Speech Dispatcher output module.");
    reveal_strlit("Speech Dispatcher tried the Festival backend, but no Festival server is running. Start Festival or configure a different Speech Dispatcher output module.");
    reveal_strlit("Speech Dispatcher tried the OpenJTalk backend, but its voice data is missing. Install the required OpenJTalk voice package or configure a different Speech Dispatcher output module.");
    reveal_strlit("could not connect to Speech Dispatcher.");
    reveal_strlit(": ");
}

/// The pieces between line breaks hold no line break; there is at least one piece, and
/// when the text does not start with a line break the first piece starts with the
/// text's first character.
proof fn lemma_newline_pieces(s: Seq<char>)
    ensures
        newline_pieces(s).len() > 0,
        forall|i: int|
            0 <= i < newline_pieces(s).len() ==> has_no_newline(#[trigger] newline_pieces(s)[i]),
        s.len() > 0 && s[0] != '\n' ==> newline_pieces(s)[0].len() > 0 && newline_pieces(s)[0][0]
            == s[0],
    decreases s.len(),
{
    if s.len() > 0 {
        let prev = newline_pieces(s.drop_last());
        lemma_newline_pieces(s.drop_last());
        let cur = newline_pieces(s);
        if s.last() == '\n' {
            assert(cur == prev.push(seq![]));
            assert forall|i: int| 0 <= i < cur.len() implies has_no_newline(#[trigger] cur[i]) by {
                if i < prev.len() {
                    assert(cur[i] == prev[i]);
                }
            }
            if s.len() > 1 && s[0] != '\n' {
                assert(s.drop_last()[0] == s[0]);
                assert(cur[0] == prev[0]);
            }
        } else {
            let last = prev.len() - 1;
            assert(cur == prev.update(last, prev[last].push(s.last())));
            assert forall|i: int| 0 <= i < cur.len() implies has_no_newline(#[trigger] cur[i]) by {
                if i != last {
                    assert(cur[i] == prev[i]);
                } else {
                    assert(has_no_newline(prev[last]));
                    assert(cur[i] == prev[last].push(s.last()));
                }
            }
            if s.len() > 1 && s[0] != '\n' {
                assert(s.drop_last()[0] == s[0]);
            }
            if s.len() == 1 {
                assert(prev == seq![Seq::<char>::empty()]);
            }
        }
    }
}

/// Trimming the start keeps text free of line breaks.
proof fn lemma_trim_start_keeps_single_line(s: Seq<char>)
    requires
        has_no_newline(s),
    ensures
        has_no_newline(trim_start(s)),
    decreases s.len(),
{
    if s.len() > 0 && is_whitespace(s[0]) {
        assert forall|i: int| 0 <= i < s.drop_first().len() implies s.drop_first()[i] != '\n' by {
            assert(s.drop_first()[i] == s[i + 1]);
        }
        lemma_trim_start_keeps_single_line(s.drop_first());
    }
}

/// Trimming keeps text free of line breaks.
proof fn lemma_trim_keeps_single_line(s: Seq<char>)
    requires
        has_no_newline(s),
    ensures
        has_no_newline(trim(s)),
{
    lemma_trim_start_keeps_single_line(s);
    lemma_trim_end_prefix(trim_start(s));
    let t = trim_start(s);
    assert forall|i: int| 0 <= i < trim(s).len() implies trim(s)[i] != '\n' by {
        assert(trim(s)[i] == t[i]);
    }
}

/// Text whose first character is not whitespace keeps something after trimming its end.
proof fn lemma_trim_end_keeps_first(s: Seq<char>)
    requires
        s.len() > 0,
        !is_whitespace(s[0]),
    ensures
        trim_end(s).len() > 0,
    decreases s.len(),
{
    if is_whitespace(s.last()) {
        assert(s.len() > 1);
        assert(s.drop_last()[0] == s[0]);
        lemma_trim_end_keeps_first(s.drop_last());
    }
}

/// The kept trimmed pieces of pieces free of line breaks are free of line breaks, and
/// some piece is kept when any piece is not blank.
proof fn lemma_trimmed_nonblank_single_lines(pieces: Seq<Seq<char>>, k: int)
    requires
        forall|i: int| 0 <= i < pieces.len() ==> has_no_newline(#[trigger] pieces[i]),
    ensures
        forall|i: int|
            0 <= i < trimmed_nonblank(pieces).len() ==> has_no_newline(
                #[trigger] trimmed_nonblank(pieces)[i],
            ),
        0 <= k < pieces.len() && trim(pieces[k]).len() > 0 ==> trimmed_nonblank(pieces).len() > 0,
    decreases pieces.len(),
{
    if pieces.len() > 0 {
        let init = pieces.drop_last();
        assert forall|i: int| 0 <= i < init.len() implies has_no_newline(#[trigger] init[i]) by {
            assert(init[i] == pieces[i]);
        }
        lemma_trimmed_nonblank_single_lines(init, k);
        let prev = trimmed_nonblank(init);
        let t = trim(pieces.last());
        lemma_trim_keeps_single_line(pieces.last());
        if t.len() > 0 {
            let all = prev.push(t);
            assert forall|i: int| 0 <= i < all.len() implies has_no_newline(#[trigger] all[i]) by {
                if i < prev.len() {
                    assert(all[i] == prev[i]);
                }
            }
        }
        if 0 <= k < init.len() {
            assert(init[k] == pieces[k]);
        }
    }
}

/// The non-blank lines of a text hold no line break, and a text that is its own trim and
/// not empty has at least one.
proof fn lemma_nonblank_lines_single(s: Seq<char>)
    ensures
        forall|i: int|
            0 <= i < nonblank_lines(s).len() ==> has_no_newline(#[trigger] nonblank_lines(s)[i]),
        trim(s).len() > 0 && trim(s) == s ==> nonblank_lines(s).len() > 0,
{
    lemma_newline_pieces(s);
    let pieces = newline_pieces(s);
    if trim(s).len() > 0 && trim(s) == s {
        lemma_trimmed_ends(s);
        assert(is_whitespace('\n'));
        let p = pieces[0];
        assert(!is_whitespace(p[0]));
        assert(trim_start(p) == p);
        lemma_trim_end_keeps_first(p);
        lemma_trimmed_nonblank_single_lines(pieces, 0);
    } else {
        lemma_trimmed_nonblank_single_lines(pieces, -1);
    }
}

/// The lines of all sources hold no line break.
proof fn lemma_all_nonblank_lines_single(sources: Seq<Seq<char>>)
    ensures
        forall|i: int|
            0 <= i < all_nonblank_lines(sources).len() ==> has_no_newline(
                #[trigger] all_nonblank_lines(sources)[i],
            ),
    decreases sources.len(),
{
    if sources.len() > 0 {
        lemma_all_nonblank_lines_single(sources.drop_last());
        lemma_nonblank_lines_single(sources.last());
        let a = all_nonblank_lines(sources.drop_last());
        let b = nonblank_lines(sources.last());
        assert forall|i: int| 0 <= i < (a + b).len() implies has_no_newline(#[trigger] (a + b)[i]) by {
            if i < a.len() {
                assert((a + b)[i] == a[i]);
            } else {
                assert((a + b)[i] == b[i - a.len()]);
            }
        }
    }
}

/// The first line containing a marker is one of the lines.
proof fn lemma_first_containing_single(lines: Seq<Seq<char>>, needle: Seq<char>)
    requires
        forall|i: int| 0 <= i < lines.len() ==> has_no_newline(#[trigger] lines[i]),
    ensures
        first_containing(lines, needle) matches Some(l) ==> has_no_newline(l),
    decreases lines.len(),
{
    if lines.len() > 0 {
        let init = lines.drop_last();
        assert forall|i: int| 0 <= i < init.len() implies has_no_newline(#[trigger] init[i]) by {
            assert(init[i] == lines[i]);
        }
        lemma_first_containing_single(init, needle);
        assert(has_no_newline(lines[lines.len() - 1]));
    }
}

/// Every diagnosis drawn from text sources is a single line.
proof fn lemma_source_diagnosis_single(sources: Seq<Seq<char>>)
    ensures
        source_diagnosis(sources) matches Some(d) ==> has_no_newline(d),
{
    lemma_fixed_diagnoses_are_single_lines();
    lemma_all_nonblank_lines_single(sources);
    lemma_first_containing_single(all_nonblank_lines(sources), "speechd.sock"@);
    lemma_first_containing_single(
        all_nonblank_lines(sources),
        "Failed to connect to Speech Dispatcher"@,
    );
}

/// Every speech diagnosis is a single line.
proof fn lemma_speech_diagnosis_single(stderr_text: Seq<char>, logs: Seq<Seq<char>>)
    ensures
        speech_diagnosis(stderr_text, logs) matches Some(d) ==> has_no_newline(d),
{
    lemma_source_diagnosis_single(seq![stderr_text]);
    lemma_source_diagnosis_single(nonblank_logs(logs));
}

/// A speech error message is its prefix alone, or the prefix, a colon and one line of
/// detail: nothing after the prefix breaks the line.
pub proof fn law_speech_error_adds_one_line(
    prefix: Seq<char>,
    stderr_text: Seq<char>,
    logs: Seq<Seq<char>>,
)
    ensures
        ({
            let m = speech_error_message(prefix, stderr_text, logs);
            m == prefix || (starts_with(m, prefix + ": "@) && has_no_newline(
                m.skip(prefix.len() as int),
            ))
        }),
{
    let m = speech_error_message(prefix, stderr_text, logs);
    let t = trim(stderr_text);
    let sep = ": "@;
    reveal_strlit(": ");
    lemma_fixed_diagnoses_are_single_lines();
    lemma_speech_diagnosis_single(t, logs);
    lemma_nonblank_lines_single(t);
    law_trim_is_idempotent(stderr_text);
    if m != prefix {
        let d = m.skip((prefix + sep).len() as int);
        assert(m =~= prefix + sep + d);
        assert(has_no_newline(d));
        assert(m.take((prefix + sep).len() as int) =~= prefix + sep);
        assert forall|i: int| 0 <= i < m.skip(prefix.len() as int).len() implies m.skip(
            prefix.len() as int,
        )[i] != '\n' by {
            if i < 2 {
                assert(m.skip(prefix.len() as int)[i] == sep[i]);
            } else {
                assert(m.skip(prefix.len() as int)[i] == d[i - 2]);
            }
        }
    }
}

// ---------------------------------------------------------------------------
// Combined OCR text is normalized
// ---------------------------------------------------------------------------

/// The words of all pages, in order.
pub open spec fn pages_words(pages: Seq<Seq<char>>) -> Seq<Seq<char>>
    decreases pages.len(),
{
    if pages.len() == 0 {
        seq![]
    } else {
        pages_words(pages.drop_last()) + words(pages.last())
    }
}

/// Words joined by single spaces are empty exactly when there are no words.
proof fn lemma_join_of_words_empty(ws: Seq<Seq<char>>)
    requires
        all_proper_words(ws),
    ensures
        (join(ws, seq![' ']).len() == 0) == (ws.len() == 0),
{
    if ws.len() == 1 {
        assert(ws[0].len() > 0);
    } else if ws.len() > 1 {
        assert(ws.last() == ws[ws.len() - 1]);
        assert(ws[ws.len() - 1].len() > 0);
    }
}

/// The combined OCR text is the words of all pages joined by single spaces.
proof fn lemma_combined_ocr_text_words(pages: Seq<Seq<char>>)
    ensures
        combined_ocr_text(pages) == join(pages_words(pages), seq![' ']),
        all_proper_words(pages_words(pages)),
        (nonempty_normalized(pages).len() == 0) == (pages_words(pages).len() == 0),
    decreases pages.len(),
{
    let sp = seq![' '];
    if pages.len() > 0 {
        let init = pages.drop_last();
        lemma_combined_ocr_text_words(init);
        let prev = nonempty_normalized(init);
        let w0 = pages_words(init);
        let wl = words(pages.last());
        lemma_words_are_proper(pages.last());
        lemma_join_of_words_empty(wl);
        let all = w0 + wl;
        assert(all_proper_words(all)) by {
            assert forall|i: int| 0 <= i < all.len() implies (#[trigger] all[i]).len() > 0
                && has_no_whitespace(all[i]) by {
                if i < w0.len() {
                    assert(all[i] == w0[i]);
                } else {
                    assert(all[i] == wl[i - w0.len()]);
                }
            }
        }
        if wl.len() == 0 {
            assert(all =~= w0);
        } else {
            let n = normalize_whitespace(pages.last());
            if prev.len() == 0 {
                assert(all =~= wl);
                assert(prev.push(n) =~= seq![n]);
            } else {
                assert(prev.push(n).drop_last() =~= prev);
                lemma_join_append(w0, wl, sp);
            }
        }
    }
}

/// The text combined from OCR'd pages is already normalized: normalizing it changes
/// nothing.
pub proof fn law_combined_ocr_text_is_normalized(pages: Seq<Seq<char>>)
    ensures
        normalize_whitespace(combined_ocr_text(pages)) == combined_ocr_text(pages),
{
    lemma_combined_ocr_text_words(pages);
    lemma_words_of_joined_words(pages_words(pages));
}

// ---------------------------------------------------------------------------
// Typed page numbers, configuration paths, stylus devices, long words
// ---------------------------------------------------------------------------

/// Typing a page number inside the document opens that page; any number lands on a page
/// of a document that has pages; a larger number never lands on an earlier page.
pub proof fn law_typed_page_lands_on_that_page(display_page: int, page_count: int)
    ensures
        1 <= display_page <= page_count ==> page_index_for(display_page, page_count)
            == display_page - 1,
        page_count >= 1 ==> 0 <= page_index_for(display_page, page_count) < page_count,
        page_index_for(display_page, page_count) <= page_index_for(display_page + 1, page_count),
{
}

/// Without a usable XDG_CONFIG_HOME, a non-blank HOME decides the configuration path,
/// `<HOME>/.config/rpdf/config.json`, whatever APPDATA holds.
pub proof fn law_home_config_path_wins_over_appdata(
    xdg: Option<Seq<char>>,
    home: Seq<char>,
    appdata: Option<Seq<char>>,
    other_appdata: Option<Seq<char>>,
)
    requires
        !(xdg is Some && trim(xdg->0).len() > 0),
        trim(home).len() > 0,
    ensures
        config_path_for(xdg, Some(home), appdata) == Ok::<Seq<char>, Seq<char>>(
            joined(joined(joined(trim(home), ".config"@), "rpdf"@), "config.json"@),
        ),
        config_path_for(xdg, Some(home), appdata) == config_path_for(
            xdg,
            Some(home),
            other_appdata,
        ),
{
}

/// A non-blank XDG_CONFIG_HOME decides the configuration path,
/// `<XDG_CONFIG_HOME>/rpdf/config.json`, whatever HOME and APPDATA hold.
pub proof fn law_xdg_config_path_wins(
    xdg: Seq<char>,
    home: Option<Seq<char>>,
    appdata: Option<Seq<char>>,
    other_home: Option<Seq<char>>,
    other_appdata: Option<Seq<char>>,
)
    requires
        trim(xdg).len() > 0,
    ensures
        config_path_for(Some(xdg), home, appdata) == Ok::<Seq<char>, Seq<char>>(
            joined(joined(trim(xdg), "rpdf"@), "config.json"@),
        ),
        config_path_for(Some(xdg), home, appdata) == config_path_for(
            Some(xdg),
            other_home,
            other_appdata,
        ),
{
}

/// A device is stylus-like exactly when it is labelled a pen, an eraser or a tablet
/// cursor; mice, keyboards, touch surfaces, trackpoints, pads and unknown devices are not.
pub proof fn law_stylus_devices_are_pens_erasers_and_cursors(source: DeviceSource)
    ensures
        is_stylus_source(source) <==> (source_label(source) == "Pen"@ || source_label(source)
            == "Eraser"@ || source_label(source) == "Cursor"@),
{
    reveal_strlit("Mouse");
    reveal_strlit("Pen");
    reveal_strlit("Eraser");
    reveal_strlit("Cursor");
    reveal_strlit("Keyboard");
    reveal_strlit("Touchscreen");
    reveal_strlit("Touchpad");
    reveal_strlit("Trackpoint");
    reveal_strlit("TabletPad");
    reveal_strlit("Unknown(");
    reveal_strlit("Unknown");
    let l = source_label(source);
    match source {
        DeviceSource::Unknown(code) => {
            assert(l[0] == 'U');
        },
        DeviceSource::Mouse => {
            assert(l[0] == 'M');
        },
        DeviceSource::Keyboard => {
            assert(l[0] == 'K');
        },
        DeviceSource::Touchscreen => {
            assert(l[0] == 'T');
        },
        DeviceSource::Touchpad => {
            assert(l[0] == 'T');
        },
        DeviceSource::Trackpoint => {
            assert(l[0] == 'T');
        },
        DeviceSource::TabletPad => {
            assert(l[0] == 'T');
        },
        DeviceSource::Unrecognized => {
            assert(l[0] == 'U');
        },
        _ => {},
    }
    assert("Pen"@[0] == 'P' && "Eraser"@[0] == 'E' && "Cursor"@[0] == 'C');
}

/// Counting the long words one by one gives the number of words of at least 20 bytes.
proof fn lemma_long_words_counted(ws: Seq<Seq<char>>)
    ensures
        ws.filter(|w: Seq<char>| utf8_len(w) >= 20).len() == count_long_words(ws),
    decreases ws.len(),
{
    reveal(Seq::filter);
    if ws.len() > 0 {
        lemma_long_words_counted(ws.drop_last());
        assert(ws.drop_last().push(ws.last()) =~= ws);
        ws.drop_last().lemma_filter_len_push(|w: Seq<char>| utf8_len(w) >= 20, ws.last());
    }
}

/// Text with enough words and letters, more than a third of whose words are 20 bytes or
/// longer, is weak: usable with care, never good.
pub proof fn law_many_long_words_make_text_weak(text: Seq<char>)
    requires
        words(text).len() >= 12,
        count_ascii_alpha(normalize_whitespace(text)) >= 48,
        3 * words(text).filter(|w: Seq<char>| utf8_len(w) >= 20).len() > words(text).len(),
    ensures
        text_quality(text) == TextQuality::Weak,
{
    law_normalization_keeps_words(text);
    lemma_words_are_proper(text);
    lemma_join_of_words_empty(words(text));
    lemma_long_words_counted(words(text));
}

/// Text with enough words and letters whose average word is longer than 9.5 bytes is
/// weak, never good.
pub proof fn law_long_average_makes_text_weak(text: Seq<char>)
    requires
        words(text).len() >= 12,
        count_ascii_alpha(normalize_whitespace(text)) >= 48,
        2 * total_utf8_len(words(text)) > 19 * words(text).len(),
    ensures
        text_quality(text) == TextQuality::Weak,
{
    law_normalization_keeps_words(text);
    lemma_words_are_proper(text);
    lemma_join_of_words_empty(words(text));
}

/// Good text has at most a third of its words 20 bytes or longer.
pub proof fn law_good_text_has_few_long_words(text: Seq<char>)
    requires
        text_quality(text) == TextQuality::Good,
    ensures
        3 * words(text).filter(|w: Seq<char>| utf8_len(w) >= 20).len() <= words(text).len(),
{
    law_normalization_keeps_words(text);
    lemma_long_words_counted(words(text));
}

/// Some log whose trimmed text is not empty contains `marker`.
pub open spec fn some_nonblank_log_contains(logs: Seq<Seq<char>>, marker: Seq<char>) -> bool {
    exists|i: int| 0 <= i < logs.len() && trim(logs[i]).len() > 0 && #[trigger] contains(logs[i], marker)
}

/// Every log is blank once trimmed.
pub open spec fn all_logs_blank(logs: Seq<Seq<char>>) -> bool {
    forall|i: int| 0 <= i < logs.len() ==> (#[trigger] trim(logs[i])).len() == 0
}

/// The non-blank logs that the diagnosis reads are every log that is not blank: a marker
/// is seen in them exactly when some non-blank log holds it, and none is kept exactly
/// when all logs are blank.
pub proof fn lemma_nonblank_logs_keep_every_nonblank_log(logs: Seq<Seq<char>>, marker: Seq<char>)
    ensures
        any_contains(nonblank_logs(logs), marker) <==> some_nonblank_log_contains(logs, marker),
        nonblank_logs(logs).len() == 0 <==> all_logs_blank(logs),
    decreases logs.len(),
{
    if logs.len() > 0 {
        let prev = logs.drop_last();
        lemma_nonblank_logs_keep_every_nonblank_log(prev, marker);
        let k = nonblank_logs(logs);
        let kp = nonblank_logs(prev);
        let n = prev.len() as int;
        assert forall|i: int| 0 <= i < n implies #[trigger] prev[i] == logs[i] by {}
        if trim(logs.last()).len() > 0 {
            assert(k == kp.push(logs.last()));
            if any_contains(k, marker) {
                let j = choose|j: int| 0 <= j < k.len() && contains(k[j], marker);
                if j < kp.len() {
                    assert(k[j] == kp[j]);
                    assert(any_contains(kp, marker));
                    let i = choose|i: int|
                        0 <= i < prev.len() && trim(prev[i]).len() > 0 && #[trigger] contains(
                            prev[i],
                            marker,
                        );
                    assert(prev[i] == logs[i]);
                } else {
                    assert(k[j] == logs[n]);
                    assert(contains(logs[n], marker));
                }
            }
            if some_nonblank_log_contains(logs, marker) {
                let i = choose|i: int|
                    0 <= i < logs.len() && trim(logs[i]).len() > 0 && #[trigger] contains(
                        logs[i],
                        marker,
                    );
                if i < n {
                    assert(prev[i] == logs[i]);
                    assert(some_nonblank_log_contains(prev, marker));
                    let j = choose|j: int| 0 <= j < kp.len() && contains(kp[j], marker);
                    assert(k[j] == kp[j]);
                } else {
                    assert(k[kp.len() as int] == logs[i]);
                }
            }
            assert(trim(logs[n]).len() > 0);
        } else {
            assert(k == kp);
            if some_nonblank_log_contains(logs, marker) {
                let i = choose|i: int|
                    0 <= i < logs.len() && trim(logs[i]).len() > 0 && #[trigger] contains(
                        logs[i],
                        marker,
                    );
                assert(i < n);
                assert(prev[i] == logs[i]);
                assert(some_nonblank_log_contains(prev, marker));
            }
            if some_nonblank_log_contains(prev, marker) {
                let i = choose|i: int|
                    0 <= i < prev.len() && trim(prev[i]).len() > 0 && #[trigger] contains(
                        prev[i],
                        marker,
                    );
                assert(prev[i] == logs[i]);
            }
            if all_logs_blank(prev) {
                assert forall|i: int| 0 <= i < logs.len() implies (#[trigger] trim(logs[i])).len()
                    == 0 by {
                    if i < n {
                        assert(prev[i] == logs[i]);
                    }
                }
            }
            if all_logs_blank(logs) {
                assert forall|i: int| 0 <= i < prev.len() implies (#[trigger] trim(prev[i])).len()
                    == 0 by {
                    assert(prev[i] == logs[i]);
                }
            }
        }
    }
}

/// The runtime-log diagnosis reads every log that is not blank, wherever it stands: with
/// all logs blank there is none; otherwise the missing espeak-ng library together with
/// the dummy backend's audio failure gives the combined diagnosis, each alone its own,
/// then a missing Festival server, then missing OpenJTalk voice data, whichever
/// non-blank logs hold the markers.
pub proof fn law_runtime_logs_consult_every_log(logs: Seq<Seq<char>>)
    ensures
        all_logs_blank(logs) ==> runtime_log_diagnosis(logs) is None,
        ({
            let e = some_nonblank_log_contains(logs, "libespeak-ng.so.1"@);
            let d = some_nonblank_log_contains(
                logs,
                "Opening sound device failed. Reason: server audio is not supported."@,
            );
            let f = some_nonblank_log_contains(logs, "festival_client: connect to server failed"@);
            let o = some_nonblank_log_contains(logs, "nitech_jp_atr503_m001.htsvoice"@)
                || some_nonblank_log_contains(logs, "open: No such file or directory"@);
            &&& e && d ==> runtime_log_diagnosis(logs) == Some(espeak_and_dummy_message())
            &&& e && !d ==> runtime_log_diagnosis(logs) == Some(espeak_message())
            &&& !e && d ==> runtime_log_diagnosis(logs) == Some(dummy_message())
            &&& !e && !d && f ==> runtime_log_diagnosis(logs) == Some(festival_message())
            &&& !e && !d && !f && o ==> runtime_log_diagnosis(logs) == Some(openjtalk_message())
        }),
{
    lemma_nonblank_logs_keep_every_nonblank_log(logs, "libespeak-ng.so.1"@);
    lemma_nonblank_logs_keep_every_nonblank_log(
        logs,
        "Opening sound device failed. Reason: server audio is not supported."@,
    );
    lemma_nonblank_logs_keep_every_nonblank_log(logs, "festival_client: connect to server failed"@);
    lemma_nonblank_logs_keep_every_nonblank_log(logs, "nitech_jp_atr503_m001.htsvoice"@);
    lemma_nonblank_logs_keep_every_nonblank_log(logs, "open: No such file or directory"@);
    let k = nonblank_logs(logs);
    if k.len() == 0 {
        assert(!any_contains(k, "libespeak-ng.so.1"@));
        assert(!any_contains(
            k,
            "Opening sound device failed. Reason: server audio is not supported."@,
        ));
        assert(!any_contains(k, "festival_client: connect to server failed"@));
        assert(!any_contains(k, "nitech_jp_atr503_m001.htsvoice"@));
        assert(!any_contains(k, "open: No such file or directory"@));
    }
}

/// With nothing on stderr, a failed speech request is diagnosed from the runtime logs
/// alone.
pub proof fn law_blank_stderr_reads_the_logs(logs: Seq<Seq<char>>)
    ensures
        speech_diagnosis(Seq::<char>::empty(), logs) == runtime_log_diagnosis(logs),
{
    let e = Seq::<char>::empty();
    let src = seq![e];
    reveal_strlit("libespeak-ng.so.1");
    reveal_strlit("Opening sound device failed. Reason: server audio is not supported.");
    reveal_strlit("festival_client: connect to server failed");
    reveal_strlit("nitech_jp_atr503_m001.htsvoice");
    reveal_strlit("open: No such file or directory");
    reveal_strlit("speechd.sock");
    reveal_strlit("Failed to connect to Speech Dispatcher");
    assert(src[0] == e);
    assert(!any_contains(src, "libespeak-ng.so.1"@));
    assert(!any_contains(
        src,
        "Opening sound device failed. Reason: server audio is not supported."@,
    ));
    assert(!any_contains(src, "festival_client: connect to server failed"@));
    assert(!any_contains(src, "nitech_jp_atr503_m001.htsvoice"@));
    assert(!any_contains(src, "open: No such file or directory"@));
    assert(trim(e) == e);
    assert(crate::text::newline_pieces(e) == seq![e]);
    assert(src.drop_last() =~= Seq::<Seq<char>>::empty());
    assert(src.last() == e);
    assert(trimmed_nonblank(src.drop_last()) == Seq::<Seq<char>>::empty());
    assert(trimmed_nonblank(src) == Seq::<Seq<char>>::empty());
    assert(nonblank_lines(e) == Seq::<Seq<char>>::empty());
    assert(all_nonblank_lines(src.drop_last()) == Seq::<Seq<char>>::empty());
    assert(all_nonblank_lines(src) =~= Seq::<Seq<char>>::empty());
    assert(stderr_only_diagnosis(src) is None);
    assert(source_diagnosis(src) is None);
}

} // verus!
