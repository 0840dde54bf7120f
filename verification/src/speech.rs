//! Diagnosis of local speech (Speech Dispatcher) failures from the text the backend
//! printed or logged.
//!
//! Running `spd-say` and reading the log files are the shell's work; the functions here
//! take their output.

use crate::text::{
    char_rows, concat3, contains, contains_chars, nonblank_lines, nonblank_trimmed_lines,
    str_chars, string_from_chars, string_views, trim, trim_chars,
};
use vstd::prelude::*;

verus! {

broadcast use vstd::string::group_string_axioms;

/// What `String::from_utf8_lossy` makes of a byte string.
pub uninterp spec fn utf8_lossy_text(bytes: Seq<u8>) -> Seq<char>;

/// `String::from_utf8_lossy`: the decoded text, with each invalid sequence replaced by
/// U+FFFD.  The contract states that the result depends on the bytes alone and that valid
/// UTF-8 is decoded unchanged; what replaces invalid sequences is left unsaid.
#[verifier::external_body]
pub(crate) fn utf8_lossy(bytes: &[u8]) -> (s: String)
    ensures
        s@ == utf8_lossy_text(bytes@),
        vstd::utf8::valid_utf8(bytes@) ==> s@ == vstd::utf8::decode_utf8(bytes@),
{
    String::from_utf8_lossy(bytes).into_owned()
}

// ---------------------------------------------------------------------------
// Specifications
// ---------------------------------------------------------------------------

/// Some source contains `needle`.
pub open spec fn any_contains(sources: Seq<Seq<char>>, needle: Seq<char>) -> bool {
    exists|i: int| 0 <= i < sources.len() && contains(sources[i], needle)
}

/// The trimmed non-blank lines of all sources, in order.
pub open spec fn all_nonblank_lines(sources: Seq<Seq<char>>) -> Seq<Seq<char>>
    decreases sources.len(),
{
    if sources.len() == 0 {
        seq![]
    } else {
        all_nonblank_lines(sources.drop_last()) + nonblank_lines(sources.last())
    }
}

/// The first line that contains `needle`.
pub open spec fn first_containing(lines: Seq<Seq<char>>, needle: Seq<char>) -> Option<Seq<char>>
    decreases lines.len(),
{
    if lines.len() == 0 {
        None
    } else {
        let prev = first_containing(lines.drop_last(), needle);
        if prev is Some {
            prev
        } else if contains(lines.last(), needle) {
            Some(lines.last())
        } else {
            None
        }
    }
}

/// The socket-error marker.
pub open spec fn socket_marker() -> Seq<char> {
    "speechd.sock"@
}

/// The connection-failure marker.
pub open spec fn connect_failure_marker() -> Seq<char> {
    "Failed to connect to Speech Dispatcher"@
}

/// The short connection-failure diagnosis.
pub open spec fn could_not_connect_message() -> Seq<char> {
    "could not connect to Speech Dispatcher."@
}

/// Diagnosis from the raw lines: the first line naming the socket, else a connection
/// failure, else nothing.
pub open spec fn stderr_only_diagnosis(sources: Seq<Seq<char>>) -> Option<Seq<char>> {
    let lines = all_nonblank_lines(sources);
    if first_containing(lines, socket_marker()) is Some {
        first_containing(lines, socket_marker())
    } else if first_containing(lines, connect_failure_marker()) is Some {
        Some(could_not_connect_message())
    } else {
        None
    }
}

/// Marker of the missing espeak-ng library.
pub open spec fn missing_espeak_marker() -> Seq<char> {
    "libespeak-ng.so.1"@
}

/// Marker of the dummy backend's audio failure.
pub open spec fn dummy_audio_marker() -> Seq<char> {
    "Opening sound device failed. Reason: server audio is not supported."@
}

/// Marker of a missing Festival server.
pub open spec fn festival_marker() -> Seq<char> {
    "festival_client: connect to server failed"@
}

/// Markers of missing OpenJTalk voice data.
pub open spec fn openjtalk_voice_marker() -> Seq<char> {
    "nitech_jp_atr503_m001.htsvoice"@
}

/// Second marker of missing OpenJTalk voice data.
pub open spec fn missing_file_marker() -> Seq<char> {
    "open: No such file or directory"@
}

/// Diagnosis when espeak-ng cannot load and the dummy backend has no audio.
pub open spec fn espeak_and_dummy_message() -> Seq<char> {
    "Speech Dispatcher is running, but it has no usable speech backend: the espeak-ng modules cannot load because `libespeak-ng.so.1` is missing, and the remaining dummy backend cannot open audio. Install the package that provides `libespeak-ng.so.1` or configure another real Speech Dispatcher output module."@
}

/// Diagnosis when espeak-ng cannot load.
pub open spec fn espeak_message() -> Seq<char> {
    "Speech Dispatcher is running, but its espeak-ng output modules cannot load because `libespeak-ng.so.1` is missing. Install the package that provides `libespeak-ng.so.1` or configure another real Speech Dispatcher output module."@
}

/// Diagnosis when the remaining backend has no audio.
pub open spec fn dummy_message() -> Seq<char> {
    "Speech Dispatcher is running, but the remaining backend cannot open audio (`server audio is not supported`). Configure a working audio-capable Speech Dispatcher output module."@
}

/// Diagnosis when no Festival server runs.
pub open spec fn festival_message() -> Seq<char> {
    "Speech Dispatcher tried the Festival backend, but no Festival server is running. Start Festival or configure a different Speech Dispatcher output module."@
}

/// Diagnosis when OpenJTalk voice data is missing.
pub open spec fn openjtalk_message() -> Seq<char> {
    "Speech Dispatcher tried the OpenJTalk backend, but its voice data is missing. Install the required OpenJTalk voice package or configure a different Speech Dispatcher output module."@
}

/// The diagnosis that text sources support, checked from the most to the least specific
/// failure.
pub open spec fn source_diagnosis(sources: Seq<Seq<char>>) -> Option<Seq<char>> {
    let espeak = any_contains(sources, missing_espeak_marker());
    let dummy = any_contains(sources, dummy_audio_marker());
    let festival = any_contains(sources, festival_marker());
    let openjtalk = any_contains(sources, openjtalk_voice_marker()) || any_contains(
        sources,
        missing_file_marker(),
    );
    if sources.len() == 0 {
        None
    } else if espeak && dummy {
        Some(espeak_and_dummy_message())
    } else if espeak {
        Some(espeak_message())
    } else if dummy {
        Some(dummy_message())
    } else if festival {
        Some(festival_message())
    } else if openjtalk {
        Some(openjtalk_message())
    } else {
        stderr_only_diagnosis(sources)
    }
}

/// Whether the stderr text hints at a backend problem that the runtime logs may explain:
/// it is blank, or mentions Speech Dispatcher, speechd, an output module, a module error,
/// audio or a voice.
pub open spec fn consults_runtime_logs(stderr_text: Seq<char>) -> bool {
    let t = trim(stderr_text);
    ||| t.len() == 0
    ||| contains(t, "Speech Dispatcher"@)
    ||| contains(t, "speechd"@)
    ||| contains(t, "output module"@)
    ||| contains(t, "MODULE ERROR"@)
    ||| contains(t, "audio"@)
    ||| contains(t, "voice"@)
}

/// The log contents that are not blank, in order.
pub open spec fn nonblank_logs(logs: Seq<Seq<char>>) -> Seq<Seq<char>>
    decreases logs.len(),
{
    if logs.len() == 0 {
        seq![]
    } else if trim(logs.last()).len() > 0 {
        nonblank_logs(logs.drop_last()).push(logs.last())
    } else {
        nonblank_logs(logs.drop_last())
    }
}

/// Diagnosis from the runtime log files' contents.
pub open spec fn runtime_log_diagnosis(logs: Seq<Seq<char>>) -> Option<Seq<char>> {
    if nonblank_logs(logs).len() == 0 {
        None
    } else {
        source_diagnosis(nonblank_logs(logs))
    }
}

/// Diagnosis of a speech failure: from stderr first; from the runtime logs when stderr
/// says nothing specific but hints at a backend problem.
pub open spec fn speech_diagnosis(stderr_text: Seq<char>, logs: Seq<Seq<char>>) -> Option<
    Seq<char>,
> {
    if source_diagnosis(seq![stderr_text]) is Some {
        source_diagnosis(seq![stderr_text])
    } else if consults_runtime_logs(stderr_text) {
        runtime_log_diagnosis(logs)
    } else {
        None
    }
}

/// The error message for a failed speech command: the prefix, and after a colon the
/// diagnosis, or the connection detail, or the first line of stderr.
pub open spec fn speech_error_message(prefix: Seq<char>, stderr_text: Seq<char>, logs: Seq<
    Seq<char>,
>) -> Seq<char> {
    let t = trim(stderr_text);
    let lines = nonblank_lines(t);
    let sep = ": "@;
    if speech_diagnosis(t, logs) is Some {
        prefix + sep + speech_diagnosis(t, logs)->0
    } else if t.len() == 0 {
        prefix
    } else {
        let first = if lines.len() > 0 {
            lines[0]
        } else {
            prefix
        };
        if contains(first, connect_failure_marker()) {
            if lines.len() > 1 {
                prefix + sep + lines[1]
            } else {
                prefix + sep + could_not_connect_message()
            }
        } else {
            prefix + sep + first
        }
    }
}

/// The log files Speech Dispatcher writes, by name.
pub open spec fn speech_log_file_names() -> Seq<Seq<char>> {
    seq![
        "speech-dispatcher.log"@,
        "espeak-ng.log"@,
        "espeak-ng-fallback.log"@,
        "espeak-ng-mbrola.log"@,
        "festival.log"@,
        "openjtalk.log"@,
        "dummy.log"@,
    ]
}

/// The character sequences of a sequence of string slices.
pub open spec fn str_views(strs: Seq<&str>) -> Seq<Seq<char>> {
    Seq::new(strs.len(), |i: int| strs[i]@)
}

/// The character sequence inside an optional character vector.
pub open spec fn opt_chars(o: Option<Vec<char>>) -> Option<Seq<char>> {
    match o {
        Some(v) => Some(v@),
        None => None,
    }
}

/// The character sequence inside an optional string.
pub open spec fn opt_string(o: Option<String>) -> Option<Seq<char>> {
    match o {
        Some(s) => Some(s@),
        None => None,
    }
}

// ---------------------------------------------------------------------------
// Executable diagnosis
// ---------------------------------------------------------------------------

/// Whether some source contains `needle`.
fn any_source_contains(sources: &Vec<Vec<char>>, needle: &str) -> (b: bool)
    ensures
        b == any_contains(char_rows(sources@), needle@),
{
    let needle_chars = str_chars(needle);
    let ghost rows = char_rows(sources@);
    let mut i: usize = 0;
    while i < sources.len()
        invariant
            i <= sources.len(),
            rows == char_rows(sources@),
            needle_chars@ == needle@,
            forall|j: int| 0 <= j < i ==> !contains(#[trigger] rows[j], needle@),
        decreases sources.len() - i,
    {
        if contains_chars(&sources[i], &needle_chars) {
            assert(contains(rows[i as int], needle@));
            return true;
        }
        i = i + 1;
    }
    false
}

/// The trimmed non-blank lines of all sources.
fn all_lines(sources: &Vec<Vec<char>>) -> (lines: Vec<Vec<char>>)
    ensures
        char_rows(lines@) == all_nonblank_lines(char_rows(sources@)),
{
    let ghost rows = char_rows(sources@);
    let mut out: Vec<Vec<char>> = Vec::new();
    let mut i: usize = 0;
    while i < sources.len()
        invariant
            i <= sources.len(),
            rows == char_rows(sources@),
            char_rows(out@) == all_nonblank_lines(rows.take(i as int)),
        decreases sources.len() - i,
    {
        assert(rows.take(i + 1).drop_last() == rows.take(i as int));
        assert(rows.take(i + 1).last() == sources@[i as int]@);
        let mut lines = nonblank_trimmed_lines(&sources[i]);
        let ghost before = char_rows(out@);
        let ghost added = char_rows(lines@);
        out.append(&mut lines);
        assert(char_rows(out@) =~= before + added);
        i = i + 1;
    }
    assert(rows.take(sources.len() as int) == rows);
    out
}

/// The index of the first line that contains `needle`.
fn first_line_containing(lines: &Vec<Vec<char>>, needle: &str) -> (found: Option<usize>)
    ensures
        match found {
            Some(k) => k < lines.len() && first_containing(char_rows(lines@), needle@) == Some(
                lines@[k as int]@,
            ),
            None => first_containing(char_rows(lines@), needle@) is None,
        },
{
    let needle_chars = str_chars(needle);
    let ghost rows = char_rows(lines@);
    let mut i: usize = 0;
    while i < lines.len()
        invariant
            i <= lines.len(),
            rows == char_rows(lines@),
            needle_chars@ == needle@,
            first_containing(rows.take(i as int), needle@) is None,
        decreases lines.len() - i,
    {
        assert(rows.take(i + 1).drop_last() == rows.take(i as int));
        if contains_chars(&lines[i], &needle_chars) {
            proof {
                lemma_first_containing_prefix(rows, needle@, i as int);
            }
            return Some(i);
        }
        i = i + 1;
    }
    assert(rows.take(lines.len() as int) == rows);
    None
}

/// When no line before `i` contains `needle` and line `i` does, line `i` is the first one.
proof fn lemma_first_containing_prefix(rows: Seq<Seq<char>>, needle: Seq<char>, i: int)
    requires
        0 <= i < rows.len(),
        first_containing(rows.take(i), needle) is None,
        contains(rows[i], needle),
    ensures
        first_containing(rows, needle) == Some(rows[i]),
    decreases rows.len(),
{
    if i == rows.len() - 1 {
        assert(rows.drop_last() == rows.take(i));
    } else {
        assert(rows.drop_last().take(i) == rows.take(i));
        lemma_first_containing_prefix(rows.drop_last(), needle, i);
    }
}

/// `Some` of a copy of row `k`.
fn copy_row(rows: &Vec<Vec<char>>, k: usize) -> (out: Vec<char>)
    requires
        k < rows.len(),
    ensures
        out@ == rows@[k as int]@,
{
    let row = &rows[k];
    let mut out: Vec<char> = Vec::new();
    let mut i: usize = 0;
    while i < row.len()
        invariant
            i <= row.len(),
            out@ == row@.take(i as int),
        decreases row.len() - i,
    {
        out.push(row[i]);
        i = i + 1;
        assert(out@ == row@.take(i as int));
    }
    assert(row@.take(row.len() as int) == row@);
    out
}

/// Diagnosis from text sources held as character vectors.
fn diagnose_rows(sources: &Vec<Vec<char>>) -> (d: Option<Vec<char>>)
    ensures
        opt_chars(d) == source_diagnosis(char_rows(sources@)),
{
    if sources.len() == 0 {
        return None;
    }
    let espeak = any_source_contains(sources, "libespeak-ng.so.1");
    let dummy = any_source_contains(
        sources,
        "Opening sound device failed. Reason: server audio is not supported.",
    );
    let festival = any_source_contains(sources, "festival_client: connect to server failed");
    let openjtalk = any_source_contains(sources, "nitech_jp_atr503_m001.htsvoice")
        || any_source_contains(sources, "open: No such file or directory");
    if espeak && dummy {
        return Some(str_chars("Speech Dispatcher is running, but it has no usable speech backend: the espeak-ng modules cannot load because `libespeak-ng.so.1` is missing, and the remaining dummy backend cannot open audio. Install the package that provides `libespeak-ng.so.1` or configure another real Speech Dispatcher output module."));
    }
    if espeak {
        return Some(str_chars("Speech Dispatcher is running, but its espeak-ng output modules cannot load because `libespeak-ng.so.1` is missing. Install the package that provides `libespeak-ng.so.1` or configure another real Speech Dispatcher output module."));
    }
    if dummy {
        return Some(str_chars("Speech Dispatcher is running, but the remaining backend cannot open audio (`server audio is not supported`). Configure a working audio-capable Speech Dispatcher output module."));
    }
    if festival {
        return Some(str_chars("Speech Dispatcher tried the Festival backend, but no Festival server is running. Start Festival or configure a different Speech Dispatcher output module."));
    }
    if openjtalk {
        return Some(str_chars("Speech Dispatcher tried the OpenJTalk backend, but its voice data is missing. Install the required OpenJTalk voice package or configure a different Speech Dispatcher output module."));
    }
    let lines = all_lines(sources);
    match first_line_containing(&lines, "speechd.sock") {
        Some(k) => Some(copy_row(&lines, k)),
        None => match first_line_containing(&lines, "Failed to connect to Speech Dispatcher") {
            Some(_) => Some(str_chars("could not connect to Speech Dispatcher.")),
            None => None,
        },
    }
}

/// The character rows of a slice of string slices.
fn rows_of_strs(sources: &[&str]) -> (rows: Vec<Vec<char>>)
    ensures
        char_rows(rows@) == str_views(sources@),
{
    let mut rows: Vec<Vec<char>> = Vec::new();
    let mut i: usize = 0;
    while i < sources.len()
        invariant
            i <= sources.len(),
            char_rows(rows@) == str_views(sources@).take(i as int),
        decreases sources.len() - i,
    {
        let ghost before = char_rows(rows@);
        let row = str_chars(sources[i]);
        rows.push(row);
        assert(char_rows(rows@) =~= before.push(sources@[i as int]@));
        assert(str_views(sources@).take(i + 1) =~= str_views(sources@).take(i as int).push(
            sources@[i as int]@,
        ));
        i = i + 1;
    }
    assert(str_views(sources@).take(sources.len() as int) == str_views(sources@));
    rows
}

/// The character rows of a slice of strings.
fn rows_of_strings(sources: &[String]) -> (rows: Vec<Vec<char>>)
    ensures
        char_rows(rows@) == string_views(sources@),
{
    let mut rows: Vec<Vec<char>> = Vec::new();
    let mut i: usize = 0;
    while i < sources.len()
        invariant
            i <= sources.len(),
            char_rows(rows@) == string_views(sources@).take(i as int),
        decreases sources.len() - i,
    {
        let ghost before = char_rows(rows@);
        let row = str_chars(sources[i].as_str());
        rows.push(row);
        assert(char_rows(rows@) =~= before.push(sources@[i as int]@));
        assert(string_views(sources@).take(i + 1) =~= string_views(sources@).take(i as int).push(
            sources@[i as int]@,
        ));
        i = i + 1;
    }
    assert(string_views(sources@).take(sources.len() as int) == string_views(sources@));
    rows
}

/// An optional character vector as an optional string.
fn opt_to_string(d: Option<Vec<char>>) -> (s: Option<String>)
    ensures
        opt_string(s) == opt_chars(d),
{
    match d {
        Some(v) => Some(string_from_chars(&v)),
        None => None,
    }
}

/// Diagnoses a speech failure from text sources (stderr output or log file contents).
pub fn diagnose_from_text_sources(sources: &[&str]) -> (d: Option<String>)
    ensures
        opt_string(d) == source_diagnosis(str_views(sources@)),
{
    let rows = rows_of_strs(sources);
    opt_to_string(diagnose_rows(&rows))
}

/// Diagnosis from the raw lines alone: the first line that names the socket, else a
/// connection failure.
pub fn diagnose_from_stderr_only(lines: &[&str]) -> (d: Option<String>)
    ensures
        opt_string(d) == stderr_only_diagnosis(str_views(lines@)),
{
    let rows = rows_of_strs(lines);
    let all = all_lines(&rows);
    match first_line_containing(&all, "speechd.sock") {
        Some(k) => Some(string_from_chars(&copy_row(&all, k))),
        None => match first_line_containing(&all, "Failed to connect to Speech Dispatcher") {
            Some(_) => Some("could not connect to Speech Dispatcher.".to_string()),
            None => None,
        },
    }
}

/// Whether the stderr text hints at a backend problem that the runtime logs may explain.
pub fn should_consult_runtime_logs(stderr_text: &str) -> (b: bool)
    ensures
        b == consults_runtime_logs(stderr_text@),
{
    let t = trim_chars(&str_chars(stderr_text));
    t.len() == 0 || contains_chars(&t, &str_chars("Speech Dispatcher")) || contains_chars(
        &t,
        &str_chars("speechd"),
    ) || contains_chars(&t, &str_chars("output module")) || contains_chars(
        &t,
        &str_chars("MODULE ERROR"),
    ) || contains_chars(&t, &str_chars("audio")) || contains_chars(&t, &str_chars("voice"))
}

/// Diagnosis from the contents of the runtime log files that could be read.
pub fn diagnose_from_runtime_logs(logs: &[String]) -> (d: Option<String>)
    ensures
        opt_string(d) == runtime_log_diagnosis(string_views(logs@)),
{
    let rows = rows_of_strings(logs);
    let ghost all = char_rows(rows@);
    let mut kept: Vec<Vec<char>> = Vec::new();
    let mut i: usize = 0;
    while i < rows.len()
        invariant
            i <= rows.len(),
            all == char_rows(rows@),
            char_rows(kept@) == nonblank_logs(all.take(i as int)),
        decreases rows.len() - i,
    {
        assert(all.take(i + 1).drop_last() == all.take(i as int));
        assert(all.take(i + 1).last() == rows@[i as int]@);
        if trim_chars(&rows[i]).len() > 0 {
            let ghost before = char_rows(kept@);
            let row = copy_row(&rows, i);
            kept.push(row);
            assert(char_rows(kept@) =~= before.push(all[i as int]));
        }
        i = i + 1;
    }
    assert(all.take(rows.len() as int) == all);
    if kept.len() == 0 {
        return None;
    }
    opt_to_string(diagnose_rows(&kept))
}

/// Diagnosis of a speech failure from its (trimmed) stderr and the runtime logs' contents.
pub fn infer_speech_dispatcher_diagnosis(stderr_text: &str, runtime_logs: &[String]) -> (d:
    Option<String>)
    ensures
        opt_string(d) == speech_diagnosis(stderr_text@, string_views(runtime_logs@)),
{
    let sources: Vec<&str> = vec![stderr_text];
    assert(str_views(sources@) =~= seq![stderr_text@]);
    if let Some(diagnosis) = diagnose_from_text_sources(sources.as_slice()) {
        return Some(diagnosis);
    }
    if should_consult_runtime_logs(stderr_text) {
        return diagnose_from_runtime_logs(runtime_logs);
    }
    None
}

/// The error message for a failed speech command, from its stderr bytes and the runtime
/// logs' contents.
pub fn format_speech_dispatcher_error(prefix: &str, stderr: &[u8], runtime_logs: &[String]) -> (msg:
    String)
    ensures
        msg@ == speech_error_message(prefix@, utf8_lossy_text(stderr@), string_views(runtime_logs@)),
        msg@ == prefix@ || (crate::backend::starts_with(msg@, prefix@ + ": "@)
            && crate::laws::has_no_newline(msg@.skip(prefix@.len() as int))),
{
    proof {
        crate::laws::law_speech_error_adds_one_line(
            prefix@,
            utf8_lossy_text(stderr@),
            string_views(runtime_logs@),
        );
    }
    let text = utf8_lossy(stderr);
    let trimmed_chars = trim_chars(&str_chars(text.as_str()));
    let trimmed = string_from_chars(&trimmed_chars);
    if let Some(diagnosis) = infer_speech_dispatcher_diagnosis(trimmed.as_str(), runtime_logs) {
        return concat3(prefix, ": ", diagnosis.as_str());
    }
    if trimmed_chars.len() == 0 {
        return string_from_chars(&str_chars(prefix));
    }
    let lines = nonblank_trimmed_lines(&trimmed_chars);
    let first = if lines.len() > 0 {
        string_from_chars(&copy_row(&lines, 0))
    } else {
        string_from_chars(&str_chars(prefix))
    };
    if contains_chars(&str_chars(first.as_str()), &str_chars("Failed to connect to Speech Dispatcher")) {
        if lines.len() > 1 {
            let second = string_from_chars(&copy_row(&lines, 1));
            return concat3(prefix, ": ", second.as_str());
        }
        return concat3(prefix, ": ", "could not connect to Speech Dispatcher.");
    }
    concat3(prefix, ": ", first.as_str())
}

/// The paths of the Speech Dispatcher log files inside `log_dir`.
pub fn candidate_speech_dispatcher_log_paths(log_dir: Option<&str>) -> (paths: Vec<String>)
    ensures
        log_dir is None ==> paths@.len() == 0,
        log_dir matches Some(dir) ==> string_views(paths@) == Seq::new(
            7,
            |i: int| crate::paths::joined(dir@, speech_log_file_names()[i]),
        ),
{
    let dir = match log_dir {
        None => return Vec::new(),
        Some(d) => d,
    };
    let names: [&str; 7] = [
        "speech-dispatcher.log",
        "espeak-ng.log",
        "espeak-ng-fallback.log",
        "espeak-ng-mbrola.log",
        "festival.log",
        "openjtalk.log",
        "dummy.log",
    ];
    let mut paths: Vec<String> = Vec::new();
    let mut i: usize = 0;
    while i < 7
        invariant
            i <= 7,
            names@.len() == 7,
            forall|k: int| 0 <= k < 7 ==> names@[k]@ == speech_log_file_names()[k],
            string_views(paths@) == Seq::new(
                i as nat,
                |k: int| crate::paths::joined(dir@, speech_log_file_names()[k]),
            ),
        decreases 7 - i,
    {
        let ghost before = string_views(paths@);
        let joined = crate::paths::join_path(dir, names[i]);
        assert(names@[i as int]@ == speech_log_file_names()[i as int]);
        paths.push(joined);
        assert(string_views(paths@) =~= before.push(joined@));
        assert(string_views(paths@) =~= Seq::new(
            (i + 1) as nat,
            |k: int| crate::paths::joined(dir@, speech_log_file_names()[k]),
        ));
        i = i + 1;
    }
    paths
}

} // verus!
