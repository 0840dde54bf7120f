//! The desktop backend's services: start-up data, opening PDFs, the PDF engine boundary,
//! SVG export destinations, configuration paths and stopping local speech.
//!
//! Processes, dialogs, the environment and the file system are the shell's; these
//! functions take what they returned and decide what to answer.

use crate::dto::{
    is_default_config, AppBootstrapDto, ExtractPdfTextRequestDto, PageTextExtractionDto, AppConfigDto, AppModeDto, OpenPdfDocumentRequestDto,
    OpenPdfDocumentResponseDto, PdfBackendStatusDto, ReadingReliabilityStateDto,
    RenderPdfPageRequestDto, RenderPdfPageResponseDto, SaveSvgExportRequestDto,
};
use crate::paths::{
    file_label, file_label_of, has_extension_ignoring_ascii_case, has_extension_ignoring_case,
    joined, join_path,
};
use crate::speech::{format_speech_dispatcher_error, speech_error_message, utf8_lossy, utf8_lossy_text};
use crate::text::{
    append_chars, ascii_lowercase, ascii_lowercase_chars, char_rows, concat2, concat3, decimal, decimal_chars,
    nonblank_lines, nonblank_trimmed_lines, push_str_chars, str_chars, string_from_chars,
    string_views, trim, trim_chars,
};
use vstd::prelude::*;

verus! {

broadcast use vstd::string::group_string_axioms;

/// What a finished external command reported.
#[derive(Debug, Clone, PartialEq, Eq)]
pub struct CommandOutput {
    pub success: bool,
    pub stdout: Vec<u8>,
    pub stderr: Vec<u8>,
}

// ---------------------------------------------------------------------------
// Text helpers
// ---------------------------------------------------------------------------

/// `s` ends with `suffix`.
pub open spec fn ends_with(s: Seq<char>, suffix: Seq<char>) -> bool {
    suffix.len() <= s.len() && s.skip(s.len() - suffix.len()) == suffix
}

/// `s` starts with `prefix`.
pub open spec fn starts_with(s: Seq<char>, prefix: Seq<char>) -> bool {
    prefix.len() <= s.len() && s.take(prefix.len() as int) == prefix
}

/// Whether `s` ends with `suffix`.
fn ends_with_chars(s: &Vec<char>, suffix: &Vec<char>) -> (b: bool)
    ensures
        b == ends_with(s@, suffix@),
{
    if suffix.len() > s.len() {
        return false;
    }
    let off = s.len() - suffix.len();
    let mut i: usize = 0;
    while i < suffix.len()
        invariant
            off == s.len() - suffix.len(),
            i <= suffix.len(),
            forall|j: int| 0 <= j < i ==> s@[off + j] == suffix@[j],
        decreases suffix.len() - i,
    {
        if s[off + i] != suffix[i] {
            assert(s@.skip(off as int)[i as int] == s@[off + i]);
            return false;
        }
        i = i + 1;
    }
    assert(s@.skip(off as int) =~= suffix@);
    true
}

/// Whether `s` starts with `prefix`.
fn starts_with_chars(s: &Vec<char>, prefix: &Vec<char>) -> (b: bool)
    ensures
        b == starts_with(s@, prefix@),
{
    if prefix.len() > s.len() {
        return false;
    }
    let mut i: usize = 0;
    while i < prefix.len()
        invariant
            prefix.len() <= s.len(),
            i <= prefix.len(),
            forall|j: int| 0 <= j < i ==> s@[j] == prefix@[j],
        decreases prefix.len() - i,
    {
        if s[i] != prefix[i] {
            assert(s@.take(prefix.len() as int)[i as int] == s@[i as int]);
            return false;
        }
        i = i + 1;
    }
    assert(s@.take(prefix.len() as int) =~= prefix@);
    true
}

/// The characters of `s` from position `k` on.
fn chars_from(s: &Vec<char>, k: usize) -> (out: Vec<char>)
    requires
        k <= s.len(),
    ensures
        out@ == s@.skip(k as int),
{
    let mut out: Vec<char> = Vec::new();
    let mut i: usize = k;
    while i < s.len()
        invariant
            k <= i <= s.len(),
            out@ == s@.subrange(k as int, i as int),
        decreases s.len() - i,
    {
        out.push(s[i]);
        i = i + 1;
        assert(out@ == s@.subrange(k as int, i as int));
    }
    out
}

// ---------------------------------------------------------------------------
// Parsing integers
// ---------------------------------------------------------------------------

/// ASCII decimal digit.
pub open spec fn is_decimal_digit(c: char) -> bool {
    '0' <= c && c <= '9'
}

/// The value of a string of decimal digits.
pub open spec fn digits_value(d: Seq<char>) -> nat
    decreases d.len(),
{
    if d.len() == 0 {
        0
    } else {
        digits_value(d.drop_last()) * 10 + ((d.last() as u32) - 48) as nat
    }
}

/// The `u32` that `s` spells, as `str::parse::<u32>` reads it: an optional `+` followed by
/// at least one ASCII digit, with a value that fits.
pub open spec fn u32_literal(s: Seq<char>) -> Option<u32> {
    let d = if s.len() > 0 && s[0] == '+' {
        s.drop_first()
    } else {
        s
    };
    if d.len() > 0 && (forall|i: int| 0 <= i < d.len() ==> is_decimal_digit(#[trigger] d[i]))
        && digits_value(d) <= u32::MAX {
        Some(digits_value(d) as u32)
    } else {
        None
    }
}

/// `str::parse::<u32>`, with the error rendered as text.  The contract states when the
/// parse succeeds and what it yields; the error's wording is left unsaid.
#[verifier::external_body]
fn parse_u32(s: &str) -> (r: Result<u32, String>)
    ensures
        r is Ok <==> u32_literal(s@) is Some,
        r matches Ok(n) ==> u32_literal(s@) == Some(n),
{
    match s.parse::<u32>() {
        Ok(n) => Ok(n),
        Err(error) => Err(error.to_string()),
    }
}

// ---------------------------------------------------------------------------
// Page counts from pdfinfo
// ---------------------------------------------------------------------------

/// The first line that starts with `Pages:`, without that prefix and trimmed.
pub open spec fn first_pages_value(lines: Seq<Seq<char>>) -> Option<Seq<char>>
    decreases lines.len(),
{
    if lines.len() == 0 {
        None
    } else if first_pages_value(lines.drop_last()) is Some {
        first_pages_value(lines.drop_last())
    } else if starts_with(lines.last(), "Pages:"@) {
        Some(trim(lines.last().skip("Pages:"@.len() as int)))
    } else {
        None
    }
}

/// The outcome of asking `pdfinfo` for a page count: the number on its `Pages:` line.
/// A command that could not run, a failed command, a missing line and an unreadable
/// number each give their own error.  (The lines are trimmed before the prefix test, and
/// a blank line never starts with `Pages:`, so looking only at non-blank lines finds the
/// same first match.)
pub open spec fn pdfinfo_page_count_ok(run: Result<CommandOutput, String>) -> Option<u32> {
    match run {
        Err(_) => None,
        Ok(out) => if !out.success {
            None
        } else {
            match first_pages_value(nonblank_lines(utf8_lossy_text(out.stdout@))) {
                Some(v) => u32_literal(v),
                None => None,
            }
        },
    }
}

/// Reads the page count out of `pdfinfo`'s run (`Err` holds why it could not be started).
pub fn pdf_page_count_from_pdfinfo(run: Result<CommandOutput, String>) -> (r: Result<u32, String>)
    ensures
        r is Ok <==> pdfinfo_page_count_ok(run) is Some,
        r matches Ok(n) ==> pdfinfo_page_count_ok(run) == Some(n),
        run matches Err(e) ==> r matches Err(m) && m@ == "Could not run pdfinfo: "@ + e@,
        run matches Ok(out) ==> (!out.success ==> (r matches Err(m) && m@ == "pdfinfo failed: "@
            + trim(utf8_lossy_text(out.stderr@)))),
        run matches Ok(out) ==> (out.success && first_pages_value(
            nonblank_lines(utf8_lossy_text(out.stdout@)),
        ) is None ==> (r matches Err(m) && m@ == "pdfinfo did not report a page count."@)),
        run matches Ok(out) ==> (out.success ==> (first_pages_value(
            nonblank_lines(utf8_lossy_text(out.stdout@)),
        ) matches Some(v) ==> (u32_literal(v) is None ==> (r matches Err(m) && starts_with(
            m@,
            "Could not parse page count from pdfinfo: "@,
        ))))),
{
    let out = match run {
        Err(error) => return Err(concat2("Could not run pdfinfo: ", error.as_str())),
        Ok(out) => out,
    };
    if !out.success {
        let stderr = utf8_lossy(out.stderr.as_slice());
        let trimmed = string_from_chars(&trim_chars(&str_chars(stderr.as_str())));
        return Err(concat2("pdfinfo failed: ", trimmed.as_str()));
    }
    let stdout = utf8_lossy(out.stdout.as_slice());
    let lines = nonblank_trimmed_lines(&str_chars(stdout.as_str()));
    let prefix = str_chars("Pages:");
    let ghost rows = char_rows(lines@);
    let mut i: usize = 0;
    while i < lines.len()
        invariant
            i <= lines.len(),
            rows == char_rows(lines@),
            prefix@ == "Pages:"@,
            first_pages_value(rows.take(i as int)) is None,
            rows == nonblank_lines(utf8_lossy_text(out.stdout@)),
            run == Ok::<CommandOutput, String>(out),
            out.success,
        decreases lines.len() - i,
    {
        assert(rows.take(i + 1).drop_last() == rows.take(i as int));
        assert(rows.take(i + 1).last() == lines@[i as int]@);
        if starts_with_chars(&lines[i], &prefix) {
            let value = string_from_chars(&trim_chars(&chars_from(&lines[i], prefix.len())));
            proof {
                lemma_first_pages_value_prefix(rows, i as int);
                assert(value@ == trim(rows[i as int].skip("Pages:"@.len() as int)));
                assert(rows == nonblank_lines(utf8_lossy_text(out.stdout@)));
                assert(run == Ok::<CommandOutput, String>(out));
            }
            return match parse_u32(value.as_str()) {
                Ok(n) => Ok(n),
                Err(error) => {
                    let message = concat2(
                        "Could not parse page count from pdfinfo: ",
                        error.as_str(),
                    );
                    assert(message@.take("Could not parse page count from pdfinfo: "@.len() as int)
                        =~= "Could not parse page count from pdfinfo: "@);
                    Err(message)
                },
            };
        }
        i = i + 1;
    }
    assert(rows.take(lines.len() as int) == rows);
    Err("pdfinfo did not report a page count.".to_string())
}

/// When no line before `i` holds the `Pages:` value and line `i` does, its value is the
/// first one.
proof fn lemma_first_pages_value_prefix(rows: Seq<Seq<char>>, i: int)
    requires
        0 <= i < rows.len(),
        first_pages_value(rows.take(i)) is None,
        starts_with(rows[i], "Pages:"@),
    ensures
        first_pages_value(rows) == Some(trim(rows[i].skip("Pages:"@.len() as int))),
    decreases rows.len(),
{
    if i == rows.len() - 1 {
        assert(rows.drop_last() == rows.take(i));
    } else {
        assert(rows.drop_last().take(i) == rows.take(i));
        lemma_first_pages_value_prefix(rows.drop_last(), i);
    }
}

// ---------------------------------------------------------------------------
// The PDF engine boundary
// ---------------------------------------------------------------------------

/// The Pdfium-style PDF engine boundary.  Rendering and extraction are not implemented
/// behind it yet; it reports itself as not configured.
#[derive(Debug, Clone, Copy, PartialEq, Eq, Structural)]
pub struct PdfiumEngineAdapter;

/// The status the Pdfium boundary reports.
pub open spec fn is_pdfium_boundary_status(s: PdfBackendStatusDto) -> bool {
    &&& s.backend_key@ == "pdfium"@
    &&& s.backend_name@ == "Pdfium adapter boundary"@
    &&& !s.configured
    &&& pdfium_boundary_notes(string_views(s.notes@))
}

/// The notes the Pdfium boundary reports.
pub open spec fn pdfium_boundary_notes(notes: Seq<Seq<char>>) -> bool {
    notes == seq![
        "The repo now assumes a Pdfium-style Rust integration path."@,
        "Runtime rendering and extraction are still intentionally unimplemented."@,
        "This boundary exists so later work does not need to reopen the engine decision."@,
    ]
}

/// The error for a page the boundary cannot render.
pub open spec fn render_not_implemented_message(document_path: Seq<char>, page_index: u32) -> Seq<
    char,
> {
    "Pdfium page rendering is not implemented yet for "@ + document_path + " page "@ + decimal(
        page_index as nat,
    ) + "."@
}

/// The notes of the Pdfium boundary.
fn pdfium_notes() -> (notes: Vec<String>)
    ensures
        pdfium_boundary_notes(string_views(notes@)),
{
    let mut notes: Vec<String> = Vec::new();
    notes.push("The repo now assumes a Pdfium-style Rust integration path.".to_string());
    notes.push("Runtime rendering and extraction are still intentionally unimplemented.".to_string());
    notes.push(
        "This boundary exists so later work does not need to reopen the engine decision.".to_string(),
    );
    assert(string_views(notes@) =~= seq![
        "The repo now assumes a Pdfium-style Rust integration path."@,
        "Runtime rendering and extraction are still intentionally unimplemented."@,
        "This boundary exists so later work does not need to reopen the engine decision."@,
    ]);
    notes
}

/// The warning of the page-text extraction that the boundary does not implement yet.
pub open spec fn extraction_not_implemented_warning() -> Seq<char> {
    "Text extraction contract is wired, but Pdfium extraction is not implemented yet."@
}

/// The answer of the boundary to a page-text request: the page, no reliable text, and
/// the not-implemented warning.
pub open spec fn is_unimplemented_extraction(r: Result<PageTextExtractionDto, String>, page_index: u32) -> bool {
    &&& r matches Ok(x)
    &&& r->Ok_0.page_index == page_index
    &&& r->Ok_0.reliability == ReadingReliabilityStateDto::Unavailable
    &&& r->Ok_0.warning matches Some(w)
    &&& r->Ok_0.warning->0@ == extraction_not_implemented_warning()
}

impl Default for PdfiumEngineAdapter {
    fn default() -> (engine: Self)
        ensures
            engine == PdfiumEngineAdapter,
    {
        PdfiumEngineAdapter
    }
}

impl PdfiumEngineAdapter {
    /// Page-text extraction is not implemented: every request is answered with the page,
    /// an unavailable reliability and a warning saying so.
    pub fn extract_page_text(&self, request: &ExtractPdfTextRequestDto) -> (r: Result<
        PageTextExtractionDto,
        String,
    >)
        ensures
            is_unimplemented_extraction(r, request.page_index),
    {
        Ok(
            PageTextExtractionDto {
                page_index: request.page_index,
                reliability: ReadingReliabilityStateDto::Unavailable,
                warning: Some(
                    "Text extraction contract is wired, but Pdfium extraction is not implemented yet.".to_string(),
                ),
            },
        )
    }

    /// The engine boundary.
    pub fn new() -> (engine: Self)
        ensures
            engine == PdfiumEngineAdapter,
    {
        PdfiumEngineAdapter
    }

    /// The boundary's status: Pdfium, not configured, with notes on what is missing.
    pub fn backend_status(&self) -> (s: PdfBackendStatusDto)
        ensures
            is_pdfium_boundary_status(s),
    {
        PdfBackendStatusDto {
            backend_key: "pdfium".to_string(),
            backend_name: "Pdfium adapter boundary".to_string(),
            configured: false,
            notes: pdfium_notes(),
        }
    }

    /// Rendering is not implemented: every request is answered with an error naming the
    /// document and page.
    pub fn render_page(&self, request: &RenderPdfPageRequestDto) -> (r: Result<
        RenderPdfPageResponseDto,
        String,
    >)
        ensures
            r matches Err(m) && m@ == render_not_implemented_message(
                request.document_path@,
                request.page_index,
            ),
    {
        let mut v: Vec<char> = Vec::new();
        push_str_chars(&mut v, "Pdfium page rendering is not implemented yet for ");
        push_str_chars(&mut v, request.document_path.as_str());
        push_str_chars(&mut v, " page ");
        let digits = decimal_chars(request.page_index as u64);
        append_chars(&mut v, &digits);
        push_str_chars(&mut v, ".");
        Err(string_from_chars(&v))
    }
}

// ---------------------------------------------------------------------------
// Backend services
// ---------------------------------------------------------------------------

/// The desktop backend's services.
#[derive(Debug)]
pub struct AppServices {
    pub pdf_engine: PdfiumEngineAdapter,
}

impl Default for AppServices {
    fn default() -> (s: Self)
        ensures
            s.pdf_engine == PdfiumEngineAdapter,
    {
        AppServices { pdf_engine: PdfiumEngineAdapter::new() }
    }
}

/// Where an SVG export goes next.
#[derive(Debug, Clone, PartialEq, Eq)]
pub enum SvgExportPlan {
    /// Write the markup to this path.
    WriteTo { path: String, markup: String },
    /// Ask the user for a destination, proposing this file name.
    AskForDestination { suggested_file_name: String, markup: String },
}

/// The file name proposed for an SVG export: the trimmed suggestion, with `.svg` added
/// unless it already ends in it (in any case); `canvas-export.svg` for a blank suggestion.
pub open spec fn svg_file_name_for(suggested: Seq<char>) -> Seq<char> {
    let t = trim(suggested);
    if t.len() == 0 {
        "canvas-export.svg"@
    } else if ends_with(ascii_lowercase(t), ".svg"@) {
        t
    } else {
        t + ".svg"@
    }
}

/// The error for an explicit SVG destination without an `.svg` extension.
pub open spec fn svg_destination_message() -> Seq<char> {
    "SVG export requires a `.svg` destination path, or leave the field empty to choose a save location."@
}

/// The decision on an SVG export request: empty markup is refused; an explicit,
/// non-blank destination must have an `svg` extension and is written to; otherwise the
/// user is asked, with a proposed file name.  Paths and markup are trimmed.
pub open spec fn svg_export_decision(request: SaveSvgExportRequestDto) -> Result<
    (bool, Seq<char>, Seq<char>),
    Seq<char>,
> {
    let markup = trim(request.svg_markup@);
    if markup.len() == 0 {
        Err("SVG export markup was empty."@)
    } else if request.file_path is Some && trim(request.file_path->0@).len() > 0 {
        let p = trim(request.file_path->0@);
        if !has_extension_ignoring_case(p, "svg"@) {
            Err(svg_destination_message())
        } else {
            Ok((true, p, markup))
        }
    } else {
        Ok((false, svg_file_name_for(request.suggested_file_name@), markup))
    }
}

/// The view of an export plan: whether the path is fixed, the path or proposed name, and
/// the markup.
pub open spec fn plan_view(plan: SvgExportPlan) -> (bool, Seq<char>, Seq<char>) {
    match plan {
        SvgExportPlan::WriteTo { path, markup } => (true, path@, markup@),
        SvgExportPlan::AskForDestination { suggested_file_name, markup } => (
            false,
            suggested_file_name@,
            markup@,
        ),
    }
}

/// The outcome of opening a PDF: the trimmed path must be non-blank, exist and have a
/// `pdf` extension (in any case); the response names the file and carries the page count
/// `pdfinfo` reported, if any, and the engine's readiness and notes.
pub open spec fn pdf_open_check(document_path: Seq<char>, path_exists: bool) -> Result<
    Seq<char>,
    Seq<char>,
> {
    let p = trim(document_path);
    if p.len() == 0 {
        Err("Document path is required."@)
    } else if !path_exists {
        Err("PDF file was not found: "@ + p)
    } else if !has_extension_ignoring_case(p, "pdf"@) {
        Err("Only .pdf files can be opened in PDF Mode."@)
    } else {
        Ok(p)
    }
}

/// The message for a failed stop of local speech.
pub open spec fn stop_speech_outcome(
    stop_attempt: Option<Result<CommandOutput, String>>,
    logs: Seq<Seq<char>>,
) -> Result<(), Seq<char>> {
    match stop_attempt {
        None => Ok(()),
        Some(Err(e)) => Err("Could not stop spd-say: "@ + e@),
        Some(Ok(out)) => if out.success {
            Ok(())
        } else {
            Err(
                speech_error_message(
                    "Could not stop local speech"@,
                    utf8_lossy_text(out.stderr@),
                    logs,
                ),
            )
        },
    }
}

impl AppServices {
    /// The start-up data: both workspaces, the engine status, every reliability state, and
    /// the configuration that was loaded, with its path and any warnings.
    pub fn bootstrap(
        &self,
        app_config: AppConfigDto,
        app_config_path: String,
        app_config_warnings: Vec<String>,
    ) -> (b: AppBootstrapDto)
        ensures
            b.supported_modes@ == seq![AppModeDto::Canvas, AppModeDto::Pdf],
            is_pdfium_boundary_status(b.active_pdf_backend),
            b.reliability_states@ == seq![
                ReadingReliabilityStateDto::NativeReliable,
                ReadingReliabilityStateDto::NativeWeak,
                ReadingReliabilityStateDto::OcrReliable,
                ReadingReliabilityStateDto::OcrWeak,
                ReadingReliabilityStateDto::Unavailable,
            ],
            b.app_config == app_config,
            b.app_config_path == app_config_path,
            b.app_config_warnings == app_config_warnings,
    {
        let mut supported_modes: Vec<AppModeDto> = Vec::new();
        supported_modes.push(AppModeDto::Canvas);
        supported_modes.push(AppModeDto::Pdf);
        let mut reliability_states: Vec<ReadingReliabilityStateDto> = Vec::new();
        reliability_states.push(ReadingReliabilityStateDto::NativeReliable);
        reliability_states.push(ReadingReliabilityStateDto::NativeWeak);
        reliability_states.push(ReadingReliabilityStateDto::OcrReliable);
        reliability_states.push(ReadingReliabilityStateDto::OcrWeak);
        reliability_states.push(ReadingReliabilityStateDto::Unavailable);
        assert(supported_modes@ =~= seq![AppModeDto::Canvas, AppModeDto::Pdf]);
        assert(reliability_states@ =~= seq![
            ReadingReliabilityStateDto::NativeReliable,
            ReadingReliabilityStateDto::NativeWeak,
            ReadingReliabilityStateDto::OcrReliable,
            ReadingReliabilityStateDto::OcrWeak,
            ReadingReliabilityStateDto::Unavailable,
        ]);
        AppBootstrapDto {
            supported_modes,
            active_pdf_backend: self.pdf_engine.backend_status(),
            reliability_states,
            app_config,
            app_config_path,
            app_config_warnings,
        }
    }

    /// The PDF engine's status.
    pub fn pdf_backend_status(&self) -> (s: PdfBackendStatusDto)
        ensures
            is_pdfium_boundary_status(s),
    {
        self.pdf_engine.backend_status()
    }

    /// Checks an open request before anything is run on the file: the trimmed path, or why
    /// it cannot be opened.  `path_exists` says whether the trimmed path exists.
    pub fn validate_pdf_open_request(
        &self,
        request: &OpenPdfDocumentRequestDto,
        path_exists: bool,
    ) -> (r: Result<String, String>)
        ensures
            match r {
                Ok(p) => pdf_open_check(request.document_path@, path_exists) == Ok::<
                    Seq<char>,
                    Seq<char>,
                >(p@),
                Err(m) => pdf_open_check(request.document_path@, path_exists) == Err::<
                    Seq<char>,
                    Seq<char>,
                >(m@),
            },
    {
        let trimmed = trim_chars(&str_chars(request.document_path.as_str()));
        let p = string_from_chars(&trimmed);
        if trimmed.len() == 0 {
            return Err("Document path is required.".to_string());
        }
        if !path_exists {
            return Err(concat2("PDF file was not found: ", p.as_str()));
        }
        if !has_extension_ignoring_ascii_case(p.as_str(), "pdf") {
            return Err("Only .pdf files can be opened in PDF Mode.".to_string());
        }
        Ok(p)
    }

    /// Opens a PDF: checks the request as `validate_pdf_open_request` does and answers
    /// with the document's path, name, page count (from `pdfinfo`'s run on the trimmed
    /// path, `None` when it gave none), and the engine's readiness and notes.
    pub fn open_pdf_document(
        &self,
        request: &OpenPdfDocumentRequestDto,
        path_exists: bool,
        pdfinfo_run: Result<CommandOutput, String>,
    ) -> (r: Result<OpenPdfDocumentResponseDto, String>)
        ensures
            pdf_open_check(request.document_path@, path_exists) matches Err(m) ==> (r matches Err(
                e,
            ) && e@ == m),
            pdf_open_check(request.document_path@, path_exists) matches Ok(p) ==> (r matches Ok(
                resp,
            ) && resp.document_path@ == p && resp.document_name@ == file_label_of(p)
                && resp.page_count == pdfinfo_page_count_ok(pdfinfo_run) && !resp.backend_ready
                && pdfium_boundary_notes(string_views(resp.notes@))),
    {
        let normalized = match self.validate_pdf_open_request(request, path_exists) {
            Err(m) => return Err(m),
            Ok(p) => p,
        };
        let backend_status = self.pdf_engine.backend_status();
        let document_name = file_label(normalized.as_str());
        let page_count = match pdf_page_count_from_pdfinfo(pdfinfo_run) {
            Ok(n) => Some(n),
            Err(_) => None,
        };
        Ok(
            OpenPdfDocumentResponseDto {
                document_path: normalized,
                document_name,
                page_count,
                backend_ready: backend_status.configured,
                notes: backend_status.notes,
            },
        )
    }

    /// Rendering through the engine boundary, which answers with an error.
    pub fn render_pdf_page(&self, request: &RenderPdfPageRequestDto) -> (r: Result<
        RenderPdfPageResponseDto,
        String,
    >)
        ensures
            r matches Err(m) && m@ == render_not_implemented_message(
                request.document_path@,
                request.page_index,
            ),
    {
        self.pdf_engine.render_page(request)
    }

    /// Page-text extraction through the engine boundary, which does not implement it.
    pub fn extract_pdf_page_text(&self, request: &ExtractPdfTextRequestDto) -> (r: Result<
        PageTextExtractionDto,
        String,
    >)
        ensures
            is_unimplemented_extraction(r, request.page_index),
    {
        self.pdf_engine.extract_page_text(request)
    }

    /// Stops local speech.  `stop_attempt` is `None` when `spd-say` is not installed (there
    /// is nothing to stop), else the result of running `spd-say --stop` (`Err` holds why it
    /// could not be started); `runtime_logs` holds the contents of the Speech Dispatcher
    /// log files that could be read, consulted for the diagnosis of a failure.
    pub fn stop_local_speech(
        &self,
        stop_attempt: Option<Result<CommandOutput, String>>,
        runtime_logs: &[String],
    ) -> (r: Result<(), String>)
        ensures
            match r {
                Ok(()) => stop_speech_outcome(stop_attempt, string_views(runtime_logs@)) is Ok,
                Err(m) => stop_speech_outcome(stop_attempt, string_views(runtime_logs@)) == Err::<
                    (),
                    Seq<char>,
                >(m@),
            },
    {
        match stop_attempt {
            None => Ok(()),
            Some(Err(error)) => Err(concat2("Could not stop spd-say: ", error.as_str())),
            Some(Ok(output)) => {
                if output.success {
                    Ok(())
                } else {
                    Err(
                        format_speech_dispatcher_error(
                            "Could not stop local speech",
                            output.stderr.as_slice(),
                            runtime_logs,
                        ),
                    )
                }
            },
        }
    }

    /// Decides where an SVG export goes.
    pub fn plan_svg_export(&self, request: &SaveSvgExportRequestDto) -> (r: Result<
        SvgExportPlan,
        String,
    >)
        ensures
            match r {
                Ok(plan) => svg_export_decision(*request) == Ok::<
                    (bool, Seq<char>, Seq<char>),
                    Seq<char>,
                >(plan_view(plan)),
                Err(m) => svg_export_decision(*request) == Err::<
                    (bool, Seq<char>, Seq<char>),
                    Seq<char>,
                >(m@),
            },
    {
        let markup_chars = trim_chars(&str_chars(request.svg_markup.as_str()));
        if markup_chars.len() == 0 {
            return Err("SVG export markup was empty.".to_string());
        }
        let markup = string_from_chars(&markup_chars);
        if let Some(explicit) = &request.file_path {
            let path_chars = trim_chars(&str_chars(explicit.as_str()));
            if path_chars.len() > 0 {
                let path = string_from_chars(&path_chars);
                if !path_has_svg_extension(path.as_str()) {
                    return Err(
                        "SVG export requires a `.svg` destination path, or leave the field empty to choose a save location.".to_string(),
                    );
                }
                return Ok(SvgExportPlan::WriteTo { path, markup });
            }
        }
        Ok(
            SvgExportPlan::AskForDestination {
                suggested_file_name: default_svg_file_name(request.suggested_file_name.as_str()),
                markup,
            },
        )
    }
}

/// The file name proposed for an SVG export.
pub fn default_svg_file_name(suggested_file_name: &str) -> (name: String)
    ensures
        name@ == svg_file_name_for(suggested_file_name@),
{
    let trimmed = trim_chars(&str_chars(suggested_file_name));
    if trimmed.len() == 0 {
        return "canvas-export.svg".to_string();
    }
    let t = string_from_chars(&trimmed);
    if ends_with_chars(&ascii_lowercase_chars(&trimmed), &str_chars(".svg")) {
        return t;
    }
    concat2(t.as_str(), ".svg")
}

/// Whether the path has an `svg` extension, in any case.
pub fn path_has_svg_extension(path: &str) -> (b: bool)
    ensures
        b == has_extension_ignoring_case(path@, "svg"@),
{
    has_extension_ignoring_ascii_case(path, "svg")
}

// ---------------------------------------------------------------------------
// Configuration and document paths
// ---------------------------------------------------------------------------

/// The configuration file under a base directory, from the first of `XDG_CONFIG_HOME`
/// (`<base>/rpdf/config.json`), `HOME` (`<base>/.config/rpdf/config.json`) and `APPDATA`
/// (`<base>/rpdf/config.json`) that is set and not blank after trimming.
pub open spec fn config_path_for(xdg: Option<Seq<char>>, home: Option<Seq<char>>, appdata: Option<
    Seq<char>,
>) -> Result<Seq<char>, Seq<char>> {
    if xdg is Some && trim(xdg->0).len() > 0 {
        Ok(joined(joined(trim(xdg->0), "rpdf"@), "config.json"@))
    } else if home is Some && trim(home->0).len() > 0 {
        Ok(joined(joined(joined(trim(home->0), ".config"@), "rpdf"@), "config.json"@))
    } else if appdata is Some && trim(appdata->0).len() > 0 {
        Ok(joined(joined(trim(appdata->0), "rpdf"@), "config.json"@))
    } else {
        Err("Neither XDG_CONFIG_HOME, HOME, nor APPDATA were available."@)
    }
}

/// The optional string's characters.
pub open spec fn opt_str_view(o: Option<&str>) -> Option<Seq<char>> {
    match o {
        Some(s) => Some(s@),
        None => None,
    }
}

/// The trimmed value of an environment variable when it is not blank.
fn nonblank_trimmed(value: Option<&str>) -> (r: Option<String>)
    ensures
        match r {
            Some(t) => value is Some && t@ == trim(value->0@) && t@.len() > 0,
            None => value is None || trim(value->0@).len() == 0,
        },
{
    match value {
        None => None,
        Some(v) => {
            let t = trim_chars(&str_chars(v));
            if t.len() == 0 {
                None
            } else {
                Some(string_from_chars(&t))
            }
        },
    }
}

/// Resolves the configuration file's path from the values (lossily decoded) of
/// `XDG_CONFIG_HOME`, `HOME` and `APPDATA`.
pub fn resolve_app_config_path(
    xdg_config_home: Option<&str>,
    home: Option<&str>,
    appdata: Option<&str>,
) -> (r: Result<String, String>)
    ensures
        match r {
            Ok(p) => config_path_for(
                opt_str_view(xdg_config_home),
                opt_str_view(home),
                opt_str_view(appdata),
            ) == Ok::<Seq<char>, Seq<char>>(p@),
            Err(m) => config_path_for(
                opt_str_view(xdg_config_home),
                opt_str_view(home),
                opt_str_view(appdata),
            ) == Err::<Seq<char>, Seq<char>>(m@),
        },
{
    if let Some(base) = nonblank_trimmed(xdg_config_home) {
        let dir = join_path(base.as_str(), "rpdf");
        return Ok(join_path(dir.as_str(), "config.json"));
    }
    if let Some(base) = nonblank_trimmed(home) {
        let config = join_path(base.as_str(), ".config");
        let dir = join_path(config.as_str(), "rpdf");
        return Ok(join_path(dir.as_str(), "config.json"));
    }
    if let Some(base) = nonblank_trimmed(appdata) {
        let dir = join_path(base.as_str(), "rpdf");
        return Ok(join_path(dir.as_str(), "config.json"));
    }
    Err("Neither XDG_CONFIG_HOME, HOME, nor APPDATA were available.".to_string())
}

/// The trimmed path of a document file to read or write, or the error for a blank one.
pub fn require_document_file_path(file_path: &str) -> (r: Result<String, String>)
    ensures
        trim(file_path@).len() == 0 ==> (r matches Err(m) && m@ == "A file path is required."@),
        trim(file_path@).len() > 0 ==> (r matches Ok(p) && p@ == trim(file_path@)),
{
    let t = trim_chars(&str_chars(file_path));
    if t.len() == 0 {
        return Err("A file path is required.".to_string());
    }
    Ok(string_from_chars(&t))
}

/// Why the configuration fell back to the built-in defaults.
#[derive(Debug, Clone, Copy, PartialEq, Eq, Structural)]
pub enum ConfigFallback {
    /// No configuration path could be resolved.
    Unresolved,
    /// The configuration directory could not be created.
    CreateDirectory,
    /// The default configuration could not be serialized.
    Serialize,
    /// The default configuration could not be written.
    WriteDefault,
    /// The configuration file could not be read.
    Read,
    /// The configuration file could not be parsed.
    Parse,
}

/// The warning for a configuration fallback at `path` caused by `error`.
pub open spec fn config_warning(kind: ConfigFallback, path: Seq<char>, error: Seq<char>) -> Seq<
    char,
> {
    let tail = ". Falling back to built-in defaults: "@ + error;
    match kind {
        ConfigFallback::Unresolved => "Could not resolve app config path"@ + tail,
        ConfigFallback::CreateDirectory => "Could not create app config directory for "@ + path
            + tail,
        ConfigFallback::Serialize => "Could not serialize default app config for "@ + path + tail,
        ConfigFallback::WriteDefault => "Could not write default app config at "@ + path + tail,
        ConfigFallback::Read => "Could not read app config at "@ + path + tail,
        ConfigFallback::Parse => "Could not parse app config at "@ + path + tail,
    }
}

/// The warning shown when the configuration falls back to the built-in defaults.
pub fn config_fallback_warning(kind: ConfigFallback, path: &str, error: &str) -> (w: String)
    ensures
        w@ == config_warning(kind, path@, error@),
{
    let mut v: Vec<char> = Vec::new();
    match kind {
        ConfigFallback::Unresolved => push_str_chars(&mut v, "Could not resolve app config path"),
        ConfigFallback::CreateDirectory => {
            push_str_chars(&mut v, "Could not create app config directory for ");
            push_str_chars(&mut v, path);
        },
        ConfigFallback::Serialize => {
            push_str_chars(&mut v, "Could not serialize default app config for ");
            push_str_chars(&mut v, path);
        },
        ConfigFallback::WriteDefault => {
            push_str_chars(&mut v, "Could not write default app config at ");
            push_str_chars(&mut v, path);
        },
        ConfigFallback::Read => {
            push_str_chars(&mut v, "Could not read app config at ");
            push_str_chars(&mut v, path);
        },
        ConfigFallback::Parse => {
            push_str_chars(&mut v, "Could not parse app config at ");
            push_str_chars(&mut v, path);
        },
    }
    push_str_chars(&mut v, ". Falling back to built-in defaults: ");
    push_str_chars(&mut v, error);
    string_from_chars(&v)
}

// ---------------------------------------------------------------------------
// Loading the configuration, step by step
// ---------------------------------------------------------------------------

/// Where loading the configuration stands.  The shell does the file work each state asks
/// for (resolving the path from the environment, testing whether the file exists,
/// creating its directory, writing the defaults, reading the file, parsing it) and hands
/// the outcome back as an event.
#[derive(Debug)]
pub enum ConfigLoadState {
    /// The configuration path is to be resolved.
    Resolving,
    /// Does the file at `path` exist?
    CheckingExists { path: String },
    /// The directory of `path` is to be created.
    CreatingParent { path: String },
    /// The default configuration is to be serialized and written to `path`.
    WritingDefault { path: String },
    /// The file at `path` is to be read.
    Reading { path: String },
    /// The text read from `path` is to be parsed.
    Parsing { path: String },
    /// Loading is over: the configuration in force, its path, and any warning.
    Done { config: AppConfigDto, path: String, warnings: Vec<String> },
}

/// The outcome of the work a state asked for.
#[derive(Debug)]
pub enum ConfigLoadEvent {
    /// The configuration path, or why none could be resolved.
    Resolved(Result<String, String>),
    /// Whether the file exists.
    Exists(bool),
    /// The directory was created (or needed no creating), or why it could not be.
    DirCreated(Result<(), String>),
    /// The defaults were written, or which step failed (serializing or writing) and why.
    DefaultWritten(Result<(), (ConfigFallback, String)>),
    /// The file was read, or why it could not be.
    ReadDone(Result<(), String>),
    /// The configuration parsed from the file, or why it did not parse.
    Parsed(Result<AppConfigDto, String>),
}

/// Loading ends with the built-in defaults and exactly this one warning, at `path`.
pub open spec fn ends_with_warning(next: ConfigLoadState, path: Seq<char>, warning: Seq<char>) -> bool {
    next matches ConfigLoadState::Done { config, path: p, warnings } && is_default_config(config)
        && p@ == path && warnings@.len() == 1 && warnings@[0]@ == warning
}

/// Loading ends with `config`, at `path`, without a warning.
pub open spec fn ends_quietly(next: ConfigLoadState, config: AppConfigDto, path: Seq<char>) -> bool {
    next matches ConfigLoadState::Done { config: c, path: p, warnings } && c == config && p@
        == path && warnings@.len() == 0
}

/// The step of loading the configuration from `state` on `event`: the path is resolved,
/// then a missing file is created with the defaults and an existing one is read and
/// parsed.  Every failure ends loading with the built-in defaults and its one warning; an
/// event that does not answer the state's question leaves the state as it is.
pub open spec fn config_load_follows(
    state: ConfigLoadState,
    event: ConfigLoadEvent,
    next: ConfigLoadState,
) -> bool {
    match state {
        ConfigLoadState::Resolving => match event {
            ConfigLoadEvent::Resolved(Ok(p)) => next matches ConfigLoadState::CheckingExists {
                path,
            } && path@ == p@,
            ConfigLoadEvent::Resolved(Err(e)) => ends_with_warning(
                next,
                "unavailable"@,
                config_warning(ConfigFallback::Unresolved, ""@, e@),
            ),
            _ => next == state,
        },
        ConfigLoadState::CheckingExists { path } => match event {
            ConfigLoadEvent::Exists(exists) => if exists {
                next matches ConfigLoadState::Reading { path: q } && q@ == path@
            } else {
                next matches ConfigLoadState::CreatingParent { path: q } && q@ == path@
            },
            _ => next == state,
        },
        ConfigLoadState::CreatingParent { path } => match event {
            ConfigLoadEvent::DirCreated(Ok(())) => next matches ConfigLoadState::WritingDefault {
                path: q,
            } && q@ == path@,
            ConfigLoadEvent::DirCreated(Err(e)) => ends_with_warning(
                next,
                path@,
                config_warning(ConfigFallback::CreateDirectory, path@, e@),
            ),
            _ => next == state,
        },
        ConfigLoadState::WritingDefault { path } => match event {
            ConfigLoadEvent::DefaultWritten(Ok(())) => next matches ConfigLoadState::Done {
                config,
                path: p,
                warnings,
            } && is_default_config(config) && p@ == path@ && warnings@.len() == 0,
            ConfigLoadEvent::DefaultWritten(Err((kind, e))) => ends_with_warning(
                next,
                path@,
                config_warning(kind, path@, e@),
            ),
            _ => next == state,
        },
        ConfigLoadState::Reading { path } => match event {
            ConfigLoadEvent::ReadDone(Ok(())) => next matches ConfigLoadState::Parsing { path: q }
                && q@ == path@,
            ConfigLoadEvent::ReadDone(Err(e)) => ends_with_warning(
                next,
                path@,
                config_warning(ConfigFallback::Read, path@, e@),
            ),
            _ => next == state,
        },
        ConfigLoadState::Parsing { path } => match event {
            ConfigLoadEvent::Parsed(Ok(c)) => ends_quietly(next, c, path@),
            ConfigLoadEvent::Parsed(Err(e)) => ends_with_warning(
                next,
                path@,
                config_warning(ConfigFallback::Parse, path@, e@),
            ),
            _ => next == state,
        },
        ConfigLoadState::Done { .. } => next == state,
    }
}

/// Loading ends with the built-in defaults and one warning.
fn fall_back(path: String, kind: ConfigFallback, error: &str) -> (next: ConfigLoadState)
    ensures
        ends_with_warning(next, path@, config_warning(kind, path@, error@)),
{
    let warning = config_fallback_warning(kind, path.as_str(), error);
    let mut warnings: Vec<String> = Vec::new();
    warnings.push(warning);
    ConfigLoadState::Done { config: AppConfigDto::default(), path, warnings }
}

/// The first state of loading the configuration.
pub fn config_load_start() -> (state: ConfigLoadState)
    ensures
        state is Resolving,
{
    ConfigLoadState::Resolving
}

/// One step of loading the configuration.  A load that ends from a state that had not
/// ended carries at most one warning, and the built-in defaults whenever it warns.
pub fn config_load_step(state: ConfigLoadState, event: ConfigLoadEvent) -> (next: ConfigLoadState)
    ensures
        config_load_follows(state, event, next),
        !(state is Done) ==> (next matches ConfigLoadState::Done { config, path, warnings } ==> (
        warnings@.len() <= 1 && (warnings@.len() == 1 ==> is_default_config(config)))),
{
    match state {
        ConfigLoadState::Resolving => match event {
            ConfigLoadEvent::Resolved(Ok(p)) => ConfigLoadState::CheckingExists { path: p },
            ConfigLoadEvent::Resolved(Err(e)) => {
                let warning = config_fallback_warning(ConfigFallback::Unresolved, "", e.as_str());
                let mut warnings: Vec<String> = Vec::new();
                warnings.push(warning);
                ConfigLoadState::Done {
                    config: AppConfigDto::default(),
                    path: "unavailable".to_string(),
                    warnings,
                }
            },
            _ => ConfigLoadState::Resolving,
        },
        ConfigLoadState::CheckingExists { path } => match event {
            ConfigLoadEvent::Exists(exists) => {
                if exists {
                    ConfigLoadState::Reading { path }
                } else {
                    ConfigLoadState::CreatingParent { path }
                }
            },
            _ => ConfigLoadState::CheckingExists { path },
        },
        ConfigLoadState::CreatingParent { path } => match event {
            ConfigLoadEvent::DirCreated(Ok(())) => ConfigLoadState::WritingDefault { path },
            ConfigLoadEvent::DirCreated(Err(e)) => fall_back(
                path,
                ConfigFallback::CreateDirectory,
                e.as_str(),
            ),
            _ => ConfigLoadState::CreatingParent { path },
        },
        ConfigLoadState::WritingDefault { path } => match event {
            ConfigLoadEvent::DefaultWritten(Ok(())) => ConfigLoadState::Done {
                config: AppConfigDto::default(),
                path,
                warnings: Vec::new(),
            },
            ConfigLoadEvent::DefaultWritten(Err((kind, e))) => fall_back(path, kind, e.as_str()),
            _ => ConfigLoadState::WritingDefault { path },
        },
        ConfigLoadState::Reading { path } => match event {
            ConfigLoadEvent::ReadDone(Ok(())) => ConfigLoadState::Parsing { path },
            ConfigLoadEvent::ReadDone(Err(e)) => fall_back(path, ConfigFallback::Read, e.as_str()),
            _ => ConfigLoadState::Reading { path },
        },
        ConfigLoadState::Parsing { path } => match event {
            ConfigLoadEvent::Parsed(Ok(config)) => ConfigLoadState::Done {
                config,
                path,
                warnings: Vec::new(),
            },
            ConfigLoadEvent::Parsed(Err(e)) => fall_back(path, ConfigFallback::Parse, e.as_str()),
            _ => ConfigLoadState::Parsing { path },
        },
        ConfigLoadState::Done { config, path, warnings } => ConfigLoadState::Done {
            config,
            path,
            warnings,
        },
    }
}

} // verus!
