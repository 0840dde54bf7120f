//! Decisions of the desktop study workspace: start-up and tool state, the palette, page
//! navigation, id counters, reading playback, and the status banners.  Painting and input
//! handling are the shell's.

use crate::export::{
    export_target_indices, export_targets, first_incompatibility_of, kinds_at, index_view,
    CanvasExportService,
};
use crate::model::{
    AnnotationPalette, CanvasItemKind, IncompatibleExportReason, PdfViewState, PenToolKind,
    RecolorProfile, RecolorState, RgbaColor, SelectionTarget, WorkspaceMode,
};
use crate::text::{
    append_chars, ascii_lowercase, ascii_lowercase_chars, char_rows, concat2, contains, contains_chars, decimal,
    decimal_chars, join, join_chars, push_str_chars, str_chars, string_from_chars, string_views,
    trim, trim_chars,
};
use vstd::prelude::*;

verus! {

broadcast use vstd::string::group_string_axioms;

// ---------------------------------------------------------------------------
// Shell state
// ---------------------------------------------------------------------------

/// How the application starts.
#[derive(Debug, Clone, PartialEq, Eq)]
pub struct StartupState {
    pub default_mode: WorkspaceMode,
    pub last_opened_path: Option<String>,
    pub offline_ready: bool,
}

impl Default for StartupState {
    fn default() -> (s: Self)
        ensures
            s.default_mode == WorkspaceMode::InfiniteCanvas,
            s.last_opened_path is None,
            s.offline_ready,
    {
        StartupState {
            default_mode: WorkspaceMode::InfiniteCanvas,
            last_opened_path: None,
            offline_ready: true,
        }
    }
}

/// The annotation tools.
#[derive(Debug, Clone, Copy, PartialEq, Eq, Structural)]
pub enum AnnotationTool {
    Ink,
    Highlighter,
    Selection,
    Eraser,
}

/// The tone of a status banner.
#[derive(Debug, Clone, Copy, PartialEq, Eq, Structural)]
pub enum BannerTone {
    Info,
    Success,
    Warning,
}

/// The current tool and the note being typed.
#[derive(Debug, Clone, PartialEq, Eq)]
pub struct AnnotationToolState {
    pub current_tool: AnnotationTool,
    pub pending_note_text: String,
}

impl Default for AnnotationToolState {
    fn default() -> (s: Self)
        ensures
            s.current_tool == AnnotationTool::Ink,
            s.pending_note_text@.len() == 0,
    {
        AnnotationToolState { current_tool: AnnotationTool::Ink, pending_note_text: String::new() }
    }
}

/// State shared by both workspaces.
#[derive(Debug, Clone, PartialEq, Eq)]
pub struct SharedUiState {
    pub annotation_tools: AnnotationToolState,
}

impl Default for SharedUiState {
    fn default() -> (s: Self)
        ensures
            s.annotation_tools.current_tool == AnnotationTool::Ink,
            s.annotation_tools.pending_note_text@.len() == 0,
    {
        SharedUiState { annotation_tools: AnnotationToolState::default() }
    }
}

/// A running read-aloud session: its spans, when it started, and how long each span is
/// highlighted.
#[derive(Debug, Clone, PartialEq, Eq)]
pub struct ReadingPlaybackSession {
    pub spans: Vec<String>,
    pub started_at_ms: u64,
    pub span_duration_ms: u64,
}

// ---------------------------------------------------------------------------
// Colours
// ---------------------------------------------------------------------------

/// An opaque colour.
pub open spec fn opaque(red: u8, green: u8, blue: u8) -> RgbaColor {
    RgbaColor { red, green, blue, alpha: 255 }
}

/// The accent (ink) colour.
pub open spec fn accent() -> RgbaColor {
    opaque(58, 128, 247)
}

/// The translucent yellow of the highlighter.
pub open spec fn highlighter() -> RgbaColor {
    RgbaColor { red: 255, green: 214, blue: 10, alpha: 150 }
}

/// The accent colour.
pub fn accent_color() -> (c: RgbaColor)
    ensures
        c == accent(),
{
    RgbaColor { red: 58, green: 128, blue: 247, alpha: 255 }
}

/// The colour of the background grid.
pub fn muted_grid_color() -> (c: RgbaColor)
    ensures
        c == opaque(96, 104, 122),
{
    RgbaColor { red: 96, green: 104, blue: 122, alpha: 255 }
}

/// The highlighter colour.
pub fn highlighter_color() -> (c: RgbaColor)
    ensures
        c == highlighter(),
{
    RgbaColor { red: 255, green: 214, blue: 10, alpha: 150 }
}

/// The default annotation palette: accent ink, yellow highlighter, light text.
pub fn default_palette() -> (p: AnnotationPalette)
    ensures
        p.ink_color == accent(),
        p.highlighter_color == highlighter(),
        p.text_color == opaque(240, 240, 240),
{
    AnnotationPalette {
        ink_color: accent_color(),
        highlighter_color: highlighter_color(),
        text_color: RgbaColor { red: 240, green: 240, blue: 240, alpha: 255 },
    }
}

/// The recolouring used when none is chosen: light text on a dark page.
pub fn default_recolor_profile() -> (p: RecolorProfile)
    ensures
        p.foreground == opaque(223, 228, 236),
        p.background == opaque(24, 27, 34),
{
    RecolorProfile {
        foreground: RgbaColor { red: 223, green: 228, blue: 236, alpha: 255 },
        background: RgbaColor { red: 24, green: 27, blue: 34, alpha: 255 },
    }
}

/// The recolouring a document gets when the recolour view is switched on or off: the
/// default recolouring when on, none when off.
pub fn recolor_profile_when(enabled: bool) -> (p: Option<RecolorProfile>)
    ensures
        enabled ==> p == Some(
            RecolorProfile { foreground: opaque(223, 228, 236), background: opaque(24, 27, 34) },
        ),
        !enabled ==> p is None,
{
    if enabled {
        Some(default_recolor_profile())
    } else {
        None
    }
}

/// The palette annotations are drawn with: the recoloured-view palette while a recolouring
/// is active, else the normal one.
pub fn current_annotation_palette(view: &PdfViewState) -> (p: AnnotationPalette)
    ensures
        p == (if view.recolor.current_profile is Some {
            view.annotation_visibility.recolored_view
        } else {
            view.annotation_visibility.normal_view
        }),
{
    if view.recolor.current_profile.is_some() {
        view.annotation_visibility.recolored_view
    } else {
        view.annotation_visibility.normal_view
    }
}

/// The colour of a PDF stroke drawn with the given pen, from the current palette.
pub fn pdf_annotation_color_for_tool(view: &PdfViewState, tool: PenToolKind) -> (c: RgbaColor)
    ensures
        c == (match tool {
            PenToolKind::Ink => current_palette_of(*view).ink_color,
            PenToolKind::Highlighter => current_palette_of(*view).highlighter_color,
        }),
{
    let palette = current_annotation_palette(view);
    match tool {
        PenToolKind::Ink => palette.ink_color,
        PenToolKind::Highlighter => palette.highlighter_color,
    }
}

/// The palette in use for a view.
pub open spec fn current_palette_of(view: PdfViewState) -> AnnotationPalette {
    if view.recolor.current_profile is Some {
        view.annotation_visibility.recolored_view
    } else {
        view.annotation_visibility.normal_view
    }
}

/// The page's (fill, ink) colours: the recolouring's background and foreground, or paper
/// white and dark grey.
pub fn current_pdf_page_colors(recolor: &RecolorState) -> (colors: (RgbaColor, RgbaColor))
    ensures
        colors == (match recolor.current_profile {
            Some(profile) => (profile.background, profile.foreground),
            None => (opaque(242, 242, 238), opaque(78, 83, 92)),
        }),
{
    match &recolor.current_profile {
        Some(profile) => (profile.background, profile.foreground),
        None => (
            RgbaColor { red: 242, green: 242, blue: 238, alpha: 255 },
            RgbaColor { red: 78, green: 83, blue: 92, alpha: 255 },
        ),
    }
}

/// The colour and pen of a stroke drawn with a tool: ink in the accent colour, the
/// highlighter in translucent yellow; the other tools do not draw.
pub fn stroke_style_for_tool(tool: AnnotationTool) -> (style: Option<(RgbaColor, PenToolKind)>)
    ensures
        style == (match tool {
            AnnotationTool::Ink => Some((accent(), PenToolKind::Ink)),
            AnnotationTool::Highlighter => Some((highlighter(), PenToolKind::Highlighter)),
            _ => None::<(RgbaColor, PenToolKind)>,
        }),
{
    match tool {
        AnnotationTool::Ink => Some((accent_color(), PenToolKind::Ink)),
        AnnotationTool::Highlighter => Some((highlighter_color(), PenToolKind::Highlighter)),
        AnnotationTool::Selection | AnnotationTool::Eraser => None,
    }
}

/// The colour and pen of a finished stroke, or nothing when the stroke is discarded: a
/// stroke needs at least two points and a drawing tool (ink or highlighter).
pub fn stroke_to_commit(tool: AnnotationTool, point_count: usize) -> (style: Option<
    (RgbaColor, PenToolKind),
>)
    ensures
        style == (if point_count >= 2 {
            match tool {
                AnnotationTool::Ink => Some((accent(), PenToolKind::Ink)),
                AnnotationTool::Highlighter => Some((highlighter(), PenToolKind::Highlighter)),
                _ => None::<(RgbaColor, PenToolKind)>,
            }
        } else {
            None
        }),
{
    if point_count < 2 {
        None
    } else {
        stroke_style_for_tool(tool)
    }
}

/// The label of a canvas item kind.
pub fn item_kind_label(kind: CanvasItemKind) -> (label: &'static str)
    ensures
        label@ == (match kind {
            CanvasItemKind::PenStroke => "stroke"@,
            CanvasItemKind::Text => "text"@,
            CanvasItemKind::ImportedImage => "image"@,
            CanvasItemKind::ImportedPdfPage => "pdf-page"@,
        }),
{
    match kind {
        CanvasItemKind::PenStroke => "stroke",
        CanvasItemKind::Text => "text",
        CanvasItemKind::ImportedImage => "image",
        CanvasItemKind::ImportedPdfPage => "pdf-page",
    }
}

// ---------------------------------------------------------------------------
// Navigation, counters and playback
// ---------------------------------------------------------------------------

/// The page reached by moving `delta` pages from `current`, kept between the first and the
/// last of `page_count` pages.
pub open spec fn stepped_page(current: int, delta: int, page_count: int) -> int {
    let last = if page_count > 0 {
        page_count - 1
    } else {
        0
    };
    let target = current + delta;
    if target < 0 {
        0
    } else if target > last {
        last
    } else {
        target
    }
}

/// The page index for a one-based page number typed by the user: one less (page 0 for
/// 0), and no further than the last page (page 0 when the document has none).
pub open spec fn page_index_for(display_page: int, page_count: int) -> int {
    let wanted = if display_page > 0 {
        display_page - 1
    } else {
        0
    };
    let last = if page_count > 0 {
        page_count - 1
    } else {
        0
    };
    if wanted < last {
        wanted
    } else {
        last
    }
}

/// The page index for a one-based page number typed by the user.
pub fn page_index_from_display(display_page: usize, page_count: usize) -> (index: usize)
    ensures
        index == page_index_for(display_page as int, page_count as int),
        1 <= display_page <= page_count ==> index == display_page - 1,
{
    let wanted = if display_page == 0 {
        0
    } else {
        display_page - 1
    };
    let last = if page_count == 0 {
        0
    } else {
        page_count - 1
    };
    if wanted < last {
        wanted
    } else {
        last
    }
}

/// Moves `delta` pages from `current`.
pub fn step_pdf_page(current: usize, delta: isize, page_count: usize) -> (page: usize)
    requires
        current <= isize::MAX,
        page_count <= isize::MAX,
        isize::MIN <= current + delta <= isize::MAX,
    ensures
        page == stepped_page(current as int, delta as int, page_count as int),
{
    let last = if page_count > 0 {
        (page_count - 1) as isize
    } else {
        0
    };
    let target = current as isize + delta;
    if target < 0 {
        0
    } else if target > last {
        last as usize
    } else {
        target as usize
    }
}

/// Hands out the next id of a counter.
pub fn next_id(counter: &mut u64) -> (id: u64)
    requires
        *old(counter) < u64::MAX,
    ensures
        id == *old(counter),
        *final(counter) == *old(counter) + 1,
{
    let next = *counter;
    *counter = *counter + 1;
    next
}

/// The span highlighted `elapsed_ms` after playback started: one span per
/// `span_duration_ms`; `None` once every span has had its turn.
pub open spec fn active_span_index(elapsed_ms: u64, span_duration_ms: u64, span_count: usize) -> Option<
    usize,
> {
    let index = (elapsed_ms / span_duration_ms) as usize;
    if index >= span_count {
        None
    } else {
        Some(index)
    }
}

/// The span to highlight after `elapsed_ms` of playback.
pub fn active_reading_span_index(elapsed_ms: u64, span_duration_ms: u64, span_count: usize) -> (i:
    Option<usize>)
    requires
        span_duration_ms > 0,
    ensures
        i == active_span_index(elapsed_ms, span_duration_ms, span_count),
        i matches Some(k) ==> k < span_count,
{
    let index = (elapsed_ms / span_duration_ms) as usize;
    if index >= span_count {
        None
    } else {
        Some(index)
    }
}

/// A change made from the PDF toolbar.
#[derive(Debug, Clone, Copy, PartialEq, Eq, Structural)]
pub enum PdfViewAction {
    /// Previous (-1) or next (+1) page, or any other step.
    StepPage(isize),
    /// The one-based page number typed into the page field.
    TypePage(usize),
    /// The recolour view switched on or off.
    SetRecolor(bool),
    /// The recolour colours were edited (the shell holds the colour pickers).
    EditRecolorColors,
    /// The export recolour mode was changed.
    ChangeExportMode,
}

/// The PDF view after a toolbar change, and whether the session became dirty.
#[derive(Debug, Clone, Copy, PartialEq, Eq, Structural)]
pub struct PdfViewUpdate {
    pub page_index: usize,
    pub recolor_profile: Option<RecolorProfile>,
    pub marks_dirty: bool,
}

/// Applies a toolbar change to the page and the recolouring of a PDF session.  Every
/// change marks the session dirty; from a valid page of a document with pages, the page
/// stays valid.
pub fn pdf_view_update(
    page_index: usize,
    page_count: usize,
    recolor_profile: Option<RecolorProfile>,
    action: PdfViewAction,
) -> (u: PdfViewUpdate)
    requires
        action matches PdfViewAction::StepPage(delta) ==> (page_index <= isize::MAX && page_count
            <= isize::MAX && isize::MIN <= page_index + delta <= isize::MAX),
    ensures
        u.marks_dirty,
        match action {
            PdfViewAction::StepPage(delta) => u.page_index == stepped_page(
                page_index as int,
                delta as int,
                page_count as int,
            ) && u.recolor_profile == recolor_profile,
            PdfViewAction::TypePage(display) => u.page_index == page_index_for(
                display as int,
                page_count as int,
            ) && u.recolor_profile == recolor_profile,
            PdfViewAction::SetRecolor(on) => u.page_index == page_index && u.recolor_profile == (
            if on {
                Some(
                    RecolorProfile {
                        foreground: opaque(223, 228, 236),
                        background: opaque(24, 27, 34),
                    },
                )
            } else {
                None
            }),
            _ => u.page_index == page_index && u.recolor_profile == recolor_profile,
        },
        page_count >= 1 && page_index < page_count ==> u.page_index < page_count,
{
    match action {
        PdfViewAction::StepPage(delta) => PdfViewUpdate {
            page_index: step_pdf_page(page_index, delta, page_count),
            recolor_profile,
            marks_dirty: true,
        },
        PdfViewAction::TypePage(display) => PdfViewUpdate {
            page_index: page_index_from_display(display, page_count),
            recolor_profile,
            marks_dirty: true,
        },
        PdfViewAction::SetRecolor(on) => PdfViewUpdate {
            page_index,
            recolor_profile: recolor_profile_when(on),
            marks_dirty: true,
        },
        PdfViewAction::EditRecolorColors | PdfViewAction::ChangeExportMode => PdfViewUpdate {
            page_index,
            recolor_profile,
            marks_dirty: true,
        },
    }
}

/// How often a dirty document is snapshotted, in milliseconds.
pub const AUTOSAVE_INTERVAL_MS: u64 = 2000;

/// Whether a dirty document is due for an autosave snapshot: at least the interval has
/// passed since the last one (no time has passed when the clock went backwards).
pub fn autosave_due(dirty: bool, now_ms: u64, last_autosave_ms: u64) -> (due: bool)
    ensures
        due == (dirty && now_ms >= last_autosave_ms && now_ms - last_autosave_ms
            >= AUTOSAVE_INTERVAL_MS),
{
    let elapsed = if now_ms >= last_autosave_ms {
        now_ms - last_autosave_ms
    } else {
        0
    };
    dirty && elapsed >= AUTOSAVE_INTERVAL_MS
}

/// The longest gap between two presses of the space bar that still makes a double press,
/// in milliseconds.
pub const DOUBLE_PRESS_WINDOW_MS: u64 = 350;

/// Whether a press at `now_ms` follows the press at `previous_ms` closely enough to make a
/// double press (a clock that went backwards counts as no time passing).
pub fn is_double_press(now_ms: u64, previous_ms: u64) -> (double: bool)
    ensures
        double == (now_ms <= previous_ms + DOUBLE_PRESS_WINDOW_MS),
{
    let elapsed = if now_ms >= previous_ms {
        now_ms - previous_ms
    } else {
        0
    };
    elapsed <= DOUBLE_PRESS_WINDOW_MS
}

/// An item id: the prefix followed by the number in decimal (`stroke-3`, `pdf-note-0`).
pub fn labelled_id(prefix: &str, id: u64) -> (label: String)
    ensures
        label@ == prefix@ + decimal(id as nat),
{
    let mut v: Vec<char> = Vec::new();
    push_str_chars(&mut v, prefix);
    let digits = decimal_chars(id);
    append_chars(&mut v, &digits);
    string_from_chars(&v)
}

/// The text of a note or text item to add: trimmed, and nothing when it is blank.
pub fn trimmed_note(text: &str) -> (note: Option<String>)
    ensures
        match note {
            Some(n) => n@ == trim(text@) && n@.len() > 0,
            None => trim(text@).len() == 0,
        },
{
    let t = trim_chars(&str_chars(text));
    if t.len() == 0 {
        None
    } else {
        Some(string_from_chars(&t))
    }
}

/// The excerpt handed to the speech backend: the spans joined by spaces.
pub fn reading_excerpt(spans: &Vec<String>) -> (excerpt: String)
    ensures
        excerpt@ == join(string_views(spans@), seq![' ']),
{
    let mut rows: Vec<Vec<char>> = Vec::new();
    let mut i: usize = 0;
    while i < spans.len()
        invariant
            i <= spans.len(),
            char_rows(rows@) == string_views(spans@).take(i as int),
        decreases spans.len() - i,
    {
        let ghost before = char_rows(rows@);
        let row = str_chars(spans[i].as_str());
        rows.push(row);
        assert(char_rows(rows@) =~= before.push(spans@[i as int]@));
        assert(string_views(spans@).take(i + 1) =~= string_views(spans@).take(i as int).push(
            spans@[i as int]@,
        ));
        i = i + 1;
    }
    assert(string_views(spans@).take(spans.len() as int) == string_views(spans@));
    let mut sep: Vec<char> = Vec::new();
    sep.push(' ');
    assert(sep@ == seq![' ']);
    string_from_chars(&join_chars(&rows, &sep))
}

// ---------------------------------------------------------------------------
// Banners
// ---------------------------------------------------------------------------

/// Some of the needles occur in `s`.
pub open spec fn contains_any(s: Seq<char>, needles: Seq<Seq<char>>) -> bool {
    exists|i: int| 0 <= i < needles.len() && contains(s, needles[i])
}

/// Words that mark a status message as a warning.
pub open spec fn warning_words() -> Seq<Seq<char>> {
    seq!["failed"@, "does not exist"@, "unavailable"@, "no "@, "needs "@, "canceled"@]
}

/// Words that mark a status message as a success.
pub open spec fn success_words() -> Seq<Seq<char>> {
    seq!["saved"@, "loaded"@, "recovered"@, "opened"@, "exported"@]
}

/// The tone of a status message: none for an empty one; a warning when it (in lower case)
/// mentions a failure; a success when it mentions a completed action; else information.
pub open spec fn feedback_tone_of(message: Seq<char>) -> Option<BannerTone> {
    let lower = ascii_lowercase(message);
    if message.len() == 0 {
        None
    } else if contains_any(lower, warning_words()) {
        Some(BannerTone::Warning)
    } else if contains_any(lower, success_words()) {
        Some(BannerTone::Success)
    } else {
        Some(BannerTone::Info)
    }
}

/// Whether some of the words occur in `hay`.
fn contains_any_word(hay: &Vec<char>, words: &[&str]) -> (b: bool)
    ensures
        b == (exists|i: int| 0 <= i < words@.len() && contains(hay@, #[trigger] words@[i]@)),
{
    let mut i: usize = 0;
    while i < words.len()
        invariant
            i <= words.len(),
            forall|j: int| 0 <= j < i ==> !contains(hay@, #[trigger] words@[j]@),
        decreases words.len() - i,
    {
        if contains_chars(hay, &str_chars(words[i])) {
            assert(contains(hay@, words@[i as int]@));
            return true;
        }
        i = i + 1;
    }
    false
}

/// The tone of the banner for a status message.
pub fn feedback_tone(message: &str) -> (tone: Option<BannerTone>)
    ensures
        tone == feedback_tone_of(message@),
{
    let chars = str_chars(message);
    if chars.len() == 0 {
        return None;
    }
    let lower = ascii_lowercase_chars(&chars);
    let warnings: [&str; 6] = ["failed", "does not exist", "unavailable", "no ", "needs ", "canceled"];
    let successes: [&str; 5] = ["saved", "loaded", "recovered", "opened", "exported"];
    assert(Seq::new(6, |i: int| warnings@[i]@) =~= warning_words());
    assert(Seq::new(5, |i: int| successes@[i]@) =~= success_words());
    let warn = contains_any_word(&lower, &warnings);
    assert(warn == contains_any(lower@, warning_words())) by {
        if warn {
            let i = choose|i: int| 0 <= i < 6 && contains(lower@, #[trigger] warnings@[i]@);
            assert(warning_words()[i] == warnings@[i]@);
        }
        if contains_any(lower@, warning_words()) {
            let i = choose|i: int| 0 <= i < 6 && contains(lower@, #[trigger] warning_words()[i]);
            assert(warning_words()[i] == warnings@[i]@);
        }
    }
    if warn {
        return Some(BannerTone::Warning);
    }
    let success = contains_any_word(&lower, &successes);
    assert(success == contains_any(lower@, success_words())) by {
        if success {
            let i = choose|i: int| 0 <= i < 5 && contains(lower@, #[trigger] successes@[i]@);
            assert(success_words()[i] == successes@[i]@);
        }
        if contains_any(lower@, success_words()) {
            let i = choose|i: int| 0 <= i < 5 && contains(lower@, #[trigger] success_words()[i]);
            assert(success_words()[i] == successes@[i]@);
        }
    }
    if success {
        Some(BannerTone::Success)
    } else {
        Some(BannerTone::Info)
    }
}

/// The autosave banner for a document: unsaved changes warn; a clean document with a
/// recovery snapshot is reassuring; otherwise it explains how snapshots arise.
pub fn autosave_banner(dirty: bool, has_recovery_snapshot: bool, subject: &str) -> (banner: (
    BannerTone,
    String,
))
    ensures
        dirty ==> banner.0 == BannerTone::Warning && banner.1@ == subject@
            + " has unsaved changes. Autosave snapshots update in the background every few seconds."@,
        !dirty && has_recovery_snapshot ==> banner.0 == BannerTone::Success && banner.1@
            == subject@
            + " is clean, and a recovery snapshot is available if the session is interrupted."@,
        !dirty && !has_recovery_snapshot ==> banner.0 == BannerTone::Info && banner.1@ == subject@
            + " is clean. Save a session or make a change to create a recoverable snapshot."@,
{
    if dirty {
        (
            BannerTone::Warning,
            concat2(
                subject,
                " has unsaved changes. Autosave snapshots update in the background every few seconds.",
            ),
        )
    } else if has_recovery_snapshot {
        (
            BannerTone::Success,
            concat2(
                subject,
                " is clean, and a recovery snapshot is available if the session is interrupted.",
            ),
        )
    } else {
        (
            BannerTone::Info,
            concat2(
                subject,
                " is clean. Save a session or make a change to create a recoverable snapshot.",
            ),
        )
    }
}

/// The guidance shown for the current SVG export target.
pub open spec fn export_guidance_of(
    selection: SelectionTarget,
    item_ids: Seq<Seq<char>>,
    kinds: Seq<CanvasItemKind>,
) -> (BannerTone, Seq<char>) {
    let targets = export_target_indices(selection, item_ids);
    if targets.len() == 0 {
        (
            BannerTone::Info,
            "Add strokes or text before exporting. SVG currently targets vector-only study notes."@,
        )
    } else {
        match first_incompatibility_of(kinds_at(kinds, targets)) {
            Some(IncompatibleExportReason::RasterContent) => (
                BannerTone::Warning,
                "Images are present in the current target. Select only strokes and text for SVG export."@,
            ),
            Some(IncompatibleExportReason::ImportedPdfPage) => (
                BannerTone::Warning,
                "Imported PDF pages are present in the current target. Keep them in the study canvas, but export only vector notes to SVG."@,
            ),
            Some(IncompatibleExportReason::MixedUnsupportedSelection) => (
                BannerTone::Warning,
                "The current selection mixes unsupported items. Narrow the selection to vector notes before exporting."@,
            ),
            None => (
                BannerTone::Success,
                "The current target is vector-compatible. Export will keep strokes and text portable."@,
            ),
        }
    }
}

/// The guidance banner for the current SVG export target.
pub fn export_guidance(
    selection: &SelectionTarget,
    item_ids: &Vec<String>,
    item_kinds: &Vec<CanvasItemKind>,
) -> (g: (BannerTone, &'static str))
    requires
        item_ids.len() == item_kinds.len(),
    ensures
        (g.0, g.1@) == export_guidance_of(*selection, string_views(item_ids@), item_kinds@),
{
    let targets = export_targets(selection, item_ids);
    if targets.len() == 0 {
        return (
            BannerTone::Info,
            "Add strokes or text before exporting. SVG currently targets vector-only study notes.",
        );
    }
    let mut kinds: Vec<CanvasItemKind> = Vec::new();
    let mut i: usize = 0;
    while i < targets.len()
        invariant
            i <= targets.len(),
            item_ids.len() == item_kinds.len(),
            forall|k: int| 0 <= k < targets@.len() ==> targets@[k] < item_ids.len(),
            kinds@ =~= kinds_at(item_kinds@, index_view(targets@)).take(i as int),
        decreases targets.len() - i,
    {
        kinds.push(item_kinds[targets[i]]);
        i = i + 1;
    }
    assert(kinds@ =~= kinds_at(item_kinds@, index_view(targets@)));
    let service = CanvasExportService;
    match service.first_incompatibility(kinds.as_slice()) {
        Some(IncompatibleExportReason::RasterContent) => (
            BannerTone::Warning,
            "Images are present in the current target. Select only strokes and text for SVG export.",
        ),
        Some(IncompatibleExportReason::ImportedPdfPage) => (
            BannerTone::Warning,
            "Imported PDF pages are present in the current target. Keep them in the study canvas, but export only vector notes to SVG.",
        ),
        Some(IncompatibleExportReason::MixedUnsupportedSelection) => (
            BannerTone::Warning,
            "The current selection mixes unsupported items. Narrow the selection to vector notes before exporting.",
        ),
        None => (
            BannerTone::Success,
            "The current target is vector-compatible. Export will keep strokes and text portable.",
        ),
    }
}

} // verus!
