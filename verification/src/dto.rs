//! The data exchanged between the desktop backend and its front end, and the application
//! configuration with its built-in defaults.

use vstd::prelude::*;

verus! {

broadcast use vstd::string::group_string_axioms;

/// The two workspaces the front end offers.
#[derive(Debug, Clone, Copy, PartialEq, Eq, Structural)]
pub enum AppModeDto {
    Canvas,
    Pdf,
}

/// Reading reliability as the front end shows it.
#[derive(Debug, Clone, Copy, PartialEq, Eq, Structural)]
pub enum ReadingReliabilityStateDto {
    NativeReliable,
    NativeWeak,
    OcrReliable,
    OcrWeak,
    Unavailable,
}

/// Which PDF backend is active and whether it is ready.
#[derive(Debug, Clone, PartialEq, Eq)]
pub struct PdfBackendStatusDto {
    pub backend_key: String,
    pub backend_name: String,
    pub configured: bool,
    pub notes: Vec<String>,
}

/// Everything the front end needs at start-up.
#[derive(Debug, Clone, PartialEq, Eq)]
pub struct AppBootstrapDto {
    pub supported_modes: Vec<AppModeDto>,
    pub active_pdf_backend: PdfBackendStatusDto,
    pub reliability_states: Vec<ReadingReliabilityStateDto>,
    pub app_config: AppConfigDto,
    pub app_config_path: String,
    pub app_config_warnings: Vec<String>,
}

/// The user-editable application configuration.
#[derive(Debug, Clone, PartialEq, Eq)]
pub struct AppConfigDto {
    pub version: u32,
    pub theme: AppThemeConfigDto,
    pub canvas: AppCanvasConfigDto,
    pub shortcuts: AppShortcutsConfigDto,
}

/// Theme colours, as CSS colour strings.
#[derive(Debug, Clone, PartialEq, Eq)]
pub struct AppThemeConfigDto {
    pub bg: String,
    pub bg_dark: String,
    pub bg_darker: String,
    pub bg_highlight: String,
    pub bg_panel: String,
    pub fg: String,
    pub fg_dark: String,
    pub fg_gutter: String,
    pub blue: String,
    pub cyan: String,
    pub green: String,
    pub yellow: String,
    pub orange: String,
    pub red: String,
    pub magenta: String,
    pub purple: String,
}

/// Canvas settings.
#[derive(Debug, Clone, PartialEq, Eq)]
pub struct AppCanvasConfigDto {
    pub background_pattern: String,
}

/// Keyboard shortcuts.
#[derive(Debug, Clone, PartialEq, Eq)]
pub struct AppShortcutsConfigDto {
    pub tools: AppToolShortcutsDto,
    pub colors: AppColorShortcutsDto,
}

/// Shortcut keys of the drawing tools.
#[derive(Debug, Clone, PartialEq, Eq)]
pub struct AppToolShortcutsDto {
    pub select: String,
    pub pan: String,
    pub pen: String,
    pub rectangle: String,
    pub ellipse: String,
    pub line: String,
    pub arrow: String,
    pub text: String,
    pub eraser: String,
}

/// Shortcut keys of the palette colours.
#[derive(Debug, Clone, PartialEq, Eq)]
pub struct AppColorShortcutsDto {
    pub fg: String,
    pub blue: String,
    pub cyan: String,
    pub green: String,
    pub yellow: String,
    pub orange: String,
    pub red: String,
    pub magenta: String,
    pub purple: String,
}

/// A request to open a PDF.
#[derive(Debug, Clone, PartialEq, Eq)]
pub struct OpenPdfDocumentRequestDto {
    pub document_path: String,
}

/// An opened PDF.
#[derive(Debug, Clone, PartialEq, Eq)]
pub struct OpenPdfDocumentResponseDto {
    pub document_path: String,
    pub document_name: String,
    pub page_count: Option<u32>,
    pub backend_ready: bool,
    pub notes: Vec<String>,
}

/// A request to load a canvas project.
#[derive(Debug, Clone, PartialEq, Eq)]
pub struct LoadCanvasProjectRequestDto {
    pub file_path: String,
}

/// A request to save SVG markup.
#[derive(Debug, Clone, PartialEq, Eq)]
pub struct SaveSvgExportRequestDto {
    pub file_path: Option<String>,
    pub suggested_file_name: String,
    pub svg_markup: String,
}

/// A request to load a PDF study session.
#[derive(Debug, Clone, PartialEq, Eq)]
pub struct LoadPdfStudySessionRequestDto {
    pub file_path: String,
}

/// A request to render one PDF page.
#[derive(Debug, Clone, PartialEq, Eq)]
pub struct RenderPdfPageRequestDto {
    pub document_path: String,
    pub page_index: u32,
    pub target_width: Option<u32>,
    pub target_height: Option<u32>,
}

/// A rendered PDF page.
#[derive(Debug, Clone, PartialEq, Eq)]
pub struct RenderPdfPageResponseDto {
    pub page_index: u32,
    pub mime_type: String,
    pub data_base64: String,
    pub width: u32,
    pub height: u32,
}

/// A request to extract the text of one PDF page.
#[derive(Debug, Clone, PartialEq, Eq)]
pub struct ExtractPdfTextRequestDto {
    pub document_path: String,
    pub page_index: u32,
}

/// The text extracted from one PDF page, without coordinates: the page, how reliable
/// the text is, and a warning.  The positioned text spans, which carry floating-point
/// coordinates, are the shell's to attach.
#[derive(Debug, Clone, PartialEq, Eq)]
pub struct PageTextExtractionDto {
    pub page_index: u32,
    pub reliability: ReadingReliabilityStateDto,
    pub warning: Option<String>,
}

/// The local speech backend in use.
#[derive(Debug, Clone, PartialEq, Eq)]
pub struct LocalSpeechBackendDto {
    pub backend_key: String,
    pub backend_name: String,
}

// ---------------------------------------------------------------------------
// Built-in defaults
// ---------------------------------------------------------------------------

/// The theme holds the built-in Tokyo-Night colours.
pub open spec fn is_default_theme(t: AppThemeConfigDto) -> bool {
    &&& t.bg@ == "#1a1b26"@
    &&& t.bg_dark@ == "#16161e"@
    &&& t.bg_darker@ == "#0c0e14"@
    &&& t.bg_highlight@ == "#292e42"@
    &&& t.bg_panel@ == "rgba(15, 23, 42, 0.82)"@
    &&& t.fg@ == "#c0caf5"@
    &&& t.fg_dark@ == "#a9b1d6"@
    &&& t.fg_gutter@ == "#3b4261"@
    &&& t.blue@ == "#7aa2f7"@
    &&& t.cyan@ == "#7dcfff"@
    &&& t.green@ == "#9ece6a"@
    &&& t.yellow@ == "#e0af68"@
    &&& t.orange@ == "#ff9e64"@
    &&& t.red@ == "#f7768e"@
    &&& t.magenta@ == "#bb9af7"@
    &&& t.purple@ == "#9d7cd8"@
}

/// The tool shortcuts are the built-in keys.
pub open spec fn is_default_tool_shortcuts(s: AppToolShortcutsDto) -> bool {
    &&& s.select@ == "v"@
    &&& s.pan@ == "h"@
    &&& s.pen@ == "p"@
    &&& s.rectangle@ == "r"@
    &&& s.ellipse@ == "o"@
    &&& s.line@ == "l"@
    &&& s.arrow@ == "a"@
    &&& s.text@ == "t"@
    &&& s.eraser@ == "e"@
}

/// The colour shortcuts are the digits 1 to 9 in palette order.
pub open spec fn is_default_color_shortcuts(s: AppColorShortcutsDto) -> bool {
    &&& s.fg@ == "1"@
    &&& s.blue@ == "2"@
    &&& s.cyan@ == "3"@
    &&& s.green@ == "4"@
    &&& s.yellow@ == "5"@
    &&& s.orange@ == "6"@
    &&& s.red@ == "7"@
    &&& s.magenta@ == "8"@
    &&& s.purple@ == "9"@
}

/// The configuration is the built-in one.
pub open spec fn is_default_config(c: AppConfigDto) -> bool {
    &&& c.version == 1
    &&& is_default_theme(c.theme)
    &&& c.canvas.background_pattern@ == "dots"@
    &&& is_default_tool_shortcuts(c.shortcuts.tools)
    &&& is_default_color_shortcuts(c.shortcuts.colors)
}

/// The key of the text tool when the configuration does not name one.
pub fn default_text_tool_shortcut() -> (s: String)
    ensures
        s@ == "t"@,
{
    "t".to_string()
}

impl Default for AppThemeConfigDto {
    fn default() -> (t: Self)
        ensures
            is_default_theme(t),
    {
        AppThemeConfigDto {
            bg: "#1a1b26".to_string(),
            bg_dark: "#16161e".to_string(),
            bg_darker: "#0c0e14".to_string(),
            bg_highlight: "#292e42".to_string(),
            bg_panel: "rgba(15, 23, 42, 0.82)".to_string(),
            fg: "#c0caf5".to_string(),
            fg_dark: "#a9b1d6".to_string(),
            fg_gutter: "#3b4261".to_string(),
            blue: "#7aa2f7".to_string(),
            cyan: "#7dcfff".to_string(),
            green: "#9ece6a".to_string(),
            yellow: "#e0af68".to_string(),
            orange: "#ff9e64".to_string(),
            red: "#f7768e".to_string(),
            magenta: "#bb9af7".to_string(),
            purple: "#9d7cd8".to_string(),
        }
    }
}

impl Default for AppCanvasConfigDto {
    fn default() -> (c: Self)
        ensures
            c.background_pattern@ == "dots"@,
    {
        AppCanvasConfigDto { background_pattern: "dots".to_string() }
    }
}

impl Default for AppToolShortcutsDto {
    fn default() -> (s: Self)
        ensures
            is_default_tool_shortcuts(s),
    {
        AppToolShortcutsDto {
            select: "v".to_string(),
            pan: "h".to_string(),
            pen: "p".to_string(),
            rectangle: "r".to_string(),
            ellipse: "o".to_string(),
            line: "l".to_string(),
            arrow: "a".to_string(),
            text: default_text_tool_shortcut(),
            eraser: "e".to_string(),
        }
    }
}

impl Default for AppColorShortcutsDto {
    fn default() -> (s: Self)
        ensures
            is_default_color_shortcuts(s),
    {
        AppColorShortcutsDto {
            fg: "1".to_string(),
            blue: "2".to_string(),
            cyan: "3".to_string(),
            green: "4".to_string(),
            yellow: "5".to_string(),
            orange: "6".to_string(),
            red: "7".to_string(),
            magenta: "8".to_string(),
            purple: "9".to_string(),
        }
    }
}

impl Default for AppShortcutsConfigDto {
    fn default() -> (s: Self)
        ensures
            is_default_tool_shortcuts(s.tools),
            is_default_color_shortcuts(s.colors),
    {
        AppShortcutsConfigDto {
            tools: AppToolShortcutsDto::default(),
            colors: AppColorShortcutsDto::default(),
        }
    }
}

impl Default for AppConfigDto {
    fn default() -> (c: Self)
        ensures
            is_default_config(c),
    {
        AppConfigDto {
            version: 1,
            theme: AppThemeConfigDto::default(),
            canvas: AppCanvasConfigDto::default(),
            shortcuts: AppShortcutsConfigDto::default(),
        }
    }
}

} // verus!
