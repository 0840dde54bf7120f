//! The persistent document and session model of the study workspace: the parts of it
//! that carry no coordinates.  Geometry (points, sizes, rectangles, stroke widths) is
//! floating point and stays with the application shell.

use vstd::prelude::*;

verus! {

/// Which workspace the shell shows.
#[derive(Debug, Clone, Copy, PartialEq, Eq, Structural)]
pub enum WorkspaceMode {
    InfiniteCanvas,
    PdfDocument,
}

/// Identity and timestamps of a canvas document or PDF session.
#[derive(Debug, Clone, PartialEq, Eq)]
pub struct DocumentMetadata {
    pub document_id: String,
    pub title: Option<String>,
    pub created_unix_ms: u64,
    pub modified_unix_ms: u64,
}

/// An 8-bit-per-channel colour.
#[derive(Debug, Clone, Copy, PartialEq, Eq, Structural)]
pub struct RgbaColor {
    pub red: u8,
    pub green: u8,
    pub blue: u8,
    pub alpha: u8,
}

/// The kind of pen a stroke was drawn with.
#[derive(Debug, Clone, Copy, PartialEq, Eq, Structural)]
pub enum PenToolKind {
    Ink,
    Highlighter,
}

/// Where an imported image came from.
#[derive(Debug, Clone, PartialEq, Eq)]
pub enum ImportedAssetSource {
    FilePath(String),
    ClipboardImage { width: usize, height: usize, pasted_unix_ms: u64 },
}

/// What is selected on the canvas.
#[derive(Debug, Clone, PartialEq, Eq)]
pub enum SelectionTarget {
    /// Nothing is selected.
    Empty,
    WholeCanvas,
    ItemIds(Vec<String>),
    PdfPageSelection(PdfPageSelection),
}

/// A selection of PDF pages by index.
#[derive(Debug, Clone, PartialEq, Eq)]
pub struct PdfPageSelection {
    pub page_indices: Vec<usize>,
}

/// The layer an annotation belongs to.
#[derive(Debug, Clone, Copy, PartialEq, Eq, Structural)]
pub enum AnnotationLayerRole {
    CanvasMarkup,
    PdfMarkup,
    ReadingHighlightFallback,
}

/// Text-to-speech playback state.
#[derive(Debug, Clone, Copy, PartialEq, Eq, Structural)]
pub enum PlaybackState {
    Stopped,
    Playing,
    Paused,
}

/// How reading progress is highlighted.
#[derive(Debug, Clone, Copy, PartialEq, Eq, Structural)]
pub enum HighlightMode {
    Word,
    Line,
    Sentence,
    ManualFallback,
}

/// Where the reading text came from.
#[derive(Debug, Clone, Copy, PartialEq, Eq, Structural)]
pub enum TextSupportSource {
    NativePdfText,
    OcrDerivedText,
    Unavailable,
}

/// How far the reading text can be trusted.
#[derive(Debug, Clone, Copy, PartialEq, Eq, Structural)]
pub enum ReadingReliability {
    Reliable,
    BestEffort,
    Unreliable,
}

/// A warning shown to the user.
#[derive(Debug, Clone, PartialEq, Eq)]
pub struct UserVisibleWarning {
    pub code: WarningCode,
    pub message: String,
}

/// The kind of a user-visible warning.
#[derive(Debug, Clone, Copy, PartialEq, Eq, Structural)]
pub enum WarningCode {
    WeakNativeText,
    OcrFallbackUsed,
    ReadingSupportUnavailable,
}

/// How the PDF page is displayed.
#[derive(Debug, Clone, PartialEq, Eq)]
pub struct PdfViewState {
    pub recolor: RecolorState,
    pub annotation_visibility: AnnotationVisibility,
}

/// The recolouring currently applied to PDF pages.
#[derive(Debug, Clone, PartialEq, Eq)]
pub struct RecolorState {
    pub current_profile: Option<RecolorProfile>,
    pub export_mode: RecolorExportMode,
}

/// A foreground/background recolouring.
#[derive(Debug, Clone, Copy, PartialEq, Eq, Structural)]
pub struct RecolorProfile {
    pub foreground: RgbaColor,
    pub background: RgbaColor,
}

/// Whether exports keep the original page colours.
#[derive(Debug, Clone, Copy, PartialEq, Eq, Structural)]
pub enum RecolorExportMode {
    PreserveOriginalAppearance,
    IncludeCurrentRecoloring,
}

/// Annotation palettes for the normal and the recoloured page view.
#[derive(Debug, Clone, Copy, PartialEq, Eq, Structural)]
pub struct AnnotationVisibility {
    pub normal_view: AnnotationPalette,
    pub recolored_view: AnnotationPalette,
}

/// The colours annotations are drawn with.
#[derive(Debug, Clone, Copy, PartialEq, Eq, Structural)]
pub struct AnnotationPalette {
    pub ink_color: RgbaColor,
    pub highlighter_color: RgbaColor,
    pub text_color: RgbaColor,
}

/// One colour for the normal and one for the recoloured view.
#[derive(Debug, Clone, Copy, PartialEq, Eq, Structural)]
pub struct AnnotationAppearanceSet {
    pub normal_view: RgbaColor,
    pub recolored_view: RgbaColor,
}

/// The PDF file a session or imported page refers to.
#[derive(Debug, Clone, PartialEq, Eq)]
pub enum PdfSource {
    FilePath(String),
}

/// Autosave bookkeeping of a document.
#[derive(Debug, Clone, PartialEq, Eq)]
pub struct AutosaveState {
    pub recovery_snapshot_id: Option<String>,
    pub dirty: bool,
}

/// What an export covers and whether it can be written as SVG.
#[derive(Debug, Clone, PartialEq, Eq)]
pub struct ExportTarget {
    pub selection: SelectionTarget,
    pub scope: ExportScope,
    pub svg_compatibility: SvgCompatibility,
}

/// The extent of an export.
#[derive(Debug, Clone, Copy, PartialEq, Eq, Structural)]
pub enum ExportScope {
    WholeCanvas,
    SelectedItems,
}

/// Whether content can be exported as SVG.
#[derive(Debug, Clone, Copy, PartialEq, Eq, Structural)]
pub enum SvgCompatibility {
    Compatible,
    Incompatible(IncompatibleExportReason),
}

/// Why content cannot be exported as SVG.
#[derive(Debug, Clone, Copy, PartialEq, Eq, Structural)]
pub enum IncompatibleExportReason {
    RasterContent,
    ImportedPdfPage,
    MixedUnsupportedSelection,
}

/// The four kinds of canvas item.
#[derive(Debug, Clone, Copy, PartialEq, Eq, Structural)]
pub enum CanvasItemKind {
    PenStroke,
    Text,
    ImportedImage,
    ImportedPdfPage,
}

/// SVG compatibility of an item of the given kind: strokes and text are vector content;
/// images are raster content; imported PDF pages cannot be exported.
pub open spec fn svg_compatibility_of(kind: CanvasItemKind) -> SvgCompatibility {
    match kind {
        CanvasItemKind::PenStroke | CanvasItemKind::Text => SvgCompatibility::Compatible,
        CanvasItemKind::ImportedImage => SvgCompatibility::Incompatible(
            IncompatibleExportReason::RasterContent,
        ),
        CanvasItemKind::ImportedPdfPage => SvgCompatibility::Incompatible(
            IncompatibleExportReason::ImportedPdfPage,
        ),
    }
}

impl CanvasItemKind {
    /// Whether an item of this kind can be exported as SVG.
    pub fn svg_compatibility(&self) -> (c: SvgCompatibility)
        ensures
            c == svg_compatibility_of(*self),
    {
        match self {
            CanvasItemKind::PenStroke | CanvasItemKind::Text => SvgCompatibility::Compatible,
            CanvasItemKind::ImportedImage => SvgCompatibility::Incompatible(
                IncompatibleExportReason::RasterContent,
            ),
            CanvasItemKind::ImportedPdfPage => SvgCompatibility::Incompatible(
                IncompatibleExportReason::ImportedPdfPage,
            ),
        }
    }
}

} // verus!
