//! The coordinate-free parts of the saved canvas projects and PDF study documents that the
//! desktop backend reads and writes.

use crate::dto::ReadingReliabilityStateDto;
use vstd::prelude::*;

verus! {

/// Format version of a saved document.
#[derive(Debug, Clone, Copy, PartialEq, Eq, Structural)]
pub struct DocumentVersion {
    pub major: u16,
    pub minor: u16,
}

/// The background drawn behind a saved canvas.
#[derive(Debug, Clone, Copy, PartialEq, Eq, Structural)]
pub enum BackgroundPattern {
    Dots,
    Lines,
    Squares,
    /// No background pattern.
    Blank,
}

/// The kinds of vector shape on a saved canvas.
#[derive(Debug, Clone, Copy, PartialEq, Eq, Structural)]
pub enum CanvasShapeKind {
    Line,
    Arrow,
    Rectangle,
    Ellipse,
}

/// Recolouring of an imported PDF page on a saved canvas.
#[derive(Debug, Clone, PartialEq, Eq)]
pub struct CanvasPdfPageRecolor {
    pub enabled: bool,
    pub foreground: String,
    pub background: String,
}

/// Recolouring of the pages of a PDF study document.
#[derive(Debug, Clone, PartialEq, Eq)]
pub struct PdfRecolorSettings {
    pub enabled: bool,
    pub foreground: String,
    pub background: String,
}

/// Cached reading-support state of one PDF page.
#[derive(Debug, Clone, PartialEq, Eq)]
pub struct PdfPageReadingCache {
    pub page_index: u32,
    pub reliability: ReadingReliabilityStateDto,
    pub source_kind: ReadingSourceKind,
    pub cache_key: Option<String>,
}

/// Where cached reading text came from.
#[derive(Debug, Clone, Copy, PartialEq, Eq, Structural)]
pub enum ReadingSourceKind {
    Native,
    Ocr,
}

} // verus!
