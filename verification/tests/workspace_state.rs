use rpdf::dto::{AppConfigDto, AppToolShortcutsDto};
use rpdf::model::{
    AnnotationPalette, AnnotationVisibility, CanvasItemKind, PdfViewState, PenToolKind,
    RecolorExportMode, RecolorProfile, RecolorState, RgbaColor, SelectionTarget, WorkspaceMode,
};
use rpdf::workspace::{
    accent_color, active_reading_span_index, autosave_banner, current_annotation_palette,
    current_pdf_page_colors, default_palette, default_recolor_profile, export_guidance,
    feedback_tone, item_kind_label, muted_grid_color, next_id, pdf_annotation_color_for_tool,
    step_pdf_page, stroke_style_for_tool, AnnotationTool, AnnotationToolState, BannerTone,
    StartupState, autosave_due, labelled_id, reading_excerpt, trimmed_note,
};

fn rgba(red: u8, green: u8, blue: u8, alpha: u8) -> RgbaColor {
    RgbaColor { red, green, blue, alpha }
}

fn view(recolored: bool) -> PdfViewState {
    let normal = default_palette();
    let mut recolored_palette = default_palette();
    recolored_palette.ink_color = rgba(1, 2, 3, 255);
    PdfViewState {
        recolor: RecolorState {
            current_profile: if recolored { Some(default_recolor_profile()) } else { None },
            export_mode: RecolorExportMode::PreserveOriginalAppearance,
        },
        annotation_visibility: AnnotationVisibility { normal_view: normal, recolored_view: recolored_palette },
    }
}

#[test]
fn palette_colors() {
    assert_eq!(accent_color(), rgba(58, 128, 247, 255));
    assert_eq!(muted_grid_color(), rgba(96, 104, 122, 255));
    let palette: AnnotationPalette = default_palette();
    assert_eq!(palette.highlighter_color, rgba(255, 214, 10, 150));
    assert_eq!(palette.text_color, rgba(240, 240, 240, 255));
    assert_eq!(
        default_recolor_profile(),
        RecolorProfile { foreground: rgba(223, 228, 236, 255), background: rgba(24, 27, 34, 255) }
    );
}

#[test]
fn recoloring_switches_palette_and_page_colors() {
    assert_eq!(current_annotation_palette(&view(false)).ink_color, accent_color());
    assert_eq!(current_annotation_palette(&view(true)).ink_color, rgba(1, 2, 3, 255));
    assert_eq!(pdf_annotation_color_for_tool(&view(true), PenToolKind::Ink), rgba(1, 2, 3, 255));
    assert_eq!(
        pdf_annotation_color_for_tool(&view(false), PenToolKind::Highlighter),
        rgba(255, 214, 10, 150)
    );
    assert_eq!(
        current_pdf_page_colors(&view(false).recolor),
        (rgba(242, 242, 238, 255), rgba(78, 83, 92, 255))
    );
    assert_eq!(
        current_pdf_page_colors(&view(true).recolor),
        (rgba(24, 27, 34, 255), rgba(223, 228, 236, 255))
    );
}

#[test]
fn tools_and_labels() {
    assert_eq!(stroke_style_for_tool(AnnotationTool::Ink), Some((accent_color(), PenToolKind::Ink)));
    assert_eq!(stroke_style_for_tool(AnnotationTool::Eraser), None);
    assert_eq!(item_kind_label(CanvasItemKind::ImportedPdfPage), "pdf-page");
    assert_eq!(AnnotationToolState::default().current_tool, AnnotationTool::Ink);
    let startup = StartupState::default();
    assert_eq!(startup.default_mode, WorkspaceMode::InfiniteCanvas);
    assert!(startup.offline_ready);
}

#[test]
fn page_steps_are_clamped() {
    assert_eq!(step_pdf_page(0, -1, 5), 0);
    assert_eq!(step_pdf_page(3, 1, 5), 4);
    assert_eq!(step_pdf_page(4, 1, 5), 4);
    assert_eq!(step_pdf_page(2, 10, 0), 0);
}

#[test]
fn ids_and_playback() {
    let mut counter = 7u64;
    assert_eq!(next_id(&mut counter), 7);
    assert_eq!(next_id(&mut counter), 8);
    assert_eq!(counter, 9);
    assert_eq!(active_reading_span_index(0, 1200, 3), Some(0));
    assert_eq!(active_reading_span_index(2500, 1200, 3), Some(2));
    assert_eq!(active_reading_span_index(3600, 1200, 3), None);
}

#[test]
fn banners() {
    assert_eq!(feedback_tone(""), None);
    assert_eq!(feedback_tone("Canvas save FAILED: disk"), Some(BannerTone::Warning));
    assert_eq!(feedback_tone("Saved canvas document to x"), Some(BannerTone::Success));
    assert_eq!(feedback_tone("Fitted the view"), Some(BannerTone::Info));
    assert_eq!(
        autosave_banner(true, true, "Canvas session"),
        (
            BannerTone::Warning,
            "Canvas session has unsaved changes. Autosave snapshots update in the background every few seconds.".to_string()
        )
    );
    assert_eq!(autosave_banner(false, true, "PDF session").0, BannerTone::Success);
    assert_eq!(autosave_banner(false, false, "PDF session").0, BannerTone::Info);
}

#[test]
fn export_guidance_banners() {
    let ids = vec!["a".to_string(), "b".to_string()];
    let kinds = vec![CanvasItemKind::Text, CanvasItemKind::ImportedPdfPage];
    assert_eq!(export_guidance(&SelectionTarget::WholeCanvas, &Vec::new(), &Vec::new()).0, BannerTone::Info);
    assert_eq!(
        export_guidance(&SelectionTarget::WholeCanvas, &ids, &kinds),
        (
            BannerTone::Warning,
            "Imported PDF pages are present in the current target. Keep them in the study canvas, but export only vector notes to SVG."
        )
    );
    let only_text = SelectionTarget::ItemIds(vec!["a".to_string()]);
    assert_eq!(export_guidance(&only_text, &ids, &kinds).0, BannerTone::Success);
}

#[test]
fn configuration_defaults() {
    let config = AppConfigDto::default();
    assert_eq!(config.version, 1);
    assert_eq!(config.theme.bg, "#1a1b26");
    assert_eq!(config.theme.bg_panel, "rgba(15, 23, 42, 0.82)");
    assert_eq!(config.canvas.background_pattern, "dots");
    assert_eq!(config.shortcuts.tools.text, "t");
    assert_eq!(config.shortcuts.colors.purple, "9");
    assert_eq!(AppToolShortcutsDto::default().eraser, "e");
}

#[test]
fn autosave_timing() {
    assert!(autosave_due(true, 5000, 3000));
    assert!(!autosave_due(true, 4999, 3000));
    assert!(!autosave_due(false, 9000, 0));
    assert!(!autosave_due(true, 1000, 5000));
}

#[test]
fn ids_notes_and_excerpts() {
    assert_eq!(labelled_id("stroke-", 0), "stroke-0");
    assert_eq!(labelled_id("pdf-note-", 42), "pdf-note-42");
    assert_eq!(trimmed_note("  remember this \n"), Some("remember this".to_string()));
    assert_eq!(trimmed_note(" \t "), None);
    let spans = vec!["first line".to_string(), "second".to_string()];
    assert_eq!(reading_excerpt(&spans), "first line second");
    assert_eq!(reading_excerpt(&Vec::new()), "");
}

#[test]
fn counter_ids_never_repeat() {
    let mut seen = std::collections::HashSet::new();
    let mut counter: u64 = 0;
    for _ in 0..200 {
        let id = rpdf::workspace::next_id(&mut counter);
        assert!(seen.insert(labelled_id("text-", id)));
    }
    assert_eq!(counter, 200);
    assert_ne!(labelled_id("stroke-", 1), labelled_id("stroke-", 10));
    assert_eq!(labelled_id("x", u64::MAX), format!("x{}", u64::MAX));
}

#[test]
fn typed_page_numbers_become_page_indices() {
    let cases = [(1, 10, 0), (10, 10, 9), (11, 10, 9), (0, 10, 0), (5, 0, 0), (3, 1, 0)];
    for (display, count, expected) in cases {
        assert_eq!(rpdf::workspace::page_index_from_display(display, count), expected);
    }
}

#[test]
fn double_presses_of_the_space_bar() {
    assert!(rpdf::workspace::is_double_press(1350, 1000));
    assert!(!rpdf::workspace::is_double_press(1351, 1000));
    assert!(rpdf::workspace::is_double_press(900, 1000));
    assert!(!rpdf::workspace::is_double_press(10_000, 0));
}

#[test]
fn strokes_need_two_points_and_a_drawing_tool() {
    let (color, kind) = rpdf::workspace::stroke_to_commit(rpdf::workspace::AnnotationTool::Ink, 2).expect("ink stroke");
    assert_eq!((color.red, color.green, color.blue, color.alpha), (58, 128, 247, 255));
    assert_eq!(kind, rpdf::model::PenToolKind::Ink);
    let (color, kind) = rpdf::workspace::stroke_to_commit(rpdf::workspace::AnnotationTool::Highlighter, 9).expect("highlighter stroke");
    assert_eq!((color.red, color.green, color.blue, color.alpha), (255, 214, 10, 150));
    assert_eq!(kind, rpdf::model::PenToolKind::Highlighter);
    assert!(rpdf::workspace::stroke_to_commit(rpdf::workspace::AnnotationTool::Ink, 1).is_none());
    assert!(rpdf::workspace::stroke_to_commit(rpdf::workspace::AnnotationTool::Eraser, 5).is_none());
    assert!(rpdf::workspace::stroke_to_commit(rpdf::workspace::AnnotationTool::Selection, 5).is_none());
}

#[test]
fn recolor_view_switch() {
    let profile = rpdf::workspace::recolor_profile_when(true).expect("profile when on");
    assert_eq!(profile.foreground.red, 223);
    assert_eq!(profile.background.blue, 34);
    assert!(rpdf::workspace::recolor_profile_when(false).is_none());
}

#[test]
fn pdf_toolbar_changes_mark_the_session_dirty() {
    let update = rpdf::workspace::pdf_view_update;
    let step = |delta| rpdf::workspace::PdfViewAction::StepPage(delta);
    let previous = update(0, 5, None, step(-1));
    assert_eq!((previous.page_index, previous.marks_dirty), (0, true));
    let next = update(4, 5, None, step(1));
    assert_eq!((next.page_index, next.marks_dirty), (4, true));
    assert_eq!(update(2, 5, None, step(1)).page_index, 3);
    assert_eq!(update(2, 5, None, rpdf::workspace::PdfViewAction::TypePage(9)).page_index, 4);
    let on = update(1, 5, None, rpdf::workspace::PdfViewAction::SetRecolor(true));
    let profile = on.recolor_profile.expect("recolor profile");
    assert_eq!((profile.foreground.red, profile.background.red, on.page_index, on.marks_dirty), (223, 24, 1, true));
    let off = update(1, 5, Some(profile), rpdf::workspace::PdfViewAction::SetRecolor(false));
    assert!(off.recolor_profile.is_none() && off.marks_dirty);
    let kept = update(1, 5, Some(profile), rpdf::workspace::PdfViewAction::ChangeExportMode);
    assert_eq!((kept.recolor_profile, kept.page_index, kept.marks_dirty), (Some(profile), 1, true));
}
