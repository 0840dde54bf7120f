use rpdf::workspace::{export_guidance, BannerTone};
use rpdf::export::{
    escape_svg_text, normalized_item_selection, plan_canvas_export, CanvasExportService,
};
use rpdf::model::{CanvasItemKind, IncompatibleExportReason, SelectionTarget, SvgCompatibility};
use rpdf::paths::{
    file_label, has_extension, has_extension_ignoring_ascii_case, join_path, with_svg_extension,
};

#[test]
fn joins_paths_like_pathbuf_push() {
    assert_eq!(join_path("/home/u", "rpdf"), "/home/u/rpdf");
    assert_eq!(join_path("/home/u/", "rpdf"), "/home/u/rpdf");
    assert_eq!(join_path("", "rpdf"), "rpdf");
    assert_eq!(join_path("/home/u", "/etc"), "/etc");
}

#[test]
fn labels_use_the_file_name() {
    assert_eq!(file_label("/tmp/notes/chapter.pdf"), "chapter.pdf");
    assert_eq!(file_label("/tmp/notes/"), "notes");
    assert_eq!(file_label("/tmp/.."), "/tmp/..");
    assert_eq!(file_label("/"), "/");
}

#[test]
fn extensions_follow_path_rules() {
    assert!(has_extension_ignoring_ascii_case("/a/b/Doc.PDF", "pdf"));
    assert!(!has_extension_ignoring_ascii_case("/a/b/.pdf", "pdf"));
    assert!(!has_extension_ignoring_ascii_case("/a/b/pdf", "pdf"));
    assert!(has_extension_ignoring_ascii_case("x.tar.svg", "svg"));
}

#[test]
fn adds_svg_extension_only_when_missing() {
    assert_eq!(with_svg_extension("/tmp/export"), "/tmp/export.svg");
    assert_eq!(with_svg_extension("/tmp/export/"), "/tmp/export.svg");
    assert_eq!(with_svg_extension("/tmp/export.png"), "/tmp/export.png");
    assert_eq!(with_svg_extension("/"), "/");
}

#[test]
fn escapes_markup_characters() {
    assert_eq!(escape_svg_text("a < b & c > d"), "a &lt; b &amp; c &gt; d");
    assert_eq!(escape_svg_text("&amp;"), "&amp;amp;");
}

#[test]
fn svg_compatibility_by_kind() {
    assert_eq!(CanvasItemKind::Text.svg_compatibility(), SvgCompatibility::Compatible);
    assert_eq!(
        CanvasItemKind::ImportedImage.svg_compatibility(),
        SvgCompatibility::Incompatible(IncompatibleExportReason::RasterContent)
    );
    let service = CanvasExportService;
    assert_eq!(service.first_incompatibility(&[CanvasItemKind::PenStroke]), None);
    assert_eq!(
        service.first_incompatibility(&[
            CanvasItemKind::Text,
            CanvasItemKind::ImportedPdfPage,
            CanvasItemKind::ImportedImage,
        ]),
        Some(IncompatibleExportReason::ImportedPdfPage)
    );
}

#[test]
fn canvas_export_targets_and_refusals() {
    let ids = vec!["stroke-0".to_string(), "image-1".to_string(), "text-2".to_string()];
    let kinds = vec![CanvasItemKind::PenStroke, CanvasItemKind::ImportedImage, CanvasItemKind::Text];
    assert_eq!(
        plan_canvas_export("  ", &SelectionTarget::WholeCanvas, &ids, &kinds),
        Err("SVG export needs a target file path.".to_string())
    );
    assert_eq!(
        plan_canvas_export("out.svg", &SelectionTarget::WholeCanvas, &ids, &kinds),
        Err("SVG export unavailable for this target: RasterContent.".to_string())
    );
    let selection = SelectionTarget::ItemIds(vec!["text-2".to_string(), "stroke-0".to_string()]);
    assert_eq!(plan_canvas_export("out.svg", &selection, &ids, &kinds), Ok(vec![0, 2]));
    assert_eq!(
        plan_canvas_export("out.svg", &SelectionTarget::Empty, &Vec::new(), &Vec::new()),
        Err("No canvas items are available for export.".to_string())
    );
}

#[test]
fn item_selection_is_sorted_without_repeats() {
    let ids: Vec<String> = ["text-2", "stroke-1", "text-2", "image-10", "image-9", "Z"]
        .iter()
        .map(|id| id.to_string())
        .collect();
    let expected: Vec<String> = ["Z", "image-10", "image-9", "stroke-1", "text-2"]
        .iter()
        .map(|id| id.to_string())
        .collect();
    assert_eq!(normalized_item_selection(&ids), expected);
    assert!(normalized_item_selection(&Vec::new()).is_empty());
}

#[test]
fn exact_extensions() {
    assert!(has_extension("/tmp/ocr/page-1.png", "png"));
    assert!(!has_extension("/tmp/ocr/page-1.PNG", "png"));
    assert!(!has_extension("/tmp/ocr/.png", "png"));
    assert!(!has_extension("/tmp/ocr/page", "png"));
}

#[test]
fn export_guidance_agrees_with_export() {
    let ids: Vec<String> = ["stroke-0", "image-1", "text-2"].iter().map(|id| id.to_string()).collect();
    let kinds = vec![CanvasItemKind::PenStroke, CanvasItemKind::ImportedImage, CanvasItemKind::Text];
    let selections = vec![
        SelectionTarget::WholeCanvas,
        SelectionTarget::Empty,
        SelectionTarget::ItemIds(vec!["stroke-0".to_string(), "text-2".to_string()]),
        SelectionTarget::ItemIds(vec!["image-1".to_string()]),
        SelectionTarget::ItemIds(vec!["missing".to_string()]),
    ];
    for selection in selections {
        let (tone, _) = export_guidance(&selection, &ids, &kinds);
        let planned = plan_canvas_export("/tmp/notes.svg", &selection, &ids, &kinds);
        assert_eq!(planned.is_ok(), tone == BannerTone::Success, "selection {selection:?}");
    }
    let vector_only = plan_canvas_export(
        "/tmp/notes.svg",
        &SelectionTarget::ItemIds(vec!["text-2".to_string(), "stroke-0".to_string()]),
        &ids,
        &kinds,
    );
    assert_eq!(vector_only, Ok(vec![0, 2]));
}

#[test]
fn ticked_ids_replace_the_selection() {
    let ticked: Vec<String> = ["text-2", "stroke-1", "text-2"].iter().map(|id| id.to_string()).collect();
    assert_eq!(
        rpdf::export::selection_after_choice(SelectionTarget::WholeCanvas, &ticked),
        SelectionTarget::ItemIds(vec!["stroke-1".to_string(), "text-2".to_string()])
    );
    assert_eq!(
        rpdf::export::selection_after_choice(SelectionTarget::WholeCanvas, &Vec::new()),
        SelectionTarget::WholeCanvas
    );
}
