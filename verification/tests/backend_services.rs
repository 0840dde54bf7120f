use rpdf::backend::{
    config_fallback_warning, default_svg_file_name, path_has_svg_extension,
    pdf_page_count_from_pdfinfo, require_document_file_path, resolve_app_config_path,
    AppServices, CommandOutput, ConfigFallback, PdfiumEngineAdapter, SvgExportPlan,
};
use rpdf::dto::{
    AppConfigDto, AppModeDto, OpenPdfDocumentRequestDto, ReadingReliabilityStateDto,
    RenderPdfPageRequestDto, SaveSvgExportRequestDto,
};

fn output(success: bool, stdout: &str, stderr: &str) -> CommandOutput {
    CommandOutput {
        success,
        stdout: stdout.as_bytes().to_vec(),
        stderr: stderr.as_bytes().to_vec(),
    }
}

#[test]
fn bootstrap_lists_modes_states_and_config() {
    let services = AppServices::default();
    let bootstrap = services.bootstrap(
        AppConfigDto::default(),
        "/home/u/.config/rpdf/config.json".to_string(),
        vec!["w".to_string()],
    );
    assert_eq!(bootstrap.supported_modes, vec![AppModeDto::Canvas, AppModeDto::Pdf]);
    assert_eq!(bootstrap.reliability_states.len(), 5);
    assert_eq!(bootstrap.reliability_states[4], ReadingReliabilityStateDto::Unavailable);
    assert_eq!(bootstrap.active_pdf_backend.backend_key, "pdfium");
    assert!(!bootstrap.active_pdf_backend.configured);
    assert_eq!(bootstrap.active_pdf_backend.notes.len(), 3);
    assert_eq!(bootstrap.app_config_path, "/home/u/.config/rpdf/config.json");
    assert_eq!(bootstrap.app_config_warnings, vec!["w".to_string()]);
}

#[test]
fn backend_status_describes_the_pdfium_boundary() {
    let status = PdfiumEngineAdapter::new().backend_status();
    assert_eq!(status.backend_name, "Pdfium adapter boundary");
    assert_eq!(
        status.notes[1],
        "Runtime rendering and extraction are still intentionally unimplemented."
    );
    assert_eq!(AppServices::default().pdf_backend_status(), status);
}

#[test]
fn rendering_is_refused_with_document_and_page() {
    let request = RenderPdfPageRequestDto {
        document_path: "/docs/a.pdf".to_string(),
        page_index: 12,
        target_width: Some(800),
        target_height: None,
    };
    assert_eq!(
        AppServices::default().render_pdf_page(&request),
        Err("Pdfium page rendering is not implemented yet for /docs/a.pdf page 12.".to_string())
    );
}

#[test]
fn open_pdf_checks_path_existence_and_extension() {
    let services = AppServices::default();
    let request = |p: &str| OpenPdfDocumentRequestDto { document_path: p.to_string() };
    assert_eq!(
        services.open_pdf_document(&request("   "), false, Err("x".to_string())),
        Err("Document path is required.".to_string())
    );
    assert_eq!(
        services.open_pdf_document(&request(" /docs/missing.pdf "), false, Err("x".to_string())),
        Err("PDF file was not found: /docs/missing.pdf".to_string())
    );
    assert_eq!(
        services.open_pdf_document(&request("/docs/notes.txt"), true, Err("x".to_string())),
        Err("Only .pdf files can be opened in PDF Mode.".to_string())
    );
}

#[test]
fn open_pdf_reports_name_and_page_count() {
    let services = AppServices::default();
    let request = OpenPdfDocumentRequestDto { document_path: " /docs/Book.PDF ".to_string() };
    let response = services
        .open_pdf_document(&request, true, Ok(output(true, "Title: x\nPages:          42\n", "")))
        .expect("opened");
    assert_eq!(response.document_path, "/docs/Book.PDF");
    assert_eq!(response.document_name, "Book.PDF");
    assert_eq!(response.page_count, Some(42));
    assert!(!response.backend_ready);
    assert_eq!(response.notes.len(), 3);
    let without_count = services
        .open_pdf_document(&request, true, Ok(output(false, "", "boom")))
        .expect("opened");
    assert_eq!(without_count.page_count, None);
}

#[test]
fn pdfinfo_outcomes() {
    assert_eq!(
        pdf_page_count_from_pdfinfo(Err("not found".to_string())),
        Err("Could not run pdfinfo: not found".to_string())
    );
    assert_eq!(
        pdf_page_count_from_pdfinfo(Ok(output(false, "", "  Syntax Error \n"))),
        Err("pdfinfo failed: Syntax Error".to_string())
    );
    assert_eq!(
        pdf_page_count_from_pdfinfo(Ok(output(true, "Title: t\n", ""))),
        Err("pdfinfo did not report a page count.".to_string())
    );
    assert_eq!(
        pdf_page_count_from_pdfinfo(Ok(output(true, "Pages: many\n", ""))),
        Err("Could not parse page count from pdfinfo: invalid digit found in string".to_string())
    );
    assert_eq!(pdf_page_count_from_pdfinfo(Ok(output(true, "  Pages:  +7 \n", ""))), Ok(7));
}

#[test]
fn svg_file_names() {
    assert_eq!(default_svg_file_name("   "), "canvas-export.svg");
    assert_eq!(default_svg_file_name(" notes "), "notes.svg");
    assert_eq!(default_svg_file_name("Notes.SVG"), "Notes.SVG");
    assert!(path_has_svg_extension("/tmp/a.Svg"));
    assert!(!path_has_svg_extension("/tmp/a.svg.png"));
}

#[test]
fn svg_export_plans() {
    let services = AppServices::default();
    let request = |path: Option<&str>, name: &str, markup: &str| SaveSvgExportRequestDto {
        file_path: path.map(str::to_string),
        suggested_file_name: name.to_string(),
        svg_markup: markup.to_string(),
    };
    assert_eq!(
        services.plan_svg_export(&request(None, "x", "  ")),
        Err("SVG export markup was empty.".to_string())
    );
    assert_eq!(
        services.plan_svg_export(&request(Some(" /tmp/out.png "), "x", "<svg/>")),
        Err("SVG export requires a `.svg` destination path, or leave the field empty to choose a save location.".to_string())
    );
    assert_eq!(
        services.plan_svg_export(&request(Some(" /tmp/out.svg "), "x", " <svg/> ")),
        Ok(SvgExportPlan::WriteTo { path: "/tmp/out.svg".to_string(), markup: "<svg/>".to_string() })
    );
    assert_eq!(
        services.plan_svg_export(&request(Some("  "), "week 1", "<svg/>")),
        Ok(SvgExportPlan::AskForDestination {
            suggested_file_name: "week 1.svg".to_string(),
            markup: "<svg/>".to_string(),
        })
    );
}

#[test]
fn stopping_speech() {
    let services = AppServices::default();
    assert_eq!(services.stop_local_speech(None, &[]), Ok(()));
    assert_eq!(services.stop_local_speech(Some(Ok(output(true, "", ""))), &[]), Ok(()));
    assert_eq!(
        services.stop_local_speech(Some(Err("denied".to_string())), &[]),
        Err("Could not stop spd-say: denied".to_string())
    );
    assert_eq!(
        services.stop_local_speech(Some(Ok(output(false, "", "socket gone\n"))), &[]),
        Err("Could not stop local speech: socket gone".to_string())
    );
    let logs = vec!["festival_client: connect to server failed".to_string()];
    assert_eq!(
        services.stop_local_speech(Some(Ok(output(false, "", ""))), &logs),
        Err("Could not stop local speech: Speech Dispatcher tried the Festival backend, but no Festival server is running. Start Festival or configure a different Speech Dispatcher output module.".to_string())
    );
}

#[test]
fn config_paths() {
    assert_eq!(
        resolve_app_config_path(Some(" /xdg "), Some("/home/u"), None),
        Ok("/xdg/rpdf/config.json".to_string())
    );
    assert_eq!(
        resolve_app_config_path(Some("  "), Some("/home/u/"), None),
        Ok("/home/u/.config/rpdf/config.json".to_string())
    );
    assert_eq!(
        resolve_app_config_path(None, None, Some("C:/AppData")),
        Ok("C:/AppData/rpdf/config.json".to_string())
    );
    assert_eq!(
        resolve_app_config_path(None, Some(""), None),
        Err("Neither XDG_CONFIG_HOME, HOME, nor APPDATA were available.".to_string())
    );
}

#[test]
fn document_paths_and_warnings() {
    assert_eq!(require_document_file_path(" a.json "), Ok("a.json".to_string()));
    assert_eq!(require_document_file_path(" "), Err("A file path is required.".to_string()));
    assert_eq!(
        config_fallback_warning(ConfigFallback::Parse, "/c.json", "bad"),
        "Could not parse app config at /c.json. Falling back to built-in defaults: bad"
    );
    assert_eq!(
        config_fallback_warning(ConfigFallback::Unresolved, "unavailable", "none"),
        "Could not resolve app config path. Falling back to built-in defaults: none"
    );
}
