use rpdf::backend::{
    config_load_start, config_load_step, AppServices, ConfigFallback, ConfigLoadEvent, ConfigLoadState,
    PdfiumEngineAdapter,
};
use rpdf::dto::{AppConfigDto, ExtractPdfTextRequestDto, ReadingReliabilityStateDto};

fn run(events: Vec<ConfigLoadEvent>) -> ConfigLoadState {
    let mut state = config_load_start();
    for event in events {
        state = config_load_step(state, event);
    }
    state
}

fn done(state: ConfigLoadState) -> (AppConfigDto, String, Vec<String>) {
    match state {
        ConfigLoadState::Done { config, path, warnings } => (config, path, warnings),
        other => panic!("loading did not finish: {other:?}"),
    }
}

#[test]
fn missing_config_file_is_created_with_defaults() {
    let state = run(vec![
        ConfigLoadEvent::Resolved(Ok("/home/u/.config/rpdf/config.json".to_string())),
        ConfigLoadEvent::Exists(false),
        ConfigLoadEvent::DirCreated(Ok(())),
        ConfigLoadEvent::DefaultWritten(Ok(())),
    ]);
    let (config, path, warnings) = done(state);
    assert_eq!(config, AppConfigDto::default());
    assert_eq!(path, "/home/u/.config/rpdf/config.json");
    assert!(warnings.is_empty());
}

#[test]
fn existing_config_file_is_parsed() {
    let mut custom = AppConfigDto::default();
    custom.version = 7;
    let (config, _, warnings) = done(run(vec![
        ConfigLoadEvent::Resolved(Ok("/c.json".to_string())),
        ConfigLoadEvent::Exists(true),
        ConfigLoadEvent::ReadDone(Ok(())),
        ConfigLoadEvent::Parsed(Ok(custom.clone())),
    ]));
    assert_eq!(config, custom);
    assert!(warnings.is_empty());
}

#[test]
fn every_failure_falls_back_with_one_warning() {
    let (config, path, warnings) = done(run(vec![ConfigLoadEvent::Resolved(Err("no env".to_string()))]));
    assert_eq!(config, AppConfigDto::default());
    assert_eq!(path, "unavailable");
    assert_eq!(warnings, vec!["Could not resolve app config path. Falling back to built-in defaults: no env".to_string()]);

    let (config, _, warnings) = done(run(vec![
        ConfigLoadEvent::Resolved(Ok("/c.json".to_string())),
        ConfigLoadEvent::Exists(false),
        ConfigLoadEvent::DirCreated(Err("denied".to_string())),
    ]));
    assert_eq!(config, AppConfigDto::default());
    assert_eq!(warnings, vec!["Could not create app config directory for /c.json. Falling back to built-in defaults: denied".to_string()]);

    let (_, _, warnings) = done(run(vec![
        ConfigLoadEvent::Resolved(Ok("/c.json".to_string())),
        ConfigLoadEvent::Exists(false),
        ConfigLoadEvent::DirCreated(Ok(())),
        ConfigLoadEvent::DefaultWritten(Err((ConfigFallback::WriteDefault, "disk full".to_string()))),
    ]));
    assert_eq!(warnings, vec!["Could not write default app config at /c.json. Falling back to built-in defaults: disk full".to_string()]);

    let (_, _, warnings) = done(run(vec![
        ConfigLoadEvent::Resolved(Ok("/c.json".to_string())),
        ConfigLoadEvent::Exists(true),
        ConfigLoadEvent::ReadDone(Err("io".to_string())),
    ]));
    assert_eq!(warnings, vec!["Could not read app config at /c.json. Falling back to built-in defaults: io".to_string()]);

    let (config, _, warnings) = done(run(vec![
        ConfigLoadEvent::Resolved(Ok("/c.json".to_string())),
        ConfigLoadEvent::Exists(true),
        ConfigLoadEvent::ReadDone(Ok(())),
        ConfigLoadEvent::Parsed(Err("expected value".to_string())),
    ]));
    assert_eq!(config, AppConfigDto::default());
    assert_eq!(warnings, vec!["Could not parse app config at /c.json. Falling back to built-in defaults: expected value".to_string()]);
}

#[test]
fn unrelated_events_change_nothing() {
    let state = run(vec![ConfigLoadEvent::Exists(true)]);
    assert!(matches!(state, ConfigLoadState::Resolving));
    let state = run(vec![
        ConfigLoadEvent::Resolved(Ok("/c.json".to_string())),
        ConfigLoadEvent::ReadDone(Ok(())),
    ]);
    assert!(matches!(state, ConfigLoadState::CheckingExists { ref path } if path == "/c.json"));
}

#[test]
fn page_text_extraction_is_not_implemented() {
    let request = ExtractPdfTextRequestDto { document_path: "/d.pdf".to_string(), page_index: 4 };
    let extraction = AppServices::default().extract_pdf_page_text(&request).expect("an answer");
    assert_eq!(extraction.page_index, 4);
    assert_eq!(extraction.reliability, ReadingReliabilityStateDto::Unavailable);
    assert_eq!(
        extraction.warning.as_deref(),
        Some("Text extraction contract is wired, but Pdfium extraction is not implemented yet.")
    );
    assert_eq!(PdfiumEngineAdapter::default(), PdfiumEngineAdapter::new());
}
