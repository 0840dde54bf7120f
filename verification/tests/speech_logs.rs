use rpdf::speech::{
    candidate_speech_dispatcher_log_paths, diagnose_from_runtime_logs, diagnose_from_stderr_only,
    diagnose_from_text_sources, format_speech_dispatcher_error, infer_speech_dispatcher_diagnosis,
    should_consult_runtime_logs,
};

const ESPEAK_ONLY: &str = "Speech Dispatcher is running, but its espeak-ng output modules cannot load because `libespeak-ng.so.1` is missing. Install the package that provides `libespeak-ng.so.1` or configure another real Speech Dispatcher output module.";
const DUMMY_ONLY: &str = "Speech Dispatcher is running, but the remaining backend cannot open audio (`server audio is not supported`). Configure a working audio-capable Speech Dispatcher output module.";
const OPENJTALK: &str = "Speech Dispatcher tried the OpenJTalk backend, but its voice data is missing. Install the required OpenJTalk voice package or configure a different Speech Dispatcher output module.";

#[test]
fn stderr_lines_name_the_socket_first() {
    assert_eq!(
        diagnose_from_stderr_only(&["Failed to connect to Speech Dispatcher:", "  socket at /run/speechd.sock refused  "]),
        Some("socket at /run/speechd.sock refused".to_string())
    );
    assert_eq!(
        diagnose_from_stderr_only(&["\n Failed to connect to Speech Dispatcher: timeout\n"]),
        Some("could not connect to Speech Dispatcher.".to_string())
    );
    assert_eq!(diagnose_from_stderr_only(&["unrelated", ""]), None);
    assert_eq!(diagnose_from_stderr_only(&[]), None);
}

#[test]
fn each_known_backend_failure_has_its_diagnosis() {
    assert_eq!(
        diagnose_from_text_sources(&["error: libespeak-ng.so.1: cannot open shared object file"]),
        Some(ESPEAK_ONLY.to_string())
    );
    assert_eq!(
        diagnose_from_text_sources(&["Opening sound device failed. Reason: server audio is not supported."]),
        Some(DUMMY_ONLY.to_string())
    );
    assert_eq!(
        diagnose_from_text_sources(&["open: No such file or directory"]),
        Some(OPENJTALK.to_string())
    );
    assert_eq!(
        diagnose_from_text_sources(&["missing nitech_jp_atr503_m001.htsvoice"]),
        Some(OPENJTALK.to_string())
    );
    assert_eq!(diagnose_from_text_sources(&[]), None);
    assert_eq!(diagnose_from_text_sources(&["all good"]), None);
}

#[test]
fn runtime_logs_are_consulted_for_vague_stderr() {
    assert!(should_consult_runtime_logs("   "));
    assert!(should_consult_runtime_logs("speechd: output module failed"));
    assert!(should_consult_runtime_logs("no audio"));
    assert!(should_consult_runtime_logs("MODULE ERROR"));
    assert!(!should_consult_runtime_logs("permission denied"));

    let logs = vec!["  \n".to_string(), "festival_client: connect to server failed".to_string()];
    assert!(diagnose_from_runtime_logs(&logs).is_some());
    assert_eq!(diagnose_from_runtime_logs(&["\t".to_string()]), None);
    assert_eq!(diagnose_from_runtime_logs(&[]), None);

    assert_eq!(
        infer_speech_dispatcher_diagnosis("", &["dummy: server audio is not supported. ".to_string()]),
        None
    );
    assert_eq!(
        infer_speech_dispatcher_diagnosis(
            "",
            &["Opening sound device failed. Reason: server audio is not supported.".to_string()]
        ),
        Some(DUMMY_ONLY.to_string())
    );
    assert_eq!(
        infer_speech_dispatcher_diagnosis(
            "permission denied",
            &["Opening sound device failed. Reason: server audio is not supported.".to_string()]
        ),
        None
    );
}

#[test]
fn error_messages_use_logs_and_lossy_text() {
    assert_eq!(
        format_speech_dispatcher_error(
            "Local speech playback failed",
            b"",
            &["error while loading libespeak-ng.so.1".to_string()],
        ),
        format!("Local speech playback failed: {ESPEAK_ONLY}")
    );
    assert_eq!(format_speech_dispatcher_error("Could not stop local speech", b"  \n", &[]), "Could not stop local speech");
    assert_eq!(
        format_speech_dispatcher_error("Prefix", b"bad \xff byte\nsecond", &[]),
        "Prefix: bad \u{fffd} byte"
    );
    assert_eq!(
        format_speech_dispatcher_error("Prefix", b"Failed to connect to Speech Dispatcher", &[]),
        "Prefix: could not connect to Speech Dispatcher."
    );
}

#[test]
fn log_files_inside_the_log_directory() {
    assert!(candidate_speech_dispatcher_log_paths(None).is_empty());
    let paths = candidate_speech_dispatcher_log_paths(Some("/run/user/7/speech-dispatcher/log"));
    assert_eq!(paths.len(), 7);
    assert_eq!(paths[0], "/run/user/7/speech-dispatcher/log/speech-dispatcher.log");
    assert_eq!(paths[6], "/run/user/7/speech-dispatcher/log/dummy.log");
}

#[test]
fn error_messages_add_one_line_at_most() {
    let cases: [&[u8]; 5] = [
        b"",
        b"first\nsecond\nthird",
        b"Failed to connect to Speech Dispatcher:\nError: socket\nmore",
        b"libespeak-ng.so.1 missing\nand more",
        b"  \n\n  detail  \n",
    ];
    for stderr in cases {
        let message = format_speech_dispatcher_error("Prefix\nwith break", stderr, &[]);
        assert!(message.starts_with("Prefix\nwith break"));
        let rest = &message["Prefix\nwith break".len()..];
        assert!(rest.is_empty() || (rest.starts_with(": ") && !rest.contains('\n')), "{message:?}");
    }
}
