use rpdf::speech::{diagnose_from_text_sources, format_speech_dispatcher_error};

#[test]
fn formats_dispatcher_connection_errors_compactly() {
    let stderr = b"Failed to connect to Speech Dispatcher:\nError: Can't connect to unix socket /run/user/1000/speech-dispatcher/speechd.sock: Operation not permitted.\n";
    let message = format_speech_dispatcher_error(
        "Local speech backend is installed but unavailable",
        stderr,
        &[],
    );

    assert_eq!(
        message,
        "Local speech backend is installed but unavailable: Error: Can't connect to unix socket /run/user/1000/speech-dispatcher/speechd.sock: Operation not permitted."
    );
}

#[test]
fn formats_generic_errors_compactly() {
    let stderr = b"some generic failure\nextra detail we do not want to surface\n";
    let message = format_speech_dispatcher_error("Local speech playback failed", stderr, &[]);

    assert_eq!(message, "Local speech playback failed: some generic failure");
}

#[test]
fn diagnoses_missing_espeak_and_dummy_audio_failure() {
    let diagnosis = diagnose_from_text_sources(&[
        "/usr/lib/speech-dispatcher/speech-dispatcher-modules/sd_espeak-ng: error while loading shared libraries: libespeak-ng.so.1: cannot open shared object file: No such file or directory",
        "300-Opening sound device failed. Reason: server audio is not supported.",
    ]);

    assert_eq!(
        diagnosis,
        Some("Speech Dispatcher is running, but it has no usable speech backend: the espeak-ng modules cannot load because `libespeak-ng.so.1` is missing, and the remaining dummy backend cannot open audio. Install the package that provides `libespeak-ng.so.1` or configure another real Speech Dispatcher output module.".to_string())
    );
}

#[test]
fn diagnoses_festival_backend_failure() {
    let diagnosis = diagnose_from_text_sources(&["festival_client: connect to server failed"]);

    assert_eq!(
        diagnosis,
        Some("Speech Dispatcher tried the Festival backend, but no Festival server is running. Start Festival or configure a different Speech Dispatcher output module.".to_string())
    );
}
