use rpdf::backend::CommandOutput;
use rpdf::local_speech::{
    after_backend_probe, after_command_check, after_speaking, begin_speaking,
    command_exists_outcome, command_probe_script, speak_command_args,
    speech_dispatcher_log_dir_candidates, SpeakStep,
};
use rpdf::ocr::{page_image_names, recognize_command_args, recognized_text, render_command_args};
use rpdf::pressure::{
    device_is_stylus_like, device_source_label, leave_sample_source, pressure_sample_source,
    DeviceSource, PressureDevice,
};

fn output(success: bool, stdout: &str, stderr: &str) -> CommandOutput {
    CommandOutput {
        success,
        stdout: stdout.as_bytes().to_vec(),
        stderr: stderr.as_bytes().to_vec(),
    }
}

fn strings(items: &[&str]) -> Vec<String> {
    items.iter().map(|item| item.to_string()).collect()
}

fn finished_error(step: SpeakStep) -> String {
    match step {
        SpeakStep::Finished(Err(message)) => message,
        other => panic!("expected a finished request with an error, got {other:?}"),
    }
}

#[test]
fn device_sources_have_their_labels() {
    assert_eq!(device_source_label(DeviceSource::Pen), "Pen");
    assert_eq!(device_source_label(DeviceSource::TabletPad), "TabletPad");
    assert_eq!(device_source_label(DeviceSource::Unknown(7)), "Unknown(7)");
    assert_eq!(device_source_label(DeviceSource::Unknown(-3)), "Unknown(-3)");
    assert_eq!(device_source_label(DeviceSource::Unknown(i32::MIN)), "Unknown(-2147483648)");
    assert_eq!(device_source_label(DeviceSource::Unrecognized), "Unknown");
}

#[test]
fn only_pens_erasers_and_cursors_are_stylus_like() {
    assert!(device_is_stylus_like(DeviceSource::Pen));
    assert!(device_is_stylus_like(DeviceSource::Eraser));
    assert!(device_is_stylus_like(DeviceSource::Cursor));
    assert!(!device_is_stylus_like(DeviceSource::Mouse));
    assert!(!device_is_stylus_like(DeviceSource::Touchscreen));
    assert!(!device_is_stylus_like(DeviceSource::Unknown(3)));
}

#[test]
fn pressure_samples_describe_their_device() {
    let sample = pressure_sample_source(Some(PressureDevice {
        source: DeviceSource::Eraser,
        name: Some("Wacom Pen eraser".to_string()),
    }));
    assert_eq!(sample.source, "Eraser");
    assert_eq!(sample.device_name.as_deref(), Some("Wacom Pen eraser"));
    assert!(sample.is_stylus_like);

    let unknown = pressure_sample_source(None);
    assert_eq!(unknown.source, "Unknown");
    assert_eq!(unknown.device_name, None);
    assert!(!unknown.is_stylus_like);

    let leave = leave_sample_source();
    assert_eq!(leave.source, "Leave");
    assert!(!leave.is_stylus_like);
}

#[test]
fn blank_text_is_refused_before_any_command() {
    assert_eq!(finished_error(begin_speaking(" \n\t ", 0)), "Text is required for local speech.");
}

#[test]
fn speaking_starts_with_the_installation_check() {
    match begin_speaking("  read this  ", -25) {
        SpeakStep::CheckCommand { script, speak_args } => {
            assert_eq!(script, "command -v spd-say >/dev/null 2>&1");
            assert_eq!(
                speak_args,
                strings(&["--wait", "--application-name", "rpdf", "--rate", "-25", "read this"])
            );
        }
        other => panic!("unexpected step {other:?}"),
    }
    assert_eq!(
        speak_command_args(40, "hello"),
        strings(&["--wait", "--application-name", "rpdf", "--rate", "40", "hello"])
    );
    assert_eq!(command_probe_script("tesseract"), "command -v tesseract >/dev/null 2>&1");
}

#[test]
fn installation_check_outcomes() {
    assert_eq!(command_exists_outcome("spd-say", Ok(true)), Ok(()));
    assert_eq!(
        command_exists_outcome("spd-say", Ok(false)),
        Err("Local speech backend is unavailable because `spd-say` is not installed.".to_string())
    );
    assert_eq!(
        command_exists_outcome("spd-say", Err("no shell".to_string())),
        Err("Could not check for spd-say: no shell".to_string())
    );

    let args = strings(&["--wait", "hello"]);
    match after_command_check(args.clone(), Ok(true)) {
        SpeakStep::ProbeBackend { speak_args } => assert_eq!(speak_args, args),
        other => panic!("unexpected step {other:?}"),
    }
    assert_eq!(
        finished_error(after_command_check(args, Ok(false))),
        "Local speech backend is unavailable because `spd-say` is not installed."
    );
}

#[test]
fn backend_probe_outcomes() {
    let args = strings(&["--wait", "hello"]);
    match after_backend_probe(args.clone(), Ok(output(true, "", "")), &[]) {
        SpeakStep::Speak { args: speak } => assert_eq!(speak, args),
        other => panic!("unexpected step {other:?}"),
    }
    assert_eq!(
        finished_error(after_backend_probe(
            args.clone(),
            Ok(output(false, "", "Failed to connect to Speech Dispatcher:\nError: socket refused\n")),
            &[],
        )),
        "Local speech backend is installed but unavailable: could not connect to Speech Dispatcher."
    );
    assert_eq!(
        finished_error(after_backend_probe(args, Err("not found".to_string()), &[])),
        "Could not check local speech backend: not found"
    );
}

#[test]
fn speaking_outcomes() {
    assert!(matches!(after_speaking(Ok(output(true, "", "")), &[]), SpeakStep::Finished(Ok(()))));
    assert_eq!(
        finished_error(after_speaking(Ok(output(false, "", "some failure\nmore\n")), &[])),
        "Local speech playback failed: some failure"
    );
    assert_eq!(
        finished_error(after_speaking(
            Ok(output(false, "", "")),
            &["festival_client: connect to server failed".to_string()],
        )),
        "Local speech playback failed: Speech Dispatcher tried the Festival backend, but no Festival server is running. Start Festival or configure a different Speech Dispatcher output module."
    );
    assert_eq!(
        finished_error(after_speaking(Err("denied".to_string()), &[])),
        "Could not run spd-say: denied"
    );
}

#[test]
fn speech_log_directories_in_search_order() {
    assert_eq!(
        speech_dispatcher_log_dir_candidates(Some("/run/user/1000"), Some("1000")),
        strings(&["/run/user/1000/speech-dispatcher/log", "/run/user/1000/speech-dispatcher/log"])
    );
    assert_eq!(
        speech_dispatcher_log_dir_candidates(Some("/tmp/rt/"), None),
        strings(&["/tmp/rt/speech-dispatcher/log"])
    );
    assert_eq!(
        speech_dispatcher_log_dir_candidates(None, Some("42")),
        strings(&["/run/user/42/speech-dispatcher/log"])
    );
    assert!(speech_dispatcher_log_dir_candidates(None, None).is_empty());
}

#[test]
fn ocr_command_lines() {
    assert_eq!(
        render_command_args("/docs/a.pdf", "/tmp/ocr/page"),
        strings(&["-f", "1", "-l", "3", "-r", "150", "-gray", "-png", "/docs/a.pdf", "/tmp/ocr/page"])
    );
    assert_eq!(
        recognize_command_args("/tmp/ocr/page-1.png"),
        strings(&["/tmp/ocr/page-1.png", "stdout", "--psm", "6"])
    );
}

#[test]
fn page_images_are_the_png_files_in_name_order() {
    let names = strings(&["page-3.png", "notes.txt", "page-1.png", "page-2.PNG", "page-10.png", ".png"]);
    assert_eq!(page_image_names(&names), strings(&["page-1.png", "page-10.png", "page-3.png"]));
    assert!(page_image_names(&[]).is_empty());
}

#[test]
fn recognized_text_comes_from_successful_runs_only() {
    assert_eq!(recognized_text(Ok(output(true, "Some words\n", ""))), Some("Some words\n".to_string()));
    assert_eq!(recognized_text(Ok(output(false, "partial", "error"))), None);
    assert_eq!(recognized_text(Err("missing".to_string())), None);
}
