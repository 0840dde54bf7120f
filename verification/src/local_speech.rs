//! The steps of speaking a text through Speech Dispatcher's `spd-say`.
//!
//! Speaking takes three commands in turn: a shell check that `spd-say` is installed,
//! `spd-say -O` to see that the backend answers, and `spd-say` itself.  The shell runs
//! each command and hands its result to the step function here, which decides what comes
//! next: another command, or the end of the request with its outcome.

use crate::backend::CommandOutput;
use crate::paths::joined;
use crate::speech::{format_speech_dispatcher_error, speech_error_message, utf8_lossy_text};
use crate::text::{
    concat2, concat3, push_str_chars, signed_decimal, signed_decimal_chars, str_chars,
    string_from_chars, string_views, trim, trim_chars,
};
use vstd::prelude::*;

verus! {

broadcast use vstd::string::group_string_axioms;

/// The next step of a local speech request.
#[derive(Debug)]
pub enum SpeakStep {
    /// Run `sh -c <script>` to learn whether `spd-say` is installed.
    CheckCommand { script: String, speak_args: Vec<String> },
    /// Run `spd-say -O` to learn whether the speech backend answers.
    ProbeBackend { speak_args: Vec<String> },
    /// Run `spd-say` with these arguments.
    Speak { args: Vec<String> },
    /// The request is over, with this outcome.
    Finished(Result<(), String>),
}

/// The shell line that succeeds exactly when `command` is on the search path.
pub open spec fn probe_script(command: Seq<char>) -> Seq<char> {
    "command -v "@ + command + " >/dev/null 2>&1"@
}

/// What the check for `command` means: installed, not installed, or the check itself
/// could not run.
pub open spec fn command_check_outcome(command: Seq<char>, status: Result<bool, String>) -> Result<
    (),
    Seq<char>,
> {
    match status {
        Err(e) => Err("Could not check for "@ + command + ": "@ + e@),
        Ok(found) => if found {
            Ok(())
        } else {
            Err("Local speech backend is unavailable because `"@ + command + "` is not installed."@)
        },
    }
}

/// The arguments of `spd-say` that speak `text` at `rate` and wait until it is spoken.
pub open spec fn speak_arguments(rate: i32, text: Seq<char>) -> Seq<Seq<char>> {
    seq![
        "--wait"@,
        "--application-name"@,
        "rpdf"@,
        "--rate"@,
        signed_decimal(rate as int),
        text,
    ]
}

/// What a probe of the backend means.
pub open spec fn probe_outcome(probe: Result<CommandOutput, String>, logs: Seq<Seq<char>>) -> Result<
    (),
    Seq<char>,
> {
    match probe {
        Err(e) => Err("Could not check local speech backend: "@ + e@),
        Ok(out) => if out.success {
            Ok(())
        } else {
            Err(
                speech_error_message(
                    "Local speech backend is installed but unavailable"@,
                    utf8_lossy_text(out.stderr@),
                    logs,
                ),
            )
        },
    }
}

/// What running `spd-say` means.
pub open spec fn speak_outcome(run: Result<CommandOutput, String>, logs: Seq<Seq<char>>) -> Result<
    (),
    Seq<char>,
> {
    match run {
        Err(e) => Err("Could not run spd-say: "@ + e@),
        Ok(out) => if out.success {
            Ok(())
        } else {
            Err(
                speech_error_message(
                    "Local speech playback failed"@,
                    utf8_lossy_text(out.stderr@),
                    logs,
                ),
            )
        },
    }
}

/// Whether `step` ends the request with the outcome `outcome`.
pub open spec fn finishes_with(step: SpeakStep, outcome: Result<(), Seq<char>>) -> bool {
    match step {
        SpeakStep::Finished(r) => match (r, outcome) {
            (Ok(()), Ok(())) => true,
            (Err(m), Err(n)) => m@ == n,
            _ => false,
        },
        _ => false,
    }
}

/// The shell line that checks whether `command` is installed.
pub fn command_probe_script(command: &str) -> (script: String)
    ensures
        script@ == probe_script(command@),
{
    concat3("command -v ", command, " >/dev/null 2>&1")
}

/// The outcome of the check for `command`, from the exit status of the check (`Ok(true)`
/// for success) or why it could not run.
pub fn command_exists_outcome(command: &str, status: Result<bool, String>) -> (r: Result<(), String>)
    ensures
        match r {
            Ok(()) => command_check_outcome(command@, status) is Ok,
            Err(m) => command_check_outcome(command@, status) == Err::<(), Seq<char>>(m@),
        },
{
    match status {
        Err(e) => {
            let mut v: Vec<char> = Vec::new();
            push_str_chars(&mut v, "Could not check for ");
            push_str_chars(&mut v, command);
            push_str_chars(&mut v, ": ");
            push_str_chars(&mut v, e.as_str());
            Err(string_from_chars(&v))
        },
        Ok(found) => {
            if found {
                Ok(())
            } else {
                Err(
                    concat3(
                        "Local speech backend is unavailable because `",
                        command,
                        "` is not installed.",
                    ),
                )
            }
        },
    }
}

/// The `spd-say` arguments that speak `text` at `rate`.
pub fn speak_command_args(rate: i32, text: &str) -> (args: Vec<String>)
    ensures
        string_views(args@) == speak_arguments(rate, text@),
{
    let mut args: Vec<String> = Vec::new();
    args.push("--wait".to_string());
    args.push("--application-name".to_string());
    args.push("rpdf".to_string());
    args.push("--rate".to_string());
    args.push(string_from_chars(&signed_decimal_chars(rate)));
    args.push(string_from_chars(&str_chars(text)));
    assert(string_views(args@) =~= speak_arguments(rate, text@));
    args
}

/// Starts a request to speak `text` at the integer speech `rate`: a blank text ends it at
/// once; otherwise the first step checks that `spd-say` is installed, and the text to
/// speak is the trimmed text.
pub fn begin_speaking(text: &str, rate: i32) -> (step: SpeakStep)
    ensures
        trim(text@).len() == 0 ==> finishes_with(
            step,
            Err("Text is required for local speech."@),
        ),
        trim(text@).len() > 0 ==> (step matches SpeakStep::CheckCommand { script, speak_args }
            && script@ == probe_script("spd-say"@) && string_views(speak_args@) == speak_arguments(
            rate,
            trim(text@),
        )),
{
    let trimmed_chars = trim_chars(&str_chars(text));
    if trimmed_chars.len() == 0 {
        return SpeakStep::Finished(Err("Text is required for local speech.".to_string()));
    }
    let trimmed = string_from_chars(&trimmed_chars);
    SpeakStep::CheckCommand {
        script: command_probe_script("spd-say"),
        speak_args: speak_command_args(rate, trimmed.as_str()),
    }
}

/// The step after the installation check: probe the backend, or end with the check's
/// error.
pub fn after_command_check(speak_args: Vec<String>, status: Result<bool, String>) -> (step:
    SpeakStep)
    ensures
        match command_check_outcome("spd-say"@, status) {
            Ok(()) => step matches SpeakStep::ProbeBackend { speak_args: a } && a@ == speak_args@,
            Err(m) => finishes_with(step, Err(m)),
        },
{
    match command_exists_outcome("spd-say", status) {
        Ok(()) => SpeakStep::ProbeBackend { speak_args },
        Err(m) => SpeakStep::Finished(Err(m)),
    }
}

/// The step after probing the backend: speak, or end with the probe's error.
/// `runtime_logs` holds the contents of the Speech Dispatcher log files that could be
/// read.
pub fn after_backend_probe(
    speak_args: Vec<String>,
    probe: Result<CommandOutput, String>,
    runtime_logs: &[String],
) -> (step: SpeakStep)
    ensures
        match probe_outcome(probe, string_views(runtime_logs@)) {
            Ok(()) => step matches SpeakStep::Speak { args } && args@ == speak_args@,
            Err(m) => finishes_with(step, Err(m)),
        },
{
    match probe {
        Err(e) => SpeakStep::Finished(Err(concat2("Could not check local speech backend: ", e.as_str()))),
        Ok(out) => {
            if out.success {
                SpeakStep::Speak { args: speak_args }
            } else {
                SpeakStep::Finished(
                    Err(
                        format_speech_dispatcher_error(
                            "Local speech backend is installed but unavailable",
                            out.stderr.as_slice(),
                            runtime_logs,
                        ),
                    ),
                )
            }
        },
    }
}

/// The outcome of running `spd-say`.
pub fn after_speaking(run: Result<CommandOutput, String>, runtime_logs: &[String]) -> (step:
    SpeakStep)
    ensures
        finishes_with(step, speak_outcome(run, string_views(runtime_logs@))),
{
    match run {
        Err(e) => SpeakStep::Finished(Err(concat2("Could not run spd-say: ", e.as_str()))),
        Ok(out) => {
            if out.success {
                SpeakStep::Finished(Ok(()))
            } else {
                SpeakStep::Finished(
                    Err(
                        format_speech_dispatcher_error(
                            "Local speech playback failed",
                            out.stderr.as_slice(),
                            runtime_logs,
                        ),
                    ),
                )
            }
        },
    }
}

/// The directories where Speech Dispatcher may keep its logs, in the order to look:
/// `speech-dispatcher/log` under the runtime directory, then under `/run/user/<uid>`.
/// The first that exists is the log directory.
pub fn speech_dispatcher_log_dir_candidates(runtime_dir: Option<&str>, uid: Option<&str>) -> (dirs:
    Vec<String>)
    ensures
        string_views(dirs@) == (match runtime_dir {
            Some(r) => seq![joined(r@, "speech-dispatcher/log"@)],
            None => Seq::<Seq<char>>::empty(),
        }) + (match uid {
            Some(u) => seq!["/run/user/"@ + u@ + "/speech-dispatcher/log"@],
            None => Seq::<Seq<char>>::empty(),
        }),
{
    let mut dirs: Vec<String> = Vec::new();
    if let Some(r) = runtime_dir {
        dirs.push(crate::paths::join_path(r, "speech-dispatcher/log"));
    }
    let ghost first = string_views(dirs@);
    if let Some(u) = uid {
        dirs.push(concat3("/run/user/", u, "/speech-dispatcher/log"));
    }
    assert(string_views(dirs@) =~= first + (match uid {
        Some(u) => seq!["/run/user/"@ + u@ + "/speech-dispatcher/log"@],
        None => Seq::<Seq<char>>::empty(),
    }));
    dirs
}

} // verus!
