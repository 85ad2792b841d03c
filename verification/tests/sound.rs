use marvin::commands::{
    alsa_candidates, probe_command, record_command, select_alsa_device, CommandLine, DeviceStep,
};
use marvin::speech::{
    shorten_answer, speak_text, speak_tts, CommandStatus, SpeechError, SpeechStep, TtsConfig,
};

fn config(enabled: bool) -> TtsConfig {
    TtsConfig {
        enabled,
        text: "ja hallo".to_string(),
        voice: "de".to_string(),
        speed: 165,
        output_device: "hw:1,0".to_string(),
        cooldown_ms: 3000,
    }
}

#[test]
fn recording_commands() {
    let c = record_command("hw:1,0", 16_000);
    assert_eq!(c.program, "arecord");
    assert_eq!(
        c.args,
        vec!["-D", "hw:1,0", "-q", "-f", "S16_LE", "-r", "16000", "-c", "1", "-t", "raw"]
    );
    let c = probe_command("default", 48_000);
    assert_eq!(c.program, "arecord");
    assert_eq!(
        c.args,
        vec![
            "-D", "default", "-q", "-f", "S16_LE", "-r", "48000", "-c", "1", "-d", "1", "-t",
            "raw", "/dev/null"
        ]
    );
}

#[test]
fn the_preferred_device_is_tried_first() {
    assert_eq!(
        alsa_candidates("hw:2,0"),
        vec!["hw:2,0", "default", "sysdefault", "plughw:1,0", "hw:1,0", "plughw:0,0", "hw:0,0"]
    );
    assert_eq!(
        alsa_candidates("default"),
        vec!["default", "sysdefault", "plughw:1,0", "hw:1,0", "plughw:0,0", "hw:0,0"]
    );
    assert_eq!(alsa_candidates("hw:0,0").len(), 7);
}

fn probed(step: DeviceStep) -> String {
    match step {
        DeviceStep::Probe(line) => {
            assert_eq!(line.program, "arecord");
            assert_eq!(line.args, probe_command(&line.args[1], 8000).args);
            line.args[1].clone()
        }
        other => panic!("no device is tried: {other:?}"),
    }
}

#[test]
fn the_first_usable_device_is_taken() {
    let next = |outcomes: &[bool]| select_alsa_device("hw:9,9", 8000, outcomes);
    assert_eq!(probed(next(&[])), "hw:9,9");
    assert_eq!(probed(next(&[false])), "default");
    assert_eq!(probed(next(&[false, false])), "sysdefault");
    assert_eq!(probed(next(&[false, false, false])), "plughw:1,0");
    let found = next(&[false, false, false, true]);
    assert!(matches!(found, DeviceStep::Selected(device) if device == "plughw:1,0"));
    let found = next(&[true]);
    assert!(matches!(found, DeviceStep::Selected(device) if device == "hw:9,9"));
}

#[test]
fn no_device_is_tried_after_a_usable_one() {
    let found = select_alsa_device("hw:9,9", 8000, &[false, true, true]);
    assert!(matches!(found, DeviceStep::Selected(device) if device == "default"));
    let found = select_alsa_device("hw:9,9", 8000, &[false, true, false]);
    assert!(matches!(found, DeviceStep::Selected(device) if device == "default"));
}

#[test]
fn the_search_ends_without_a_usable_device() {
    assert_eq!(
        probed(select_alsa_device("x", 8000, &[false; 6])),
        "hw:0,0"
    );
    assert!(matches!(
        select_alsa_device("x", 8000, &[false; 7]),
        DeviceStep::NotFound
    ));
    assert!(matches!(
        select_alsa_device("default", 8000, &[false; 6]),
        DeviceStep::NotFound
    ));
}

fn ran(step: SpeechStep) -> CommandLine {
    match step {
        SpeechStep::Run(line) => line,
        SpeechStep::Done(outcome) => panic!("nothing is run: {outcome:?}"),
    }
}

fn failure(step: SpeechStep) -> SpeechError {
    match step {
        SpeechStep::Done(Err(error)) => error,
        other => panic!("no failure: {other:?}"),
    }
}

#[test]
fn speech_is_made_and_played() {
    let line = ran(speak_tts(&config(true), &[]));
    assert_eq!(line.program, "espeak-ng");
    assert_eq!(
        line.args,
        vec!["-v", "de", "-s", "165", "-w", "/tmp/wakeword_tts.wav", "ja hallo"]
    );
    let line = ran(speak_tts(&config(true), &[CommandStatus::Succeeded]));
    assert_eq!(line.program, "aplay");
    assert_eq!(line.args, vec!["-q", "-D", "hw:1,0", "/tmp/wakeword_tts.wav"]);
    assert!(matches!(
        speak_tts(&config(true), &[CommandStatus::Succeeded, CommandStatus::Succeeded]),
        SpeechStep::Done(Ok(()))
    ));
    let line = ran(speak_text(&config(true), "die Antwort", &[]));
    assert_eq!(line.args[6], "die Antwort");
}

#[test]
fn nothing_is_run_when_speech_is_off() {
    assert!(matches!(
        speak_text(&config(false), "x", &[]),
        SpeechStep::Done(Ok(()))
    ));
    assert!(matches!(
        speak_tts(&config(false), &[]),
        SpeechStep::Done(Ok(()))
    ));
}

#[test]
fn speech_failures_are_told_apart() {
    let after = |statuses: &[CommandStatus]| failure(speak_text(&config(true), "x", statuses));
    let missing = || CommandStatus::NotStarted {
        causes: vec!["nicht da".to_string(), "fehlt".to_string()],
    };
    let error = after(&[missing()]);
    assert!(matches!(
        &error,
        SpeechError::SynthesisNotStarted { causes } if *causes == ["nicht da", "fehlt"]
    ));
    assert_eq!(error.message(), "espeak-ng konnte nicht gestartet werden");
    let error = after(&[CommandStatus::Failed]);
    assert!(matches!(error, SpeechError::SynthesisFailed));
    assert_eq!(error.message(), "espeak-ng ist mit Fehler beendet");
    let error = after(&[CommandStatus::Succeeded, missing()]);
    assert!(matches!(
        &error,
        SpeechError::PlaybackNotStarted { causes } if *causes == ["nicht da", "fehlt"]
    ));
    assert_eq!(error.message(), "aplay konnte nicht gestartet werden");
    let error = after(&[CommandStatus::Succeeded, CommandStatus::Failed]);
    assert!(matches!(error, SpeechError::PlaybackFailed));
    assert_eq!(error.message(), "aplay ist mit Fehler beendet");
}

#[test]
fn long_answers_are_cut_short() {
    assert_eq!(shorten_answer("größer", 3), "grö");
    assert_eq!(shorten_answer("kurz", 4), "kurz");
    assert_eq!(shorten_answer("kurz", 400), "kurz");
    assert_eq!(shorten_answer("kurz", 0), "");
}
