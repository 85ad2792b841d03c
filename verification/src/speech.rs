//! Speaking.
use std::time::Instant;
use vstd::prelude::*;

use crate::clock::{has_passed, instant_nanos, millis_left, millis_left_of, millis_passed};
use crate::commands::{command_line, is_command, CommandLine};
use crate::numbers::{decimal, decimal_text};
use crate::text::{chars_of, copied_texts, string_of, texts};

verus! {

/// How the assistant speaks.
#[derive(Debug, Clone)]
pub struct TtsConfig {
    /// Whether it speaks at all.
    pub enabled: bool,
    /// What it says when it hears the wake word.
    pub text: String,
    /// The voice.
    pub voice: String,
    /// The speed, in words per minute.
    pub speed: u32,
    /// The device on which it speaks.
    pub output_device: String,
    /// How long it is silent at least between two outputs.
    pub cooldown_ms: u64,
}

/// The arguments by which `espeak-ng` writes a spoken text to a file.
pub open spec fn synthesis_args(config: TtsConfig, text: Seq<char>) -> Seq<Seq<char>> {
    seq![
        "-v"@,
        config.voice@,
        "-s"@,
        decimal_text(config.speed as nat),
        "-w"@,
        "/tmp/wakeword_tts.wav"@,
        text,
    ]
}

/// The arguments by which `aplay` plays that file.
pub open spec fn playback_args(config: TtsConfig) -> Seq<Seq<char>> {
    seq!["-q"@, "-D"@, config.output_device@, "/tmp/wakeword_tts.wav"@]
}

/// The program that writes a spoken text to a file.
pub fn synthesis_command(config: &TtsConfig, text: &str) -> (command: CommandLine)
    ensures
        is_command(command, "espeak-ng"@, synthesis_args(*config, text@)),
{
    let speed = decimal(config.speed as u64);
    let args: Vec<&str> = vec![
        "-v",
        config.voice.as_str(),
        "-s",
        speed.as_str(),
        "-w",
        "/tmp/wakeword_tts.wav",
        text,
    ];
    assert(args@.map_values(|arg: &str| arg@) =~= synthesis_args(*config, text@));
    command_line("espeak-ng", &args)
}

/// The program that plays that file.
pub fn playback_command(config: &TtsConfig) -> (command: CommandLine)
    ensures
        is_command(command, "aplay"@, playback_args(*config)),
{
    let args: Vec<&str> = vec![
        "-q",
        "-D",
        config.output_device.as_str(),
        "/tmp/wakeword_tts.wav",
    ];
    assert(args@.map_values(|arg: &str| arg@) =~= playback_args(*config));
    command_line("aplay", &args)
}

/// What became of a program.
#[derive(Debug)]
pub enum CommandStatus {
    /// It could not be started, for these reasons, each due to the next.
    NotStarted { causes: Vec<String> },
    /// It reported a failure.
    Failed,
    /// It reported success.
    Succeeded,
}

/// Why nothing was spoken.
#[derive(Debug)]
pub enum SpeechError {
    /// The program that turns text into sound could not be started, for these reasons,
    /// each due to the next.
    SynthesisNotStarted { causes: Vec<String> },
    /// The program that turns text into sound failed.
    SynthesisFailed,
    /// The program that plays sound could not be started, for these reasons, each due
    /// to the next.
    PlaybackNotStarted { causes: Vec<String> },
    /// The program that plays sound failed.
    PlaybackFailed,
}

/// The text by which an error is reported.
pub open spec fn speech_error_text(error: SpeechError) -> Seq<char> {
    match error {
        SpeechError::SynthesisNotStarted { .. } => "espeak-ng konnte nicht gestartet werden"@,
        SpeechError::SynthesisFailed => "espeak-ng ist mit Fehler beendet"@,
        SpeechError::PlaybackNotStarted { .. } => "aplay konnte nicht gestartet werden"@,
        SpeechError::PlaybackFailed => "aplay ist mit Fehler beendet"@,
    }
}

impl SpeechError {
    /// The text by which the error is reported.
    pub fn message(&self) -> (text: String)
        ensures
            text@ == speech_error_text(*self),
    {
        match self {
            SpeechError::SynthesisNotStarted { .. } =>
                "espeak-ng konnte nicht gestartet werden".to_owned(),
            SpeechError::SynthesisFailed => "espeak-ng ist mit Fehler beendet".to_owned(),
            SpeechError::PlaybackNotStarted { .. } => "aplay konnte nicht gestartet werden".to_owned(),
            SpeechError::PlaybackFailed => "aplay ist mit Fehler beendet".to_owned(),
        }
    }
}

/// What to do to speak.
#[derive(Debug)]
pub enum SpeechStep {
    /// Run the program, and go on with what becomes of it.
    Run(CommandLine),
    /// Nothing more; this is what became of it.
    Done(Result<(), SpeechError>),
}

/// Whether `step` is what to do to speak a text when the programs that were run for it
/// so far, in order, ended with these statuses. Where speech is switched off, no
/// program is run. Otherwise the text is turned into sound, and the sound is played if
/// that went well.
pub open spec fn speaks(
    config: TtsConfig,
    text: Seq<char>,
    statuses: Seq<CommandStatus>,
    step: SpeechStep,
) -> bool {
    if !config.enabled {
        step == SpeechStep::Done(Ok(()))
    } else if statuses.len() == 0 {
        &&& step matches SpeechStep::Run(command)
        &&& is_command(command, "espeak-ng"@, synthesis_args(config, text))
    } else {
        match statuses[0] {
            CommandStatus::NotStarted { causes } => {
                &&& step matches SpeechStep::Done(Err(SpeechError::SynthesisNotStarted {
                    causes: kept,
                }))
                &&& texts(kept@) == texts(causes@)
            },
            CommandStatus::Failed => step == SpeechStep::Done(Err(SpeechError::SynthesisFailed)),
            CommandStatus::Succeeded => if statuses.len() == 1 {
                &&& step matches SpeechStep::Run(command)
                &&& is_command(command, "aplay"@, playback_args(config))
            } else {
                match statuses[1] {
                    CommandStatus::NotStarted { causes } => {
                        &&& step matches SpeechStep::Done(Err(SpeechError::PlaybackNotStarted {
                            causes: kept,
                        }))
                        &&& texts(kept@) == texts(causes@)
                    },
                    CommandStatus::Failed => step == SpeechStep::Done(
                        Err(SpeechError::PlaybackFailed),
                    ),
                    CommandStatus::Succeeded => step == SpeechStep::Done(Ok(())),
                }
            },
        }
    }
}

/// Decides what to do to speak a text, given what became of the programs that were run
/// for it so far. Speaking begins with none.
pub fn speak_text(config: &TtsConfig, text: &str, statuses: &[CommandStatus]) -> (step: SpeechStep)
    ensures
        speaks(*config, text@, statuses@, step),
{
    if !config.enabled {
        return SpeechStep::Done(Ok(()));
    }
    if statuses.len() == 0 {
        return SpeechStep::Run(synthesis_command(config, text));
    }
    match &statuses[0] {
        CommandStatus::NotStarted { causes } => {
            return SpeechStep::Done(
                Err(SpeechError::SynthesisNotStarted { causes: copied_texts(causes.as_slice()) }),
            );
        },
        CommandStatus::Failed => {
            return SpeechStep::Done(Err(SpeechError::SynthesisFailed));
        },
        CommandStatus::Succeeded => {},
    }
    if statuses.len() == 1 {
        return SpeechStep::Run(playback_command(config));
    }
    match &statuses[1] {
        CommandStatus::NotStarted { causes } => SpeechStep::Done(
            Err(SpeechError::PlaybackNotStarted { causes: copied_texts(causes.as_slice()) }),
        ),
        CommandStatus::Failed => SpeechStep::Done(Err(SpeechError::PlaybackFailed)),
        CommandStatus::Succeeded => SpeechStep::Done(Ok(())),
    }
}

/// Decides what to do to acknowledge the wake word, given what became of the programs
/// that were run for it so far.
pub fn speak_tts(config: &TtsConfig, statuses: &[CommandStatus]) -> (step: SpeechStep)
    ensures
        speaks(*config, config.text@, statuses@, step),
{
    speak_text(config, config.text.as_str(), statuses)
}

/// Where speech is switched off, no program is run, and that counts as success.
pub proof fn law_speech_off_runs_nothing(
    config: TtsConfig,
    text: Seq<char>,
    statuses: Seq<CommandStatus>,
    step: SpeechStep,
)
    requires
        !config.enabled,
        speaks(config, text, statuses, step),
    ensures
        step == SpeechStep::Done(Ok(())),
{
}

/// Only two programs are ever run, each at most once: the one that makes the sound
/// first, and the one that plays it only after the first one was started and
/// succeeded.
pub proof fn law_playback_after_synthesis(
    config: TtsConfig,
    text: Seq<char>,
    statuses: Seq<CommandStatus>,
    step: SpeechStep,
)
    requires
        speaks(config, text, statuses, step),
    ensures
        step matches SpeechStep::Run(command) ==> {
            &&& config.enabled
            &&& {
                ||| {
                    &&& statuses.len() == 0
                    &&& is_command(command, "espeak-ng"@, synthesis_args(config, text))
                }
                ||| {
                    &&& statuses.len() == 1
                    &&& statuses[0] is Succeeded
                    &&& is_command(command, "aplay"@, playback_args(config))
                }
            }
        },
        statuses.len() >= 2 ==> step is Done,
{
}

/// With speech switched on, speaking succeeds exactly when both programs were started
/// and succeeded.
pub proof fn law_speech_success(
    config: TtsConfig,
    text: Seq<char>,
    statuses: Seq<CommandStatus>,
    step: SpeechStep,
)
    requires
        config.enabled,
        speaks(config, text, statuses, step),
    ensures
        step == SpeechStep::Done(Ok(())) <==> statuses.len() >= 2 && statuses[0] is Succeeded
            && statuses[1] is Succeeded,
{
}

/// What is spoken of an answer: no more than its first `max_chars` characters.
pub open spec fn spoken_part(answer: Seq<char>, max_chars: int) -> Seq<char> {
    if answer.len() > max_chars {
        answer.take(max_chars)
    } else {
        answer
    }
}

/// What is spoken of an answer.
pub fn shorten_answer(answer: &str, max_chars: usize) -> (out: String)
    ensures
        out@ == spoken_part(answer@, max_chars as int),
{
    let chars = chars_of(answer);
    let n: usize = if chars.len() > max_chars {
        max_chars
    } else {
        chars.len()
    };
    let out = string_of(&chars, 0, n);
    assert(out@ =~= spoken_part(answer@, max_chars as int));
    out
}

/// Whether enough time has passed since something last happened, if it ever did.
pub open spec fn cooled_down(last: Option<int>, now: int, cooldown_ms: u64) -> bool {
    match last {
        Some(since) => millis_passed(since, now, cooldown_ms),
        None => true,
    }
}

/// The place of an instant on the clock, if there is an instant.
pub open spec fn instant_of(last: Option<Instant>) -> Option<int> {
    match last {
        Some(since) => Some(instant_nanos(since)),
        None => None,
    }
}

/// Whether enough time has passed since something last happened, if it ever did.
pub fn is_cooled_down(last: Option<Instant>, now: Instant, cooldown_ms: u64) -> (r: bool)
    ensures
        r == cooled_down(instant_of(last), instant_nanos(now), cooldown_ms),
{
    match last {
        Some(since) => has_passed(since, now, cooldown_ms),
        None => true,
    }
}

/// How many milliseconds are missing until enough time has passed since something
/// last happened; none if it never did.
pub open spec fn cooldown_left(last: Option<int>, now: int, cooldown_ms: u64) -> u64 {
    match last {
        Some(since) => millis_left(since, now, cooldown_ms),
        None => 0,
    }
}

/// How many milliseconds are missing until enough time has passed since something
/// last happened.
pub fn cooldown_left_of(last: Option<Instant>, now: Instant, cooldown_ms: u64) -> (left: u64)
    ensures
        left == cooldown_left(instant_of(last), instant_nanos(now), cooldown_ms),
{
    match last {
        Some(since) => millis_left_of(since, now, cooldown_ms),
        None => 0,
    }
}

} // verus!
