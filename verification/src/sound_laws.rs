//! What holds of the programs that record and speak.
use vstd::prelude::*;

use crate::commands::{
    device_candidates, is_command, probe_args, record_args, searches, CommandLine, DeviceStep,
};
use crate::numbers::decimal_text;
use crate::speech::{
    playback_args, speaks, spoken_part, synthesis_args, CommandStatus, SpeechError, SpeechStep,
    TtsConfig,
};
use crate::text::texts;

verus! {

proof fn lemma_args(command: CommandLine, program: Seq<char>, args: Seq<Seq<char>>)
    requires
        is_command(command, program, args),
    ensures
        command.program@ == program,
        command.args@.len() == args.len(),
        forall|i: int| 0 <= i < args.len() ==> (#[trigger] command.args@[i])@ == args[i],
{
    assert(texts(command.args@).len() == command.args@.len());
    assert forall|i: int| 0 <= i < args.len() implies (#[trigger] command.args@[i])@ == args[i] by {
        assert(texts(command.args@)[i] == command.args@[i]@);
    }
}

/// Where speech is on, speaking begins with `espeak-ng`, which is told the voice and the
/// speed of the settings, where to write, and the text as it is.
pub proof fn law_synthesis_obeys_the_settings(config: TtsConfig, text: Seq<char>, step: SpeechStep)
    requires
        config.enabled,
        speaks(config, text, Seq::empty(), step),
    ensures
        step matches SpeechStep::Run(command) && {
            &&& command.program@ == "espeak-ng"@
            &&& command.args@.len() == 7
            &&& command.args@[0]@ == "-v"@
            &&& command.args@[1]@ == config.voice@
            &&& command.args@[2]@ == "-s"@
            &&& command.args@[3]@ == decimal_text(config.speed as nat)
            &&& command.args@[4]@ == "-w"@
            &&& command.args@[5]@ == "/tmp/wakeword_tts.wav"@
            &&& command.args@.last()@ == text
        },
{
    let command = step->Run_0;
    lemma_args(command, "espeak-ng"@, synthesis_args(config, text));
}

/// Once the sound is made, `aplay` is told the device of the settings and to play what was
/// written before.
pub proof fn law_playback_obeys_the_settings(
    config: TtsConfig,
    text: Seq<char>,
    first: SpeechStep,
    second: SpeechStep,
)
    requires
        config.enabled,
        speaks(config, text, Seq::empty(), first),
        speaks(config, text, seq![CommandStatus::Succeeded], second),
    ensures
        first matches SpeechStep::Run(made) && second matches SpeechStep::Run(played) && {
            &&& played.program@ == "aplay"@
            &&& played.args@.len() == 4
            &&& played.args@[0]@ == "-q"@
            &&& played.args@[1]@ == "-D"@
            &&& played.args@[2]@ == config.output_device@
            &&& played.args@[3]@ == made.args@[5]@
        },
{
    law_synthesis_obeys_the_settings(config, text, first);
    lemma_args(second->Run_0, "aplay"@, playback_args(config));
}

/// Each way in which speaking fails is reported as what it is, with its causes: by what
/// became of the first program, and, where that succeeded, of the second.
pub proof fn law_failed_programs(
    config: TtsConfig,
    text: Seq<char>,
    statuses: Seq<CommandStatus>,
    step: SpeechStep,
)
    requires
        config.enabled,
        speaks(config, text, statuses, step),
    ensures
        statuses.len() >= 1 ==> {
            &&& statuses[0] is Failed ==> step == SpeechStep::Done(
                Err(SpeechError::SynthesisFailed),
            )
            &&& statuses[0] matches CommandStatus::NotStarted { causes } ==> {
                &&& step matches SpeechStep::Done(Err(SpeechError::SynthesisNotStarted {
                    causes: kept,
                }))
                &&& texts(kept@) == texts(causes@)
            }
        },
        statuses.len() >= 2 && statuses[0] is Succeeded ==> {
            &&& statuses[1] is Failed ==> step == SpeechStep::Done(
                Err(SpeechError::PlaybackFailed),
            )
            &&& statuses[1] matches CommandStatus::NotStarted { causes } ==> {
                &&& step matches SpeechStep::Done(Err(SpeechError::PlaybackNotStarted {
                    causes: kept,
                }))
                &&& texts(kept@) == texts(causes@)
            }
            &&& statuses[1] is Succeeded ==> step == SpeechStep::Done(Ok(()))
        },
{
}

/// What is spoken of an answer is its beginning: all of it if it is short enough, and
/// otherwise as much as is allowed.
pub proof fn law_spoken_part(answer: Seq<char>, max_chars: nat)
    ensures
        answer.len() <= max_chars ==> spoken_part(answer, max_chars as int) == answer,
        answer.len() >= max_chars ==> spoken_part(answer, max_chars as int).len() == max_chars,
        spoken_part(answer, max_chars as int).is_prefix_of(answer),
{
    assert(answer.take(answer.len() as int) =~= answer);
}

/// A recording is made from the given device at the given rate: one channel of 16-bit
/// samples, raw and without a report.
pub proof fn law_recording(command: CommandLine, device: Seq<char>, sample_rate: u32)
    requires
        is_command(command, "arecord"@, record_args(device, sample_rate)),
    ensures
        command.program@ == "arecord"@,
        command.args@.len() == 11,
        command.args@[0]@ == "-D"@ && command.args@[1]@ == device,
        command.args@[2]@ == "-q"@,
        command.args@[3]@ == "-f"@ && command.args@[4]@ == "S16_LE"@,
        command.args@[5]@ == "-r"@ && command.args@[6]@ == decimal_text(sample_rate as nat),
        command.args@[7]@ == "-c"@ && command.args@[8]@ == "1"@,
        command.args@[9]@ == "-t"@ && command.args@[10]@ == "raw"@,
{
    lemma_args(command, "arecord"@, record_args(device, sample_rate));
}

/// A device is tried just as it is recorded from, for one second and to nowhere.
pub proof fn law_trial(
    trial: CommandLine,
    recording: CommandLine,
    device: Seq<char>,
    sample_rate: u32,
)
    requires
        is_command(trial, "arecord"@, probe_args(device, sample_rate)),
        is_command(recording, "arecord"@, record_args(device, sample_rate)),
    ensures
        trial.program@ == recording.program@,
        trial.args@.len() == 14,
        forall|i: int|
            0 <= i < 9 ==> (#[trigger] trial.args@[i])@ == recording.args@[i]@,
        trial.args@[9]@ == "-d"@ && trial.args@[10]@ == "1"@,
        trial.args@[11]@ == "-t"@ && trial.args@[12]@ == "raw"@,
        trial.args@[13]@ == "/dev/null"@,
        trial.args@[1]@ == device && trial.args@[6]@ == decimal_text(sample_rate as nat),
{
    lemma_args(trial, "arecord"@, probe_args(device, sample_rate));
    lemma_args(recording, "arecord"@, record_args(device, sample_rate));
}

/// The preferred device is tried first and then six others in a fixed order; only where
/// the preferred one is the first of them it is not tried again.
pub proof fn law_devices(preferred: Seq<char>)
    ensures
        ({
            let devices = device_candidates(preferred);
            let n = devices.len() as int;
            &&& n == if preferred == "default"@ {
                6int
            } else {
                7int
            }
            &&& devices[0] == preferred
            &&& devices[n - 6] == "default"@
            &&& devices[n - 5] == "sysdefault"@
            &&& devices[n - 4] == "plughw:1,0"@
            &&& devices[n - 3] == "hw:1,0"@
            &&& devices[n - 2] == "plughw:0,0"@
            &&& devices[n - 1] == "hw:0,0"@
        }),
{
}

/// The search for a device begins with a trial of the preferred one at the given rate; if
/// that can be recorded from, it is taken.
pub proof fn law_preferred_device(
    preferred: Seq<char>,
    sample_rate: u32,
    first: DeviceStep,
    second: DeviceStep,
)
    requires
        searches(preferred, sample_rate, Seq::empty(), first),
        searches(preferred, sample_rate, seq![true], second),
    ensures
        first matches DeviceStep::Probe(command) && command.program@ == "arecord"@
            && command.args@.len() == 14 && command.args@[1]@ == preferred
            && command.args@[6]@ == decimal_text(sample_rate as nat),
        second matches DeviceStep::Selected(device) && device@ == preferred,
{
    law_devices(preferred);
    lemma_args(first->Probe_0, "arecord"@, probe_args(preferred, sample_rate));
}

} // verus!
