//! The programs that record and play sound.
use vstd::prelude::*;

use crate::numbers::{decimal, decimal_text};
use crate::text::{same_text, texts};

verus! {

/// A program with its arguments.
#[derive(Debug)]
pub struct CommandLine {
    /// The program.
    pub program: String,
    /// Its arguments, in order.
    pub args: Vec<String>,
}

/// The program and the arguments of a command line as texts.
pub open spec fn is_command(
    command: CommandLine,
    program: Seq<char>,
    args: Seq<Seq<char>>,
) -> bool {
    command.program@ == program && texts(command.args@) == args
}

/// Makes a command line.
pub(crate) fn command_line(program: &str, args: &Vec<&str>) -> (command: CommandLine)
    ensures
        is_command(command, program@, args@.map_values(|arg: &str| arg@)),
{
    let ghost all = args@.map_values(|arg: &str| arg@);
    let mut list: Vec<String> = Vec::new();
    assert(texts(list@) =~= all.take(0));
    for i in 0..args.len()
        invariant
            all == args@.map_values(|arg: &str| arg@),
            texts(list@) == all.take(i as int),
    {
        let ghost before = list@;
        list.push(args[i].to_owned());
        assert(texts(list@) =~= texts(before).push(all[i as int]));
        assert(all.take(i + 1) =~= all.take(i as int).push(all[i as int]));
    }
    assert(all.take(args@.len() as int) =~= all);
    CommandLine { program: program.to_owned(), args: list }
}

/// The arguments by which `arecord` records one channel of 16-bit samples from a
/// device, without a report of its own.
pub open spec fn record_args(device: Seq<char>, sample_rate: u32) -> Seq<Seq<char>> {
    seq![
        "-D"@,
        device,
        "-q"@,
        "-f"@,
        "S16_LE"@,
        "-r"@,
        decimal_text(sample_rate as nat),
        "-c"@,
        "1"@,
        "-t"@,
        "raw"@,
    ]
}

/// The arguments by which `arecord` records for one second and throws the samples
/// away.
pub open spec fn probe_args(device: Seq<char>, sample_rate: u32) -> Seq<Seq<char>> {
    seq![
        "-D"@,
        device,
        "-q"@,
        "-f"@,
        "S16_LE"@,
        "-r"@,
        decimal_text(sample_rate as nat),
        "-c"@,
        "1"@,
        "-d"@,
        "1"@,
        "-t"@,
        "raw"@,
        "/dev/null"@,
    ]
}

/// The program that records without end from a device.
pub fn record_command(alsa_device: &str, sample_rate: u32) -> (command: CommandLine)
    ensures
        is_command(command, "arecord"@, record_args(alsa_device@, sample_rate)),
{
    let rate = decimal(sample_rate as u64);
    let args: Vec<&str> = vec![
        "-D",
        alsa_device,
        "-q",
        "-f",
        "S16_LE",
        "-r",
        rate.as_str(),
        "-c",
        "1",
        "-t",
        "raw",
    ];
    assert(args@.map_values(|arg: &str| arg@) =~= record_args(alsa_device@, sample_rate));
    command_line("arecord", &args)
}

/// The program that tries whether a device can be recorded from.
pub fn probe_command(alsa_device: &str, sample_rate: u32) -> (command: CommandLine)
    ensures
        is_command(command, "arecord"@, probe_args(alsa_device@, sample_rate)),
{
    let rate = decimal(sample_rate as u64);
    let args: Vec<&str> = vec![
        "-D",
        alsa_device,
        "-q",
        "-f",
        "S16_LE",
        "-r",
        rate.as_str(),
        "-c",
        "1",
        "-d",
        "1",
        "-t",
        "raw",
        "/dev/null",
    ];
    assert(args@.map_values(|arg: &str| arg@) =~= probe_args(alsa_device@, sample_rate));
    command_line("arecord", &args)
}

/// The devices to try after the preferred one.
pub open spec fn usual_devices() -> Seq<Seq<char>> {
    seq!["default"@, "sysdefault"@, "plughw:1,0"@, "hw:1,0"@, "plughw:0,0"@, "hw:0,0"@]
}

/// The devices to try, in order: the preferred one first, and not twice in a row.
pub open spec fn device_candidates(preferred: Seq<char>) -> Seq<Seq<char>> {
    if preferred == "default"@ {
        usual_devices()
    } else {
        seq![preferred] + usual_devices()
    }
}

/// The devices to try, in order.
pub fn alsa_candidates(preferred: &str) -> (out: Vec<String>)
    ensures
        texts(out@) == device_candidates(preferred@),
{
    let mut out: Vec<String> = Vec::new();
    if !same_text(preferred, "default") {
        out.push(preferred.to_owned());
    }
    out.push("default".to_owned());
    out.push("sysdefault".to_owned());
    out.push("plughw:1,0".to_owned());
    out.push("hw:1,0".to_owned());
    out.push("plughw:0,0".to_owned());
    out.push("hw:0,0".to_owned());
    assert(texts(out@) =~= device_candidates(preferred@));
    out
}

/// No device is tried twice in a row, and the preferred one is tried first.
pub proof fn law_no_device_twice_in_a_row(preferred: Seq<char>)
    ensures
        device_candidates(preferred)[0] == preferred,
        forall|i: int|
            1 <= i < device_candidates(preferred).len() ==> #[trigger] device_candidates(
                preferred,
            )[i] != device_candidates(preferred)[i - 1],
{
    reveal_strlit("default");
    reveal_strlit("sysdefault");
    reveal_strlit("plughw:1,0");
    reveal_strlit("hw:1,0");
    reveal_strlit("plughw:0,0");
    reveal_strlit("hw:0,0");
    let usual = usual_devices();
    assert(usual[0].len() == 7);
    assert(usual[1].len() == 10);
    assert(usual[2].len() == 10);
    assert(usual[1][0] == 's');
    assert(usual[2][0] == 'p');
    assert(usual[3].len() == 6);
    assert(usual[4].len() == 10);
    assert(usual[5].len() == 6);
    assert forall|i: int| 1 <= i < usual.len() implies #[trigger] usual[i] != usual[i - 1] by {
        if i == 2 {
            assert(usual[2][0] != usual[1][0]);
        }
    }
    if preferred != "default"@ {
        let devices = device_candidates(preferred);
        assert forall|i: int| 1 <= i < devices.len() implies #[trigger] devices[i] != devices[i
            - 1] by {
            if i > 1 {
                assert(devices[i] == usual[i - 1]);
                assert(devices[i - 1] == usual[i - 2]);
            }
        }
    }
}

/// The position of the first success from `from` on.
pub open spec fn first_success(outcomes: Seq<bool>, from: int) -> Option<int>
    decreases outcomes.len() - from,
{
    if from < 0 || from >= outcomes.len() {
        None
    } else if outcomes[from] {
        Some(from)
    } else {
        first_success(outcomes, from + 1)
    }
}

/// What to do in the search for a device.
#[derive(Debug)]
pub enum DeviceStep {
    /// Run the program that tries the next device, and search on with its outcome.
    Probe(CommandLine),
    /// Record from this device.
    Selected(String),
    /// No device can be recorded from.
    NotFound,
}

/// Whether `step` is what to do when the devices have been tried in order with these
/// outcomes: the first one that could be recorded from is taken, and otherwise the
/// next one is tried, as long as there is one.
pub open spec fn searches(
    preferred: Seq<char>,
    sample_rate: u32,
    outcomes: Seq<bool>,
    step: DeviceStep,
) -> bool {
    let devices = device_candidates(preferred);
    match first_success(outcomes, 0) {
        Some(k) => if k < devices.len() {
            step matches DeviceStep::Selected(device) && device@ == devices[k]
        } else {
            step is NotFound
        },
        None => if outcomes.len() < devices.len() {
            &&& step matches DeviceStep::Probe(command)
            &&& is_command(
                command,
                "arecord"@,
                probe_args(devices[outcomes.len() as int], sample_rate),
            )
        } else {
            step is NotFound
        },
    }
}

/// Decides what to do in the search for a device to record from, given whether the
/// devices that were tried so far, in order, could be recorded from. The search
/// begins with no outcomes.
pub fn select_alsa_device(preferred: &str, sample_rate: u32, outcomes: &[bool]) -> (step:
    DeviceStep)
    ensures
        searches(preferred@, sample_rate, outcomes@, step),
{
    let list = alsa_candidates(preferred);
    let ghost devices = device_candidates(preferred@);
    assert(list@.len() == devices.len());
    for i in 0..outcomes.len()
        invariant
            devices == texts(list@),
            devices == device_candidates(preferred@),
            first_success(outcomes@, 0) == first_success(outcomes@, i as int),
    {
        if outcomes[i] {
            if i < list.len() {
                assert(devices[i as int] == list@[i as int]@);
                return DeviceStep::Selected(list[i].clone());
            }
            return DeviceStep::NotFound;
        }
    }
    let n: usize = outcomes.len();
    if n < list.len() {
        assert(devices[n as int] == list@[n as int]@);
        DeviceStep::Probe(probe_command(list[n].as_str(), sample_rate))
    } else {
        DeviceStep::NotFound
    }
}

proof fn lemma_first_success(outcomes: Seq<bool>, from: int)
    requires
        0 <= from,
    ensures
        match first_success(outcomes, from) {
            Some(k) => {
                &&& from <= k < outcomes.len()
                &&& outcomes[k]
                &&& forall|j: int| from <= j < k ==> !#[trigger] outcomes[j]
            },
            None => forall|j: int| from <= j < outcomes.len() ==> !#[trigger] outcomes[j],
        },
    decreases outcomes.len() - from,
{
    if from < outcomes.len() && !outcomes[from] {
        lemma_first_success(outcomes, from + 1);
    }
}

/// The search takes the first device that can be recorded from, and fails only if
/// none can; a device is tried only after all before it turned out not to be usable,
/// and none is tried once a usable one was found.
pub proof fn law_first_usable_device(
    preferred: Seq<char>,
    sample_rate: u32,
    usable: spec_fn(Seq<char>) -> bool,
    outcomes: Seq<bool>,
    step: DeviceStep,
)
    requires
        searches(preferred, sample_rate, outcomes, step),
        outcomes.len() <= device_candidates(preferred).len(),
        forall|i: int|
            0 <= i < outcomes.len() ==> #[trigger] outcomes[i] == usable(
                device_candidates(preferred)[i],
            ),
    ensures
        ({
            let devices = device_candidates(preferred);
            match step {
                DeviceStep::Selected(device) => exists|k: int|
                    {
                        &&& 0 <= k < devices.len()
                        &&& device@ == #[trigger] devices[k]
                        &&& usable(devices[k])
                        &&& forall|j: int| 0 <= j < k ==> !usable(#[trigger] devices[j])
                    },
                DeviceStep::NotFound => forall|j: int|
                    0 <= j < devices.len() ==> !usable(#[trigger] devices[j]),
                DeviceStep::Probe(command) => {
                    &&& outcomes.len() < devices.len()
                    &&& is_command(
                        command,
                        "arecord"@,
                        probe_args(devices[outcomes.len() as int], sample_rate),
                    )
                    &&& forall|j: int| 0 <= j < outcomes.len() ==> !usable(#[trigger] devices[j])
                },
            }
        }),
{
    let devices = device_candidates(preferred);
    lemma_first_success(outcomes, 0);
    match first_success(outcomes, 0) {
        Some(k) => {
            assert forall|j: int| 0 <= j < k implies !usable(#[trigger] devices[j]) by {
                assert(!outcomes[j]);
            }
            assert(usable(devices[k]));
        },
        None => {
            assert forall|j: int| 0 <= j < outcomes.len() implies !usable(
                #[trigger] devices[j],
            ) by {
                assert(!outcomes[j]);
            }
        },
    }
}

} // verus!
