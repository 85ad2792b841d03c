//! What holds of the listening loop over several steps.
use vstd::prelude::*;

use crate::clock::millis_to_nanos;
use crate::dialog::DialogState;
use crate::listener::{
    checks, hears_audio, hears_complete, hears_partial, opens, routes, sample_value, samples_of,
    AnswerTurn, AudioEvent, AudioStep, ListenerState, Route, WakeReport,
};
use crate::settings::WakeSettings;
use crate::speech::{cooled_down, SpeechError};
use crate::text::{folded, normalized, split_words, trimmed};
use crate::text_laws::law_trimming;
use crate::wake_laws::{
    law_only_normal_form_matters, law_recognition, near_phrase, near_word, stands_in,
};
use crate::wakeword::{reports, wake_match};

verus! {

/// Something that happens in the listening loop.
pub enum Happening {
    /// A chunk of sound is heard.
    Chunk,
    /// An utterance is complete.
    Complete { heard: Seq<Seq<char>>, now: int },
    /// An utterance was heard in part.
    Partial { partial: Seq<char>, now: int },
    /// An acknowledgement or an answer was spoken, or could not be.
    Speech { outcome: Result<(), SpeechError>, now: int },
}

/// The state after one thing has happened.
pub open spec fn after_happening(state: ListenerState, happening: Happening) -> ListenerState {
    match happening {
        Happening::Chunk => ListenerState { chunks: state.chunks + 1, ..state },
        Happening::Complete { heard, now } => state.after(state.first_wake(heard, 0), now),
        Happening::Partial { partial, now } => state.noting(partial).after(
            state.partial_wake(partial),
            now,
        ),
        Happening::Speech { outcome, now } => state.after_speech(outcome, now),
    }
}

/// The state after several things have happened, one after the other.
pub open spec fn after_all(state: ListenerState, happenings: Seq<Happening>) -> ListenerState
    decreases happenings.len(),
{
    if happenings.len() == 0 {
        state
    } else {
        after_happening(after_all(state, happenings.drop_last()), happenings.last())
    }
}

/// Whether nothing is spoken before `start`.
pub open spec fn speaks_from(happenings: Seq<Happening>, start: int) -> bool {
    forall|i: int|
        0 <= i < happenings.len() ==> (#[trigger] happenings[i] matches Happening::Speech {
            outcome: Ok(_),
            now,
        } ==> start <= now)
}

proof fn lemma_wake_cooldown_is_kept(state: ListenerState, first: int, happenings: Seq<Happening>)
    requires
        state.last_wake matches Some(last) && first <= last,
        state.wake_cooldown_ms > 0,
    ensures
        after_all(state, happenings).last_wake matches Some(last) && first <= last,
        after_all(state, happenings).wake_cooldown_ms == state.wake_cooldown_ms,
    decreases happenings.len(),
{
    if happenings.len() > 0 {
        lemma_wake_cooldown_is_kept(state, first, happenings.drop_last());
    }
}

proof fn lemma_speech_cooldown_is_kept(
    state: ListenerState,
    first: int,
    happenings: Seq<Happening>,
)
    requires
        state.last_tts matches Some(last) && first <= last,
        speaks_from(happenings, first),
    ensures
        after_all(state, happenings).last_tts matches Some(last) && first <= last,
        after_all(state, happenings).tts_cooldown_ms == state.tts_cooldown_ms,
    decreases happenings.len(),
{
    if happenings.len() > 0 {
        let earlier = happenings.drop_last();
        assert forall|i: int| 0 <= i < earlier.len() implies (
        #[trigger] earlier[i] matches Happening::Speech { outcome: Ok(_), now } ==> first
            <= now) by {
            assert(earlier[i] == happenings[i]);
        }
        lemma_speech_cooldown_is_kept(state, first, earlier);
        assert(happenings.last() == happenings[happenings.len() - 1]);
    }
}

/// Two recognitions that count are at least the cooldown of the wake word apart,
/// whatever is heard or spoken between them.
pub proof fn law_wake_cooldown(
    state: ListenerState,
    wake: Seq<char>,
    first: int,
    happenings: Seq<Happening>,
    second: int,
)
    requires
        first <= second || state.wake_cooldown_ms > 0,
        state.accepts_at(first),
        after_all(state.after(Some(wake), first), happenings).accepts_at(second),
    ensures
        second >= first + millis_to_nanos(state.wake_cooldown_ms),
{
    if state.wake_cooldown_ms > 0 {
        lemma_wake_cooldown_is_kept(state.after(Some(wake), first), first, happenings);
    }
}

/// Once something was spoken, be it an acknowledgement or an answer, neither of them is
/// spoken before the cooldown has passed, whatever happens meanwhile and however often
/// the wake word is recognised.
pub proof fn law_speech_cooldown(
    state: ListenerState,
    spoken: int,
    happenings: Seq<Happening>,
    wake: Option<Seq<char>>,
    now: int,
    report: WakeReport,
)
    requires
        spoken <= now || state.tts_cooldown_ms > 0,
        speaks_from(happenings, spoken),
        ({
            let later = after_all(state.after_speech(Ok(()), spoken), happenings);
            ||| later.reacts(wake, now, report) && report.acknowledge is Speak
            ||| later.answer_turn(true, now) is Speak
        }),
    ensures
        now >= spoken + millis_to_nanos(state.tts_cooldown_ms),
{
    lemma_speech_cooldown_is_kept(state.after_speech(Ok(()), spoken), spoken, happenings);
}

/// An answer is put off exactly as long as an acknowledgement would be left out, and
/// where speech is off it is never put off.
pub proof fn law_answers_obey_the_cooldown(state: ListenerState, now: int)
    ensures
        state.answer_turn(true, now) is Speak <==> cooled_down(
            state.last_tts,
            now,
            state.tts_cooldown_ms,
        ),
        state.answer_turn(false, now) is Speak,
        state.tts_cooldown_ms > 0 ==> (state.last_tts matches Some(last) ==> now <= last
            ==> state.answer_turn(true, now) == AnswerTurn::RetryAfter(state.tts_cooldown_ms)),
{
}

/// An answer that is put off is spoken in the end: after the wait it may be spoken, and
/// one millisecond before the end of the wait it may not.
pub proof fn law_waiting_is_enough(state: ListenerState, now: int, wait_ms: u64)
    requires
        state.last_tts matches Some(last) && last <= now,
        state.answer_turn(true, now) == AnswerTurn::RetryAfter(wait_ms),
    ensures
        state.answer_turn(true, now + millis_to_nanos(wait_ms)) is Speak,
        state.answer_turn(true, now + millis_to_nanos((wait_ms - 1) as u64)) is RetryAfter,
{
}

/// Without a cooldown of the wake word every recognition counts.
pub proof fn law_no_wake_cooldown(state: ListenerState, now: int)
    requires
        state.wake_cooldown_ms == 0,
    ensures
        state.accepts_at(now),
{
}

/// A recognition that comes too early is passed over: nothing is reported, and
/// nothing changes.
pub proof fn law_early_recognition_is_passed_over(
    state: ListenerState,
    wake: Option<Seq<char>>,
    now: int,
    report: WakeReport,
)
    requires
        !state.accepts_at(now),
        state.reacts(wake, now, report),
    ensures
        report.hit is None,
        report.acknowledge is NotDue,
        state.after(wake, now) == state,
{
}

/// Speech that failed starts no cooldown: what is due afterwards is what was due
/// without it, and an answer may be spoken when it might have been.
pub proof fn law_failed_speech(
    state: ListenerState,
    error: SpeechError,
    failed: int,
    wake: Option<Seq<char>>,
    now: int,
    report: WakeReport,
)
    ensures
        state.after_speech(Err(error), failed) == state,
        state.after_speech(Err(error), failed).reacts(wake, now, report) == state.reacts(
            wake,
            now,
            report,
        ),
        state.after_speech(Err(error), failed).answer_turn(true, now) == state.answer_turn(
            true,
            now,
        ),
{
}

/// The two cooldowns do not depend on each other: being silent does not keep a
/// recognition from being reported.
pub proof fn law_cooldowns_are_separate(
    state: ListenerState,
    wake: Seq<char>,
    now: int,
    report: WakeReport,
)
    requires
        state.accepts_at(now),
        state.reacts(Some(wake), now, report),
    ensures
        report.hit is Some,
        report.acknowledge is CoolingDown <==> !cooled_down(
            state.last_tts,
            now,
            state.tts_cooldown_ms,
        ),
{
}

/// If one of the versions of an utterance stands for the wake word, the wake word
/// is recognised in it.
pub proof fn law_some_version_is_enough(
    state: ListenerState,
    heard: Seq<Seq<char>>,
    from: int,
    k: int,
)
    requires
        0 <= from <= k < heard.len(),
        trimmed(heard[k]).len() > 0,
        state.match_of(trimmed(heard[k])) is Some,
    ensures
        state.first_wake(heard, from) is Some,
    decreases k - from,
{
    if from < k {
        law_some_version_is_enough(state, heard, from + 1, k);
    }
}

/// The wake word is recognised in an utterance exactly when the last version that
/// was looked at stands for it, and then that version is the one that counts.
pub proof fn law_looked_at_ends_with_wake_word(
    state: ListenerState,
    heard: Seq<Seq<char>>,
    from: int,
)
    requires
        0 <= from,
    ensures
        match state.first_wake(heard, from) {
            Some(text) => {
                let seen = state.looked_at(heard, from);
                &&& seen.len() > 0
                &&& seen.last() == (text, normalized(text), true)
                &&& forall|i: int| 0 <= i < seen.len() - 1 ==> !(#[trigger] seen[i]).2
            },
            None => forall|i: int|
                0 <= i < state.looked_at(heard, from).len() ==> !(#[trigger] state.looked_at(
                    heard,
                    from,
                )[i]).2,
        },
    decreases heard.len() - from,
{
    if from < heard.len() {
        law_looked_at_ends_with_wake_word(state, heard, from + 1);
        let text = trimmed(heard[from]);
        if text.len() > 0 && state.match_of(text) is None {
            let rest = state.looked_at(heard, from + 1);
            let seen = state.looked_at(heard, from);
            if state.first_wake(heard, from) is Some {
                assert(seen.last() == rest.last());
                assert forall|i: int| 0 <= i < seen.len() - 1 implies !(#[trigger] seen[i]).2 by {
                    if i > 0 {
                        assert(seen[i] == rest[i - 1]);
                    }
                }
            } else {
                assert forall|i: int| 0 <= i < seen.len() implies !(#[trigger] seen[i]).2 by {
                    if i > 0 {
                        assert(seen[i] == rest[i - 1]);
                    }
                }
            }
        }
    }
}

/// White space around what was heard does not matter.
pub proof fn law_heard_white_space(state: ListenerState, text: Seq<char>)
    ensures
        state.match_of(trimmed(text)) == state.match_of(text),
{
    law_trimming(text);
    law_only_normal_form_matters(text, state.variants, state.fuzzy_distance);
    law_only_normal_form_matters(trimmed(text), state.variants, state.fuzzy_distance);
}

/// The low and the high byte of a sample.
pub open spec fn sample_bytes(sample: i16) -> (u8, u8) {
    let n = if sample < 0 {
        sample + 0x1_0000
    } else {
        sample as int
    };
    ((n % 256) as u8, (n / 256) as u8)
}

/// Samples, written as bytes and read again, are what they were.
pub proof fn law_samples_read_back(samples: Seq<i16>)
    ensures
        samples_of(bytes_of(samples)) == samples.map_values(|s: i16| s as int),
{
    let bytes = bytes_of(samples);
    assert forall|i: int| 0 <= i < samples.len() implies sample_value(
        #[trigger] bytes[2 * i],
        bytes[2 * i + 1],
    ) == samples[i] by {
        assert((2 * i) / 2 == i);
        assert((2 * i + 1) / 2 == i);
        lemma_sample_reads_back(samples[i]);
    }
    assert(samples_of(bytes) =~= samples.map_values(|s: i16| s as int));
}

/// The bytes of samples, the low byte of each first.
pub open spec fn bytes_of(samples: Seq<i16>) -> Seq<u8> {
    Seq::new(
        samples.len() * 2,
        |k: int|
            if k % 2 == 0 {
                sample_bytes(samples[k / 2]).0
            } else {
                sample_bytes(samples[k / 2]).1
            },
    )
}

proof fn lemma_sample_reads_back(sample: i16)
    ensures
        sample_value(sample_bytes(sample).0, sample_bytes(sample).1) == sample,
{
}

/// What the recorder delivers is read two bytes at a time, the low one first: each sample
/// differs from the number of its two bytes by a multiple of all such numbers. A byte that
/// is left over counts for nothing. Every chunk is counted, and every twenty-fifth is
/// reported if details are wanted. The end of the recording ends the loop, and after a
/// failure it goes on a tenth of a second later.
pub proof fn law_recorded_sound(
    before: ListenerState,
    event: AudioEvent,
    step: AudioStep,
    after: ListenerState,
)
    requires
        hears_audio(before, event, step, after),
        before.chunks < u64::MAX,
    ensures
        event is Failed ==> step == AudioStep::RetryAfter(100) && after == before,
        event matches AudioEvent::Data(bytes) ==> {
            &&& bytes@.len() == 0 ==> step is Stop && after == before
            &&& bytes@.len() > 0 ==> {
                &&& step matches AudioStep::Recognize { samples, report }
                &&& samples@.len() == bytes@.len() / 2
                &&& forall|i: int|
                    0 <= i < samples@.len() ==> (#[trigger] samples@[i] - bytes@[2 * i] - 256
                        * bytes@[2 * i + 1]) % 65536 == 0
                &&& after == (ListenerState { chunks: before.chunks + 1, ..before })
                &&& report is Some <==> before.debug && after.chunks % 25 == 0
                &&& report matches Some(n) ==> n == after.chunks
            }
        },
{
    if let AudioEvent::Data(bytes) = event {
        if bytes@.len() > 0 {
            let samples = step->samples;
            let values = samples@.map_values(|s: i16| s as int);
            let expected = samples_of(bytes@);
            assert(values.len() == samples@.len());
            assert forall|i: int| 0 <= i < samples@.len() implies (#[trigger] samples@[i]
                - bytes@[2 * i] - 256 * bytes@[2 * i + 1]) % 65536 == 0 by {
                assert(values[i] == samples@[i]);
                assert(expected[i] == sample_value(bytes@[2 * i], bytes@[2 * i + 1]));
            }
        }
    }
}

/// Whether at least as many milliseconds have passed since something happened, if it ever
/// did.
pub open spec fn is_over(last: Option<int>, cooldown_ms: u64, now: int) -> bool {
    cooldown_ms > 0 ==> (last matches Some(since) ==> now - since >= cooldown_ms as int * 1_000_000)
}

/// Whether a text stands for the wake word.
pub open spec fn stands_for_wake_word(state: ListenerState, text: Seq<char>) -> bool {
    wake_match(text, state.variants, state.fuzzy_distance) is Some
}

/// Whether a text is the first of several that stands for the wake word.
pub open spec fn first_standing(state: ListenerState, heard: Seq<Seq<char>>, k: int) -> bool {
    &&& 0 <= k < heard.len()
    &&& stands_for_wake_word(state, heard[k])
    &&& forall|j: int| 0 <= j < k ==> !stands_for_wake_word(state, #[trigger] heard[j])
}

proof fn lemma_standing(state: ListenerState, text: Seq<char>)
    ensures
        stands_for_wake_word(state, text) <==> trimmed(text).len() > 0 && state.match_of(
            trimmed(text),
        ) is Some,
{
    law_heard_white_space(state, text);
    if trimmed(text).len() == 0 {
        law_trimming(text);
        assert(folded(trimmed(text)) =~= Seq::<char>::empty());
        assert(split_words(folded(trimmed(text))).len() == 0);
    }
}

proof fn lemma_first_wake(state: ListenerState, heard: Seq<Seq<char>>, from: int)
    requires
        0 <= from <= heard.len(),
        forall|j: int| 0 <= j < from ==> !stands_for_wake_word(state, #[trigger] heard[j]),
    ensures
        match state.first_wake(heard, from) {
            Some(text) => exists|k: int| #[trigger]
                first_standing(state, heard, k) && text == trimmed(heard[k]),
            None => forall|j: int|
                0 <= j < heard.len() ==> !stands_for_wake_word(state, #[trigger] heard[j]),
        },
    decreases heard.len() - from,
{
    if from < heard.len() {
        lemma_standing(state, heard[from]);
        if stands_for_wake_word(state, heard[from]) {
            assert(first_standing(state, heard, from));
        } else {
            lemma_first_wake(state, heard, from + 1);
        }
    }
}

/// What a report says to do, and the state after it: nothing unless the wake word was heard
/// and its cooldown is over. Then it is reported, and acknowledged exactly if the cooldown
/// of speech is over too. Only the time of the recognition is noted.
pub open spec fn answers_wake_word(
    before: ListenerState,
    heard: bool,
    now: int,
    report: WakeReport,
    after: ListenerState,
) -> bool {
    let counts = heard && is_over(before.last_wake, before.wake_cooldown_ms, now);
    let speaks = is_over(before.last_tts, before.tts_cooldown_ms, now);
    &&& report.hit is Some <==> counts
    &&& report.acknowledge is Speak <==> counts && speaks
    &&& report.acknowledge is CoolingDown <==> counts && !speaks
    &&& after.last_wake == if counts {
        Some(now)
    } else {
        before.last_wake
    }
    &&& after.last_tts == before.last_tts
    &&& after.chunks == before.chunks
    &&& after.variants == before.variants
    &&& after.fuzzy_distance == before.fuzzy_distance
    &&& after.debug == before.debug
    &&& after.wake_cooldown_ms == before.wake_cooldown_ms
    &&& after.tts_cooldown_ms == before.tts_cooldown_ms
}

/// The wake word counts in a finished utterance exactly when one of its versions stands for
/// it, whichever, and the cooldown is over. The first such version is reported, without
/// white space around it, with the variant that it stands for.
pub proof fn law_finished_utterance(
    before: ListenerState,
    heard: Seq<Seq<char>>,
    now: int,
    report: WakeReport,
    after: ListenerState,
)
    requires
        hears_complete(before, heard, now, report, after),
    ensures
        answers_wake_word(
            before,
            exists|k: int|
                0 <= k < heard.len() && stands_for_wake_word(before, #[trigger] heard[k]),
            now,
            report,
            after,
        ),
        after.last_partial == before.last_partial,
        report.hit matches Some(hit) ==> exists|k: int|
            {
                &&& #[trigger] first_standing(before, heard, k)
                &&& hit.text@ == trimmed(heard[k])
                &&& reports(
                    Some(hit.info),
                    wake_match(heard[k], before.variants, before.fuzzy_distance),
                    before.variants,
                )
            },
{
    lemma_first_wake(before, heard, 0);
    match before.first_wake(heard, 0) {
        Some(text) => {
            let k = choose|k: int| #[trigger]
                first_standing(before, heard, k) && text == trimmed(heard[k]);
            assert(stands_for_wake_word(before, heard[k]));
            law_heard_white_space(before, heard[k]);
        },
        None => {},
    }
}

proof fn lemma_looked_at(state: ListenerState, heard: Seq<Seq<char>>, from: int, upto: int)
    requires
        0 <= from <= upto <= heard.len(),
        forall|j: int| from <= j < upto - 1 ==> !stands_for_wake_word(state, #[trigger] heard[j]),
        upto < heard.len() ==> from < upto && stands_for_wake_word(state, heard[upto - 1]),
    ensures
        state.looked_at(heard, from) == heard.subrange(from, upto).filter(
            |t: Seq<char>| trimmed(t).len() > 0,
        ).map_values(
            |t: Seq<char>| (trimmed(t), normalized(t), stands_for_wake_word(state, t)),
        ),
    decreases heard.len() - from,
{
    let filled = |t: Seq<char>| trimmed(t).len() > 0;
    let entry = |t: Seq<char>| (trimmed(t), normalized(t), stands_for_wake_word(state, t));
    let part = heard.subrange(from, upto);
    if from == upto {
        reveal(Seq::filter);
        assert(part.filter(filled).map_values(entry) =~= Seq::empty());
    } else {
        let text = heard[from];
        let one = seq![text];
        let rest = heard.subrange(from + 1, upto);
        assert(part =~= one + rest);
        Seq::filter_distributes_over_add(one, rest, filled);
        assert(one.filter(filled) =~= if filled(text) {
            one
        } else {
            Seq::empty()
        }) by {
            reveal(Seq::filter);
            assert(one.drop_last() =~= Seq::<Seq<char>>::empty());
            assert(one.drop_last().filter(filled) =~= Seq::<Seq<char>>::empty());
            assert(one.last() == text);
        }
        assert(part.filter(filled).map_values(entry) =~= one.filter(filled).map_values(entry)
            + rest.filter(filled).map_values(entry));
        lemma_standing(state, text);
        law_trimming(text);
        if stands_for_wake_word(state, text) {
            assert(from == upto - 1);
            assert(rest =~= Seq::<Seq<char>>::empty());
            assert(rest.filter(filled).map_values(entry) =~= Seq::empty()) by {
                reveal(Seq::filter);
            }
            assert(state.looked_at(heard, from) =~= part.filter(filled).map_values(entry));
        } else {
            lemma_looked_at(state, heard, from + 1, upto);
            assert(state.looked_at(heard, from) =~= part.filter(filled).map_values(entry));
        }
    }
}

/// Looked at are, in order, all versions of a finished utterance that are more than white
/// space, up to the first that stands for the wake word; each with its normal form and with
/// whether it stands for it.
pub proof fn law_what_is_looked_at(
    before: ListenerState,
    heard: Seq<Seq<char>>,
    now: int,
    report: WakeReport,
    after: ListenerState,
    upto: int,
)
    requires
        hears_complete(before, heard, now, report, after),
        first_standing(before, heard, upto - 1) || upto == heard.len() && forall|j: int|
            0 <= j < heard.len() ==> !stands_for_wake_word(before, #[trigger] heard[j]),
    ensures
        checks(report.checked@) == heard.take(upto).filter(
            |t: Seq<char>| trimmed(t).len() > 0,
        ).map_values(
            |t: Seq<char>| (trimmed(t), normalized(t), stands_for_wake_word(before, t)),
        ),
{
    lemma_looked_at(before, heard, 0, upto);
    assert(heard.subrange(0, upto) =~= heard.take(upto));
}

/// The wake word counts in a partial utterance exactly when it stands for it and the
/// cooldown is over. Where details are wanted, an utterance that is more than white space
/// is looked at and remembered unless it is the one that was looked at last.
pub proof fn law_partial_utterance(
    before: ListenerState,
    partial: Seq<char>,
    now: int,
    report: WakeReport,
    after: ListenerState,
)
    requires
        hears_partial(before, partial, now, report, after),
    ensures
        answers_wake_word(before, stands_for_wake_word(before, partial), now, report, after),
        report.hit matches Some(hit) ==> {
            &&& hit.text@ == trimmed(partial)
            &&& reports(
                Some(hit.info),
                wake_match(partial, before.variants, before.fuzzy_distance),
                before.variants,
            )
        },
        ({
            let news = before.debug && trimmed(partial).len() > 0 && trimmed(partial)
                != before.last_partial;
            &&& news ==> after.last_partial == trimmed(partial) && checks(report.checked@)
                == seq![
                (trimmed(partial), normalized(partial), stands_for_wake_word(before, partial)),
            ]
            &&& !news ==> after.last_partial == before.last_partial && report.checked@.len() == 0
        }),
{
    lemma_standing(before, partial);
    law_heard_white_space(before, partial);
    law_trimming(partial);
    assert(checks(report.checked@).len() == report.checked@.len());
}

/// A heard word that is close enough to a variant of one word stands for the wake word,
/// wherever it stands in the text; so does a text that holds a variant.
pub proof fn law_what_stands_for_the_wake_word(
    state: ListenerState,
    text: Seq<char>,
    j: int,
)
    requires
        0 <= j < state.variants.len(),
        normalized(text).len() > 0,
        stands_in(state.variants[j], normalized(text)) || near_word(
            split_words(normalized(text)),
            state.variants[j],
            state.fuzzy_distance,
        ) || near_phrase(
            split_words(normalized(text)),
            state.variants[j],
            state.fuzzy_distance,
        ),
    ensures
        stands_for_wake_word(state, text),
{
    if !stands_for_wake_word(state, text) {
        law_recognition(text, state.variants, state.fuzzy_distance, None);
    }
}

/// What was spoken is noted with its time, and nothing else changes; what was not changes
/// nothing.
pub proof fn law_speech_is_noted(
    state: ListenerState,
    outcome: Result<(), SpeechError>,
    now: int,
)
    ensures
        outcome is Ok ==> state.after_speech(outcome, now) == (ListenerState {
            last_tts: Some(now),
            ..state
        }),
        outcome is Err ==> state.after_speech(outcome, now) == state,
{
}

/// The listening loop begins with the settings as they are, and with nothing heard or
/// spoken: the first recognition counts and is acknowledged.
pub proof fn law_first_recognition(settings: WakeSettings, tts_cooldown_ms: u64, now: int)
    ensures
        ({
            let state = ListenerState::initial(settings, tts_cooldown_ms);
            &&& state.variants.len() == settings.variants@.len()
            &&& forall|i: int|
                0 <= i < settings.variants@.len() ==> #[trigger] state.variants[i]
                    == settings.variants@[i]@
            &&& state.fuzzy_distance == settings.fuzzy_distance
            &&& state.debug == settings.debug
            &&& state.wake_cooldown_ms == settings.cooldown_ms
            &&& state.tts_cooldown_ms == tts_cooldown_ms
            &&& state.chunks == 0
            &&& state.last_partial.len() == 0
            &&& is_over(state.last_wake, state.wake_cooldown_ms, now)
            &&& is_over(state.last_tts, state.tts_cooldown_ms, now)
        }),
{
}

/// Speech belongs to the dialog exactly while it is active; once its window has closed,
/// and only then, the dialog is ended.
pub proof fn law_where_speech_goes(
    before: DialogState,
    now: int,
    route: Route,
    after: DialogState,
)
    requires
        routes(before, now, route, after),
    ensures
        route is Dialog <==> before.chat_mode || (before.window_since matches Some(since) && now
            - since <= before.cfg.question_window_ms as int * 1_000_000),
        route is Dialog ==> after == before,
        route is Wake ==> after.window_since is None,
        route is Wake && before.window_since is Some ==> {
            &&& !after.chat_mode
            &&& after.history.len() == 0
            &&& after.last_partial.len() == 0
            &&& after.cfg == before.cfg
        },
        before.window_since is None ==> after == before,
{
}

/// A recognition opens the question window exactly where there are conversations at all:
/// from then on, for as long as the settings say, speech belongs to the dialog.
pub proof fn law_recognition_opens_window(
    before: DialogState,
    report: WakeReport,
    now: int,
    opened: bool,
    after: DialogState,
    later: int,
)
    requires
        opens(before, report, now, opened, after),
    ensures
        opened <==> report.hit is Some && before.cfg.enabled,
        !opened ==> after == before,
        opened ==> {
            &&& !after.chat_mode
            &&& after.history.len() == 0
            &&& after.last_partial.len() == 0
            &&& after.cfg == before.cfg
            &&& after.active_at(later) <==> later - now <= before.cfg.question_window_ms as int
                * 1_000_000
        },
{
}

} // verus!
