//! The listening loop: what to do about recorded sound, and about what the
//! recogniser hears in it.
use std::time::Instant;
use vstd::prelude::*;

use crate::clock::instant_nanos;
use crate::dialog::{DialogManager, DialogState};
use crate::settings::WakeSettings;
use crate::speech::{
    cooldown_left, cooldown_left_of, cooled_down, instant_of, is_cooled_down, SpeechError,
};
use crate::text::{copied_texts, normalize_text, normalized, same_text, texts, trim, trimmed};
use crate::wakeword::{detect_wake_word, reports, wake_match, MatchInfo, MatchMethod};

verus! {

/// The 16-bit sample that two bytes stand for, the low byte first.
pub open spec fn sample_value(low: u8, high: u8) -> int {
    let n = low + high * 256;
    if n >= 0x8000 {
        n - 0x1_0000
    } else {
        n
    }
}

/// The samples that bytes stand for; a single byte at the end counts for nothing.
pub open spec fn samples_of(bytes: Seq<u8>) -> Seq<int> {
    Seq::new(bytes.len() / 2, |i: int| sample_value(bytes[2 * i], bytes[2 * i + 1]))
}

/// The samples that bytes stand for.
pub fn decode_samples(bytes: &[u8]) -> (samples: Vec<i16>)
    ensures
        samples@.map_values(|s: i16| s as int) == samples_of(bytes@),
{
    let mut samples: Vec<i16> = Vec::new();
    let n: usize = bytes.len();
    let mut i: usize = 0;
    while i + 1 < n
        invariant
            n == bytes@.len(),
            i <= n,
            i % 2 == 0,
            samples@.len() == i / 2,
            forall|k: int|
                0 <= k < samples@.len() ==> #[trigger] samples@[k] == sample_value(
                    bytes@[2 * k],
                    bytes@[2 * k + 1],
                ),
        decreases n - i,
    {
        let value: i32 = bytes[i] as i32 + bytes[i + 1] as i32 * 256;
        let sample: i16 = if value >= 0x8000 {
            (value - 0x1_0000) as i16
        } else {
            value as i16
        };
        samples.push(sample);
        i += 2;
    }
    assert(samples@.map_values(|s: i16| s as int) =~= samples_of(bytes@));
    samples
}

/// What the recorder delivered.
#[derive(Debug)]
pub enum AudioEvent {
    /// Bytes; none of them at the end of the recording.
    Data(Vec<u8>),
    /// A failure.
    Failed,
}

/// What to do about it.
#[derive(Debug)]
pub enum AudioStep {
    /// Stop listening.
    Stop,
    /// Wait some milliseconds, and go on.
    RetryAfter(u64),
    /// Hand the samples to the recogniser, and report on the chunk with the number
    /// that is given, if one is.
    Recognize { samples: Vec<i16>, report: Option<u64> },
}

/// How long to wait after a failure of the recorder, in milliseconds.
pub const RETRY_MS: u64 = 100;

/// How many chunks make up for one report.
pub const REPORT_EVERY: u64 = 25;

/// What was heard and looked at.
#[derive(Debug)]
pub struct CheckedText {
    /// What was heard, without white space around it.
    pub text: String,
    /// Its normal form.
    pub normalized: String,
    /// Whether it stands for the wake word.
    pub matched: bool,
}

/// Whether to acknowledge the wake word.
#[derive(Debug)]
pub enum Acknowledgement {
    /// There is nothing to acknowledge.
    NotDue,
    /// Speak.
    Speak,
    /// Be silent: something was said a moment ago.
    CoolingDown,
}

/// Whether to speak an answer.
#[derive(Debug)]
pub enum AnswerTurn {
    /// Speak; where speech is switched off, nothing is to be waited for.
    Speak,
    /// Wait some milliseconds, and ask again: something was said a moment ago.
    RetryAfter(u64),
}

/// A recognised wake word.
#[derive(Debug)]
pub struct WakeHit {
    /// The variant, and how it was recognised.
    pub info: MatchInfo,
    /// What was heard.
    pub text: String,
}

/// What to do about what was heard.
#[derive(Debug)]
pub struct WakeReport {
    /// What was heard and looked at, for a detailed report.
    pub checked: Vec<CheckedText>,
    /// The wake word, if it was recognised, and not just a moment after another
    /// recognition.
    pub hit: Option<WakeHit>,
    /// Whether to acknowledge it.
    pub acknowledge: Acknowledgement,
}

/// What was heard, and whether it stands for the wake word.
pub open spec fn checks(list: Seq<CheckedText>) -> Seq<(Seq<char>, Seq<char>, bool)> {
    list.map_values(|c: CheckedText| (c.text@, c.normalized@, c.matched))
}

/// The state of the listening loop.
pub struct ListenerState {
    /// The variants of the wake word.
    pub variants: Seq<Seq<char>>,
    /// How many edits away from a variant a heard word may be.
    pub fuzzy_distance: nat,
    /// Whether details are reported.
    pub debug: bool,
    /// How long after a recognition further ones are passed over.
    pub wake_cooldown_ms: u64,
    /// How long to be silent between two outputs of speech.
    pub tts_cooldown_ms: u64,
    /// How many chunks of sound were heard.
    pub chunks: nat,
    /// The last partial utterance that was reported.
    pub last_partial: Seq<char>,
    /// When the wake word was last recognised.
    pub last_wake: Option<int>,
    /// When something was last spoken: an acknowledgement or an answer.
    pub last_tts: Option<int>,
}

impl ListenerState {
    /// Nothing was heard yet.
    pub open spec fn initial(settings: WakeSettings, tts_cooldown_ms: u64) -> ListenerState {
        ListenerState {
            variants: texts(settings.variants@),
            fuzzy_distance: settings.fuzzy_distance as nat,
            debug: settings.debug,
            wake_cooldown_ms: settings.cooldown_ms,
            tts_cooldown_ms,
            chunks: 0,
            last_partial: Seq::empty(),
            last_wake: None,
            last_tts: None,
        }
    }

    /// How, if at all, a heard text stands for the wake word.
    pub open spec fn match_of(self, text: Seq<char>) -> Option<(int, MatchMethod)> {
        wake_match(text, self.variants, self.fuzzy_distance)
    }

    /// What is looked at of several texts: those that are more than white space,
    /// up to the first that stands for the wake word.
    pub open spec fn looked_at(self, heard: Seq<Seq<char>>, from: int) -> Seq<
        (Seq<char>, Seq<char>, bool),
    >
        decreases heard.len() - from,
    {
        if from < 0 || from >= heard.len() {
            Seq::empty()
        } else {
            let text = trimmed(heard[from]);
            if text.len() == 0 {
                self.looked_at(heard, from + 1)
            } else if self.match_of(text) is Some {
                seq![(text, normalized(text), true)]
            } else {
                seq![(text, normalized(text), false)] + self.looked_at(heard, from + 1)
            }
        }
    }

    /// The first of several texts that stands for the wake word.
    pub open spec fn first_wake(self, heard: Seq<Seq<char>>, from: int) -> Option<Seq<char>>
        decreases heard.len() - from,
    {
        if from < 0 || from >= heard.len() {
            None
        } else {
            let text = trimmed(heard[from]);
            if text.len() > 0 && self.match_of(text) is Some {
                Some(text)
            } else {
                self.first_wake(heard, from + 1)
            }
        }
    }

    /// Whether a recognition counts: enough time has passed since the last one.
    pub open spec fn accepts_at(self, now: int) -> bool {
        cooled_down(self.last_wake, now, self.wake_cooldown_ms)
    }

    /// The state after the wake word was heard, or not.
    pub open spec fn after(self, wake: Option<Seq<char>>, now: int) -> ListenerState {
        if wake is Some && self.accepts_at(now) {
            ListenerState { last_wake: Some(now), ..self }
        } else {
            self
        }
    }

    /// The text of a partial utterance, if it stands for the wake word.
    pub open spec fn partial_wake(self, partial: Seq<char>) -> Option<Seq<char>> {
        let text = trimmed(partial);
        if text.len() > 0 && self.match_of(text) is Some {
            Some(text)
        } else {
            None
        }
    }

    /// The state after a partial utterance was reported in detail, or not.
    pub open spec fn noting(self, partial: Seq<char>) -> ListenerState {
        if self.reports_partial(partial) {
            ListenerState { last_partial: trimmed(partial), ..self }
        } else {
            self
        }
    }

    /// The state after an acknowledgement or an answer was spoken, or could not be: only
    /// a success starts the cooldown.
    pub open spec fn after_speech(self, outcome: Result<(), SpeechError>, now: int) -> ListenerState {
        if outcome is Ok {
            ListenerState { last_tts: Some(now), ..self }
        } else {
            self
        }
    }

    /// Whether a report says what to do after the wake word was heard, or not.
    pub open spec fn reacts(self, wake: Option<Seq<char>>, now: int, report: WakeReport) -> bool {
        match wake {
            Some(text) if self.accepts_at(now) => {
                &&& report.hit matches Some(hit)
                &&& hit.text@ == text
                &&& reports(Some(hit.info), self.match_of(text), self.variants)
                &&& if cooled_down(self.last_tts, now, self.tts_cooldown_ms) {
                    report.acknowledge is Speak
                } else {
                    report.acknowledge is CoolingDown
                }
            },
            _ => report.hit is None && report.acknowledge is NotDue,
        }
    }

    /// Whether an answer may be spoken: where speech is on, not before its cooldown has
    /// passed.
    pub open spec fn answer_turn(self, speech_on: bool, now: int) -> AnswerTurn {
        let left = cooldown_left(self.last_tts, now, self.tts_cooldown_ms);
        if !speech_on || left == 0 {
            AnswerTurn::Speak
        } else {
            AnswerTurn::RetryAfter(left)
        }
    }

    /// Whether a partial utterance is reported in detail.
    pub open spec fn reports_partial(self, partial: Seq<char>) -> bool {
        self.debug && trimmed(partial).len() > 0 && trimmed(partial) != self.last_partial
    }
}

/// Whether `step` is what to do about what the recorder delivered, and `after` the state
/// that is left behind.
pub open spec fn hears_audio(
    before: ListenerState,
    event: AudioEvent,
    step: AudioStep,
    after: ListenerState,
) -> bool {
    match event {
        AudioEvent::Failed => {
            &&& step matches AudioStep::RetryAfter(millis)
            &&& millis == RETRY_MS
            &&& after == before
        },
        AudioEvent::Data(bytes) => if bytes@.len() == 0 {
            &&& step is Stop
            &&& after == before
        } else {
            let chunks = before.chunks + 1;
            &&& step matches AudioStep::Recognize { samples, report }
            &&& samples@.map_values(|s: i16| s as int) == samples_of(bytes@)
            &&& report == if before.debug && chunks % REPORT_EVERY as nat == 0 {
                Some(chunks as u64)
            } else {
                None
            }
            &&& after == (ListenerState { chunks, ..before })
        },
    }
}

/// Whether `report` says what to do about a finished utterance, of which these versions
/// were heard, and `after` is the state that is left behind.
pub open spec fn hears_complete(
    before: ListenerState,
    heard: Seq<Seq<char>>,
    now: int,
    report: WakeReport,
    after: ListenerState,
) -> bool {
    let wake = before.first_wake(heard, 0);
    &&& checks(report.checked@) == before.looked_at(heard, 0)
    &&& before.reacts(wake, now, report)
    &&& after == before.after(wake, now)
}

/// Whether `report` says what to do about an utterance that was heard in part, and `after`
/// is the state that is left behind.
pub open spec fn hears_partial(
    before: ListenerState,
    partial: Seq<char>,
    now: int,
    report: WakeReport,
    after: ListenerState,
) -> bool {
    let text = trimmed(partial);
    let wake = before.partial_wake(partial);
    &&& checks(report.checked@) == if before.reports_partial(partial) {
        seq![(text, normalized(text), wake is Some)]
    } else {
        Seq::empty()
    }
    &&& before.reacts(wake, now, report)
    &&& after == before.noting(partial).after(wake, now)
}

/// Decides what to do in the listening loop.
#[derive(Debug)]
pub struct WakeListener {
    variants: Vec<String>,
    fuzzy_distance: usize,
    debug: bool,
    wake_cooldown_ms: u64,
    tts_cooldown_ms: u64,
    chunks: u64,
    last_partial: String,
    last_wake: Option<Instant>,
    last_tts: Option<Instant>,
}

impl View for WakeListener {
    type V = ListenerState;

    closed spec fn view(&self) -> ListenerState {
        ListenerState {
            variants: texts(self.variants@),
            fuzzy_distance: self.fuzzy_distance as nat,
            debug: self.debug,
            wake_cooldown_ms: self.wake_cooldown_ms,
            tts_cooldown_ms: self.tts_cooldown_ms,
            chunks: self.chunks as nat,
            last_partial: self.last_partial@,
            last_wake: instant_of(self.last_wake),
            last_tts: instant_of(self.last_tts),
        }
    }
}

impl WakeListener {
    /// Nothing was heard yet.
    pub fn new(settings: &WakeSettings, tts_cooldown_ms: u64) -> (listener: Self)
        ensures
            listener@ == ListenerState::initial(*settings, tts_cooldown_ms),
    {
        let variants = copied_texts(settings.variants.as_slice());
        WakeListener {
            variants,
            fuzzy_distance: settings.fuzzy_distance,
            debug: settings.debug,
            wake_cooldown_ms: settings.cooldown_ms,
            tts_cooldown_ms,
            chunks: 0,
            last_partial: String::new(),
            last_wake: None,
            last_tts: None,
        }
    }

    /// Whether details are reported.
    pub fn debug(&self) -> (debug: bool)
        ensures
            debug == self@.debug,
    {
        self.debug
    }

    /// How many chunks of sound were heard.
    pub fn chunk_count(&self) -> (chunks: u64)
        ensures
            chunks == self@.chunks,
    {
        self.chunks
    }

    /// Decides what to do about what the recorder delivered.
    pub fn on_audio(&mut self, event: AudioEvent) -> (step: AudioStep)
        requires
            event matches AudioEvent::Data(bytes) && bytes@.len() > 0 ==> old(self)@.chunks
                < u64::MAX,
        ensures
            hears_audio(old(self)@, event, step, final(self)@),
    {
        match event {
            AudioEvent::Failed => AudioStep::RetryAfter(RETRY_MS),
            AudioEvent::Data(bytes) => {
                if bytes.len() == 0 {
                    return AudioStep::Stop;
                }
                let samples = decode_samples(bytes.as_slice());
                self.chunks = self.chunks + 1;
                let report = if self.debug && self.chunks % REPORT_EVERY == 0 {
                    Some(self.chunks)
                } else {
                    None
                };
                AudioStep::Recognize { samples, report }
            },
        }
    }

    /// Decides what to do about a recognised wake word.
    fn react(&mut self, info: MatchInfo, text: String, now: Instant, checked: Vec<CheckedText>) -> (
    report: WakeReport)
        requires
            text@.len() > 0,
            reports(Some(info), old(self)@.match_of(text@), old(self)@.variants),
        ensures
            old(self)@.reacts(Some(text@), instant_nanos(now), report),
            final(self)@ == old(self)@.after(Some(text@), instant_nanos(now)),
            report.checked == checked,
    {
        if !is_cooled_down(self.last_wake, now, self.wake_cooldown_ms) {
            return WakeReport { checked, hit: None, acknowledge: Acknowledgement::NotDue };
        }
        self.last_wake = Some(now);
        let acknowledge = if is_cooled_down(self.last_tts, now, self.tts_cooldown_ms) {
            Acknowledgement::Speak
        } else {
            Acknowledgement::CoolingDown
        };
        WakeReport { checked, hit: Some(WakeHit { info, text }), acknowledge }
    }

    /// Decides what to do about a finished utterance, of which several versions may
    /// have been heard.
    pub fn on_final(&mut self, heard: &[String], now: Instant) -> (report: WakeReport)
        ensures
            hears_complete(old(self)@, texts(heard@), instant_nanos(now), report, final(self)@),
    {
        let ghost state = self@;
        let ghost all = texts(heard@);
        let mut checked: Vec<CheckedText> = Vec::new();
        assert(checks(checked@) + state.looked_at(all, 0) =~= state.looked_at(all, 0));
        for i in 0..heard.len()
            invariant
                state == self@,
                self@ == old(self)@,
                all == texts(heard@),
                checks(checked@) + state.looked_at(all, i as int) == state.looked_at(all, 0),
                state.first_wake(all, i as int) == state.first_wake(all, 0),
        {
            assert(all[i as int] == heard@[i as int]@);
            let text = trim(heard[i].as_str());
            if !text.as_str().is_empty() {
                let found = detect_wake_word(
                    text.as_str(),
                    self.variants.as_slice(),
                    self.fuzzy_distance,
                );
                let ghost before = checked@;
                let entry = CheckedText {
                    text: text.clone(),
                    normalized: normalize_text(text.as_str()),
                    matched: found.is_some(),
                };
                checked.push(entry);
                assert(checks(checked@) =~= checks(before).push(
                    (text@, normalized(text@), found is Some),
                ));
                if let Some(info) = found {
                    assert(checks(checked@) =~= checks(before) + state.looked_at(all, i as int));
                    return self.react(info, text, now, checked);
                }
                assert(checks(checked@) + state.looked_at(all, i + 1) =~= checks(before) + (seq![
                    (text@, normalized(text@), false),
                ] + state.looked_at(all, i + 1)));
            }
        }
        assert(checks(checked@) =~= state.looked_at(all, 0));
        WakeReport { checked, hit: None, acknowledge: Acknowledgement::NotDue }
    }

    /// Decides what to do about an utterance that was heard in part.
    pub fn on_partial(&mut self, partial: &str, now: Instant) -> (report: WakeReport)
        ensures
            hears_partial(old(self)@, partial@, instant_nanos(now), report, final(self)@),
    {
        let text = trim(partial);
        let mut checked: Vec<CheckedText> = Vec::new();
        assert(checks(checked@) =~= Seq::empty());
        if text.as_str().is_empty() {
            return WakeReport { checked, hit: None, acknowledge: Acknowledgement::NotDue };
        }
        let found = detect_wake_word(
            text.as_str(),
            self.variants.as_slice(),
            self.fuzzy_distance,
        );
        if self.debug && !same_text(text.as_str(), self.last_partial.as_str()) {
            let entry = CheckedText {
                text: text.clone(),
                normalized: normalize_text(text.as_str()),
                matched: found.is_some(),
            };
            checked.push(entry);
            assert(checks(checked@) =~= seq![(text@, normalized(text@), found is Some)]);
            self.last_partial = text.clone();
        }
        match found {
            Some(info) => self.react(info, text, now, checked),
            None => WakeReport { checked, hit: None, acknowledge: Acknowledgement::NotDue },
        }
    }

    /// Decides whether an answer may be spoken at `now`.
    pub fn on_answer(&self, speech_on: bool, now: Instant) -> (turn: AnswerTurn)
        ensures
            turn == self@.answer_turn(speech_on, instant_nanos(now)),
    {
        let left: u64 = cooldown_left_of(self.last_tts, now, self.tts_cooldown_ms);
        if !speech_on || left == 0 {
            AnswerTurn::Speak
        } else {
            AnswerTurn::RetryAfter(left)
        }
    }

    /// Takes note of what became of an acknowledgement or an answer: a success starts the
    /// cooldown, a failure changes nothing.
    pub fn spoken(&mut self, outcome: &Result<(), SpeechError>, now: Instant)
        ensures
            final(self)@ == old(self)@.after_speech(*outcome, instant_nanos(now)),
    {
        if outcome.is_ok() {
            self.last_tts = Some(now);
        }
    }
}

/// Where speech goes.
#[derive(Debug)]
pub enum Route {
    /// It is searched for the wake word.
    Wake,
    /// It is part of the dialog.
    Dialog,
}

/// Whether `route` is where speech at a point in time goes, and `after` the state that is
/// left behind.
pub open spec fn routes(before: DialogState, now: int, route: Route, after: DialogState) -> bool {
    &&& route is Dialog <==> before.active_at(now)
    &&& after == if before.window_expired_at(now) {
        before.cleared()
    } else {
        before
    }
}

/// Decides where speech at `now` goes, and ends a dialog whose question window has
/// closed.
pub fn route_speech(dialog: &mut DialogManager, now: Instant) -> (route: Route)
    ensures
        routes(old(dialog)@, instant_nanos(now), route, final(dialog)@),
        old(dialog)@.well_formed() ==> final(dialog)@.well_formed(),
{
    if dialog.is_window_expired_at(now) {
        dialog.clear_activity();
        return Route::Wake;
    }
    if dialog.is_active_at(now) {
        Route::Dialog
    } else {
        Route::Wake
    }
}

/// Whether `opened` tells if the question window opens after a report, and `after` is the
/// state that is left behind.
pub open spec fn opens(
    before: DialogState,
    report: WakeReport,
    now: int,
    opened: bool,
    after: DialogState,
) -> bool {
    &&& opened == (report.hit is Some && before.cfg.enabled)
    &&& after == if opened {
        before.window_begun(now)
    } else {
        before
    }
}

/// Opens the question window if the wake word was recognised and the chat service
/// is switched on, and tells whether it did.
pub fn open_dialog(dialog: &mut DialogManager, report: &WakeReport, now: Instant) -> (opened: bool)
    ensures
        opens(old(dialog)@, *report, instant_nanos(now), opened, final(dialog)@),
        old(dialog)@.well_formed() ==> final(dialog)@.well_formed(),
{
    if report.hit.is_some() && dialog.config().enabled {
        dialog.begin_question_window_at(now);
        true
    } else {
        false
    }
}

} // verus!
