//! The conversation that follows the wake word.
use std::time::Instant;
use vstd::prelude::*;

use crate::chat::{
    follows_from_reply, header_problem, is_request, openrouter_answer, openrouter_request,
    transcript, ChatMessage, ChatReply, ChatRequest, DialogError,
};
use crate::clock::{instant_nanos, millis_to_nanos, within_millis};
use crate::phrases::{
    exit_phrase, is_exit_phrase, is_short_ack, looks_like_question, question_like, short_ack,
    token_count, word_count,
};
use crate::recognition::{
    are_scores, best_candidate, candidates_of, choose_best_candidate, extract_candidates, scored,
    score_candidates, Alternative, Recognition, ScoredCandidate,
};
use crate::text::{same_text, trim, trimmed};
use crate::text_laws::law_trimming_twice;

verus! {

/// The settings of the conversation.
#[derive(Debug, Clone)]
pub struct DialogConfig {
    /// Whether questions are put to the chat service at all.
    pub enabled: bool,
    /// The key of the chat service.
    pub api_key: String,
    /// The model that is to answer.
    pub model: String,
    /// Where requests are sent.
    pub base_url: String,
    /// The address of the site that is named in requests.
    pub site_url: Option<String>,
    /// The name of the site that is named in requests.
    pub site_name: Option<String>,
    /// The instructions that every conversation begins with.
    pub system_prompt: String,
    /// How long after the wake word a question may begin.
    pub question_window_ms: u64,
    /// How many questions and answers are remembered.
    pub max_history_turns: usize,
}

/// What became of an utterance.
#[derive(Debug)]
pub enum DialogOutcome {
    /// Nothing.
    NoAction,
    /// It was answered.
    Answered { question: String, answer: String },
    /// It ended the conversation.
    Exited { phrase: String },
}

/// A question that waits for its answer.
#[derive(Debug)]
pub struct PendingQuestion {
    /// The question.
    pub question: String,
    /// The request that puts it to the chat service.
    pub request: ChatRequest,
}

/// What to do about an utterance.
#[derive(Debug)]
pub enum FinalStep {
    /// Nothing more; this is what became of it.
    Finished(DialogOutcome),
    /// Send the request, and report the reply with `finish_question`.
    Ask(PendingQuestion),
}

/// What an utterance calls for.
pub enum FinalDecision {
    /// Nothing.
    Ignore,
    /// The end of the conversation.
    Exit,
    /// An answer.
    Ask,
}

/// The state of a conversation.
pub struct DialogState {
    /// The settings.
    pub cfg: DialogConfig,
    /// Whether a conversation is going on.
    pub chat_mode: bool,
    /// When the question window was opened, if one was.
    pub window_since: Option<int>,
    /// What was said, and by whom.
    pub history: Seq<(Seq<char>, Seq<char>)>,
    /// The last utterance that was heard in part.
    pub last_partial: Seq<char>,
}

/// The last `limit` entries of a list, or all of them if there are fewer.
pub open spec fn last_entries<T>(list: Seq<T>, limit: int) -> Seq<T> {
    if list.len() > limit {
        list.skip(list.len() - limit)
    } else {
        list
    }
}

/// Whether questions of the user and answers of the assistant take turns.
pub open spec fn takes_turns(history: Seq<(Seq<char>, Seq<char>)>) -> bool {
    &&& history.len() % 2 == 0
    &&& forall|i: int|
        0 <= i < history.len() ==> (#[trigger] history[i]).0 == if i % 2 == 0 {
            "user"@
        } else {
            "assistant"@
        }
}

impl DialogState {
    /// No conversation, and no question window.
    pub open spec fn initial(cfg: DialogConfig) -> DialogState {
        DialogState {
            cfg,
            chat_mode: false,
            window_since: None,
            history: Seq::empty(),
            last_partial: Seq::empty(),
        }
    }

    /// There is no question window in a conversation; what is remembered are
    /// questions and answers in turn, no more than the settings allow; the last
    /// partial utterance has no white space around it.
    pub open spec fn well_formed(self) -> bool {
        &&& self.chat_mode ==> self.window_since is None
        &&& self.history.len() <= self.cfg.max_history_turns * 2
        &&& takes_turns(self.history)
        &&& trimmed(self.last_partial) == self.last_partial
    }

    /// Whether speech is part of the dialog at a point in time: a conversation is
    /// going on, or the question window has not closed.
    pub open spec fn active_at(self, now: int) -> bool {
        ||| self.chat_mode
        ||| self.window_since matches Some(since) && now <= since + millis_to_nanos(
            self.cfg.question_window_ms,
        )
    }

    /// Whether a question window was opened and has closed.
    pub open spec fn window_expired_at(self, now: int) -> bool {
        self.window_since is Some && !self.active_at(now)
    }

    /// The question window opens.
    pub open spec fn window_begun(self, now: int) -> DialogState {
        DialogState {
            chat_mode: false,
            window_since: Some(now),
            history: Seq::empty(),
            last_partial: Seq::empty(),
            ..self
        }
    }

    /// Window and conversation are over.
    pub open spec fn cleared(self) -> DialogState {
        Self::initial(self.cfg)
    }

    /// Whether a partial utterance is news.
    pub open spec fn is_news(self, partial: Seq<char>) -> bool {
        trimmed(partial).len() > 0 && trimmed(partial) != self.last_partial
    }

    /// A partial utterance was heard.
    pub open spec fn observed(self, partial: Seq<char>) -> DialogState {
        if self.is_news(partial) {
            DialogState { last_partial: trimmed(partial), ..self }
        } else {
            self
        }
    }

    /// What was said, given the guesses of the recogniser: the best of them, or
    /// what was last heard in part if there are none.
    pub open spec fn utterance(self, candidates: Seq<(Seq<char>, u32)>) -> Seq<char> {
        match best_candidate(candidates) {
            Some(text) => trimmed(text),
            None => trimmed(self.last_partial),
        }
    }

    /// Whether an utterance is worth an answer: in a conversation anything of two
    /// words that is more than an acknowledgement, otherwise questions and anything
    /// of four words.
    pub open spec fn worth_sending(self, utterance: Seq<char>) -> bool {
        if self.chat_mode {
            word_count(utterance) >= 2 && !short_ack(utterance)
        } else {
            question_like(utterance) || word_count(utterance) >= 4
        }
    }

    /// What an utterance calls for.
    pub open spec fn decision(self, utterance: Seq<char>) -> FinalDecision {
        if utterance.len() == 0 {
            FinalDecision::Ignore
        } else if self.chat_mode && exit_phrase(utterance) {
            FinalDecision::Exit
        } else if self.worth_sending(utterance) && self.cfg.enabled {
            FinalDecision::Ask
        } else {
            FinalDecision::Ignore
        }
    }

    /// A question was answered.
    pub open spec fn answered(self, question: Seq<char>, answer: Seq<char>) -> DialogState {
        DialogState {
            chat_mode: true,
            window_since: None,
            history: last_entries(
                self.history + seq![("user"@, question), ("assistant"@, answer)],
                self.cfg.max_history_turns * 2,
            ),
            last_partial: Seq::empty(),
            ..self
        }
    }
}

/// Whether `step` is what to do about an utterance, and `after` the state that is
/// left behind.
pub open spec fn takes_step(
    before: DialogState,
    said: Seq<char>,
    step: Result<FinalStep, DialogError>,
    after: DialogState,
) -> bool {
    match before.decision(said) {
        FinalDecision::Ignore => {
            &&& step matches Ok(FinalStep::Finished(DialogOutcome::NoAction))
            &&& after == before
        },
        FinalDecision::Exit => {
            &&& step matches Ok(FinalStep::Finished(DialogOutcome::Exited { phrase }))
            &&& phrase@ == said
            &&& after == before.cleared()
        },
        FinalDecision::Ask => {
            &&& after == before
            &&& match header_problem(before.cfg) {
                None => {
                    &&& step matches Ok(FinalStep::Ask(pending))
                    &&& pending.question@ == said
                    &&& is_request(pending.request, before.cfg, before.history, said)
                },
                Some(problem) => step matches Err(error) && error == problem,
            }
        },
    }
}

/// Whether `step` is what to do about what the recogniser heard, where `score` tells how
/// promising a guess is, and `after` the state that is left behind.
pub open spec fn takes_heard<F: Fn(&Alternative) -> u32>(
    score: F,
    before: DialogState,
    result: Recognition,
    step: Result<FinalStep, DialogError>,
    after: DialogState,
) -> bool {
    exists|list: Seq<(Seq<char>, u32)>|
        {
            &&& #[trigger] are_scores(score, candidates_of(result), list)
            &&& takes_step(before, before.utterance(list), step, after)
        }
}

/// Whether `outcome` is what becomes of a question after a reply, and `after` the state
/// that is left behind.
pub open spec fn finishes(
    before: DialogState,
    question: String,
    reply: ChatReply,
    outcome: Result<DialogOutcome, DialogError>,
    after: DialogState,
) -> bool {
    match outcome {
        Ok(DialogOutcome::Answered { question: q, answer }) => {
            &&& q == question
            &&& follows_from_reply(Ok(answer), reply)
            &&& after == before.answered(question@, answer@)
        },
        Ok(_) => false,
        Err(error) => {
            &&& follows_from_reply(Err(error), reply)
            &&& after == before
        },
    }
}

/// Leads a conversation.
#[derive(Debug)]
pub struct DialogManager {
    cfg: DialogConfig,
    chat_mode: bool,
    window_since: Option<Instant>,
    history: Vec<ChatMessage>,
    last_partial: String,
}

impl View for DialogManager {
    type V = DialogState;

    closed spec fn view(&self) -> DialogState {
        DialogState {
            cfg: self.cfg,
            chat_mode: self.chat_mode,
            window_since: match self.window_since {
                Some(since) => Some(instant_nanos(since)),
                None => None,
            },
            history: transcript(self.history@),
            last_partial: self.last_partial@,
        }
    }
}

impl DialogManager {
    /// No conversation yet.
    pub fn new(cfg: DialogConfig) -> (manager: Self)
        ensures
            manager@ == DialogState::initial(cfg),
            manager@.well_formed(),
    {
        let manager = DialogManager {
            cfg,
            chat_mode: false,
            window_since: None,
            history: Vec::new(),
            last_partial: String::new(),
        };
        assert(manager@.history =~= Seq::empty());
        manager
    }

    /// The settings.
    pub fn config(&self) -> (cfg: &DialogConfig)
        ensures
            *cfg == self@.cfg,
    {
        &self.cfg
    }

    /// Whether speech at `now` is part of the dialog.
    pub fn is_active_at(&self, now: Instant) -> (active: bool)
        ensures
            active == self@.active_at(instant_nanos(now)),
    {
        if self.chat_mode {
            return true;
        }
        match self.window_since {
            Some(since) => within_millis(since, now, self.cfg.question_window_ms),
            None => false,
        }
    }

    /// Whether speech is now part of the dialog. Whether an open question window
    /// has closed is up to the clock.
    pub fn is_active(&self) -> (active: bool)
        ensures
            exists|now: Instant| active == self@.active_at(#[trigger] instant_nanos(now)),
            self@.chat_mode ==> active,
            !self@.chat_mode && self@.window_since is None ==> !active,
    {
        let now = Instant::now();
        self.is_active_at(now)
    }

    /// Whether a question window was opened and has closed by `now`.
    pub fn is_window_expired_at(&self, now: Instant) -> (expired: bool)
        ensures
            expired == self@.window_expired_at(instant_nanos(now)),
    {
        self.window_since.is_some() && !self.is_active_at(now)
    }

    /// Whether a question window was opened and has closed. Whether it has closed
    /// is up to the clock.
    pub fn is_window_expired(&self) -> (expired: bool)
        ensures
            exists|now: Instant|
                expired == self@.window_expired_at(#[trigger] instant_nanos(now)),
            self@.chat_mode || self@.window_since is None ==> !expired,
    {
        let now = Instant::now();
        self.is_window_expired_at(now)
    }

    /// Opens the question window at `now`, and forgets what was said before.
    pub fn begin_question_window_at(&mut self, now: Instant)
        ensures
            final(self)@ == old(self)@.window_begun(instant_nanos(now)),
            final(self)@.well_formed(),
    {
        self.chat_mode = false;
        self.history.clear();
        self.window_since = Some(now);
        self.last_partial = String::new();
        assert(self@.history =~= Seq::empty());
    }

    /// Opens the question window, and forgets what was said before.
    pub fn begin_question_window(&mut self)
        ensures
            exists|now: Instant|
                final(self)@ == old(self)@.window_begun(#[trigger] instant_nanos(now)),
            final(self)@.well_formed(),
    {
        let now = Instant::now();
        self.begin_question_window_at(now);
    }

    /// Ends question window and conversation.
    pub fn clear_activity(&mut self)
        ensures
            final(self)@ == old(self)@.cleared(),
            final(self)@.well_formed(),
    {
        self.window_since = None;
        self.chat_mode = false;
        self.history.clear();
        self.last_partial = String::new();
        assert(self@.history =~= Seq::empty());
    }

    /// Takes note of a partial utterance, and tells whether it is news.
    pub fn observe_partial(&mut self, partial: &str) -> (news: bool)
        ensures
            news == old(self)@.is_news(partial@),
            final(self)@ == old(self)@.observed(partial@),
            old(self)@.well_formed() ==> final(self)@.well_formed(),
    {
        let p = trim(partial);
        proof {
            law_trimming_twice(partial@);
        }
        if p.as_str().is_empty() {
            return false;
        }
        if !same_text(p.as_str(), self.last_partial.as_str()) {
            self.last_partial = p;
            return true;
        }
        false
    }

    /// What was said, given the guesses of the recogniser.
    fn heard(&self, candidates: &[ScoredCandidate]) -> (utterance: String)
        ensures
            utterance@ == self@.utterance(scored(candidates@)),
    {
        match choose_best_candidate(candidates) {
            Some(text) => trim(text.as_str()),
            None => trim(self.last_partial.as_str()),
        }
    }

    /// Whether an utterance is worth an answer.
    fn should_send(&self, utterance: &str) -> (r: bool)
        ensures
            r == self@.worth_sending(utterance@),
    {
        let tokens: usize = token_count(utterance);
        if self.chat_mode {
            tokens >= 2 && !is_short_ack(utterance)
        } else {
            looks_like_question(utterance) || tokens >= 4
        }
    }

    /// Decides what to do about a finished utterance, given the scored guesses of
    /// the recogniser.
    pub fn decide_final(&mut self, candidates: &[ScoredCandidate]) -> (step: Result<
        FinalStep,
        DialogError,
    >)
        ensures
            takes_step(
                old(self)@,
                old(self)@.utterance(scored(candidates@)),
                step,
                final(self)@,
            ),
            old(self)@.well_formed() ==> final(self)@.well_formed(),
    {
        let utterance = self.heard(candidates);
        if utterance.as_str().is_empty() {
            return Ok(FinalStep::Finished(DialogOutcome::NoAction));
        }
        if self.chat_mode && is_exit_phrase(utterance.as_str()) {
            self.clear_activity();
            return Ok(FinalStep::Finished(DialogOutcome::Exited { phrase: utterance }));
        }
        if !self.should_send(utterance.as_str()) || !self.cfg.enabled {
            return Ok(FinalStep::Finished(DialogOutcome::NoAction));
        }
        match openrouter_request(&self.cfg, self.history.as_slice(), utterance.as_str()) {
            Ok(request) => Ok(FinalStep::Ask(PendingQuestion { question: utterance, request })),
            Err(error) => Err(error),
        }
    }

    /// Decides what to do about a finished utterance, given what the recogniser
    /// heard and how a guess is scored.
    pub fn process_final<F: Fn(&Alternative) -> u32>(
        &mut self,
        result: Recognition,
        score: F,
    ) -> (step: Result<FinalStep, DialogError>)
        requires
            forall|guess: Alternative|
                candidates_of(result).contains((guess.text@, guess.confidence))
                    ==> #[trigger] call_requires(score, (&guess,)),
        ensures
            takes_heard(score, old(self)@, result, step, final(self)@),
            old(self)@.well_formed() ==> final(self)@.well_formed(),
    {
        let candidates = extract_candidates(result);
        let list = score_candidates(&candidates, score);
        self.decide_final(list.as_slice())
    }

    /// Remembers a question and its answer; the conversation goes on.
    pub fn record_answer(&mut self, question: &str, answer: &str)
        ensures
            final(self)@ == old(self)@.answered(question@, answer@),
            old(self)@.well_formed() ==> final(self)@.well_formed(),
    {
        let ghost before = self@;
        let ghost grown = before.history + seq![("user"@, question@), ("assistant"@, answer@)];
        self.history.push(ChatMessage::user(question));
        self.history.push(ChatMessage::assistant(answer));
        assert(transcript(self.history@) =~= grown);
        let turns: usize = self.cfg.max_history_turns;
        let limit: usize = match turns.checked_mul(2) {
            Some(limit) => limit,
            None => usize::MAX,
        };
        let ghost mut dropped: int = 0;
        assert(grown.skip(0) =~= grown);
        while self.history.len() > limit
            invariant
                self.cfg == before.cfg,
                turns == before.cfg.max_history_turns,
                limit == turns * 2 || (limit == usize::MAX && turns * 2 > usize::MAX),
                0 <= dropped <= grown.len(),
                transcript(self.history@) == grown.skip(dropped),
                dropped > 0 ==> limit == turns * 2 && self.history@.len() >= limit,
            decreases self.history@.len(),
        {
            let ghost longer = self.history@;
            self.history.remove(0);
            assert(transcript(self.history@) =~= transcript(longer).skip(1));
            assert(transcript(longer).skip(1) =~= grown.skip(dropped + 1));
            proof {
                dropped = dropped + 1;
            }
        }
        assert(transcript(self.history@).len() == self.history@.len());
        assert(transcript(self.history@) =~= last_entries(grown, turns * 2));
        self.chat_mode = true;
        self.window_since = None;
        self.last_partial = String::new();
        proof {
            if before.well_formed() {
                lemma_answered_well_formed(before, question@, answer@);
            }
        }
    }

    /// Ends the wait for an answer: remembers it together with its question, or
    /// reports why there is none.
    pub fn finish_question(&mut self, question: String, reply: ChatReply) -> (outcome: Result<
        DialogOutcome,
        DialogError,
    >)
        ensures
            finishes(old(self)@, question, reply, outcome, final(self)@),
            old(self)@.well_formed() ==> final(self)@.well_formed(),
    {
        match openrouter_answer(reply) {
            Ok(answer) => {
                self.record_answer(question.as_str(), answer.as_str());
                Ok(DialogOutcome::Answered { question, answer })
            },
            Err(error) => Err(error),
        }
    }
}

/// An answer keeps the state well formed.
pub proof fn lemma_answered_well_formed(state: DialogState, question: Seq<char>, answer: Seq<char>)
    requires
        state.well_formed(),
    ensures
        state.answered(question, answer).well_formed(),
{
    let grown = state.history + seq![("user"@, question), ("assistant"@, answer)];
    let limit = state.cfg.max_history_turns * 2;
    let kept = last_entries(grown, limit);
    let dropped = grown.len() - kept.len();
    assert(dropped % 2 == 0);
    assert forall|i: int| 0 <= i < kept.len() implies (#[trigger] kept[i]).0 == if i % 2 == 0 {
        "user"@
    } else {
        "assistant"@
    } by {
        let j = i + dropped;
        assert(kept[i] == grown[j]);
        if j < state.history.len() {
            assert(grown[j] == state.history[j]);
        }
    }
}

} // verus!
