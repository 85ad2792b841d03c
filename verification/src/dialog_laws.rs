//! What holds of a conversation over several steps.
use vstd::prelude::*;

use crate::chat::{
    follows_from_reply, is_request, parsed_reply, request_messages, transcript, ChatReply,
    ChatRequest, DialogError,
};
use crate::chat_laws::{lemma_header_problem, sendable};
use crate::clock::millis_to_nanos;
use crate::dialog::{
    finishes, last_entries, lemma_answered_well_formed, takes_heard, takes_step, DialogConfig,
    DialogOutcome, DialogState, FinalDecision, FinalStep,
};
use crate::headers::header_fields;
use crate::phrases::{exit_phrase, question_like, short_ack, word_count};
use crate::recognition::{
    are_scores, best_index, candidates_of, float_greater, float_rank, may_score, Alternative,
    Recognition,
};
use crate::recognition_laws::{
    filled_guesses, law_best_guess, law_every_filled_guess_counts, law_single_guess,
};
use crate::text::{folded, normalized, split_words, trimmed};
use crate::text_laws::{law_trimming_twice, law_words_of_normal_form};
use vstd::utf8::encode_utf8;

verus! {

/// After the wake word the dialog is active until the question window closes, and
/// from then on the window counts as expired.
pub proof fn law_question_window(state: DialogState, opened: int, now: int)
    ensures
        ({
            let state = state.window_begun(opened);
            let closes = opened + millis_to_nanos(state.cfg.question_window_ms);
            &&& state.active_at(now) <==> now <= closes
            &&& state.window_expired_at(now) <==> now > closes
        }),
{
}

/// Once cleared, the dialog is not active and no window counts as expired, at any
/// time.
pub proof fn law_cleared_is_inactive(state: DialogState, now: int)
    ensures
        !state.cleared().active_at(now),
        !state.cleared().window_expired_at(now),
{
}

/// After an answer the conversation stays active at any time.
pub proof fn law_answer_keeps_active(
    state: DialogState,
    question: Seq<char>,
    answer: Seq<char>,
    now: int,
)
    ensures
        state.answered(question, answer).active_at(now),
        !state.answered(question, answer).window_expired_at(now),
{
}

/// An exit phrase in a conversation ends it, whatever else the utterance says, and
/// the dialog is then inactive at any time.
pub proof fn law_exit_phrase_ends_conversation(
    state: DialogState,
    utterance: Seq<char>,
    now: int,
)
    requires
        state.chat_mode,
        utterance.len() > 0,
        exit_phrase(utterance),
    ensures
        state.decision(utterance) == FinalDecision::Exit,
        !state.cleared().active_at(now),
{
}

/// Only a conversation can be ended by an exit phrase.
pub proof fn law_no_exit_without_conversation(state: DialogState, utterance: Seq<char>)
    requires
        !state.chat_mode,
    ensures
        state.decision(utterance) != FinalDecision::Exit,
{
}

/// Where the chat service is switched off, nothing is ever asked.
pub proof fn law_disabled_asks_nothing(state: DialogState, utterance: Seq<char>)
    requires
        !state.cfg.enabled,
    ensures
        state.decision(utterance) != FinalDecision::Ask,
{
}

/// In a conversation an acknowledgement is passed over.
pub proof fn law_acknowledgement_is_ignored(state: DialogState, utterance: Seq<char>)
    requires
        state.chat_mode,
        short_ack(utterance),
    ensures
        state.decision(utterance) == FinalDecision::Ignore,
{
    reveal_strlit("ja");
    reveal_strlit("okay");
    reveal_strlit("ok");
    reveal_strlit("gut");
    reveal_strlit("alles klar");
    reveal_strlit("danke");
    reveal_strlit("danke das wars");
    reveal_strlit("danke das war es");
    reveal_strlit("das wars danke");
    reveal_strlit("danke war s");
    assert(!exit_phrase(utterance));
}

/// In the question window every question is asked, if the chat service is switched
/// on.
pub proof fn law_question_is_asked(state: DialogState, utterance: Seq<char>)
    requires
        !state.chat_mode,
        state.cfg.enabled,
        question_like(utterance),
    ensures
        state.decision(utterance) == FinalDecision::Ask,
{
    if utterance.len() == 0 {
        assert(trimmed(utterance).len() == 0);
    }
}

/// Hearing the same partial utterance again is no news and changes nothing.
pub proof fn law_partial_heard_twice(state: DialogState, partial: Seq<char>)
    ensures
        !state.observed(partial).is_news(partial),
        state.observed(partial).observed(partial) == state.observed(partial),
{
}

/// What every step of a conversation keeps: its state stays well formed, and its
/// settings stay as they were.
pub proof fn law_steps_keep_well_formed(
    state: DialogState,
    now: int,
    partial: Seq<char>,
    question: Seq<char>,
    answer: Seq<char>,
)
    requires
        state.well_formed(),
    ensures
        state.window_begun(now).well_formed() && state.window_begun(now).cfg == state.cfg,
        state.cleared().well_formed() && state.cleared().cfg == state.cfg,
        state.observed(partial).well_formed() && state.observed(partial).cfg == state.cfg,
        state.answered(question, answer).well_formed() && state.answered(question, answer).cfg
            == state.cfg,
{
    law_trimming_twice(partial);
    lemma_answered_well_formed(state, question, answer);
}

/// The state after a series of answered questions.
pub open spec fn after_turns(
    state: DialogState,
    turns: Seq<(Seq<char>, Seq<char>)>,
) -> DialogState
    decreases turns.len(),
{
    if turns.len() == 0 {
        state
    } else {
        let (question, answer) = turns.last();
        after_turns(state, turns.drop_last()).answered(question, answer)
    }
}

/// The messages of a series of answered questions.
pub open spec fn turn_messages(turns: Seq<(Seq<char>, Seq<char>)>) -> Seq<(Seq<char>, Seq<char>)>
    decreases turns.len(),
{
    if turns.len() == 0 {
        Seq::empty()
    } else {
        let (question, answer) = turns.last();
        turn_messages(turns.drop_last()) + seq![("user"@, question), ("assistant"@, answer)]
    }
}

proof fn lemma_last_entries<T>(list: Seq<T>, more: Seq<T>, limit: int)
    requires
        0 <= limit,
    ensures
        last_entries(last_entries(list, limit) + more, limit) == last_entries(list + more, limit),
{
    let kept = last_entries(list, limit);
    let dropped = list.len() - kept.len();
    assert(kept =~= list.skip(dropped));
    assert(kept + more =~= (list + more).skip(dropped));
    let left = last_entries(kept + more, limit);
    let right = last_entries(list + more, limit);
    assert(left.len() == right.len());
    assert forall|i: int| 0 <= i < left.len() implies left[i] == right[i] by {}
    assert(left =~= right);
}

/// Whatever was asked and answered, what is remembered are the last questions and
/// answers, as many as the settings allow.
pub proof fn law_history_is_last_turns(state: DialogState, turns: Seq<(Seq<char>, Seq<char>)>)
    requires
        state.well_formed(),
    ensures
        after_turns(state, turns).well_formed(),
        after_turns(state, turns).cfg == state.cfg,
        after_turns(state, turns).history == last_entries(
            state.history + turn_messages(turns),
            state.cfg.max_history_turns * 2,
        ),
    decreases turns.len(),
{
    let limit = state.cfg.max_history_turns * 2;
    if turns.len() == 0 {
        assert(state.history + turn_messages(turns) =~= state.history);
    } else {
        let (question, answer) = turns.last();
        let shorter = turns.drop_last();
        law_history_is_last_turns(state, shorter);
        let before = after_turns(state, shorter);
        lemma_answered_well_formed(before, question, answer);
        let pair = seq![("user"@, question), ("assistant"@, answer)];
        let all = state.history + turn_messages(shorter);
        assert(state.history + turn_messages(turns) =~= all + pair);
        lemma_last_entries(all, pair, limit);
    }
}

/// The last question and its answer are remembered, if anything is.
pub proof fn law_last_answer_is_remembered(
    state: DialogState,
    question: Seq<char>,
    answer: Seq<char>,
)
    requires
        state.cfg.max_history_turns > 0,
    ensures
        ({
            let history = state.answered(question, answer).history;
            &&& history.len() >= 2
            &&& history[history.len() - 2] == ("user"@, question)
            &&& history[history.len() - 1] == ("assistant"@, answer)
        }),
{
}

/// A request begins with the instructions, ends with the question, and holds what
/// is remembered between them: no more than two messages for each remembered turn.
pub proof fn law_request_messages(request: ChatRequest, state: DialogState, question: Seq<char>)
    requires
        state.well_formed(),
        is_request(request, state.cfg, state.history, question),
    ensures
        ({
            let messages = transcript(request.messages@);
            &&& messages.len() == state.history.len() + 2
            &&& messages.len() <= state.cfg.max_history_turns * 2 + 2
            &&& messages[0] == ("system"@, state.cfg.system_prompt@)
            &&& messages[messages.len() - 1] == ("user"@, question)
            &&& messages.subrange(1, messages.len() - 1) == state.history
        }),
{
    let messages = request_messages(state.cfg.system_prompt@, state.history, question);
    assert(messages.subrange(1, messages.len() - 1) =~= state.history);
}

/// A request proves who asks, says that it is JSON, and names the site exactly as
/// far as the settings do.
pub proof fn law_request_headers(
    request: ChatRequest,
    cfg: DialogConfig,
    history: Seq<(Seq<char>, Seq<char>)>,
    question: Seq<char>,
)
    requires
        is_request(request, cfg, history, question),
    ensures
        ({
            let fields = header_fields(request.headers);
            &&& fields.contains_pair("authorization"@, encode_utf8("Bearer "@ + cfg.api_key@))
            &&& fields.contains_pair("content-type"@, encode_utf8("application/json"@))
            &&& match cfg.site_url {
                Some(url) => fields.contains_pair("http-referer"@, encode_utf8(url@)),
                None => !fields.contains_key("http-referer"@),
            }
            &&& match cfg.site_name {
                Some(name) => fields.contains_pair("x-title"@, encode_utf8(name@)),
                None => !fields.contains_key("x-title"@),
            }
        }),
{
    reveal_strlit("authorization");
    reveal_strlit("content-type");
    reveal_strlit("http-referer");
    reveal_strlit("x-title");
    assert("authorization"@.len() == 13);
    assert("content-type"@.len() == 12);
    assert("http-referer"@.len() == 12);
    assert("x-title"@.len() == 7);
    assert("content-type"@[0] != "http-referer"@[0]);
}

/// A question that was asked and answered is remembered as it was said, and the
/// conversation goes on.
pub proof fn law_asked_and_answered(
    before: DialogState,
    said: Seq<char>,
    step: Result<FinalStep, DialogError>,
    after: DialogState,
    answer: Seq<char>,
    now: int,
)
    requires
        takes_step(before, said, step, after),
        step matches Ok(FinalStep::Ask(_)),
        before.cfg.max_history_turns > 0,
    ensures
        step matches Ok(FinalStep::Ask(pending)) && {
            let last = after.answered(pending.question@, answer);
            &&& last.history[last.history.len() - 2] == ("user"@, said)
            &&& last.history[last.history.len() - 1] == ("assistant"@, answer)
            &&& last.active_at(now)
        },
{
    law_last_answer_is_remembered(after, said, answer);
}

/// Outside a conversation anything of four words is asked, if the chat service is
/// switched on.
pub proof fn law_long_utterance_is_asked(state: DialogState, utterance: Seq<char>)
    requires
        !state.chat_mode,
        state.cfg.enabled,
        word_count(utterance) >= 4,
    ensures
        state.decision(utterance) == FinalDecision::Ask,
{
    if utterance.len() == 0 {
        assert(folded(utterance) =~= Seq::<char>::empty());
        law_words_of_normal_form(utterance);
    }
}

/// A reply gives an answer exactly when it reports success, is JSON and holds more
/// than white space as the text of its first choice; the answer is that text
/// without the white space around it.
pub proof fn law_answer_needs_text(answer: Result<String, DialogError>, reply: ChatReply)
    requires
        follows_from_reply(answer, reply),
    ensures
        answer is Ok <==> (parsed_reply(reply) matches Some(text) && trimmed(text).len() > 0),
        answer matches Ok(a) ==> (parsed_reply(reply) matches Some(text) && a@ == trimmed(text)),
{
}

/// Where all scores are numbers, the winner is a greatest one, and the last of
/// those.
pub proof fn law_best_is_last_greatest(scores: Seq<u32>)
    requires
        scores.len() > 0,
        forall|i: int| 0 <= i < scores.len() ==> float_rank(#[trigger] scores[i]) is Some,
    ensures
        0 <= best_index(scores) < scores.len(),
        forall|i: int|
            0 <= i < scores.len() ==> float_rank(#[trigger] scores[i])->Some_0 <= float_rank(
                scores[best_index(scores)],
            )->Some_0,
        forall|i: int|
            best_index(scores) < i < scores.len() ==> float_rank(#[trigger] scores[i])->Some_0
                < float_rank(scores[best_index(scores)])->Some_0,
    decreases scores.len(),
{
    if scores.len() > 1 {
        let shorter = scores.drop_last();
        assert forall|i: int| 0 <= i < shorter.len() implies float_rank(
            #[trigger] shorter[i],
        ) is Some by {
            assert(shorter[i] == scores[i]);
        }
        law_best_is_last_greatest(shorter);
        let best = best_index(shorter);
        assert(shorter[best] == scores[best]);
        assert forall|i: int| 0 <= i < shorter.len() implies float_rank(
            #[trigger] scores[i],
        )->Some_0 <= float_rank(scores[best])->Some_0 by {
            assert(shorter[i] == scores[i]);
        }
        assert forall|i: int| best < i < shorter.len() implies float_rank(
            #[trigger] scores[i],
        )->Some_0 < float_rank(scores[best])->Some_0 by {
            assert(shorter[i] == scores[i]);
        }
        assert(scores.last() == scores[scores.len() - 1]);
    }
}

/// Whether a step puts what was said to the chat service, or reports that the settings
/// cannot be sent; nothing changes meanwhile.
pub open spec fn asks(
    before: DialogState,
    said: Seq<char>,
    step: Result<FinalStep, DialogError>,
    after: DialogState,
) -> bool {
    &&& after == before
    &&& sendable(before.cfg) <==> step is Ok
    &&& step matches Ok(s) ==> {
        &&& s matches FinalStep::Ask(pending)
        &&& pending.question@ == said
        &&& is_request(pending.request, before.cfg, before.history, said)
    }
    &&& step matches Err(error) ==> error is InvalidApiKey || error is InvalidReferer || error
        is InvalidTitle
}

/// Whether a step passes over what was said, and nothing changes.
pub open spec fn passes_over(
    before: DialogState,
    step: Result<FinalStep, DialogError>,
    after: DialogState,
) -> bool {
    &&& step matches Ok(FinalStep::Finished(DialogOutcome::NoAction))
    &&& after == before
}

/// In a conversation a farewell ends it and is reported as it was said. Anything else of
/// two words or more is asked if the chat service is switched on, unless it is a short
/// acknowledgement. The rest is passed over.
pub proof fn law_in_a_conversation(
    before: DialogState,
    said: Seq<char>,
    step: Result<FinalStep, DialogError>,
    after: DialogState,
)
    requires
        before.chat_mode,
        said.len() > 0,
        takes_step(before, said, step, after),
    ensures
        exit_phrase(said) ==> {
            &&& step matches Ok(FinalStep::Finished(DialogOutcome::Exited { phrase }))
            &&& phrase@ == said
            &&& !after.chat_mode
            &&& after.window_since is None
            &&& after.history.len() == 0
            &&& after.last_partial.len() == 0
            &&& after.cfg == before.cfg
        },
        !exit_phrase(said) ==> {
            let asked = before.cfg.enabled && split_words(normalized(said)).len() >= 2
                && !short_ack(said);
            &&& asked ==> asks(before, said, step, after)
            &&& !asked ==> passes_over(before, step, after)
        },
{
    lemma_header_problem(before.cfg);
}

/// Outside a conversation questions, and anything else of four words or more, are asked if
/// the chat service is switched on. The rest is passed over.
pub proof fn law_outside_a_conversation(
    before: DialogState,
    said: Seq<char>,
    step: Result<FinalStep, DialogError>,
    after: DialogState,
)
    requires
        !before.chat_mode,
        said.len() > 0,
        takes_step(before, said, step, after),
    ensures
        ({
            let asked = before.cfg.enabled && (question_like(said) || split_words(
                normalized(said),
            ).len() >= 4);
            &&& asked ==> asks(before, said, step, after)
            &&& !asked ==> passes_over(before, step, after)
        }),
{
    lemma_header_problem(before.cfg);
}

/// Where nothing was said nothing happens.
pub proof fn law_silence(
    before: DialogState,
    step: Result<FinalStep, DialogError>,
    after: DialogState,
)
    requires
        takes_step(before, Seq::empty(), step, after),
    ensures
        passes_over(before, step, after),
{
}

/// In a conversation every utterance of two words or more is asked that is neither an
/// acknowledgement nor a farewell, if the chat service is switched on; one of fewer words
/// never is.
pub proof fn law_follow_up_is_asked(state: DialogState, utterance: Seq<char>)
    requires
        state.chat_mode,
        state.cfg.enabled,
        !short_ack(utterance),
        !exit_phrase(utterance),
    ensures
        state.decision(utterance) == FinalDecision::Ask <==> split_words(
            normalized(utterance),
        ).len() >= 2,
{
    if utterance.len() == 0 {
        assert(folded(utterance) =~= Seq::<char>::empty());
        law_words_of_normal_form(utterance);
    }
}

/// What was said is the best guess, without white space around it, or what was last heard
/// in part if there is no guess.
pub proof fn law_what_was_said(state: DialogState, list: Seq<(Seq<char>, u32)>)
    ensures
        list.len() == 0 ==> state.utterance(list) == trimmed(state.last_partial),
        list.len() > 0 ==> exists|w: int|
            {
                &&& 0 <= w < list.len()
                &&& state.utterance(list) == trimmed((#[trigger] list[w]).0)
                &&& forall|j: int|
                    w < j < list.len() ==> float_greater(list[w].1, (#[trigger] list[j]).1)
                &&& (forall|i: int|
                    0 <= i < list.len() ==> float_rank((#[trigger] list[i]).1) is Some) ==> (forall|
                    i: int,
                |
                    0 <= i < list.len() ==> !float_greater((#[trigger] list[i]).1, list[w].1))
            },
{
    law_best_guess(list);
}

/// Whether scoring a guess gives a number, and always the one that `worth` names.
pub open spec fn scores_by<F: Fn(&Alternative) -> u32>(
    score: F,
    worth: spec_fn(Seq<char>, u32) -> u32,
) -> bool {
    &&& forall|a: Alternative, bits: u32| #[trigger]
        call_ensures(score, (&a,), bits) ==> bits == worth(a.text@, a.confidence)
    &&& forall|text: Seq<char>, confidence: u32|
        float_rank(#[trigger] worth(text, confidence)) is Some
}

/// Of several guesses the step is taken on one that is more than white space and that no
/// other such guess surpasses in score, however many there are and wherever it stands.
pub proof fn law_best_guess_is_taken<F: Fn(&Alternative) -> u32>(
    score: F,
    worth: spec_fn(Seq<char>, u32) -> u32,
    before: DialogState,
    list: Vec<Alternative>,
    step: Result<FinalStep, DialogError>,
    after: DialogState,
    some: int,
)
    requires
        takes_heard(score, before, Recognition::Multiple(list), step, after),
        scores_by(score, worth),
        0 <= some < list@.len(),
        trimmed(list@[some].text@).len() > 0,
    ensures
        exists|w: int|
            {
                &&& 0 <= w < list@.len()
                &&& trimmed((#[trigger] list@[w]).text@).len() > 0
                &&& takes_step(before, trimmed(list@[w].text@), step, after)
                &&& forall|i: int|
                    0 <= i < list@.len() && trimmed((#[trigger] list@[i]).text@).len() > 0
                        ==> !float_greater(
                        worth(trimmed(list@[i].text@), list@[i].confidence),
                        worth(trimmed(list@[w].text@), list@[w].confidence),
                    )
            },
{
    let result = Recognition::Multiple(list);
    let all = candidates_of(result);
    law_every_filled_guess_counts(list);
    assert(all.contains((trimmed(list@[some].text@), list@[some].confidence)));
    let scored = choose|scored: Seq<(Seq<char>, u32)>|
        {
            &&& #[trigger] are_scores(score, all, scored)
            &&& takes_step(before, before.utterance(scored), step, after)
        };
    assert forall|i: int| 0 <= i < scored.len() implies (#[trigger] scored[i]).0 == all[i].0
        && scored[i].1 == worth(all[i].0, all[i].1) && float_rank(scored[i].1) is Some by {
        assert(may_score(score, all[i], scored[i].1));
    }
    law_what_was_said(before, scored);
    let v = choose|v: int|
        {
            &&& 0 <= v < scored.len()
            &&& before.utterance(scored) == trimmed((#[trigger] scored[v]).0)
            &&& forall|j: int|
                v < j < scored.len() ==> float_greater(scored[v].1, (#[trigger] scored[j]).1)
            &&& (forall|i: int|
                0 <= i < scored.len() ==> float_rank((#[trigger] scored[i]).1) is Some) ==> (
            forall|i: int|
                0 <= i < scored.len() ==> !float_greater((#[trigger] scored[i]).1, scored[v].1))
        };
    let filled = |a: Alternative| trimmed(a.text@).len() > 0;
    let kept = list@.filter(filled);
    assert(kept =~= filled_guesses(list@));
    let chosen = kept[v];
    assert(all[v] == (trimmed(chosen.text@), chosen.confidence));
    list@.lemma_filter_pred(filled, v);
    list@.lemma_filter_contains_rev(filled, chosen);
    let w = choose|w: int| 0 <= w < list@.len() && list@[w] == chosen;
    law_trimming_twice(chosen.text@);
    assert forall|i: int|
        0 <= i < list@.len() && trimmed((#[trigger] list@[i]).text@).len()
            > 0 implies !float_greater(
        worth(trimmed(list@[i].text@), list@[i].confidence),
        worth(trimmed(list@[w].text@), list@[w].confidence),
    ) by {
        let guess = (trimmed(list@[i].text@), list@[i].confidence);
        assert(all.contains(guess));
        let k = choose|k: int| 0 <= k < all.len() && all[k] == guess;
        assert(!float_greater(scored[k].1, scored[v].1));
    }
}

/// A single guess that is more than white space is what was said; otherwise what was last
/// heard in part is.
pub proof fn law_single_guess_is_taken<F: Fn(&Alternative) -> u32>(
    score: F,
    before: DialogState,
    text: String,
    step: Result<FinalStep, DialogError>,
    after: DialogState,
)
    requires
        takes_heard(score, before, Recognition::Single(text), step, after),
    ensures
        trimmed(text@).len() > 0 ==> takes_step(before, trimmed(text@), step, after),
        trimmed(text@).len() == 0 ==> takes_step(
            before,
            trimmed(before.last_partial),
            step,
            after,
        ),
{
    let all = candidates_of(Recognition::Single(text));
    law_single_guess(text);
    law_trimming_twice(text@);
    let scored = choose|scored: Seq<(Seq<char>, u32)>|
        {
            &&& #[trigger] are_scores(score, all, scored)
            &&& takes_step(before, before.utterance(scored), step, after)
        };
    law_what_was_said(before, scored);
    if trimmed(text@).len() > 0 {
        assert(scored.len() == 1);
        assert(scored[0].0 == all[0].0);
    }
}

/// After an answer the newest messages are the answer and before it the question; further
/// back come those that were remembered before, in order, as many as the settings allow.
/// The conversation goes on, and nothing is left of window and partial utterance.
pub proof fn law_newest_messages(before: DialogState, question: Seq<char>, answer: Seq<char>)
    ensures
        ({
            let after = before.answered(question, answer);
            let n = after.history.len() as int;
            let old_n = before.history.len() as int;
            let limit = before.cfg.max_history_turns as int * 2;
            &&& n == if old_n + 2 <= limit {
                old_n + 2
            } else {
                limit
            }
            &&& n >= 1 ==> after.history[n - 1] == ("assistant"@, answer)
            &&& n >= 2 ==> after.history[n - 2] == ("user"@, question)
            &&& forall|back: int|
                2 <= back < n ==> #[trigger] after.history[n - 1 - back] == before.history[old_n + 1
                    - back]
            &&& after.chat_mode
            &&& after.window_since is None
            &&& after.last_partial.len() == 0
            &&& after.cfg == before.cfg
        }),
{
}

/// A question that is answered is reported with its answer, and both are remembered; one
/// that is not leaves everything as it was.
pub proof fn law_finished_question(
    before: DialogState,
    question: String,
    reply: ChatReply,
    outcome: Result<DialogOutcome, DialogError>,
    after: DialogState,
)
    requires
        finishes(before, question, reply, outcome, after),
    ensures
        match outcome {
            Ok(o) => {
                &&& o matches DialogOutcome::Answered { question: q, answer }
                &&& q@ == question@
                &&& follows_from_reply(Ok(answer), reply)
                &&& after == before.answered(question@, answer@)
            },
            Err(error) => follows_from_reply(Err(error), reply) && after == before,
        },
{
}

/// A new question window begins with nothing: no conversation, no memory, no partial
/// utterance; only the settings stay. So does the time after a conversation, without a
/// window.
pub proof fn law_starting_afresh(state: DialogState, cfg: DialogConfig, now: int)
    ensures
        ({
            let opened = state.window_begun(now);
            &&& !opened.chat_mode
            &&& opened.window_since == Some(now)
            &&& opened.history.len() == 0
            &&& opened.last_partial.len() == 0
            &&& opened.cfg == state.cfg
        }),
        ({
            let over = state.cleared();
            &&& !over.chat_mode
            &&& over.window_since is None
            &&& over.history.len() == 0
            &&& over.last_partial.len() == 0
            &&& over.cfg == state.cfg
        }),
        ({
            let first = DialogState::initial(cfg);
            &&& !first.chat_mode
            &&& first.window_since is None
            &&& first.history.len() == 0
            &&& first.last_partial.len() == 0
            &&& first.cfg == cfg
        }),
{
}

/// The dialog is active in a conversation at any time, and otherwise exactly from the
/// opening of a window until as many milliseconds later as the settings say.
pub proof fn law_when_the_dialog_is_active(state: DialogState, now: int)
    ensures
        state.chat_mode ==> state.active_at(now) && !state.window_expired_at(now),
        !state.chat_mode && state.window_since is None ==> !state.active_at(now)
            && !state.window_expired_at(now),
        !state.chat_mode ==> (state.window_since matches Some(since) ==> {
            let passed = now - since;
            &&& state.active_at(now) <==> passed <= state.cfg.question_window_ms as int * 1_000_000
            &&& state.window_expired_at(now) <==> passed > state.cfg.question_window_ms as int
                * 1_000_000
        }),
{
}

/// A partial utterance is news exactly when it is more than white space and says
/// something else than the last one. It then takes the place of the last one; nothing else
/// changes.
pub proof fn law_partials(state: DialogState, partial: Seq<char>)
    ensures
        state.is_news(partial) <==> trimmed(partial).len() > 0 && trimmed(partial)
            != state.last_partial,
        ({
            let after = state.observed(partial);
            &&& after.last_partial == if trimmed(partial).len() > 0 {
                trimmed(partial)
            } else {
                state.last_partial
            }
            &&& after.chat_mode == state.chat_mode
            &&& after.window_since == state.window_since
            &&& after.history == state.history
            &&& after.cfg == state.cfg
        }),
{
}

} // verus!
