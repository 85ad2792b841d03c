use std::time::{Duration, Instant};

use marvin::chat::{ChatReply, DialogError};
use marvin::dialog::{DialogConfig, DialogManager, DialogOutcome, FinalStep, PendingQuestion};
use marvin::recognition::{Alternative, Recognition, ScoredCandidate};

fn settings(enabled: bool, turns: usize) -> DialogConfig {
    DialogConfig {
        enabled,
        api_key: "schluessel".to_string(),
        model: "modell".to_string(),
        base_url: "https://example.org/chat".to_string(),
        site_url: None,
        site_name: None,
        system_prompt: "sei kurz".to_string(),
        question_window_ms: 5000,
        max_history_turns: turns,
    }
}

fn heard(text: &str) -> Vec<ScoredCandidate> {
    vec![ScoredCandidate {
        text: text.to_string(),
        score: 1.0f32.to_bits(),
    }]
}

fn reply(text: &str) -> ChatReply {
    ChatReply::Received {
        status: 200,
        body: format!("{{\"choices\":[{{\"message\":{{\"content\":\"{text}\"}}}}]}}"),
    }
}

fn pending(step: FinalStep) -> PendingQuestion {
    match step {
        FinalStep::Ask(pending) => pending,
        other => panic!("{other:?}"),
    }
}

fn ignored(step: FinalStep) -> bool {
    matches!(step, FinalStep::Finished(DialogOutcome::NoAction))
}

fn ask(manager: &mut DialogManager, question: &str, answer: &str) -> PendingQuestion {
    let asked = pending(manager.decide_final(&heard(question)).unwrap());
    match manager.finish_question(asked.question.clone(), reply(answer)) {
        Ok(DialogOutcome::Answered { question: q, answer: a }) => {
            assert_eq!((q.as_str(), a.as_str()), (asked.question.as_str(), answer));
        }
        other => panic!("{other:?}"),
    }
    asked
}

#[test]
fn a_new_manager_is_idle() {
    let manager = DialogManager::new(settings(true, 2));
    assert_eq!(manager.config().model, "modell");
    assert!(!manager.is_active());
    assert!(!manager.is_window_expired());
    assert!(!manager.is_active_at(Instant::now()));
}

#[test]
fn the_question_window_opens_and_closes() {
    let mut manager = DialogManager::new(settings(true, 2));
    let start = Instant::now();
    manager.begin_question_window_at(start);
    for millis in [0, 1, 4999, 5000] {
        let now = start + Duration::from_millis(millis);
        assert!(manager.is_active_at(now));
        assert!(!manager.is_window_expired_at(now));
    }
    for late in [
        start + Duration::from_millis(5000) + Duration::from_nanos(1),
        start + Duration::from_millis(60_000),
    ] {
        assert!(!manager.is_active_at(late));
        assert!(manager.is_window_expired_at(late));
    }
    manager.clear_activity();
    assert!(!manager.is_active_at(start));
    assert!(!manager.is_window_expired_at(start + Duration::from_millis(60_000)));
}

#[test]
fn the_clock_opens_the_window() {
    let mut cfg = settings(true, 2);
    cfg.question_window_ms = u64::MAX;
    let mut manager = DialogManager::new(cfg);
    manager.begin_question_window();
    assert!(manager.is_active());
    assert!(!manager.is_window_expired());

    let mut cfg = settings(true, 2);
    cfg.question_window_ms = 0;
    let mut manager = DialogManager::new(cfg);
    manager.begin_question_window_at(Instant::now() - Duration::from_millis(5));
    assert!(!manager.is_active());
    assert!(manager.is_window_expired());
}

#[test]
fn partial_utterances_are_news_once() {
    let mut manager = DialogManager::new(settings(true, 2));
    assert!(!manager.observe_partial("  "));
    assert!(manager.observe_partial(" wie spät "));
    assert!(!manager.observe_partial("wie spät"));
    assert!(!manager.observe_partial(""));
    assert!(manager.observe_partial("wie spät ist"));
}

#[test]
fn a_partial_utterance_stands_in_for_missing_guesses() {
    let mut manager = DialogManager::new(settings(true, 2));
    assert!(ignored(manager.decide_final(&[]).unwrap()));
    manager.observe_partial("wie spät ist es");
    let asked = pending(manager.decide_final(&[]).unwrap());
    assert_eq!(asked.question, "wie spät ist es");
}

#[test]
fn questions_and_long_utterances_are_asked() {
    let mut manager = DialogManager::new(settings(true, 2));
    for said in ["wie spät", "marvin?", "mach mal das licht"] {
        let asked = pending(manager.decide_final(&heard(said)).unwrap());
        assert_eq!(asked.question, said);
        assert_eq!(asked.request.messages.len(), 2);
        assert_eq!(asked.request.messages[1].content, said);
    }
    for said in ["mach das licht", "danke das wars", "  "] {
        assert!(ignored(manager.decide_final(&heard(said)).unwrap()));
    }
}

#[test]
fn nothing_is_asked_without_a_service() {
    let mut manager = DialogManager::new(settings(false, 2));
    assert!(ignored(manager.decide_final(&heard("wie spät ist es?")).unwrap()));
}

#[test]
fn an_answer_starts_a_conversation() {
    let mut manager = DialogManager::new(settings(true, 2));
    manager.begin_question_window_at(Instant::now());
    manager.observe_partial("wie");
    ask(&mut manager, " wie spät ist es? ", "zwei");
    assert!(manager.is_active());
    assert!(!manager.is_window_expired_at(Instant::now() + Duration::from_secs(3600)));
    assert!(ignored(manager.decide_final(&[]).unwrap()));
}

#[test]
fn in_a_conversation_two_words_are_enough() {
    let mut manager = DialogManager::new(settings(true, 2));
    ask(&mut manager, "wie spät ist es?", "zwei");
    for said in ["alles klar", "ja", "danke", "wie?"] {
        assert!(ignored(manager.decide_final(&heard(said)).unwrap()), "{said}");
    }
    assert_eq!(
        pending(manager.decide_final(&heard("und morgen")).unwrap()).question,
        "und morgen"
    );
}

#[test]
fn an_exit_phrase_ends_a_conversation() {
    let mut manager = DialogManager::new(settings(true, 2));
    ask(&mut manager, "wie spät ist es?", "zwei");
    match manager.decide_final(&heard(" Danke, das wars! ")) {
        Ok(FinalStep::Finished(DialogOutcome::Exited { phrase })) => {
            assert_eq!(phrase, "Danke, das wars!");
        }
        other => panic!("{other:?}"),
    }
    assert!(!manager.is_active());
    let asked = pending(manager.decide_final(&heard("wie spät ist es?")).unwrap());
    assert_eq!(asked.request.messages.len(), 2);
}

#[test]
fn only_the_last_turns_are_remembered() {
    let mut manager = DialogManager::new(settings(true, 2));
    ask(&mut manager, "wie eins?", "a1");
    ask(&mut manager, "wie zwei?", "a2");
    ask(&mut manager, "wie drei?", "a3");
    let asked = pending(manager.decide_final(&heard("wie vier?")).unwrap());
    let got: Vec<(&str, &str)> = asked
        .request
        .messages
        .iter()
        .map(|m| (m.role.as_str(), m.content.as_str()))
        .collect();
    assert_eq!(
        got,
        vec![
            ("system", "sei kurz"),
            ("user", "wie zwei?"),
            ("assistant", "a2"),
            ("user", "wie drei?"),
            ("assistant", "a3"),
            ("user", "wie vier?"),
        ]
    );
}

#[test]
fn history_limits_at_the_ends_of_their_range() {
    let mut manager = DialogManager::new(settings(true, 0));
    ask(&mut manager, "wie eins?", "a1");
    let asked = pending(manager.decide_final(&heard("wie zwei?")).unwrap());
    assert_eq!(asked.request.messages.len(), 2);

    let mut manager = DialogManager::new(settings(true, usize::MAX));
    ask(&mut manager, "wie eins?", "a1");
    ask(&mut manager, "wie zwei?", "a2");
    let asked = pending(manager.decide_final(&heard("wie drei?")).unwrap());
    assert_eq!(asked.request.messages.len(), 6);
}

#[test]
fn failures_leave_the_conversation_as_it_was() {
    let mut manager = DialogManager::new(settings(true, 2));
    let asked = pending(manager.decide_final(&heard("wie spät ist es?")).unwrap());
    assert!(matches!(
        manager.finish_question(asked.question, ChatReply::NotSent { causes: vec![] }),
        Err(DialogError::RequestFailed { .. })
    ));
    assert!(!manager.is_active());
    let asked = pending(manager.decide_final(&heard("wie spät ist es?")).unwrap());
    assert_eq!(asked.request.messages.len(), 2);

    let mut cfg = settings(true, 2);
    cfg.api_key = "\n".to_string();
    let mut manager = DialogManager::new(cfg);
    assert!(matches!(
        manager.decide_final(&heard("wie spät ist es?")),
        Err(DialogError::InvalidApiKey(_))
    ));
}

#[test]
fn a_new_window_forgets_the_conversation() {
    let mut manager = DialogManager::new(settings(true, 2));
    ask(&mut manager, "wie spät ist es?", "zwei");
    let start = Instant::now();
    manager.begin_question_window_at(start);
    assert!(!manager.is_active_at(start + Duration::from_millis(5001)));
    let asked = pending(manager.decide_final(&heard("wie spät ist es?")).unwrap());
    assert_eq!(asked.request.messages.len(), 2);
}

#[test]
fn the_best_guess_is_processed() {
    let mut manager = DialogManager::new(settings(true, 2));
    let result = Recognition::Multiple(vec![
        Alternative {
            text: "ziel spät ist es".to_string(),
            confidence: 0.2f32.to_bits(),
        },
        Alternative {
            text: " wie spät ist es ".to_string(),
            confidence: 0.9f32.to_bits(),
        },
        Alternative {
            text: "  ".to_string(),
            confidence: 5.0f32.to_bits(),
        },
    ]);
    let step = manager
        .process_final(result, |guess: &Alternative| guess.confidence)
        .unwrap();
    assert_eq!(pending(step).question, "wie spät ist es");
    manager.record_answer("wie spät ist es", "zwei");
    let step = manager
        .process_final(
            Recognition::Single("danke das war es".to_string()),
            |guess: &Alternative| guess.confidence,
        )
        .unwrap();
    assert!(matches!(
        step,
        FinalStep::Finished(DialogOutcome::Exited { .. })
    ));
}
