use std::time::{Duration, Instant};

use marvin::dialog::{DialogConfig, DialogManager};
use marvin::listener::{
    decode_samples, open_dialog, route_speech, Acknowledgement, AnswerTurn, AudioEvent, AudioStep,
    Route, WakeListener,
};
use marvin::settings::WakeSettings;
use marvin::speech::SpeechError;

fn listener(debug: bool, wake_cooldown_ms: u64, tts_cooldown_ms: u64) -> WakeListener {
    let settings = WakeSettings {
        wake_word: "Marvin".to_string(),
        variants: vec!["marvin".to_string(), "computer".to_string()],
        fuzzy_distance: 1,
        use_grammar: true,
        cooldown_ms: wake_cooldown_ms,
        debug,
        model_path: "/m".to_string(),
        alsa_device: "default".to_string(),
        sample_rate: 16_000,
    };
    WakeListener::new(&settings, tts_cooldown_ms)
}

fn strings(items: &[&str]) -> Vec<String> {
    items.iter().map(|s| s.to_string()).collect()
}

#[test]
fn samples_are_decoded_low_byte_first() {
    let samples: Vec<i16> = vec![0, 1, -1, 255, 256, -256, 12345, i16::MAX, i16::MIN];
    let mut bytes: Vec<u8> = samples.iter().flat_map(|s| s.to_le_bytes()).collect();
    assert_eq!(decode_samples(&bytes), samples);
    bytes.push(7);
    assert_eq!(decode_samples(&bytes), samples);
    assert!(decode_samples(&[]).is_empty());
    assert!(decode_samples(&[9]).is_empty());
}

#[test]
fn the_recorder_is_followed() {
    let mut l = listener(true, 0, 3000);
    assert!(matches!(l.on_audio(AudioEvent::Failed), AudioStep::RetryAfter(100)));
    assert!(matches!(l.on_audio(AudioEvent::Data(Vec::new())), AudioStep::Stop));
    assert_eq!(l.chunk_count(), 0);
    for n in 1..=50u64 {
        match l.on_audio(AudioEvent::Data(vec![1, 0, 2])) {
            AudioStep::Recognize { samples, report } => {
                assert_eq!(samples, vec![1]);
                assert_eq!(report, if n % 25 == 0 { Some(n) } else { None });
            }
            other => panic!("{other:?}"),
        }
    }
    assert_eq!(l.chunk_count(), 50);

    let mut quiet = listener(false, 0, 3000);
    assert!(!quiet.debug());
    for _ in 0..25 {
        assert!(matches!(
            quiet.on_audio(AudioEvent::Data(vec![0, 0])),
            AudioStep::Recognize { report: None, .. }
        ));
    }
}

#[test]
fn the_first_version_with_the_wake_word_counts() {
    let mut l = listener(false, 0, 3000);
    let now = Instant::now();
    let report = l.on_final(
        &strings(&["  ", "hallo du", " Hey MARWIN! ", "computer"]),
        now,
    );
    let seen: Vec<(&str, &str, bool)> = report
        .checked
        .iter()
        .map(|c| (c.text.as_str(), c.normalized.as_str(), c.matched))
        .collect();
    assert_eq!(
        seen,
        vec![("hallo du", "hallo du", false), ("Hey MARWIN!", "hey marwin", true)]
    );
    let hit = report.hit.unwrap();
    assert_eq!(hit.text, "Hey MARWIN!");
    assert_eq!((hit.info.variant.as_str(), hit.info.method), ("marvin", "fuzzy-token"));
    assert!(matches!(report.acknowledge, Acknowledgement::Speak));
}

#[test]
fn speech_without_the_wake_word_is_passed_over() {
    let mut l = listener(false, 0, 3000);
    let report = l.on_final(&strings(&["guten tag", "gute nacht"]), Instant::now());
    assert_eq!(report.checked.len(), 2);
    assert!(report.hit.is_none());
    assert!(matches!(report.acknowledge, Acknowledgement::NotDue));
    let report = l.on_partial("guten tag", Instant::now());
    assert!(report.hit.is_none());
    assert!(l.on_final(&[], Instant::now()).checked.is_empty());
}

#[test]
fn acknowledgements_cool_down() {
    let mut l = listener(false, 0, 3000);
    let start = Instant::now();
    let at = |millis: u64| start + Duration::from_millis(millis);
    assert!(matches!(
        l.on_partial("marvin", at(0)).acknowledge,
        Acknowledgement::Speak
    ));
    assert!(matches!(
        l.on_partial("marvin", at(10)).acknowledge,
        Acknowledgement::Speak
    ));
    l.spoken(&Ok(()), at(20));
    let report = l.on_partial("marvin", at(3019));
    assert!(report.hit.is_some());
    assert!(matches!(report.acknowledge, Acknowledgement::CoolingDown));
    assert!(matches!(
        l.on_partial("marvin", at(3020)).acknowledge,
        Acknowledgement::Speak
    ));
    let mut eager = listener(false, 0, 0);
    eager.spoken(&Ok(()), at(100));
    assert!(matches!(
        eager.on_partial("marvin", at(50)).acknowledge,
        Acknowledgement::Speak
    ));
}

#[test]
fn a_failed_acknowledgement_starts_no_cooldown() {
    let mut l = listener(false, 0, 3000);
    let start = Instant::now();
    let at = |millis: u64| start + Duration::from_millis(millis);
    l.spoken(&Err(SpeechError::PlaybackFailed), at(10));
    assert!(matches!(
        l.on_partial("marvin", at(20)).acknowledge,
        Acknowledgement::Speak
    ));
    l.spoken(&Ok(()), at(30));
    l.spoken(&Err(SpeechError::SynthesisNotStarted { causes: vec![] }), at(40));
    for millis in [50, 1000, 3029] {
        assert!(matches!(
            l.on_final(&["marvin".to_string()], at(millis)).acknowledge,
            Acknowledgement::CoolingDown
        ));
    }
    assert!(matches!(
        l.on_final(&["marvin".to_string()], at(3030)).acknowledge,
        Acknowledgement::Speak
    ));
}

#[test]
fn answers_wait_for_the_cooldown() {
    let mut l = listener(false, 0, 3000);
    let start = Instant::now();
    let at = |micros: u64| start + Duration::from_micros(micros);
    assert!(matches!(l.on_answer(true, at(0)), AnswerTurn::Speak));
    l.spoken(&Ok(()), at(1_000_000));
    assert!(matches!(l.on_answer(true, at(1_000_000)), AnswerTurn::RetryAfter(3000)));
    assert!(matches!(l.on_answer(true, at(1_500_000)), AnswerTurn::RetryAfter(2500)));
    assert!(matches!(l.on_answer(true, at(1_500_001)), AnswerTurn::RetryAfter(2500)));
    assert!(matches!(l.on_answer(true, at(3_999_999)), AnswerTurn::RetryAfter(1)));
    assert!(matches!(l.on_answer(true, at(4_000_000)), AnswerTurn::Speak));
    assert!(matches!(l.on_answer(true, at(0)), AnswerTurn::RetryAfter(3000)));
    assert!(matches!(l.on_answer(false, at(1_000_000)), AnswerTurn::Speak));
    let eager = listener(false, 0, 0);
    assert!(matches!(eager.on_answer(true, at(0)), AnswerTurn::Speak));
}

#[test]
fn answers_keep_acknowledgements_waiting() {
    let mut l = listener(false, 0, 3000);
    let start = Instant::now();
    let at = |millis: u64| start + Duration::from_millis(millis);
    assert!(matches!(l.on_answer(true, at(0)), AnswerTurn::Speak));
    l.spoken(&Ok(()), at(100));
    assert!(matches!(
        l.on_partial("marvin", at(3099)).acknowledge,
        Acknowledgement::CoolingDown
    ));
    assert!(matches!(
        l.on_partial("marvin", at(3100)).acknowledge,
        Acknowledgement::Speak
    ));
}

#[test]
fn a_recognition_locks_out_others_whatever_happens() {
    let mut l = listener(true, 1000, 0);
    let start = Instant::now();
    let at = |millis: u64| start + Duration::from_millis(millis);
    assert!(l.on_partial("marvin", at(0)).hit.is_some());
    l.spoken(&Ok(()), at(100));
    l.on_audio(AudioEvent::Data(vec![1, 0]));
    assert!(l.on_partial("guten tag", at(200)).hit.is_none());
    assert!(l.on_final(&["computer".to_string()], at(500)).hit.is_none());
    l.spoken(&Err(SpeechError::PlaybackFailed), at(600));
    assert!(l.on_final(&["marvin".to_string()], at(999)).hit.is_none());
    assert!(l.on_final(&["marvin".to_string()], at(1000)).hit.is_some());
}

#[test]
fn recognitions_cool_down_on_their_own() {
    let mut l = listener(false, 1000, 0);
    let start = Instant::now();
    let at = |millis: u64| start + Duration::from_millis(millis);
    assert!(l.on_partial("marvin", at(0)).hit.is_some());
    let early = l.on_final(&strings(&["marvin"]), at(999));
    assert!(early.hit.is_none());
    assert_eq!(early.checked.len(), 1);
    assert!(early.checked[0].matched);
    assert!(matches!(early.acknowledge, Acknowledgement::NotDue));
    assert!(l.on_final(&strings(&["marvin"]), at(1000)).hit.is_some());
    assert!(l.on_partial("marvin", at(1999)).hit.is_none());
    assert!(l.on_partial("marvin", at(2000)).hit.is_some());
}

#[test]
fn partial_utterances_are_reported_once_in_detail() {
    let mut l = listener(true, 0, 0);
    let now = Instant::now();
    let report = l.on_partial("  Hallo, ", now);
    assert_eq!(report.checked.len(), 1);
    assert_eq!(report.checked[0].text, "Hallo,");
    assert_eq!(report.checked[0].normalized, "hallo");
    assert!(!report.checked[0].matched);
    assert!(l.on_partial("Hallo,", now).checked.is_empty());
    assert!(l.on_partial("   ", now).checked.is_empty());
    let report = l.on_partial("hallo computer", now);
    assert!(report.checked[0].matched);
    assert_eq!(report.hit.unwrap().info.method, "contains");
    assert!(l.on_partial("hallo computer", now).hit.is_some());

    let mut quiet = listener(false, 0, 0);
    assert!(quiet.on_partial("hallo computer", now).checked.is_empty());
}

#[test]
fn speech_is_routed_by_the_question_window() {
    let mut dialog = DialogManager::new(DialogConfig {
        enabled: true,
        api_key: String::new(),
        model: String::new(),
        base_url: String::new(),
        site_url: None,
        site_name: None,
        system_prompt: String::new(),
        question_window_ms: 1000,
        max_history_turns: 1,
    });
    let start = Instant::now();
    let at = |millis: u64| start + Duration::from_millis(millis);
    assert!(matches!(route_speech(&mut dialog, at(0)), Route::Wake));
    dialog.begin_question_window_at(at(0));
    assert!(matches!(route_speech(&mut dialog, at(1000)), Route::Dialog));
    assert!(dialog.is_window_expired_at(at(1001)));
    assert!(matches!(route_speech(&mut dialog, at(1001)), Route::Wake));
    assert!(!dialog.is_window_expired_at(at(1001)));
    dialog.record_answer("wie?", "so");
    assert!(matches!(route_speech(&mut dialog, at(999_999)), Route::Dialog));
}

#[test]
fn the_wake_word_opens_the_dialog() {
    let config = |enabled: bool| DialogConfig {
        enabled,
        api_key: String::new(),
        model: String::new(),
        base_url: String::new(),
        site_url: None,
        site_name: None,
        system_prompt: String::new(),
        question_window_ms: 1000,
        max_history_turns: 1,
    };
    let now = Instant::now();
    let mut l = listener(false, 0, 0);
    let silence = l.on_partial("hallo", now);
    let hit = l.on_partial("hallo marvin", now);
    let mut dialog = DialogManager::new(config(true));
    assert!(!open_dialog(&mut dialog, &silence, now));
    assert!(!dialog.is_active_at(now));
    assert!(open_dialog(&mut dialog, &hit, now));
    assert!(dialog.is_active_at(now + Duration::from_millis(1000)));
    assert!(!dialog.is_active_at(now + Duration::from_millis(1001)));
    let mut dialog = DialogManager::new(config(false));
    assert!(!open_dialog(&mut dialog, &hit, now));
    assert!(!dialog.is_active_at(now));
}
