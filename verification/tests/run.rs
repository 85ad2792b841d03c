use std::time::{Duration, Instant};

use marvin::chat::ChatReply;
use marvin::dialog::{DialogManager, DialogOutcome, FinalStep};
use marvin::listener::{open_dialog, route_speech, Acknowledgement, Route, WakeListener};
use marvin::recognition::{Alternative, Recognition};
use marvin::settings::{dialog_config, tts_config, wake_settings, Variables};

fn variables() -> Variables {
    Variables {
        wake_word: None,
        wake_word_aliases: Some("marwin,marvyn".to_string()),
        wake_fuzzy_distance: None,
        wake_use_grammar: None,
        wake_cooldown_ms: None,
        debug_wakeword: None,
        vosk_model_path: None,
        alsa_device: None,
        alsa_output_device: None,
        sample_rate: None,
        tts_enabled: None,
        tts_text: None,
        tts_voice: None,
        tts_speed: None,
        tts_cooldown_ms: None,
        openrouter_api_key: Some("schluessel".to_string()),
        openrouter_model: None,
        openrouter_base_url: None,
        openrouter_site_url: None,
        openrouter_site_name: None,
        openrouter_system_prompt: None,
        openrouter_max_history_turns: None,
        openrouter_tts_max_chars: None,
        question_window_ms: Some("4000".to_string()),
    }
}

#[test]
fn a_typical_run() {
    let vars = variables();
    let settings = wake_settings(&vars);
    let tts = tts_config(&vars, "default");
    let mut listener = WakeListener::new(&settings, tts.cooldown_ms);
    let mut dialog = DialogManager::new(dialog_config(&vars));
    let start = Instant::now();
    let at = |millis: u64| start + Duration::from_millis(millis);
    let score = |guess: &Alternative| guess.confidence;

    assert!(matches!(route_speech(&mut dialog, at(0)), Route::Wake));
    let report = listener.on_final(&["Hey Märvin".to_string()], at(0));
    assert_eq!(report.hit.as_ref().unwrap().info.variant, "marvin");
    assert!(matches!(report.acknowledge, Acknowledgement::Speak));
    listener.spoken(&Ok(()), at(900));
    assert!(open_dialog(&mut dialog, &report, at(1000)));

    assert!(matches!(route_speech(&mut dialog, at(3000)), Route::Dialog));
    assert!(dialog.observe_partial("wie wird"));
    let step = dialog
        .process_final(
            Recognition::Single("wie wird das Wetter".to_string()),
            score,
        )
        .unwrap();
    let question = match step {
        FinalStep::Ask(pending) => {
            assert_eq!(pending.request.messages.len(), 2);
            pending.question
        }
        other => panic!("{other:?}"),
    };
    let reply = ChatReply::Received {
        status: 200,
        body: "{\"choices\":[{\"message\":{\"content\":\"Sonnig.\"}}]}".to_string(),
    };
    match dialog.finish_question(question, reply) {
        Ok(DialogOutcome::Answered { question, answer }) => {
            assert_eq!(question, "wie wird das Wetter");
            assert_eq!(answer, "Sonnig.");
        }
        other => panic!("{other:?}"),
    }

    assert!(matches!(route_speech(&mut dialog, at(600_000)), Route::Dialog));
    let step = dialog
        .process_final(Recognition::Single("Danke, das wars".to_string()), score)
        .unwrap();
    assert!(matches!(
        step,
        FinalStep::Finished(DialogOutcome::Exited { .. })
    ));
    assert!(matches!(route_speech(&mut dialog, at(600_001)), Route::Wake));
}
