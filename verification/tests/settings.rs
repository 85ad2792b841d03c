use marvin::settings::{
    dialog_config, env_flag, env_u32, env_u64, env_usize, is_on_word, recognizer_grammar,
    spoken_answer_limit, tts_config, wake_settings, Variables,
};

fn unset() -> Variables {
    Variables {
        wake_word: None,
        wake_word_aliases: None,
        wake_fuzzy_distance: None,
        wake_use_grammar: None,
        wake_cooldown_ms: None,
        debug_wakeword: None,
        vosk_model_path: None,
        alsa_device: None,
        alsa_output_device: None,
        sample_rate: None,
        tts_enabled: None,
        tts_text: None,
        tts_voice: None,
        tts_speed: None,
        tts_cooldown_ms: None,
        openrouter_api_key: None,
        openrouter_model: None,
        openrouter_base_url: None,
        openrouter_site_url: None,
        openrouter_site_name: None,
        openrouter_system_prompt: None,
        openrouter_max_history_turns: None,
        openrouter_tts_max_chars: None,
        question_window_ms: None,
    }
}

fn set(text: &str) -> Option<String> {
    Some(text.to_string())
}

#[test]
fn flags_are_switched_on_by_words() {
    for word in ["1", "true", "TRUE", "Yes", "on", "ON"] {
        assert!(env_flag(&set(word), false), "{word}");
    }
    for word in ["0", "false", "", " 1", "ja", "no"] {
        assert!(!env_flag(&set(word), true), "{word}");
    }
    assert!(env_flag(&None, true));
    assert!(!env_flag(&None, false));
    assert!(is_on_word("on"));
    assert!(!is_on_word("ON"));
}

#[test]
fn numbers_fall_back_to_their_defaults() {
    assert_eq!(env_u64(&set("12"), 5), 12);
    assert_eq!(env_u64(&set("zwölf"), 5), 5);
    assert_eq!(env_u64(&None, 5), 5);
    assert_eq!(env_u32(&set("4294967295"), 5), u32::MAX);
    assert_eq!(env_u32(&set("4294967296"), 5), 5);
    assert_eq!(env_usize(&set("3"), 1), 3);
    assert_eq!(env_usize(&set("-3"), 1), 1);
}

#[test]
fn listening_has_its_defaults() {
    let s = wake_settings(&unset());
    assert_eq!(s.wake_word, "marvin");
    assert_eq!(s.variants, vec!["marvin"]);
    assert_eq!(s.fuzzy_distance, 1);
    assert!(s.use_grammar);
    assert_eq!(s.cooldown_ms, 0);
    assert!(!s.debug);
    assert_eq!(s.model_path, "/models/vosk-model-small-de-0.15");
    assert_eq!(s.alsa_device, "default");
    assert_eq!(s.sample_rate, 16_000);
}

#[test]
fn listening_follows_the_variables() {
    let mut vars = unset();
    vars.wake_word = set("Jarvis");
    vars.wake_word_aliases = set("tscharvis,Dscharvis");
    vars.wake_fuzzy_distance = set("2");
    vars.wake_use_grammar = set("0");
    vars.wake_cooldown_ms = set("1500");
    vars.debug_wakeword = set("1");
    vars.vosk_model_path = set("/m");
    vars.alsa_device = set("hw:1,0");
    vars.sample_rate = set("48000");
    let s = wake_settings(&vars);
    assert_eq!(s.wake_word, "Jarvis");
    assert_eq!(s.variants, vec!["jarvis", "tscharvis", "dscharvis"]);
    assert_eq!((s.fuzzy_distance, s.cooldown_ms), (2, 1500));
    assert!(!s.use_grammar);
    assert!(s.debug);
    assert_eq!((s.model_path.as_str(), s.alsa_device.as_str()), ("/m", "hw:1,0"));
    assert_eq!(s.sample_rate, 48_000);
}

#[test]
fn speaking_has_its_defaults() {
    let mut vars = unset();
    let c = tts_config(&vars, "hw:1,0");
    assert!(c.enabled);
    assert_eq!(c.text, "ja hallo hier bin ich");
    assert_eq!(c.voice, "de");
    assert_eq!(c.speed, 165);
    assert_eq!(c.output_device, "hw:1,0");
    assert_eq!(c.cooldown_ms, 3000);

    vars.alsa_output_device = set("  ");
    assert_eq!(tts_config(&vars, "hw:1,0").output_device, "hw:1,0");
    vars.alsa_output_device = set(" plughw:0,0");
    assert_eq!(tts_config(&vars, "hw:1,0").output_device, " plughw:0,0");
    vars.tts_enabled = set("off");
    vars.tts_text = set("ja");
    vars.tts_voice = set("en");
    vars.tts_speed = set("200");
    vars.tts_cooldown_ms = set("0");
    let c = tts_config(&vars, "x");
    assert!(!c.enabled);
    assert_eq!((c.text.as_str(), c.voice.as_str()), ("ja", "en"));
    assert_eq!((c.speed, c.cooldown_ms), (200, 0));
}

#[test]
fn a_key_switches_the_dialog_on() {
    let mut vars = unset();
    assert!(!dialog_config(&vars).enabled);
    vars.openrouter_api_key = set(" ");
    assert!(!dialog_config(&vars).enabled);
    vars.openrouter_api_key = set("schluessel");
    vars.openrouter_model = set("modell");
    vars.openrouter_base_url = set("https://example.org");
    vars.openrouter_site_url = set("https://example.com");
    vars.openrouter_site_name = set("");
    vars.openrouter_system_prompt = set("sei kurz");
    vars.openrouter_max_history_turns = set("3");
    vars.openrouter_tts_max_chars = set("99");
    vars.question_window_ms = set("2500");
    let cfg = dialog_config(&vars);
    assert!(cfg.enabled);
    assert_eq!(cfg.api_key, "schluessel");
    assert_eq!(cfg.model, "modell");
    assert_eq!(cfg.base_url, "https://example.org");
    assert_eq!(cfg.site_url, set("https://example.com"));
    assert_eq!(cfg.site_name, None);
    assert_eq!(cfg.system_prompt, "sei kurz");
    assert_eq!((cfg.max_history_turns, cfg.question_window_ms), (3, 2500));
    assert_eq!(spoken_answer_limit(&vars), 99);
}

#[test]
fn the_grammar_knows_the_unknown() {
    let mut settings = wake_settings(&unset());
    settings.variants = vec!["marvin".to_string(), "hey marvin".to_string()];
    assert!(settings.use_grammar);
    assert_eq!(
        recognizer_grammar(&settings).unwrap(),
        vec!["marvin", "hey marvin", "[unk]"]
    );
    settings.variants.clear();
    assert_eq!(recognizer_grammar(&settings).unwrap(), vec!["[unk]"]);
    settings.use_grammar = false;
    assert!(recognizer_grammar(&settings).is_none());
}
