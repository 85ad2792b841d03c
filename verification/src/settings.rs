//! The settings, as they are given by the variables of the environment.
use vstd::prelude::*;

use crate::dialog::DialogConfig;
use crate::numbers::{decimal_value, parse_u64};
use crate::speech::TtsConfig;
use crate::text::{copied_texts, same_text, texts, trim, trimmed};
use crate::wakeword::{parse_wake_variants, wake_variants};

verus! {

/// A text in lower case.
pub uninterp spec fn lowercase_text(s: Seq<char>) -> Seq<char>;

/// `str::to_lowercase` gives a text in lower case, by the rules of Unicode.
pub assume_specification[ str::to_lowercase ](s: &str) -> (out: String)
    ensures
        out@ == lowercase_text(s@),
;

/// The words that switch something on.
pub open spec fn on_word(s: Seq<char>) -> bool {
    s == "1"@ || s == "true"@ || s == "yes"@ || s == "on"@
}

/// Whether a word, in lower case, switches something on.
pub fn is_on_word(word: &str) -> (r: bool)
    ensures
        r == on_word(word@),
{
    same_text(word, "1") || same_text(word, "true") || same_text(word, "yes") || same_text(
        word,
        "on",
    )
}

/// The characters of a text that may be missing.
pub open spec fn text_of(value: Option<String>) -> Option<Seq<char>> {
    match value {
        Some(text) => Some(text@),
        None => None,
    }
}

/// Whether a variable switches something on.
pub open spec fn flag_of(value: Option<Seq<char>>, default: bool) -> bool {
    match value {
        Some(text) => on_word(lowercase_text(text)),
        None => default,
    }
}

/// The number that a variable stands for; the default if it stands for none, or
/// for one beyond `max`.
pub open spec fn number_of(value: Option<Seq<char>>, max: int, default: int) -> int {
    match value {
        Some(text) => match decimal_value(text) {
            Some(n) if n <= max => n as int,
            _ => default,
        },
        None => default,
    }
}

/// The text of a variable, or the default.
pub open spec fn text_or(value: Option<Seq<char>>, default: Seq<char>) -> Seq<char> {
    match value {
        Some(text) => text,
        None => default,
    }
}

/// The text of a variable, if it is more than white space.
pub open spec fn filled(value: Option<Seq<char>>) -> Option<Seq<char>> {
    match value {
        Some(text) if trimmed(text).len() > 0 => Some(text),
        _ => None,
    }
}

/// Whether a variable switches something on.
pub fn env_flag(value: &Option<String>, default: bool) -> (r: bool)
    ensures
        r == flag_of(text_of(*value), default),
{
    match value {
        Some(text) => {
            let lower = text.as_str().to_lowercase();
            is_on_word(lower.as_str())
        },
        None => default,
    }
}

/// The number that a variable stands for, up to the largest `u64`.
pub fn env_u64(value: &Option<String>, default: u64) -> (n: u64)
    ensures
        n == number_of(text_of(*value), u64::MAX as int, default as int),
{
    match value {
        Some(text) => match parse_u64(text.as_str()) {
            Some(n) => n,
            None => default,
        },
        None => default,
    }
}

/// The number that a variable stands for, up to the largest `u32`.
pub fn env_u32(value: &Option<String>, default: u32) -> (n: u32)
    ensures
        n == number_of(text_of(*value), u32::MAX as int, default as int),
{
    match value {
        Some(text) => match parse_u64(text.as_str()) {
            Some(n) => if n <= u32::MAX as u64 {
                n as u32
            } else {
                default
            },
            None => default,
        },
        None => default,
    }
}

/// The number that a variable stands for, up to the largest `usize`.
pub fn env_usize(value: &Option<String>, default: usize) -> (n: usize)
    ensures
        n == number_of(text_of(*value), usize::MAX as int, default as int),
{
    match value {
        Some(text) => match parse_u64(text.as_str()) {
            Some(n) => if n <= usize::MAX as u64 {
                n as usize
            } else {
                default
            },
            None => default,
        },
        None => default,
    }
}

/// The text of a variable, or the default.
pub fn env_text(value: &Option<String>, default: &str) -> (text: String)
    ensures
        text@ == text_or(text_of(*value), default@),
{
    match value {
        Some(text) => text.clone(),
        None => default.to_owned(),
    }
}

/// The text of a variable, if it is more than white space.
pub fn env_filled(value: &Option<String>) -> (text: Option<String>)
    ensures
        text_of(text) == filled(text_of(*value)),
{
    match value {
        Some(text) => {
            let rest = trim(text.as_str());
            if rest.as_str().is_empty() {
                None
            } else {
                Some(text.clone())
            }
        },
        None => None,
    }
}

/// The variables of the environment, as far as they are set.
#[derive(Debug)]
pub struct Variables {
    pub wake_word: Option<String>,
    pub wake_word_aliases: Option<String>,
    pub wake_fuzzy_distance: Option<String>,
    pub wake_use_grammar: Option<String>,
    pub wake_cooldown_ms: Option<String>,
    pub debug_wakeword: Option<String>,
    pub vosk_model_path: Option<String>,
    pub alsa_device: Option<String>,
    pub alsa_output_device: Option<String>,
    pub sample_rate: Option<String>,
    pub tts_enabled: Option<String>,
    pub tts_text: Option<String>,
    pub tts_voice: Option<String>,
    pub tts_speed: Option<String>,
    pub tts_cooldown_ms: Option<String>,
    pub openrouter_api_key: Option<String>,
    pub openrouter_model: Option<String>,
    pub openrouter_base_url: Option<String>,
    pub openrouter_site_url: Option<String>,
    pub openrouter_site_name: Option<String>,
    pub openrouter_system_prompt: Option<String>,
    pub openrouter_max_history_turns: Option<String>,
    pub openrouter_tts_max_chars: Option<String>,
    pub question_window_ms: Option<String>,
}

/// How the assistant listens.
#[derive(Debug)]
pub struct WakeSettings {
    /// The wake word.
    pub wake_word: String,
    /// The wake word and its aliases, in normal form.
    pub variants: Vec<String>,
    /// How many edits away from a variant a heard word may be.
    pub fuzzy_distance: usize,
    /// Whether the recogniser listens for the variants only.
    pub use_grammar: bool,
    /// How long after a recognition further ones are passed over.
    pub cooldown_ms: u64,
    /// Whether details are reported.
    pub debug: bool,
    /// Where the model of the recogniser lies.
    pub model_path: String,
    /// The device to record from, if it can be used.
    pub alsa_device: String,
    /// How many samples are recorded per second.
    pub sample_rate: u32,
}

/// Whether the assistant listens as the variables say.
pub open spec fn are_wake_settings(vars: Variables, settings: WakeSettings) -> bool {
    &&& settings.wake_word@ == text_or(text_of(vars.wake_word), "marvin"@)
    &&& texts(settings.variants@) == wake_variants(
        settings.wake_word@,
        text_or(text_of(vars.wake_word_aliases), ""@),
    )
    &&& settings.fuzzy_distance == number_of(
        text_of(vars.wake_fuzzy_distance),
        usize::MAX as int,
        1,
    )
    &&& settings.use_grammar == flag_of(text_of(vars.wake_use_grammar), true)
    &&& settings.cooldown_ms == number_of(text_of(vars.wake_cooldown_ms), u64::MAX as int, 0)
    &&& settings.debug == flag_of(text_of(vars.debug_wakeword), false)
    &&& settings.model_path@ == text_or(
        text_of(vars.vosk_model_path),
        "/models/vosk-model-small-de-0.15"@,
    )
    &&& settings.alsa_device@ == text_or(text_of(vars.alsa_device), "default"@)
    &&& settings.sample_rate == number_of(text_of(vars.sample_rate), u32::MAX as int, 16_000)
}

/// How the assistant listens, given the variables.
pub fn wake_settings(vars: &Variables) -> (settings: WakeSettings)
    ensures
        are_wake_settings(*vars, settings),
{
    let wake_word = env_text(&vars.wake_word, "marvin");
    let aliases = env_text(&vars.wake_word_aliases, "");
    let variants = parse_wake_variants(wake_word.as_str(), aliases.as_str());
    WakeSettings {
        wake_word,
        variants,
        fuzzy_distance: env_usize(&vars.wake_fuzzy_distance, 1),
        use_grammar: env_flag(&vars.wake_use_grammar, true),
        cooldown_ms: env_u64(&vars.wake_cooldown_ms, 0),
        debug: env_flag(&vars.debug_wakeword, false),
        model_path: env_text(&vars.vosk_model_path, "/models/vosk-model-small-de-0.15"),
        alsa_device: env_text(&vars.alsa_device, "default"),
        sample_rate: env_u32(&vars.sample_rate, 16_000),
    }
}

/// Whether the assistant speaks as the variables say, and on which device.
pub open spec fn is_tts_config(
    vars: Variables,
    active_device: Seq<char>,
    config: TtsConfig,
) -> bool {
    &&& config.enabled == flag_of(text_of(vars.tts_enabled), true)
    &&& config.text@ == text_or(text_of(vars.tts_text), "ja hallo hier bin ich"@)
    &&& config.voice@ == text_or(text_of(vars.tts_voice), "de"@)
    &&& config.speed == number_of(text_of(vars.tts_speed), u32::MAX as int, 165)
    &&& config.output_device@ == text_or(filled(text_of(vars.alsa_output_device)), active_device)
    &&& config.cooldown_ms == number_of(text_of(vars.tts_cooldown_ms), u64::MAX as int, 3000)
}

/// How the assistant speaks, given the variables and the device it records from.
/// It speaks on that device unless a variable names another.
pub fn tts_config(vars: &Variables, active_device: &str) -> (config: TtsConfig)
    ensures
        is_tts_config(*vars, active_device@, config),
{
    let output = env_filled(&vars.alsa_output_device);
    TtsConfig {
        enabled: env_flag(&vars.tts_enabled, true),
        text: env_text(&vars.tts_text, "ja hallo hier bin ich"),
        voice: env_text(&vars.tts_voice, "de"),
        speed: env_u32(&vars.tts_speed, 165),
        output_device: env_text(&output, active_device),
        cooldown_ms: env_u64(&vars.tts_cooldown_ms, 3000),
    }
}

/// The instructions with which conversations begin, unless a variable gives
/// others.
pub const SYSTEM_PROMPT: &'static str =
    "Du bist Marvin, ein Sprachassistent. Antworte kurz und auf Deutsch.";

/// Whether the assistant leads conversations as the variables say.
pub open spec fn is_dialog_config(vars: Variables, cfg: DialogConfig) -> bool {
    &&& cfg.enabled == (filled(text_of(vars.openrouter_api_key)) is Some)
    &&& cfg.api_key@ == text_or(filled(text_of(vars.openrouter_api_key)), ""@)
    &&& cfg.model@ == text_or(filled(text_of(vars.openrouter_model)), "gpt-4o-mini"@)
    &&& cfg.base_url@ == text_or(
        filled(text_of(vars.openrouter_base_url)),
        "https://openrouter.ai/api/v1/chat/completions"@,
    )
    &&& text_of(cfg.site_url) == filled(text_of(vars.openrouter_site_url))
    &&& text_of(cfg.site_name) == filled(text_of(vars.openrouter_site_name))
    &&& cfg.system_prompt@ == text_or(
        filled(text_of(vars.openrouter_system_prompt)),
        SYSTEM_PROMPT@,
    )
    &&& cfg.question_window_ms == number_of(
        text_of(vars.question_window_ms),
        u64::MAX as int,
        8000,
    )
    &&& cfg.max_history_turns == number_of(
        text_of(vars.openrouter_max_history_turns),
        usize::MAX as int,
        4,
    )
}

/// How the assistant leads conversations, given the variables. It leads none
/// unless a key of the chat service is set.
pub fn dialog_config(vars: &Variables) -> (cfg: DialogConfig)
    ensures
        is_dialog_config(*vars, cfg),
{
    let key = env_filled(&vars.openrouter_api_key);
    DialogConfig {
        enabled: key.is_some(),
        api_key: env_text(&key, ""),
        model: env_text(&env_filled(&vars.openrouter_model), "gpt-4o-mini"),
        base_url: env_text(
            &env_filled(&vars.openrouter_base_url),
            "https://openrouter.ai/api/v1/chat/completions",
        ),
        site_url: env_filled(&vars.openrouter_site_url),
        site_name: env_filled(&vars.openrouter_site_name),
        system_prompt: env_text(&env_filled(&vars.openrouter_system_prompt), SYSTEM_PROMPT),
        question_window_ms: env_u64(&vars.question_window_ms, 8000),
        max_history_turns: env_usize(&vars.openrouter_max_history_turns, 4),
    }
}

/// Whether this is how many characters of an answer the variables let be spoken.
pub open spec fn is_spoken_limit(vars: Variables, n: usize) -> bool {
    n == number_of(text_of(vars.openrouter_tts_max_chars), usize::MAX as int, 400)
}

/// How many characters of an answer are spoken at most, given the variables.
pub fn spoken_answer_limit(vars: &Variables) -> (n: usize)
    ensures
        is_spoken_limit(*vars, n),
{
    env_usize(&vars.openrouter_tts_max_chars, 400)
}

/// Whether this is the grammar for the recogniser that the settings ask for.
pub open spec fn is_grammar(settings: WakeSettings, grammar: Option<Vec<String>>) -> bool {
    match grammar {
        Some(g) => {
            &&& settings.use_grammar
            &&& texts(g@) == texts(settings.variants@).push("[unk]"@)
        },
        None => !settings.use_grammar,
    }
}

/// What the recogniser that waits for the wake word listens for, if it is to listen
/// for the variants only: the variants, and anything else as unknown.
pub fn recognizer_grammar(settings: &WakeSettings) -> (grammar: Option<Vec<String>>)
    ensures
        is_grammar(*settings, grammar),
{
    if !settings.use_grammar {
        return None;
    }
    let mut grammar = copied_texts(settings.variants.as_slice());
    let ghost before = grammar@;
    grammar.push("[unk]".to_owned());
    assert(texts(grammar@) =~= texts(before).push("[unk]"@));
    Some(grammar)
}

} // verus!
