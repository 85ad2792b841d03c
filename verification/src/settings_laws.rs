//! What the variables of the environment do, one by one.
use vstd::prelude::*;

use crate::dialog::DialogConfig;
use crate::numbers::{decimal_text, decimal_value, law_digits_read_back};
use crate::settings::{
    are_wake_settings, filled, flag_of, is_dialog_config, is_grammar, is_spoken_limit,
    is_tts_config, lowercase_text, number_of, on_word, text_of, Variables, WakeSettings,
    SYSTEM_PROMPT,
};
use crate::speech::TtsConfig;
use crate::text::{normalized, texts, trimmed};
use crate::wake_laws::{law_first_variants, law_wake_word_first};
use crate::wakeword::wake_variants;

verus! {

/// Whether a setting is on as its variable says: by one of four words, in any case of
/// letters, or by default where the variable is not set.
pub open spec fn switched(variable: Option<String>, default: bool, on: bool) -> bool {
    match variable {
        None => on == default,
        Some(v) => on <==> (seq!["on"@, "yes"@, "true"@, "1"@]).contains(lowercase_text(v@)),
    }
}

/// Whether a setting has the text of its variable, unchanged, or the default where the
/// variable is not set.
pub open spec fn taken(variable: Option<String>, default: Seq<char>, text: Seq<char>) -> bool {
    &&& variable is None ==> text == default
    &&& variable matches Some(v) ==> text == v@
}

/// Whether a setting has the text of its variable, unchanged, or the default where the
/// variable is not set or no more than white space.
pub open spec fn taken_if_filled(
    variable: Option<String>,
    default: Seq<char>,
    text: Seq<char>,
) -> bool {
    &&& variable is None ==> text == default
    &&& variable matches Some(v) ==> text == if trimmed(v@).len() > 0 {
        v@
    } else {
        default
    }
}

/// Whether a setting has the number that its variable stands for, or the default where the
/// variable is not set, stands for no number, or for one that is too large.
pub open spec fn read(variable: Option<String>, max: int, default: int, n: int) -> bool {
    &&& variable is None ==> n == default
    &&& variable matches Some(v) ==> {
        &&& decimal_value(v@) is None ==> n == default
        &&& decimal_value(v@) matches Some(k) ==> n == if k <= max {
            k as int
        } else {
            default
        }
    }
}

proof fn lemma_switched(variable: Option<String>, default: bool)
    ensures
        switched(variable, default, flag_of(text_of(variable), default)),
{
    let words = seq!["on"@, "yes"@, "true"@, "1"@];
    assert(words[0] == "on"@ && words[1] == "yes"@ && words[2] == "true"@ && words[3] == "1"@);
}

/// A variable that holds the digits of a number that is not too large sets that number.
pub proof fn law_numbers_are_read(n: nat, max: int, default: int)
    ensures
        n <= max ==> number_of(Some(decimal_text(n)), max, default) == n,
        n > max ==> number_of(Some(decimal_text(n)), max, default) == default,
        number_of(None, max, default) == default,
{
    law_digits_read_back(n);
}

/// Only four words switch something on.
pub proof fn law_words_that_switch_on(word: Seq<char>)
    ensures
        on_word(word) <==> (seq!["on"@, "yes"@, "true"@, "1"@]).contains(word),
{
    let words = seq!["on"@, "yes"@, "true"@, "1"@];
    assert(words[0] == "on"@ && words[1] == "yes"@ && words[2] == "true"@ && words[3] == "1"@);
}

/// A variable counts as filled exactly when it is set to more than white space, and then it
/// counts as it is.
pub proof fn law_filled(variable: Option<String>)
    ensures
        variable is None ==> filled(text_of(variable)) is None,
        variable matches Some(v) ==> filled(text_of(variable)) == if trimmed(v@).len() > 0 {
            Some(v@)
        } else {
            None
        },
{
}

/// Each variable of the listening loop sets what it is for and nothing else.
pub proof fn law_wake_settings(vars: Variables, settings: WakeSettings)
    requires
        are_wake_settings(vars, settings),
    ensures
        taken(vars.wake_word, "marvin"@, settings.wake_word@),
        read(vars.wake_fuzzy_distance, usize::MAX as int, 1, settings.fuzzy_distance as int),
        switched(vars.wake_use_grammar, true, settings.use_grammar),
        read(vars.wake_cooldown_ms, u64::MAX as int, 0, settings.cooldown_ms as int),
        switched(vars.debug_wakeword, false, settings.debug),
        taken(
            vars.vosk_model_path,
            "/models/vosk-model-small-de-0.15"@,
            settings.model_path@,
        ),
        taken(vars.alsa_device, "default"@, settings.alsa_device@),
        read(vars.sample_rate, u32::MAX as int, 16_000, settings.sample_rate as int),
{
    lemma_switched(vars.wake_use_grammar, true);
    lemma_switched(vars.debug_wakeword, false);
}

/// The variants that are listened for are those of the wake word and of the aliases that
/// are set; the wake word, where it has a normal form, is the first of them, and without
/// aliases the only one.
pub proof fn law_variants_of_settings(vars: Variables, settings: WakeSettings)
    requires
        are_wake_settings(vars, settings),
    ensures
        vars.wake_word_aliases matches Some(aliases) ==> texts(settings.variants@)
            == wake_variants(settings.wake_word@, aliases@),
        normalized(settings.wake_word@).len() > 0 ==> settings.variants@.len() > 0
            && settings.variants@[0]@ == normalized(settings.wake_word@),
        vars.wake_word_aliases is None && normalized(settings.wake_word@).len() > 0 ==> texts(
            settings.variants@,
        ) == seq![normalized(settings.wake_word@)],
{
    reveal_strlit("");
    let word = settings.wake_word@;
    assert(""@ =~= Seq::<char>::empty());
    law_first_variants(word, Seq::empty());
    assert(texts(settings.variants@).len() == settings.variants@.len());
    if normalized(word).len() > 0 {
        let aliases = match vars.wake_word_aliases {
            Some(aliases) => aliases@,
            None => ""@,
        };
        law_wake_word_first(word, aliases);
        assert(texts(settings.variants@)[0] == settings.variants@[0]@);
    }
}

/// Each variable of speech sets what it is for and nothing else. What is spoken comes from
/// the device that is recorded from, unless a variable names another.
pub proof fn law_tts_config(vars: Variables, active_device: Seq<char>, config: TtsConfig)
    requires
        is_tts_config(vars, active_device, config),
    ensures
        switched(vars.tts_enabled, true, config.enabled),
        taken(vars.tts_text, "ja hallo hier bin ich"@, config.text@),
        taken(vars.tts_voice, "de"@, config.voice@),
        read(vars.tts_speed, u32::MAX as int, 165, config.speed as int),
        taken_if_filled(vars.alsa_output_device, active_device, config.output_device@),
        read(vars.tts_cooldown_ms, u64::MAX as int, 3000, config.cooldown_ms as int),
{
    lemma_switched(vars.tts_enabled, true);
}

/// Each variable of the conversation sets what it is for and nothing else. There are
/// conversations exactly where a key is set that is more than white space.
pub proof fn law_dialog_config(vars: Variables, cfg: DialogConfig)
    requires
        is_dialog_config(vars, cfg),
    ensures
        cfg.enabled <==> (vars.openrouter_api_key matches Some(key) && trimmed(key@).len() > 0),
        taken_if_filled(vars.openrouter_api_key, Seq::empty(), cfg.api_key@),
        taken_if_filled(vars.openrouter_model, "gpt-4o-mini"@, cfg.model@),
        taken_if_filled(
            vars.openrouter_base_url,
            "https://openrouter.ai/api/v1/chat/completions"@,
            cfg.base_url@,
        ),
        cfg.site_url is Some <==> (vars.openrouter_site_url matches Some(url) && trimmed(
            url@,
        ).len() > 0),
        cfg.site_url matches Some(url) ==> url@ == vars.openrouter_site_url->Some_0@,
        cfg.site_name is Some <==> (vars.openrouter_site_name matches Some(name) && trimmed(
            name@,
        ).len() > 0),
        cfg.site_name matches Some(name) ==> name@ == vars.openrouter_site_name->Some_0@,
        taken_if_filled(vars.openrouter_system_prompt, SYSTEM_PROMPT@, cfg.system_prompt@),
        read(vars.question_window_ms, u64::MAX as int, 8000, cfg.question_window_ms as int),
        read(
            vars.openrouter_max_history_turns,
            usize::MAX as int,
            4,
            cfg.max_history_turns as int,
        ),
{
    reveal_strlit("");
    assert(""@ =~= Seq::<char>::empty());
    if let Some(url) = cfg.site_url {
        assert(text_of(cfg.site_url) == Some(url@));
    }
    if let Some(name) = cfg.site_name {
        assert(text_of(cfg.site_name) == Some(name@));
    }
}

/// How much of an answer is spoken is up to its variable.
pub proof fn law_spoken_limit(vars: Variables, n: usize)
    requires
        is_spoken_limit(vars, n),
    ensures
        read(vars.openrouter_tts_max_chars, usize::MAX as int, 400, n as int),
{
}

/// The recogniser has a grammar exactly where the settings ask for one. It then knows all
/// variants, in order, and last of all the unknown.
pub proof fn law_grammar(settings: WakeSettings, grammar: Option<Vec<String>>)
    requires
        is_grammar(settings, grammar),
    ensures
        grammar is Some <==> settings.use_grammar,
        grammar matches Some(g) ==> {
            &&& g@.len() == settings.variants@.len() + 1
            &&& forall|i: int|
                0 <= i < settings.variants@.len() ==> (#[trigger] g@[i])@
                    == settings.variants@[i]@
            &&& g@.last()@ == "[unk]"@
        },
{
    if let Some(g) = grammar {
        let listed = texts(g@);
        let known = texts(settings.variants@);
        assert(listed.len() == g@.len());
        assert(known.len() == settings.variants@.len());
        assert forall|i: int| 0 <= i < settings.variants@.len() implies (#[trigger] g@[i])@
            == settings.variants@[i]@ by {
            assert(listed[i] == g@[i]@);
            assert(known[i] == settings.variants@[i]@);
        }
        assert(listed[g@.len() - 1] == g@.last()@);
    }
}

} // verus!
