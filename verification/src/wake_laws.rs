//! What holds of wake-word variants and of their recognition.
use vstd::prelude::*;

use crate::distance::{edit_distance, law_distance_zero};
use crate::text::{
    folded, folded_char, join_words, normalized, occurs_at, occurs_in, split_words, trimmed,
    white_space,
};
use crate::text_laws::{
    law_normal_form_shape, law_normalizing_twice, law_part_of_a_text, law_single_word,
    law_trimming, law_umlaut_adds_one_letter, law_words_of_concat, law_words_of_normal_form,
    lemma_folded_concat, lemma_join_occurs,
};
use crate::wakeword::{
    comma_pieces, distinct_normal_forms, first_contained, first_fuzzy, fuzzy_match, kept_aliases,
    phrase_close, reports, token_close, wake_match, wake_variants, MatchInfo, MatchMethod,
};
use vstd::utf8::encode_utf8;

verus! {

/// Whether a list holds normal forms only, none of them empty and none twice.
pub open spec fn well_formed_variants(variants: Seq<Seq<char>>) -> bool {
    &&& forall|i: int|
        0 <= i < variants.len() ==> (#[trigger] variants[i]).len() > 0 && normalized(variants[i])
            == variants[i]
    &&& variants.no_duplicates()
}

proof fn lemma_distinct_normal_forms(raw: Seq<Seq<char>>)
    ensures
        well_formed_variants(distinct_normal_forms(raw)),
        forall|i: int|
            0 <= i < raw.len() && normalized(#[trigger] raw[i]).len() > 0
                ==> distinct_normal_forms(raw).contains(normalized(raw[i])),
        forall|j: int|
            0 <= j < distinct_normal_forms(raw).len() ==> exists|i: int|
                0 <= i < raw.len() && #[trigger] distinct_normal_forms(raw)[j] == normalized(
                    #[trigger] raw[i],
                ),
        raw.len() > 0 && normalized(raw[0]).len() > 0 ==> distinct_normal_forms(raw).len() > 0
            && distinct_normal_forms(raw)[0] == normalized(raw[0]),
    decreases raw.len(),
{
    if raw.len() > 0 {
        let shorter = raw.drop_last();
        let rest = distinct_normal_forms(shorter);
        let all = distinct_normal_forms(raw);
        let form = normalized(raw.last());
        lemma_distinct_normal_forms(shorter);
        law_normalizing_twice(raw.last());
        assert forall|i: int| 0 <= i < raw.len() && normalized(#[trigger] raw[i]).len() > 0 implies
            all.contains(normalized(raw[i])) by {
            if i < shorter.len() {
                assert(shorter[i] == raw[i]);
                let j = choose|j: int| 0 <= j < rest.len() && rest[j] == normalized(raw[i]);
                assert(all[j] == rest[j]);
            } else if all.len() > rest.len() {
                assert(all[all.len() - 1] == form);
            }
        }
        assert forall|j: int| 0 <= j < all.len() implies exists|i: int|
            0 <= i < raw.len() && #[trigger] all[j] == normalized(#[trigger] raw[i]) by {
            if j < rest.len() {
                assert(all[j] == rest[j]);
                let i = choose|i: int|
                    0 <= i < shorter.len() && rest[j] == normalized(#[trigger] shorter[i]);
                assert(raw[i] == shorter[i]);
            } else {
                assert(all[j] == normalized(raw[raw.len() - 1]));
            }
        }
        if raw.len() > 1 {
            assert(shorter[0] == raw[0]);
        }
    }
}

/// The variants of a wake word are normal forms, none of them empty and none
/// twice.
pub proof fn law_variants_well_formed(base: Seq<char>, aliases: Seq<char>)
    ensures
        well_formed_variants(wake_variants(base, aliases)),
{
    lemma_distinct_normal_forms(seq![base] + kept_aliases(comma_pieces(aliases)));
}

/// The wake word itself comes first among its variants, unless its normal form is
/// empty.
pub proof fn law_wake_word_first(base: Seq<char>, aliases: Seq<char>)
    requires
        normalized(base).len() > 0,
    ensures
        wake_variants(base, aliases).len() > 0,
        wake_variants(base, aliases)[0] == normalized(base),
{
    let raw = seq![base] + kept_aliases(comma_pieces(aliases));
    assert(raw[0] == base);
    lemma_distinct_normal_forms(raw);
}

proof fn lemma_kept_aliases(pieces: Seq<Seq<char>>)
    ensures
        forall|i: int|
            0 <= i < pieces.len() && trimmed(#[trigger] pieces[i]).len() > 0 ==> kept_aliases(
                pieces,
            ).contains(trimmed(pieces[i])),
        forall|j: int|
            0 <= j < kept_aliases(pieces).len() ==> exists|i: int|
                0 <= i < pieces.len() && #[trigger] kept_aliases(pieces)[j] == trimmed(
                    #[trigger] pieces[i],
                ),
    decreases pieces.len(),
{
    if pieces.len() > 0 {
        let shorter = pieces.drop_last();
        let rest = kept_aliases(shorter);
        let all = kept_aliases(pieces);
        lemma_kept_aliases(shorter);
        assert forall|i: int| 0 <= i < pieces.len() && trimmed(#[trigger] pieces[i]).len()
            > 0 implies all.contains(trimmed(pieces[i])) by {
            if i < shorter.len() {
                assert(shorter[i] == pieces[i]);
                let j = choose|j: int| 0 <= j < rest.len() && rest[j] == trimmed(pieces[i]);
                assert(all[j] == rest[j]);
            } else {
                assert(all[all.len() - 1] == trimmed(pieces[i]));
            }
        }
        assert forall|j: int| 0 <= j < all.len() implies exists|i: int|
            0 <= i < pieces.len() && #[trigger] all[j] == trimmed(#[trigger] pieces[i]) by {
            if j < rest.len() {
                assert(all[j] == rest[j]);
                let i = choose|i: int|
                    0 <= i < shorter.len() && rest[j] == trimmed(#[trigger] shorter[i]);
                assert(pieces[i] == shorter[i]);
            } else {
                assert(all[j] == trimmed(pieces[pieces.len() - 1]));
            }
        }
    }
}

/// Every alias with a normal form is among the variants, white space around it or
/// not, and every variant is the normal form of the wake word or of an alias.
pub proof fn law_variants_complete(base: Seq<char>, aliases: Seq<char>)
    ensures
        forall|i: int|
            0 <= i < comma_pieces(aliases).len() && normalized(
                #[trigger] comma_pieces(aliases)[i],
            ).len() > 0 ==> wake_variants(base, aliases).contains(
                normalized(comma_pieces(aliases)[i]),
            ),
        forall|j: int|
            0 <= j < wake_variants(base, aliases).len() ==> {
                ||| #[trigger] wake_variants(base, aliases)[j] == normalized(base)
                ||| exists|i: int|
                    0 <= i < comma_pieces(aliases).len() && wake_variants(base, aliases)[j]
                        == normalized(#[trigger] comma_pieces(aliases)[i])
            },
{
    let pieces = comma_pieces(aliases);
    let kept = kept_aliases(pieces);
    let raw = seq![base] + kept;
    let all = wake_variants(base, aliases);
    lemma_kept_aliases(pieces);
    lemma_distinct_normal_forms(raw);
    assert forall|i: int| 0 <= i < pieces.len() && normalized(#[trigger] pieces[i]).len()
        > 0 implies all.contains(normalized(pieces[i])) by {
        law_trimming(pieces[i]);
        let alias = trimmed(pieces[i]);
        if alias.len() == 0 {
            assert(normalized(alias).len() == 0) by {
                assert(folded(alias) =~= Seq::<char>::empty());
            }
        }
        let j = choose|j: int| 0 <= j < kept.len() && kept[j] == alias;
        assert(raw[j + 1] == alias);
    }
    assert forall|j: int| 0 <= j < all.len() implies {
        ||| #[trigger] all[j] == normalized(base)
        ||| exists|i: int| 0 <= i < pieces.len() && all[j] == normalized(#[trigger] pieces[i])
    } by {
        let r = choose|r: int| 0 <= r < raw.len() && all[j] == normalized(#[trigger] raw[r]);
        if r > 0 {
            assert(raw[r] == kept[r - 1]);
            let i = choose|i: int| 0 <= i < pieces.len() && kept[r - 1] == trimmed(
                #[trigger] pieces[i],
            );
            law_trimming(pieces[i]);
        }
    }
}

proof fn lemma_first_contained(norm: Seq<char>, variants: Seq<Seq<char>>, from: int)
    requires
        0 <= from,
    ensures
        match first_contained(norm, variants, from) {
            Some(k) => {
                &&& from <= k < variants.len()
                &&& occurs_in(variants[k], norm)
                &&& forall|j: int| from <= j < k ==> !occurs_in(#[trigger] variants[j], norm)
            },
            None => forall|j: int|
                from <= j < variants.len() ==> !occurs_in(#[trigger] variants[j], norm),
        },
    decreases variants.len() - from,
{
    if from < variants.len() && !occurs_in(variants[from], norm) {
        lemma_first_contained(norm, variants, from + 1);
    }
}

proof fn lemma_first_fuzzy(
    tokens: Seq<Seq<char>>,
    variants: Seq<Seq<char>>,
    max_distance: nat,
    from: int,
)
    requires
        0 <= from,
    ensures
        match first_fuzzy(tokens, variants, max_distance, from) {
            Some((k, method)) => {
                &&& from <= k < variants.len()
                &&& fuzzy_match(tokens, variants[k], max_distance) == Some(method)
                &&& forall|j: int|
                    from <= j < k ==> fuzzy_match(tokens, #[trigger] variants[j], max_distance)
                        is None
            },
            None => forall|j: int|
                from <= j < variants.len() ==> fuzzy_match(
                    tokens,
                    #[trigger] variants[j],
                    max_distance,
                ) is None,
        },
    decreases variants.len() - from,
{
    if from < variants.len() && fuzzy_match(tokens, variants[from], max_distance) is None {
        lemma_first_fuzzy(tokens, variants, max_distance, from + 1);
    }
}

/// What is recognised is one of the variants: the first one that the heard text
/// contains, or, if it contains none, the first one that it comes close to.
pub proof fn law_match_is_first(text: Seq<char>, variants: Seq<Seq<char>>, max_distance: nat)
    ensures
        match wake_match(text, variants, max_distance) {
            Some((k, MatchMethod::Contains)) => {
                &&& 0 <= k < variants.len()
                &&& occurs_in(variants[k], normalized(text))
                &&& forall|j: int|
                    0 <= j < k ==> !occurs_in(#[trigger] variants[j], normalized(text))
            },
            Some((k, method)) => {
                let tokens = split_words(normalized(text));
                &&& 0 <= k < variants.len()
                &&& fuzzy_match(tokens, variants[k], max_distance) == Some(method)
                &&& forall|j: int|
                    0 <= j < variants.len() ==> !occurs_in(#[trigger] variants[j], normalized(text))
                &&& forall|j: int|
                    0 <= j < k ==> fuzzy_match(tokens, #[trigger] variants[j], max_distance) is None
            },
            None => normalized(text).len() == 0 || forall|j: int|
                0 <= j < variants.len() ==> !occurs_in(#[trigger] variants[j], normalized(text))
                    && fuzzy_match(split_words(normalized(text)), variants[j], max_distance)
                    is None,
        },
{
    lemma_first_contained(normalized(text), variants, 0);
    lemma_first_fuzzy(split_words(normalized(text)), variants, max_distance, 0);
}

/// A text whose normal form contains a variant is recognised, whatever distance is
/// allowed.
pub proof fn law_contained_variant_is_recognised(
    text: Seq<char>,
    variants: Seq<Seq<char>>,
    max_distance: nat,
    k: int,
)
    requires
        0 <= k < variants.len(),
        normalized(text).len() > 0,
        occurs_in(variants[k], normalized(text)),
    ensures
        wake_match(text, variants, max_distance) matches Some((j, method)) && 0 <= j <= k && method
            == MatchMethod::Contains,
{
    lemma_first_contained(normalized(text), variants, 0);
}

proof fn lemma_normal_form_of_sentence(
    before: Seq<char>,
    gap: char,
    spoken: Seq<char>,
    pause: char,
    after: Seq<char>,
)
    requires
        white_space(gap),
        white_space(pause),
    ensures
        split_words(folded(before + seq![gap] + spoken + seq![pause] + after)) == split_words(
            folded(before),
        ) + split_words(folded(spoken)) + split_words(folded(after)),
{
    let space = seq![' '];
    lemma_folded_concat(before + seq![gap] + spoken + seq![pause], after);
    lemma_folded_concat(before + seq![gap] + spoken, seq![pause]);
    lemma_folded_concat(before + seq![gap], spoken);
    lemma_folded_concat(before, seq![gap]);
    lemma_folded_white_space(gap);
    lemma_folded_white_space(pause);
    law_words_of_concat(folded(before) + space + folded(spoken), ' ', folded(after));
    law_words_of_concat(folded(before), ' ', folded(spoken));
}

proof fn lemma_folded_white_space(c: char)
    requires
        white_space(c),
    ensures
        folded(seq![c]) == seq![' '],
{
    assert(seq![c].drop_last() =~= Seq::<char>::empty());
    assert(folded(Seq::<char>::empty()) == Seq::<char>::empty());
    assert(folded(seq![c]) =~= seq![' ']);
}

/// The wake word or an alias is recognised wherever it is spoken in a sentence,
/// however it is written, and whatever distance is allowed.
pub proof fn law_spoken_variant_is_recognised(
    before: Seq<char>,
    gap: char,
    spoken: Seq<char>,
    pause: char,
    after: Seq<char>,
    variants: Seq<Seq<char>>,
    max_distance: nat,
)
    requires
        white_space(gap),
        white_space(pause),
        normalized(spoken).len() > 0,
        variants.contains(normalized(spoken)),
    ensures
        wake_match(before + seq![gap] + spoken + seq![pause] + after, variants, max_distance)
            matches Some((_, method)) && method == MatchMethod::Contains,
{
    let text = before + seq![gap] + spoken + seq![pause] + after;
    let k = choose|k: int| 0 <= k < variants.len() && variants[k] == normalized(spoken);
    lemma_normal_form_of_sentence(before, gap, spoken, pause, after);
    law_words_of_normal_form(spoken);
    law_words_of_normal_form(text);
    lemma_join_occurs(
        split_words(folded(before)),
        split_words(folded(spoken)),
        split_words(folded(after)),
    );
    law_contained_variant_is_recognised(text, variants, max_distance, k);
}

/// A configured wake word is recognised when it is spoken on its own.
pub proof fn law_wake_word_is_recognised(base: Seq<char>, aliases: Seq<char>, max_distance: nat)
    requires
        normalized(base).len() > 0,
    ensures
        wake_match(base, wake_variants(base, aliases), max_distance) == Some(
            (0int, MatchMethod::Contains),
        ),
{
    law_wake_word_first(base, aliases);
    let norm = normalized(base);
    assert(occurs_in(norm, norm)) by {
        assert(norm.subrange(0, norm.len() as int) =~= norm);
        assert(occurs_at(norm, norm, 0));
    }
    law_contained_variant_is_recognised(base, wake_variants(base, aliases), max_distance, 0);
}

/// What is recognised depends on the normal form of the heard text alone.
pub proof fn law_only_normal_form_matters(
    text: Seq<char>,
    variants: Seq<Seq<char>>,
    max_distance: nat,
)
    ensures
        wake_match(normalized(text), variants, max_distance) == wake_match(
            text,
            variants,
            max_distance,
        ),
{
    law_normalizing_twice(text);
}

/// Allowing a larger distance loses no recognition.
pub proof fn law_larger_distance_recognises_more(
    text: Seq<char>,
    variants: Seq<Seq<char>>,
    smaller: nat,
    larger: nat,
)
    requires
        smaller <= larger,
        wake_match(text, variants, smaller) is Some,
    ensures
        wake_match(text, variants, larger) is Some,
{
    let norm = normalized(text);
    let tokens = split_words(norm);
    lemma_first_contained(norm, variants, 0);
    lemma_first_fuzzy(tokens, variants, smaller, 0);
    lemma_first_fuzzy(tokens, variants, larger, 0);
    if first_contained(norm, variants, 0) is None {
        let (k, method) = first_fuzzy(tokens, variants, smaller, 0)->Some_0;
        let variant = variants[k];
        let parts = split_words(variant);
        if method == MatchMethod::FuzzyToken {
            let at = choose|at: int| token_close(tokens, parts[0], smaller, at);
            assert(token_close(tokens, parts[0], larger, at));
        } else {
            let at = choose|at: int| phrase_close(tokens, variant, smaller, at);
            assert(phrase_close(tokens, variant, larger, at));
        }
        assert(fuzzy_match(tokens, variants[k], larger) is Some);
    }
}

/// Where no distance is allowed, a variant of one word is recognised only where
/// the heard text contains it.
pub proof fn law_no_distance_no_fuzzy_token(text: Seq<char>, variants: Seq<Seq<char>>)
    requires
        well_formed_variants(variants),
    ensures
        !(wake_match(text, variants, 0) matches Some((_, method)) && method
            == MatchMethod::FuzzyToken),
{
    let norm = normalized(text);
    let tokens = split_words(norm);
    lemma_first_contained(norm, variants, 0);
    lemma_first_fuzzy(tokens, variants, 0, 0);
    if wake_match(text, variants, 0) matches Some((_, method)) && method
        == MatchMethod::FuzzyToken {
        let k = wake_match(text, variants, 0)->Some_0.0;
        let variant = variants[k];
        let parts = split_words(variant);
        let at = choose|at: int| token_close(tokens, parts[0], 0, at);
        law_distance_zero(tokens[at], parts[0]);
        law_normal_form_shape(variant);
        assert(parts =~= seq![parts[0]]);
        assert(join_words(parts) == parts[0]);
        law_normal_form_shape(text);
        let mid = seq![tokens[at]];
        assert(tokens =~= tokens.take(at) + mid + tokens.skip(at + 1));
        lemma_join_occurs(tokens.take(at), mid, tokens.skip(at + 1));
        assert(join_words(mid) == tokens[at]);
        assert(occurs_in(variants[k], norm));
    }
}

/// A variant of one word is recognised when one of its vowels is heard as an
/// umlaut, if a distance of one is allowed: umlauts and their vowels stay
/// comparable.
pub proof fn law_umlaut_is_recognised(
    before: Seq<char>,
    umlaut: char,
    vowel: char,
    after: Seq<char>,
    variants: Seq<Seq<char>>,
    max_distance: nat,
)
    requires
        folded_char(vowel).len() == 1,
        !white_space(folded_char(vowel)[0]),
        folded_char(umlaut) == folded_char(vowel) + seq!['e'],
        variants.contains(normalized(before + seq![vowel] + after)),
        split_words(normalized(before + seq![vowel] + after)).len() == 1,
        max_distance >= 1,
    ensures
        wake_match(before + seq![umlaut] + after, variants, max_distance) is Some,
{
    let text = before + seq![umlaut] + after;
    let plain = before + seq![vowel] + after;
    let norm = normalized(text);
    let target = normalized(plain);
    law_umlaut_adds_one_letter(before, umlaut, vowel, after);
    law_normal_form_shape(text);
    law_normal_form_shape(plain);
    law_words_of_normal_form(text);
    let tokens = split_words(norm);
    let parts = split_words(target);
    assert(tokens =~= seq![tokens[0]]);
    assert(parts =~= seq![parts[0]]);
    assert(join_words(tokens) == tokens[0]);
    assert(join_words(parts) == parts[0]);
    assert(token_close(tokens, parts[0], max_distance, 0));
    let k = choose|k: int| 0 <= k < variants.len() && variants[k] == target;
    assert(fuzzy_match(tokens, variants[k], max_distance) is Some);
    lemma_first_contained(norm, variants, 0);
    lemma_first_fuzzy(tokens, variants, max_distance, 0);
}

/// Whether a text is another one with something, perhaps nothing, before and after it.
pub open spec fn stands_in(part: Seq<char>, whole: Seq<char>) -> bool {
    exists|a: Seq<char>, b: Seq<char>| whole == #[trigger] (a + part + b)
}

/// Whether a variant is one word, and some heard word is no more edits away from it than
/// allowed.
pub open spec fn near_word(heard: Seq<Seq<char>>, variant: Seq<char>, allowed: nat) -> bool {
    &&& split_words(variant).len() == 1
    &&& exists|k: int|
        0 <= k < heard.len() && edit_distance(#[trigger] heard[k], split_words(variant)[0])
            <= allowed
}

/// Whether a variant is several words, and as many neighbouring heard words, with spaces
/// between them, are no more edits away from it than allowed, plus one for each eight
/// bytes of the variant.
pub open spec fn near_phrase(heard: Seq<Seq<char>>, variant: Seq<char>, allowed: nat) -> bool {
    let n = split_words(variant).len() as int;
    &&& n >= 2
    &&& exists|k: int|
        0 <= k && k + n <= heard.len() && edit_distance(
            join_words(#[trigger] heard.subrange(k, k + n)),
            variant,
        ) <= allowed + encode_utf8(variant).len() / 8
}

proof fn lemma_fuzzy_match_is_near(heard: Seq<Seq<char>>, variant: Seq<char>, allowed: nat)
    ensures
        near_word(heard, variant, allowed) <==> fuzzy_match(heard, variant, allowed) == Some(
            MatchMethod::FuzzyToken,
        ),
        near_phrase(heard, variant, allowed) <==> fuzzy_match(heard, variant, allowed) == Some(
            MatchMethod::FuzzyPhrase,
        ),
        fuzzy_match(heard, variant, allowed) != Some(MatchMethod::Contains),
{
    let parts = split_words(variant);
    let n = parts.len() as int;
    if near_word(heard, variant, allowed) {
        let k = choose|k: int|
            0 <= k < heard.len() && edit_distance(#[trigger] heard[k], parts[0]) <= allowed;
        assert(token_close(heard, parts[0], allowed, k));
    }
    if parts.len() == 1 && exists|at: int| token_close(heard, parts[0], allowed, at) {
        let at = choose|at: int| token_close(heard, parts[0], allowed, at);
        assert(edit_distance(heard[at], parts[0]) <= allowed);
    }
    if near_phrase(heard, variant, allowed) {
        let k = choose|k: int|
            0 <= k && k + n <= heard.len() && edit_distance(
                join_words(#[trigger] heard.subrange(k, k + n)),
                variant,
            ) <= allowed + encode_utf8(variant).len() / 8;
        assert(phrase_close(heard, variant, allowed, k));
    }
    if n >= 2 && exists|at: int| phrase_close(heard, variant, allowed, at) {
        let at = choose|at: int| phrase_close(heard, variant, allowed, at);
        assert(edit_distance(join_words(heard.subrange(at, at + n)), variant) <= allowed
            + encode_utf8(variant).len() / 8);
    }
}

/// What is reported of a heard text. Nothing, exactly when no word is left of it or no
/// variant is part of its normal form or near to its words. Otherwise the first variant
/// that is part of it, or, if none is, the first one that is near; and how that was found.
pub proof fn law_recognition(
    text: Seq<char>,
    variants: Seq<Seq<char>>,
    allowed: nat,
    found: Option<MatchInfo>,
)
    requires
        reports(found, wake_match(text, variants, allowed), variants),
    ensures
        ({
            let norm = normalized(text);
            let heard = split_words(norm);
            match found {
                None => norm.len() == 0 || forall|j: int|
                    0 <= j < variants.len() ==> {
                        &&& !stands_in(#[trigger] variants[j], norm)
                        &&& !near_word(heard, variants[j], allowed)
                        &&& !near_phrase(heard, variants[j], allowed)
                    },
                Some(info) => norm.len() > 0 && exists|j: int|
                    {
                        &&& 0 <= j < variants.len()
                        &&& info.variant@ == #[trigger] variants[j]
                        &&& {
                            ||| {
                                &&& info.method@ == "contains"@
                                &&& stands_in(variants[j], norm)
                                &&& forall|i: int|
                                    0 <= i < j ==> !stands_in(#[trigger] variants[i], norm)
                            }
                            ||| {
                                &&& info.method@ == "fuzzy-token"@ && near_word(
                                    heard,
                                    variants[j],
                                    allowed,
                                ) || info.method@ == "fuzzy-phrase"@ && near_phrase(
                                    heard,
                                    variants[j],
                                    allowed,
                                )
                                &&& forall|i: int|
                                    0 <= i < variants.len() ==> !stands_in(
                                        #[trigger] variants[i],
                                        norm,
                                    )
                                &&& forall|i: int|
                                    0 <= i < j ==> !near_word(
                                        heard,
                                        #[trigger] variants[i],
                                        allowed,
                                    ) && !near_phrase(heard, variants[i], allowed)
                            }
                        }
                    },
            }
        }),
{
    let norm = normalized(text);
    let heard = split_words(norm);
    law_match_is_first(text, variants, allowed);
    assert forall|j: int| 0 <= j < variants.len() implies stands_in(#[trigger] variants[j], norm)
        == occurs_in(variants[j], norm) by {
        law_part_of_a_text(variants[j], norm);
    }
    assert forall|j: int| 0 <= j < variants.len() implies fuzzy_match(
        heard,
        #[trigger] variants[j],
        allowed,
    ) is None == (!near_word(heard, variants[j], allowed) && !near_phrase(
        heard,
        variants[j],
        allowed,
    )) by {
        lemma_fuzzy_match_is_near(heard, variants[j], allowed);
    }
    match wake_match(text, variants, allowed) {
        Some((k, method)) => {
            lemma_fuzzy_match_is_near(heard, variants[k], allowed);
            assert(found->Some_0.variant@ == variants[k]);
        },
        None => {},
    }
}

/// A word that is heard close enough to a variant of one word is recognised, wherever it
/// stands in what was heard.
pub proof fn law_close_word_is_recognised(
    text: Seq<char>,
    variants: Seq<Seq<char>>,
    allowed: nat,
    found: Option<MatchInfo>,
    j: int,
    k: int,
)
    requires
        reports(found, wake_match(text, variants, allowed), variants),
        0 <= j < variants.len(),
        variants[j].len() > 0,
        forall|i: int| 0 <= i < variants[j].len() ==> !white_space(#[trigger] variants[j][i]),
        0 <= k < split_words(normalized(text)).len(),
        edit_distance(split_words(normalized(text))[k], variants[j]) <= allowed,
    ensures
        found is Some,
{
    let heard = split_words(normalized(text));
    law_recognition(text, variants, allowed, found);
    law_single_word(variants[j]);
    assert(edit_distance(heard[k], split_words(variants[j])[0]) <= allowed);
    assert(near_word(heard, variants[j], allowed));
    law_words_of_normal_form(text);
}

/// Neighbouring words that are heard close enough to a variant of several words are
/// recognised, wherever they stand in what was heard.
pub proof fn law_close_phrase_is_recognised(
    text: Seq<char>,
    variants: Seq<Seq<char>>,
    allowed: nat,
    found: Option<MatchInfo>,
    j: int,
    k: int,
)
    requires
        reports(found, wake_match(text, variants, allowed), variants),
        0 <= j < variants.len(),
        split_words(variants[j]).len() >= 2,
        0 <= k <= split_words(normalized(text)).len() - split_words(variants[j]).len(),
        edit_distance(
            join_words(
                split_words(normalized(text)).subrange(k, k + split_words(variants[j]).len()),
            ),
            variants[j],
        ) <= allowed + encode_utf8(variants[j]).len() / 8,
    ensures
        found is Some,
{
    let heard = split_words(normalized(text));
    let n = split_words(variants[j]).len() as int;
    law_recognition(text, variants, allowed, found);
    assert(heard.subrange(k, k + n) == split_words(normalized(text)).subrange(k, k + n));
    assert(near_phrase(heard, variants[j], allowed));
    law_words_of_normal_form(text);
}

/// A text whose normal form holds a variant is recognised as containing one, whatever
/// stands around it.
pub proof fn law_variant_in_a_sentence(
    text: Seq<char>,
    variants: Seq<Seq<char>>,
    allowed: nat,
    found: Option<MatchInfo>,
    j: int,
    a: Seq<char>,
    b: Seq<char>,
)
    requires
        reports(found, wake_match(text, variants, allowed), variants),
        0 <= j < variants.len(),
        normalized(text).len() > 0,
        normalized(text) == a + variants[j] + b,
    ensures
        found matches Some(info) && info.method@ == "contains"@,
{
    law_part_of_a_text(variants[j], normalized(text));
    law_contained_variant_is_recognised(text, variants, allowed, j);
}

proof fn lemma_pieces_without_comma(a: Seq<char>, b: Seq<char>)
    requires
        forall|i: int| 0 <= i < b.len() ==> #[trigger] b[i] != ',',
    ensures
        comma_pieces(a).len() > 0,
        comma_pieces(a + seq![','] + b) == comma_pieces(a).push(b),
        comma_pieces(b) == seq![b],
    decreases b.len(),
{
    lemma_some_piece(a);
    let whole = a + seq![','] + b;
    if b.len() == 0 {
        assert(whole.drop_last() =~= a);
        assert(whole.last() == ',');
        assert(b =~= Seq::<char>::empty());
    } else {
        let shorter = b.drop_last();
        lemma_pieces_without_comma(a, shorter);
        assert(whole.drop_last() =~= a + seq![','] + shorter);
        assert(whole.last() == b[b.len() - 1]);
        assert(shorter.push(b.last()) =~= b);
        assert(comma_pieces(whole) =~= comma_pieces(a).push(b));
        assert(comma_pieces(b) =~= seq![b]);
    }
}

proof fn lemma_some_piece(s: Seq<char>)
    ensures
        comma_pieces(s).len() > 0,
    decreases s.len(),
{
    if s.len() > 0 {
        lemma_some_piece(s.drop_last());
    }
}

/// One more alias adds its normal form as the last variant, unless it is empty or among
/// the variants already.
pub proof fn law_one_more_alias(base: Seq<char>, aliases: Seq<char>, alias: Seq<char>)
    requires
        forall|i: int| 0 <= i < alias.len() ==> #[trigger] alias[i] != ',',
    ensures
        ({
            let before = wake_variants(base, aliases);
            let form = normalized(alias);
            wake_variants(base, aliases + seq![','] + alias) == if form.len() == 0
                || before.contains(form) {
                before
            } else {
                before.push(form)
            }
        }),
{
    lemma_pieces_without_comma(aliases, alias);
    law_trimming(alias);
    let pieces = comma_pieces(aliases);
    assert(pieces.push(alias).drop_last() =~= pieces);
    let kept = kept_aliases(pieces);
    let short = trimmed(alias);
    if short.len() == 0 {
        assert(folded(short) =~= Seq::<char>::empty());
        assert(split_words(folded(short)).len() == 0);
        assert(normalized(short).len() == 0);
    } else {
        let raw = seq![base] + kept;
        assert(seq![base] + kept.push(short) =~= raw.push(short));
        assert(raw.push(short).drop_last() =~= raw);
        assert(raw.push(short).last() == short);
    }
}

/// Without aliases the normal form of the wake word is the only variant, if it is not
/// empty; and the first alias counts like any other.
pub proof fn law_first_variants(base: Seq<char>, alias: Seq<char>)
    requires
        forall|i: int| 0 <= i < alias.len() ==> #[trigger] alias[i] != ',',
    ensures
        wake_variants(base, Seq::empty()) == if normalized(base).len() == 0 {
            Seq::empty()
        } else {
            seq![normalized(base)]
        },
        wake_variants(base, alias) == wake_variants(base, seq![','] + alias),
{
    let none = Seq::<char>::empty();
    lemma_pieces_without_comma(none, none);
    lemma_pieces_without_comma(none, alias);
    assert(none + seq![','] + alias =~= seq![','] + alias);
    let blank = seq![none];
    assert(blank.drop_last() =~= Seq::<Seq<char>>::empty());
    assert(trimmed(none) == none);
    assert(kept_aliases(Seq::<Seq<char>>::empty()) == Seq::<Seq<char>>::empty());
    assert(kept_aliases(blank) == Seq::<Seq<char>>::empty());
    let raw = seq![base] + Seq::<Seq<char>>::empty();
    assert(raw.drop_last() =~= Seq::<Seq<char>>::empty());
    assert(raw.last() == base);
    assert(distinct_normal_forms(Seq::<Seq<char>>::empty()) == Seq::<Seq<char>>::empty());
    assert(wake_variants(base, none) =~= if normalized(base).len() == 0 {
        Seq::empty()
    } else {
        seq![normalized(base)]
    });
    assert(blank.push(alias).drop_last() =~= blank);
    let one = seq![alias];
    assert(one.drop_last() =~= Seq::<Seq<char>>::empty());
    assert(kept_aliases(one) =~= kept_aliases(blank.push(alias)));
}

} // verus!
