//! Recognising the wake word in what was heard.
use vstd::prelude::*;

use crate::distance::edit_distance;
use crate::text::{
    contains, join, join_words, normalize_text, normalized, occurs_in, split_words, texts, trim,
    trimmed, words,
};
use vstd::utf8::encode_utf8;

verus! {

/// The pieces between the commas of a text.
pub open spec fn comma_pieces(s: Seq<char>) -> Seq<Seq<char>>
    decreases s.len(),
{
    if s.len() == 0 {
        seq![Seq::empty()]
    } else {
        let rest = comma_pieces(s.drop_last());
        if s.last() == ',' {
            rest.push(Seq::empty())
        } else {
            rest.update(rest.len() - 1, rest.last().push(s.last()))
        }
    }
}

/// The pieces that are more than white space, without the white space around
/// them.
pub open spec fn kept_aliases(pieces: Seq<Seq<char>>) -> Seq<Seq<char>>
    decreases pieces.len(),
{
    if pieces.len() == 0 {
        Seq::empty()
    } else {
        let rest = kept_aliases(pieces.drop_last());
        let alias = trimmed(pieces.last());
        if alias.len() == 0 {
            rest
        } else {
            rest.push(alias)
        }
    }
}

/// The normal forms of the texts in order, without empty ones and without
/// repetitions.
pub open spec fn distinct_normal_forms(raw: Seq<Seq<char>>) -> Seq<Seq<char>>
    decreases raw.len(),
{
    if raw.len() == 0 {
        Seq::empty()
    } else {
        let rest = distinct_normal_forms(raw.drop_last());
        let form = normalized(raw.last());
        if form.len() == 0 || rest.contains(form) {
            rest
        } else {
            rest.push(form)
        }
    }
}

/// The wake word and its comma-separated aliases, in normal form.
pub open spec fn wake_variants(base: Seq<char>, aliases: Seq<char>) -> Seq<Seq<char>> {
    distinct_normal_forms(seq![base] + kept_aliases(comma_pieces(aliases)))
}

/// How a wake word was found.
pub enum MatchMethod {
    /// The variant is part of the normal form of what was heard.
    Contains,
    /// A heard word is close to a variant of one word.
    FuzzyToken,
    /// Neighbouring heard words are close to a variant of several words.
    FuzzyPhrase,
}

/// The name under which a method is reported.
pub open spec fn method_name(method: MatchMethod) -> Seq<char> {
    match method {
        MatchMethod::Contains => "contains"@,
        MatchMethod::FuzzyToken => "fuzzy-token"@,
        MatchMethod::FuzzyPhrase => "fuzzy-phrase"@,
    }
}

/// Whether the heard word at `at` is within `max_distance` of `target`.
pub open spec fn token_close(
    tokens: Seq<Seq<char>>,
    target: Seq<char>,
    max_distance: nat,
    at: int,
) -> bool {
    0 <= at < tokens.len() && edit_distance(tokens[at], target) <= max_distance
}

/// Whether the heard words from `at` on, as many as the variant has, are close to
/// the variant: long variants may differ by one more edit per eight bytes.
pub open spec fn phrase_close(
    tokens: Seq<Seq<char>>,
    variant: Seq<char>,
    max_distance: nat,
    at: int,
) -> bool {
    let window = split_words(variant).len();
    &&& 0 <= at <= tokens.len() - window
    &&& edit_distance(join_words(tokens.subrange(at, at + window)), variant) <= max_distance
        + encode_utf8(variant).len() / 8
}

/// How, if at all, the heard words come close to a variant.
pub open spec fn fuzzy_match(
    tokens: Seq<Seq<char>>,
    variant: Seq<char>,
    max_distance: nat,
) -> Option<MatchMethod> {
    let parts = split_words(variant);
    if parts.len() == 1 && exists|at: int| token_close(tokens, parts[0], max_distance, at) {
        Some(MatchMethod::FuzzyToken)
    } else if parts.len() >= 2 && exists|at: int| phrase_close(tokens, variant, max_distance, at) {
        Some(MatchMethod::FuzzyPhrase)
    } else {
        None
    }
}

/// The index of the first variant from `from` on that is part of `norm`.
pub open spec fn first_contained(norm: Seq<char>, variants: Seq<Seq<char>>, from: int) -> Option<
    int,
>
    decreases variants.len() - from,
{
    if from < 0 || from >= variants.len() {
        None
    } else if occurs_in(variants[from], norm) {
        Some(from)
    } else {
        first_contained(norm, variants, from + 1)
    }
}

/// The first variant from `from` on that the heard words come close to.
pub open spec fn first_fuzzy(
    tokens: Seq<Seq<char>>,
    variants: Seq<Seq<char>>,
    max_distance: nat,
    from: int,
) -> Option<(int, MatchMethod)>
    decreases variants.len() - from,
{
    if from < 0 || from >= variants.len() {
        None
    } else {
        match fuzzy_match(tokens, variants[from], max_distance) {
            Some(method) => Some((from, method)),
            None => first_fuzzy(tokens, variants, max_distance, from + 1),
        }
    }
}

/// The variant that a heard text stands for, and how it was found: the first one
/// that the text contains, otherwise the first one that it comes close to.
pub open spec fn wake_match(
    text: Seq<char>,
    variants: Seq<Seq<char>>,
    max_distance: nat,
) -> Option<(int, MatchMethod)> {
    let norm = normalized(text);
    if norm.len() == 0 {
        None
    } else {
        match first_contained(norm, variants, 0) {
            Some(k) => Some((k, MatchMethod::Contains)),
            None => first_fuzzy(split_words(norm), variants, max_distance, 0),
        }
    }
}

/// A recognised wake word.
#[derive(Debug)]
pub struct MatchInfo {
    /// The variant, in normal form, that was recognised.
    pub variant: String,
    /// The name of the method by which it was recognised.
    pub method: &'static str,
}

/// Whether `found` reports exactly what `expected` describes.
pub open spec fn reports(
    found: Option<MatchInfo>,
    expected: Option<(int, MatchMethod)>,
    variants: Seq<Seq<char>>,
) -> bool {
    match expected {
        None => found is None,
        Some((k, method)) => {
            &&& found matches Some(info)
            &&& info.variant@ == variants[k]
            &&& info.method@ == method_name(method)
        },
    }
}

/// The pieces between the commas of a text.
fn split_commas(s: &str) -> (out: Vec<String>)
    ensures
        texts(out@) == comma_pieces(s@),
{
    let mut out: Vec<String> = Vec::new();
    let mut piece = String::new();
    for c in it: s.chars()
        invariant
            it.seq() == s@,
            texts(out@).push(piece@) == comma_pieces(s@.take(it.index() as int)),
    {
        proof {
            let k = it.index() as int;
            assert(s@.take(k + 1).drop_last() =~= s@.take(k));
        }
        let ghost before = out@;
        let ghost current = piece@;
        if c == ',' {
            out.push(piece);
            piece = String::new();
            assert(texts(out@) =~= texts(before).push(current));
        } else {
            piece.push(c);
            assert(texts(out@).push(piece@) =~= texts(before).push(current).update(
                texts(before).len() as int,
                current.push(c),
            ));
        }
    }
    assert(s@.take(s@.len() as int) =~= s@);
    let ghost before = out@;
    let ghost current = piece@;
    out.push(piece);
    assert(texts(out@) =~= texts(before).push(current));
    out
}

/// The wake word and its comma-separated aliases, in normal form, each once.
pub fn parse_wake_variants(base: &str, aliases_env: &str) -> (out: Vec<String>)
    ensures
        texts(out@) == wake_variants(base@, aliases_env@),
{
    let mut raw: Vec<String> = Vec::new();
    raw.push(base.to_owned());
    let pieces = split_commas(aliases_env);
    let ghost all = texts(pieces@);
    assert(texts(raw@) =~= seq![base@] + kept_aliases(all.take(0)));
    for i in 0..pieces.len()
        invariant
            all == texts(pieces@),
            texts(raw@) == seq![base@] + kept_aliases(all.take(i as int)),
    {
        let alias = trim(pieces[i].as_str());
        assert(all.take(i + 1).drop_last() =~= all.take(i as int));
        assert(all.take(i + 1).last() == pieces@[i as int]@);
        if !alias.as_str().is_empty() {
            let ghost before = raw@;
            let ghost kept = kept_aliases(all.take(i as int));
            raw.push(alias);
            assert(texts(raw@) =~= texts(before).push(alias@));
            assert(texts(before).push(alias@) =~= seq![base@] + kept.push(alias@));
        }
    }
    assert(all.take(pieces@.len() as int) =~= all);
    let ghost full = texts(raw@);
    let mut out: Vec<String> = Vec::new();
    assert(texts(out@) =~= distinct_normal_forms(full.take(0)));
    for i in 0..raw.len()
        invariant
            full == texts(raw@),
            texts(out@) == distinct_normal_forms(full.take(i as int)),
    {
        let form = normalize_text(raw[i].as_str());
        assert(full.take(i + 1).drop_last() =~= full.take(i as int));
        assert(full.take(i + 1).last() == raw@[i as int]@);
        if !form.as_str().is_empty() && !has_text(&out, &form) {
            let ghost before = out@;
            out.push(form);
            assert(texts(out@) =~= texts(before).push(form@));
        }
    }
    assert(full.take(raw@.len() as int) =~= full);
    out
}

/// Whether the list holds a text.
fn has_text(list: &Vec<String>, text: &String) -> (r: bool)
    ensures
        r == texts(list@).contains(text@),
{
    for i in 0..list.len()
        invariant
            forall|k: int| 0 <= k < i ==> (#[trigger] list@[k])@ != text@,
    {
        if list[i] == *text {
            assert(texts(list@)[i as int] == text@);
            return true;
        }
    }
    assert forall|k: int| 0 <= k < texts(list@).len() implies texts(list@)[k] != text@ by {
        assert(texts(list@)[k] == list@[k]@);
    }
    false
}

/// Whether some heard word is within `max_distance` of `target`.
fn any_token_close(tokens: &Vec<String>, target: &str, max_distance: usize) -> (r: bool)
    ensures
        r == exists|at: int| token_close(texts(tokens@), target@, max_distance as nat, at),
{
    let ghost all = texts(tokens@);
    for i in 0..tokens.len()
        invariant
            all == texts(tokens@),
            forall|k: int|
                0 <= k < i ==> !#[trigger] token_close(all, target@, max_distance as nat, k),
    {
        assert(all[i as int] == tokens@[i as int]@);
        if strsim::levenshtein(tokens[i].as_str(), target) <= max_distance {
            assert(token_close(all, target@, max_distance as nat, i as int));
            return true;
        }
    }
    false
}

/// Whether some neighbouring heard words are close to the variant, which has
/// `window` words.
fn any_phrase_close(
    tokens: &Vec<String>,
    variant: &str,
    window: usize,
    max_distance: usize,
) -> (r: bool)
    requires
        window == split_words(variant@).len(),
    ensures
        r == exists|at: int| phrase_close(texts(tokens@), variant@, max_distance as nat, at),
{
    if tokens.len() < window {
        return false;
    }
    let ghost all = texts(tokens@);
    let threshold: usize = max_distance.saturating_add(variant.as_bytes().len() / 8);
    let last: usize = tokens.len() - window;
    let mut i: usize = 0;
    loop
        invariant
            all == texts(tokens@),
            window == split_words(variant@).len(),
            last == tokens@.len() - window,
            tokens@.len() <= usize::MAX,
            i <= last,
            threshold == max_distance + encode_utf8(variant@).len() / 8 || (threshold == usize::MAX
                && max_distance + encode_utf8(variant@).len() / 8 > usize::MAX),
            forall|k: int|
                0 <= k < i ==> !#[trigger] phrase_close(all, variant@, max_distance as nat, k),
        decreases last - i,
    {
        let candidate = join(tokens, i, i + window);
        let distance: usize = strsim::levenshtein(candidate.as_str(), variant);
        if distance <= threshold {
            assert(phrase_close(all, variant@, max_distance as nat, i as int));
            return true;
        }
        assert(!phrase_close(all, variant@, max_distance as nat, i as int));
        if i == last {
            return false;
        }
        i += 1;
    }
}

/// Looks for the wake word in a heard text: first for a variant that the text
/// contains, then for one that it comes close to.
///
/// The sum of `max_distance` and the allowance for long variants is taken without
/// regard to the size of `usize`.
pub fn detect_wake_word(text: &str, variants: &[String], max_distance: usize) -> (found: Option<
    MatchInfo,
>)
    ensures
        reports(found, wake_match(text@, texts(variants@), max_distance as nat), texts(variants@)),
{
    let norm = normalize_text(text);
    if norm.as_str().is_empty() {
        return None;
    }
    let ghost all = texts(variants@);
    for i in 0..variants.len()
        invariant
            all == texts(variants@),
            norm@ == normalized(text@),
            norm@.len() > 0,
            first_contained(norm@, all, 0) == first_contained(norm@, all, i as int),
    {
        assert(all[i as int] == variants@[i as int]@);
        if contains(norm.as_str(), variants[i].as_str()) {
            return Some(MatchInfo { variant: variants[i].clone(), method: "contains" });
        }
    }
    let tokens = words(norm.as_str());
    for i in 0..variants.len()
        invariant
            all == texts(variants@),
            norm@ == normalized(text@),
            norm@.len() > 0,
            texts(tokens@) == split_words(norm@),
            first_contained(norm@, all, 0) is None,
            first_fuzzy(texts(tokens@), all, max_distance as nat, 0) == first_fuzzy(
                texts(tokens@),
                all,
                max_distance as nat,
                i as int,
            ),
    {
        assert(all[i as int] == variants@[i as int]@);
        let variant = variants[i].as_str();
        let parts = words(variant);
        let window: usize = parts.len();
        assert(texts(parts@).len() == window);
        if window == 1 {
            assert(texts(parts@)[0] == parts@[0]@);
            if any_token_close(&tokens, parts[0].as_str(), max_distance) {
                return Some(MatchInfo { variant: variants[i].clone(), method: "fuzzy-token" });
            }
        } else if window >= 2 {
            if any_phrase_close(&tokens, variant, window, max_distance) {
                return Some(MatchInfo { variant: variants[i].clone(), method: "fuzzy-phrase" });
            }
        }
    }
    None
}

} // verus!
