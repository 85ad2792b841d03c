//! What holds of words and of the normal form of texts.
use vstd::prelude::*;

use crate::text::{
    folded, folded_char, join_words, lemma_word_end, normalized, occurs_at, occurs_in, split_words,
    texts, trim_end, trim_start, trimmed, white_space, word_end,
};
use crate::distance::{edit_distance, edited, law_one_edit, one_edit};
use vstd::utf8::{encode_utf8, is_ascii_chars_encode_utf8};

verus! {

/// A character that a normal form can hold: a lower-case ASCII letter, a digit or
/// the space.
pub open spec fn plain_char(c: char) -> bool {
    let n = c as u32;
    0x61 <= n <= 0x7a || 0x30 <= n <= 0x39 || n == 0x20
}

/// Whether all characters of a text are plain.
pub open spec fn plain(s: Seq<char>) -> bool {
    forall|i: int| 0 <= i < s.len() ==> plain_char(#[trigger] s[i])
}

/// A word: not empty, and free of white space.
pub open spec fn is_word(w: Seq<char>) -> bool {
    &&& w.len() > 0
    &&& forall|i: int| 0 <= i < w.len() ==> !white_space(#[trigger] w[i])
}

/// Whether all texts of a list are words.
pub open spec fn all_words(list: Seq<Seq<char>>) -> bool {
    forall|i: int| 0 <= i < list.len() ==> is_word(#[trigger] list[i])
}

/// Whether all texts of a list are plain.
pub open spec fn all_plain(list: Seq<Seq<char>>) -> bool {
    forall|i: int| 0 <= i < list.len() ==> plain(#[trigger] list[i])
}

proof fn lemma_folded_char_plain(c: char)
    ensures
        plain(folded_char(c)),
        plain_char(c) ==> folded_char(c) == seq![c],
        white_space(c) ==> folded_char(c) == seq![' '],
{
}

proof fn lemma_folded_plain(s: Seq<char>)
    ensures
        plain(folded(s)),
        plain(s) ==> folded(s) == s,
    decreases s.len(),
{
    if s.len() > 0 {
        lemma_folded_plain(s.drop_last());
        lemma_folded_char_plain(s.last());
        if plain(s) {
            assert(plain(s.drop_last()));
            assert(s.drop_last() + seq![s.last()] =~= s);
        }
    }
}

proof fn lemma_plain_char_is_ascii(c: char)
    requires
        plain_char(c),
    ensures
        '\0' <= c <= '\u{7f}',
{
}

/// A plain text takes one byte per character.
pub proof fn lemma_plain_bytes(s: Seq<char>)
    requires
        plain(s),
    ensures
        encode_utf8(s).len() == s.len(),
{
    assert forall|i: int| 0 <= i < s.len() implies '\0' <= #[trigger] s[i] <= '\u{7f}' by {
        lemma_plain_char_is_ascii(s[i]);
    }
    is_ascii_chars_encode_utf8(s);
}

/// Folding works character by character.
pub proof fn lemma_folded_concat(a: Seq<char>, b: Seq<char>)
    ensures
        folded(a + b) == folded(a) + folded(b),
    decreases b.len(),
{
    if b.len() == 0 {
        assert(a + b =~= a);
        assert(folded(a) + folded(b) =~= folded(a));
    } else {
        lemma_folded_concat(a, b.drop_last());
        assert((a + b).drop_last() =~= a + b.drop_last());
        assert(folded(a + b) =~= folded(a) + folded(b));
    }
}

/// The words of a text are words, and made of its characters.
pub proof fn lemma_split_words_are_words(s: Seq<char>)
    ensures
        all_words(split_words(s)),
        plain(s) ==> all_plain(split_words(s)),
    decreases s.len(),
{
    if s.len() == 0 {
    } else if white_space(s[0]) {
        lemma_split_words_are_words(s.drop_first());
        if plain(s) {
            assert(plain(s.drop_first()));
        }
    } else {
        lemma_word_end(s);
        let k = word_end(s) as int;
        lemma_split_words_are_words(s.skip(k));
        let rest = split_words(s.skip(k));
        assert(is_word(s.take(k)));
        assert forall|i: int| 0 <= i < split_words(s).len() implies is_word(
            #[trigger] split_words(s)[i],
        ) by {
            if i > 0 {
                assert(split_words(s)[i] == rest[i - 1]);
            }
        }
        if plain(s) {
            assert(plain(s.skip(k)));
            assert(plain(s.take(k)));
            assert forall|i: int| 0 <= i < split_words(s).len() implies plain(
                #[trigger] split_words(s)[i],
            ) by {
                if i > 0 {
                    assert(split_words(s)[i] == rest[i - 1]);
                }
            }
        }
    }
}

/// A word is its own word end when white space or nothing follows it.
proof fn lemma_word_end_of_prefix(w: Seq<char>, rest: Seq<char>)
    requires
        forall|i: int| 0 <= i < w.len() ==> !white_space(#[trigger] w[i]),
        rest.len() == 0 || white_space(rest[0]),
    ensures
        word_end(w + rest) == w.len(),
    decreases w.len(),
{
    if w.len() == 0 {
        assert(w + rest =~= rest);
    } else {
        assert((w + rest).drop_first() =~= w.drop_first() + rest);
        assert((w + rest)[0] == w[0]);
        lemma_word_end_of_prefix(w.drop_first(), rest);
    }
}

/// A word followed by white space or by nothing is split off first.
proof fn lemma_split_word_first(w: Seq<char>, rest: Seq<char>)
    requires
        is_word(w),
        rest.len() == 0 || white_space(rest[0]),
    ensures
        split_words(w + rest) == seq![w] + split_words(rest),
{
    lemma_word_end_of_prefix(w, rest);
    assert((w + rest)[0] == w[0]);
    assert((w + rest).take(w.len() as int) =~= w);
    assert((w + rest).skip(w.len() as int) =~= rest);
}

/// Splitting undoes joining.
pub proof fn law_split_undoes_join(list: Seq<Seq<char>>)
    requires
        all_words(list),
    ensures
        split_words(join_words(list)) == list,
    decreases list.len(),
{
    if list.len() == 0 {
    } else if list.len() == 1 {
        let w = list[0];
        lemma_split_word_first(w, Seq::empty());
        assert(w + Seq::<char>::empty() =~= w);
        assert(seq![w] + split_words(Seq::<char>::empty()) =~= list);
    } else {
        let w = list[0];
        let tail = list.drop_first();
        assert forall|i: int| 0 <= i < tail.len() implies is_word(#[trigger] tail[i]) by {
            assert(tail[i] == list[i + 1]);
        }
        law_split_undoes_join(tail);
        let rest = seq![' '] + join_words(tail);
        assert(join_words(list) =~= w + rest);
        lemma_split_word_first(w, rest);
        assert(rest.drop_first() =~= join_words(tail));
        assert(seq![w] + tail =~= list);
    }
}

/// Joining the words of a text that follow each other gives the parts joined.
pub proof fn lemma_join_concat(a: Seq<Seq<char>>, b: Seq<Seq<char>>)
    requires
        a.len() > 0,
        b.len() > 0,
    ensures
        join_words(a + b) == join_words(a) + seq![' '] + join_words(b),
    decreases a.len(),
{
    if a.len() == 1 {
        assert((a + b).drop_first() =~= b);
        assert((a + b)[0] == a[0]);
    } else {
        assert((a + b).drop_first() =~= a.drop_first() + b);
        assert((a + b)[0] == a[0]);
        lemma_join_concat(a.drop_first(), b);
        assert(join_words(a + b) =~= join_words(a) + seq![' '] + join_words(b));
    }
}

proof fn lemma_join_plain(list: Seq<Seq<char>>)
    requires
        all_plain(list),
    ensures
        plain(join_words(list)),
    decreases list.len(),
{
    if list.len() > 1 {
        let tail = list.drop_first();
        assert forall|i: int| 0 <= i < tail.len() implies plain(#[trigger] tail[i]) by {
            assert(tail[i] == list[i + 1]);
        }
        lemma_join_plain(tail);
        let whole = join_words(list);
        assert(plain(list[0]));
        assert forall|i: int| 0 <= i < whole.len() implies plain_char(#[trigger] whole[i]) by {
            if i < list[0].len() {
                assert(whole[i] == list[0][i]);
            } else if i > list[0].len() {
                assert(whole[i] == join_words(tail)[i - list[0].len() - 1]);
            }
        }
    } else if list.len() == 1 {
        assert(plain(list[0]));
    }
}

/// The words of a normal form are the words of the folded text, and a text has an
/// empty normal form exactly when folding leaves no word.
pub proof fn law_words_of_normal_form(s: Seq<char>)
    ensures
        split_words(normalized(s)) == split_words(folded(s)),
        normalized(s).len() == 0 <==> split_words(folded(s)).len() == 0,
{
    lemma_split_words_are_words(folded(s));
    law_split_undoes_join(split_words(folded(s)));
}

/// A normal form holds only lower-case ASCII letters, digits and single spaces
/// between words: it is what its own words give when they are joined.
pub proof fn law_normal_form_shape(s: Seq<char>)
    ensures
        plain(normalized(s)),
        join_words(split_words(normalized(s))) == normalized(s),
        folded(normalized(s)) == normalized(s),
{
    lemma_folded_plain(s);
    lemma_split_words_are_words(folded(s));
    law_split_undoes_join(split_words(folded(s)));
    lemma_join_plain(split_words(folded(s)));
    lemma_folded_plain(normalized(s));
}

/// Whether a text has no space at its ends and no two spaces in a row.
pub open spec fn singly_spaced(s: Seq<char>) -> bool {
    &&& s.len() > 0 ==> s[0] != ' ' && s[s.len() - 1] != ' '
    &&& forall|i: int| 0 < i < s.len() && s[i - 1] == ' ' ==> #[trigger] s[i] != ' '
}

proof fn lemma_word_has_no_space(w: Seq<char>, i: int)
    requires
        is_word(w),
        0 <= i < w.len(),
    ensures
        w[i] != ' ',
{
    assert(!white_space(w[i]));
}

proof fn lemma_join_singly_spaced(list: Seq<Seq<char>>)
    requires
        all_words(list),
    ensures
        singly_spaced(join_words(list)),
        list.len() > 0 ==> join_words(list).len() > 0,
    decreases list.len(),
{
    if list.len() > 0 {
        let head = list[0];
        let whole = join_words(list);
        assert(is_word(head));
        lemma_word_has_no_space(head, 0);
        lemma_word_has_no_space(head, head.len() - 1);
        if list.len() > 1 {
            let tail = list.drop_first();
            assert forall|i: int| 0 <= i < tail.len() implies is_word(#[trigger] tail[i]) by {
                assert(tail[i] == list[i + 1]);
            }
            lemma_join_singly_spaced(tail);
            let rest = join_words(tail);
            assert(whole[0] == head[0]);
            assert(whole[whole.len() - 1] == rest[rest.len() - 1]);
            assert forall|i: int| 0 < i < whole.len() && whole[i - 1] == ' ' implies
                #[trigger] whole[i] != ' ' by {
                if i <= head.len() {
                    lemma_word_has_no_space(head, i - 1);
                    assert(whole[i - 1] == head[i - 1]);
                } else {
                    let k = i - head.len() - 1;
                    assert(whole[i] == rest[k]);
                    if k > 0 {
                        assert(whole[i - 1] == rest[k - 1]);
                    }
                }
            }
        } else {
            assert forall|i: int| 0 < i < whole.len() && whole[i - 1] == ' ' implies
                #[trigger] whole[i] != ' ' by {
                lemma_word_has_no_space(head, i);
            }
        }
    }
}

/// A normal form neither begins nor ends with a space, and holds no two spaces in a
/// row.
pub proof fn law_normal_form_is_singly_spaced(s: Seq<char>)
    ensures
        singly_spaced(normalized(s)),
{
    lemma_split_words_are_words(folded(s));
    lemma_join_singly_spaced(split_words(folded(s)));
}

/// Normalising a normal form changes nothing.
pub proof fn law_normalizing_twice(s: Seq<char>)
    ensures
        normalized(normalized(s)) == normalized(s),
{
    law_normal_form_shape(s);
}

/// A text and the same text with its umlauts spelled out have one normal form.
pub proof fn law_spelled_out_umlauts(s: Seq<char>)
    ensures
        normalized(folded(s)) == normalized(s),
{
    lemma_folded_plain(s);
    lemma_folded_plain(folded(s));
}

/// Texts whose characters fold alike, such as capitals and small letters, have one
/// normal form.
pub proof fn law_like_characters(a: Seq<char>, b: Seq<char>)
    requires
        a.len() == b.len(),
        forall|i: int| 0 <= i < a.len() ==> folded_char(#[trigger] a[i]) == folded_char(b[i]),
    ensures
        normalized(a) == normalized(b),
{
    lemma_like_characters_fold_alike(a, b);
}

proof fn lemma_like_characters_fold_alike(a: Seq<char>, b: Seq<char>)
    requires
        a.len() == b.len(),
        forall|i: int| 0 <= i < a.len() ==> folded_char(#[trigger] a[i]) == folded_char(b[i]),
    ensures
        folded(a) == folded(b),
    decreases a.len(),
{
    if a.len() > 0 {
        let x = a.drop_last();
        let y = b.drop_last();
        assert forall|i: int| 0 <= i < x.len() implies folded_char(#[trigger] x[i]) == folded_char(
            y[i],
        ) by {
            assert(x[i] == a[i]);
            assert(y[i] == b[i]);
        }
        lemma_like_characters_fold_alike(x, y);
        assert(a[a.len() - 1] == a.last());
    }
}

/// The words of two texts with white space between them are the words of the one
/// followed by the words of the other.
pub proof fn law_words_of_concat(a: Seq<char>, gap: char, b: Seq<char>)
    requires
        white_space(gap),
    ensures
        split_words(a + seq![gap] + b) == split_words(a) + split_words(b),
    decreases a.len(),
{
    let whole = a + seq![gap] + b;
    if a.len() == 0 {
        assert(whole.drop_first() =~= b);
        assert(whole[0] == gap);
        assert(split_words(a) + split_words(b) =~= split_words(b));
    } else if white_space(a[0]) {
        assert(whole[0] == a[0]);
        assert(whole.drop_first() =~= a.drop_first() + seq![gap] + b);
        law_words_of_concat(a.drop_first(), gap, b);
    } else {
        lemma_word_end(a);
        let k = word_end(a) as int;
        let w = a.take(k);
        let rest = a.skip(k) + seq![gap] + b;
        assert(whole =~= w + rest);
        lemma_split_word_first(w, rest);
        law_words_of_concat(a.skip(k), gap, b);
        assert(seq![w] + (split_words(a.skip(k)) + split_words(b)) =~= split_words(a)
            + split_words(b));
    }
}

/// White space around a text does not change its words.
proof fn lemma_words_of_trimmed(s: Seq<char>)
    ensures
        split_words(trim_start(s)) == split_words(s),
        split_words(trim_end(s)) == split_words(s),
    decreases s.len(),
{
    if s.len() > 0 && white_space(s[0]) {
        lemma_words_of_trimmed(s.drop_first());
    }
    if s.len() > 0 && white_space(s.last()) {
        lemma_words_of_trimmed(s.drop_last());
        law_words_of_concat(s.drop_last(), s.last(), Seq::empty());
        assert(s.drop_last() + seq![s.last()] + Seq::<char>::empty() =~= s);
        assert(split_words(s.drop_last()) + split_words(Seq::<char>::empty()) =~= split_words(
            s.drop_last(),
        ));
    }
}

/// White space around a text does not change what folding leaves of its words.
proof fn lemma_folded_words_of_trimmed(s: Seq<char>)
    ensures
        split_words(folded(trim_start(s))) == split_words(folded(s)),
        split_words(folded(trim_end(s))) == split_words(folded(s)),
    decreases s.len(),
{
    if s.len() > 0 && white_space(s[0]) {
        let rest = s.drop_first();
        lemma_folded_words_of_trimmed(rest);
        lemma_folded_concat(seq![s[0]], rest);
        assert(seq![s[0]] + rest =~= s);
        lemma_folded_char_plain(s[0]);
        assert(seq![s[0]].drop_last() =~= Seq::<char>::empty());
        assert(folded(Seq::<char>::empty()) == Seq::<char>::empty());
        assert(folded(seq![s[0]]) =~= seq![' ']);
        assert((seq![' '] + folded(rest)).drop_first() =~= folded(rest));
    }
    if s.len() > 0 && white_space(s.last()) {
        let rest = s.drop_last();
        lemma_folded_words_of_trimmed(rest);
        lemma_folded_char_plain(s.last());
        law_words_of_concat(folded(rest), ' ', Seq::empty());
        assert(folded(rest) + seq![' '] + Seq::<char>::empty() =~= folded(s));
        assert(split_words(folded(rest)) + split_words(Seq::<char>::empty()) =~= split_words(
            folded(rest),
        ));
    }
}

/// White space around a text changes neither its words nor its normal form.
pub proof fn law_trimming(s: Seq<char>)
    ensures
        split_words(trimmed(s)) == split_words(s),
        normalized(trimmed(s)) == normalized(s),
{
    lemma_words_of_trimmed(s);
    lemma_words_of_trimmed(trim_start(s));
    lemma_folded_words_of_trimmed(s);
    lemma_folded_words_of_trimmed(trim_start(s));
}

/// Trimming a trimmed text changes nothing, and what is left begins and ends with
/// something that is not white space.
pub proof fn law_trimming_twice(s: Seq<char>)
    ensures
        trimmed(s).len() > 0 ==> !white_space(trimmed(s)[0]) && !white_space(trimmed(s).last()),
        trimmed(trimmed(s)) == trimmed(s),
{
    lemma_trim_start_first(s);
    lemma_trim_end_last(trim_start(s));
}

proof fn lemma_trim_start_first(s: Seq<char>)
    ensures
        trim_start(s).len() > 0 ==> !white_space(trim_start(s)[0]),
    decreases s.len(),
{
    if s.len() > 0 && white_space(s[0]) {
        lemma_trim_start_first(s.drop_first());
    }
}

proof fn lemma_trim_end_last(s: Seq<char>)
    ensures
        trim_end(s).len() <= s.len(),
        trim_end(s) == s.take(trim_end(s).len() as int),
        trim_end(s).len() > 0 ==> !white_space(trim_end(s).last()),
    decreases s.len(),
{
    if s.len() > 0 && white_space(s.last()) {
        lemma_trim_end_last(s.drop_last());
        assert(s.drop_last().take(trim_end(s).len() as int) =~= s.take(trim_end(s).len() as int));
    } else {
        assert(s.take(s.len() as int) =~= s);
    }
}

/// A text between two others is part of the whole.
pub proof fn lemma_occurs_between(a: Seq<char>, needle: Seq<char>, b: Seq<char>)
    ensures
        occurs_in(needle, a + needle + b),
{
    let hay = a + needle + b;
    assert(hay.subrange(a.len() as int, (a.len() + needle.len()) as int) =~= needle);
    assert(occurs_at(needle, hay, a.len() as int));
}

/// What stands before a word when the words `list` stand before it.
pub open spec fn lead(list: Seq<Seq<char>>) -> Seq<char> {
    if list.len() == 0 {
        Seq::empty()
    } else {
        join_words(list) + seq![' ']
    }
}

/// What stands after a word when the words `list` stand after it.
pub open spec fn trail(list: Seq<Seq<char>>) -> Seq<char> {
    if list.len() == 0 {
        Seq::empty()
    } else {
        seq![' '] + join_words(list)
    }
}

/// Words between others, joined, stand between what leads and what trails.
proof fn lemma_join_parts(a: Seq<Seq<char>>, mid: Seq<Seq<char>>, b: Seq<Seq<char>>)
    requires
        mid.len() > 0,
    ensures
        join_words(a + mid + b) == lead(a) + join_words(mid) + trail(b),
{
    if a.len() == 0 {
        assert(a + mid =~= mid);
    } else {
        lemma_join_concat(a, mid);
    }
    assert(join_words(a + mid) =~= lead(a) + join_words(mid));
    if b.len() == 0 {
        assert(a + mid + b =~= a + mid);
    } else {
        lemma_join_concat(a + mid, b);
    }
    assert(join_words(a + mid + b) =~= lead(a) + join_words(mid) + trail(b));
}

/// Neighbouring words of a list, joined, are part of the whole list joined.
pub proof fn lemma_join_occurs(a: Seq<Seq<char>>, mid: Seq<Seq<char>>, b: Seq<Seq<char>>)
    requires
        mid.len() > 0,
    ensures
        occurs_in(join_words(mid), join_words(a + mid + b)),
{
    lemma_join_parts(a, mid, b);
    lemma_occurs_between(lead(a), join_words(mid), trail(b));
}

/// Any text ends with a run, which may be empty, of characters that are not white
/// space, and white space stands before it if anything does.
proof fn lemma_last_run(s: Seq<char>) -> (start: int)
    ensures
        0 <= start <= s.len(),
        start > 0 ==> white_space(s[start - 1]),
        forall|i: int| start <= i < s.len() ==> !white_space(#[trigger] s[i]),
    decreases s.len(),
{
    if s.len() == 0 || white_space(s.last()) {
        s.len() as int
    } else {
        let start = lemma_last_run(s.drop_last());
        assert forall|i: int| start <= i < s.len() implies !white_space(#[trigger] s[i]) by {
            if i < s.len() - 1 {
                assert(s.drop_last()[i] == s[i]);
            }
        }
        if start > 0 {
            assert(s.drop_last()[start - 1] == s[start - 1]);
        }
        start
    }
}

/// The words of a text around a run `w` of characters that are not white space:
/// only the word that the run belongs to depends on it.
proof fn lemma_words_around(before: Seq<char>, start: int, w: Seq<char>, after: Seq<char>)
    requires
        0 <= start <= before.len(),
        start > 0 ==> white_space(before[start - 1]),
        forall|i: int| start <= i < before.len() ==> !white_space(#[trigger] before[i]),
        is_word(w),
    ensures
        split_words(before + w + after) == words_before(before, start) + seq![
            before.skip(start) + w + after.take(word_end(after) as int),
        ] + split_words(after.skip(word_end(after) as int)),
{
    lemma_word_end(after);
    let k = word_end(after) as int;
    let rest = after.skip(k);
    let word = before.skip(start) + w + after.take(k);
    assert(is_word(word)) by {
        assert forall|i: int| 0 <= i < word.len() implies !white_space(#[trigger] word[i]) by {
            let run = before.len() - start;
            if i < run {
                assert(word[i] == before[start + i]);
            } else if i < run + w.len() {
                assert(word[i] == w[i - run]);
            } else {
                assert(word[i] == after[i - run - w.len()]);
            }
        }
        assert(w.len() > 0);
    }
    if rest.len() > 0 {
        assert(rest[0] == after[k]);
    }
    lemma_split_word_first(word, rest);
    if start == 0 {
        assert(before + w + after =~= word + rest);
        assert(words_before(before, start) + seq![word] + split_words(rest) =~= seq![word]
            + split_words(rest));
    } else {
        let gap = before[start - 1];
        assert(before + w + after =~= before.take(start - 1) + seq![gap] + (word + rest));
        law_words_of_concat(before.take(start - 1), gap, word + rest);
        assert(words_before(before, start) + seq![word] + split_words(rest) =~= words_before(
            before,
            start,
        ) + (seq![word] + split_words(rest)));
    }
}

/// The words that end before the run that begins at `start`.
pub open spec fn words_before(s: Seq<char>, start: int) -> Seq<Seq<char>> {
    if start == 0 {
        Seq::empty()
    } else {
        split_words(s.take(start - 1))
    }
}

/// Spelling one character with two letters in place of one, as an umlaut in place
/// of its vowel, adds one letter to the normal form and changes nothing else: not
/// even the number of words.
pub proof fn law_umlaut_adds_one_letter(
    before: Seq<char>,
    umlaut: char,
    vowel: char,
    after: Seq<char>,
)
    requires
        folded_char(vowel).len() == 1,
        !white_space(folded_char(vowel)[0]),
        folded_char(umlaut) == folded_char(vowel) + seq!['e'],
    ensures
        one_edit(
            normalized(before + seq![umlaut] + after),
            normalized(before + seq![vowel] + after),
        ),
        edit_distance(
            normalized(before + seq![umlaut] + after),
            normalized(before + seq![vowel] + after),
        ) <= 1,
        split_words(normalized(before + seq![umlaut] + after)).len() == split_words(
            normalized(before + seq![vowel] + after),
        ).len(),
{
    let long = folded_char(umlaut);
    let short = folded_char(vowel);
    let front = folded(before);
    let back = folded(after);
    lemma_folded_in_context(before, umlaut, after);
    lemma_folded_in_context(before, vowel, after);
    assert(is_word(short));
    assert(is_word(long));
    let start = lemma_last_run(front);
    lemma_words_around(front, start, long, back);
    lemma_words_around(front, start, short, back);
    let a = words_before(front, start);
    let u = front.skip(start);
    let v = back.take(word_end(back) as int);
    let b = split_words(back.skip(word_end(back) as int));
    lemma_join_parts(a, seq![u + long + v], b);
    lemma_join_parts(a, seq![u + short + v], b);
    let x = normalized(before + seq![umlaut] + after);
    let y = normalized(before + seq![vowel] + after);
    let none = Seq::<char>::empty();
    assert(x =~= (lead(a) + u + short) + seq!['e'] + (v + trail(b)));
    assert(y =~= (lead(a) + u + short) + none + (v + trail(b)));
    assert(seq!['e'].len() != none.len());
    assert(edited(lead(a) + u + short, seq!['e'], none, v + trail(b), x, y));
    law_one_edit(x, y);
    law_words_of_normal_form(before + seq![umlaut] + after);
    law_words_of_normal_form(before + seq![vowel] + after);
}

proof fn lemma_folded_in_context(before: Seq<char>, c: char, after: Seq<char>)
    ensures
        folded(before + seq![c] + after) == folded(before) + folded_char(c) + folded(after),
{
    lemma_folded_concat(before + seq![c], after);
    assert((before + seq![c]).drop_last() =~= before);
    assert(folded(before + seq![c]) == folded(before) + folded_char(c));
}

/// Which characters are white space: the space, the control characters from the tab to
/// the carriage return, and the spaces and separators of Unicode.
pub proof fn law_white_space(c: char)
    ensures
        white_space(c) <==> {
            ||| c == ' '
            ||| '\t' <= c <= '\r'
            ||| c == '\u{85}'
            ||| c == '\u{a0}'
            ||| c == '\u{1680}'
            ||| '\u{2000}' <= c <= '\u{200a}'
            ||| c == '\u{2028}'
            ||| c == '\u{2029}'
            ||| c == '\u{202f}'
            ||| c == '\u{205f}'
            ||| c == '\u{3000}'
        },
{
}

/// A list of strings and their texts agree, place by place.
pub proof fn law_texts(strings: Seq<String>)
    ensures
        texts(strings).len() == strings.len(),
        forall|i: int| 0 <= i < strings.len() ==> #[trigger] texts(strings)[i] == strings[i]@,
{
}

proof fn lemma_trim_start_skips(front: Seq<char>, rest: Seq<char>)
    requires
        forall|i: int| 0 <= i < front.len() ==> white_space(#[trigger] front[i]),
        rest.len() == 0 || !white_space(rest[0]),
    ensures
        trim_start(front + rest) == rest,
    decreases front.len(),
{
    if front.len() == 0 {
        assert(front + rest =~= rest);
    } else {
        assert((front + rest).drop_first() =~= front.drop_first() + rest);
        assert((front + rest)[0] == front[0]);
        lemma_trim_start_skips(front.drop_first(), rest);
    }
}

proof fn lemma_trim_end_skips(rest: Seq<char>, back: Seq<char>)
    requires
        forall|i: int| 0 <= i < back.len() ==> white_space(#[trigger] back[i]),
        rest.len() == 0 || !white_space(rest.last()),
    ensures
        trim_end(rest + back) == rest,
    decreases back.len(),
{
    if back.len() == 0 {
        assert(rest + back =~= rest);
    } else {
        assert((rest + back).drop_last() =~= rest + back.drop_last());
        assert((rest + back).last() == back[back.len() - 1]);
        lemma_trim_end_skips(rest, back.drop_last());
    }
}

/// Trimming takes away white space at both ends, all of it and nothing else: a text that
/// neither begins nor ends with white space comes back out of any white space around it.
pub proof fn law_trimming_uncovers(front: Seq<char>, middle: Seq<char>, back: Seq<char>)
    requires
        forall|i: int| 0 <= i < front.len() ==> white_space(#[trigger] front[i]),
        forall|i: int| 0 <= i < back.len() ==> white_space(#[trigger] back[i]),
        middle.len() > 0 ==> !white_space(middle[0]) && !white_space(middle[middle.len() - 1]),
    ensures
        trimmed(front + middle + back) == middle,
{
    if middle.len() > 0 {
        assert(front + middle + back =~= front + (middle + back));
        assert((middle + back)[0] == middle[0]);
        lemma_trim_start_skips(front, middle + back);
        lemma_trim_end_skips(middle, back);
    } else {
        let all = front + back;
        assert(front + middle + back =~= all);
        assert(all + Seq::<char>::empty() =~= all);
        assert forall|i: int| 0 <= i < all.len() implies white_space(#[trigger] all[i]) by {
            if i < front.len() {
                assert(all[i] == front[i]);
            } else {
                assert(all[i] == back[i - front.len()]);
            }
        }
        lemma_trim_start_skips(all, Seq::empty());
        assert(middle =~= Seq::<char>::empty());
    }
}

/// One text is part of another exactly when the other is that text with something,
/// perhaps nothing, before and after it.
pub proof fn law_part_of_a_text(needle: Seq<char>, hay: Seq<char>)
    ensures
        occurs_in(needle, hay) <==> exists|a: Seq<char>, b: Seq<char>|
            hay == #[trigger] (a + needle + b),
{
    if occurs_in(needle, hay) {
        let at = choose|at: int| occurs_at(needle, hay, at);
        let a = hay.take(at);
        let b = hay.skip(at + needle.len());
        assert(hay =~= a + needle + b) by {
            assert(hay.subrange(at, at + needle.len()) == needle);
        }
    }
    if exists|a: Seq<char>, b: Seq<char>| hay == #[trigger] (a + needle + b) {
        let (a, b) = choose|a: Seq<char>, b: Seq<char>| hay == #[trigger] (a + needle + b);
        lemma_occurs_between(a, needle, b);
    }
}

/// Joining puts one space between neighbours: no words give nothing, one word gives
/// itself, and one more word comes after a space.
pub proof fn law_joining(list: Seq<Seq<char>>, word: Seq<char>)
    ensures
        join_words(Seq::empty()) == Seq::<char>::empty(),
        join_words(seq![word]) == word,
        list.len() > 0 ==> join_words(list.push(word)) == join_words(list) + seq![' '] + word,
{
    if list.len() > 0 {
        lemma_join_concat(list, seq![word]);
        assert(list + seq![word] =~= list.push(word));
    }
}

/// A text without white space is its own only word, and no text has no words.
pub proof fn law_single_word(word: Seq<char>)
    requires
        word.len() > 0,
        forall|i: int| 0 <= i < word.len() ==> !white_space(#[trigger] word[i]),
    ensures
        split_words(word) == seq![word],
        split_words(Seq::empty()).len() == 0,
{
    lemma_split_word_first(word, Seq::empty());
    assert(word + Seq::<char>::empty() =~= word);
    assert(seq![word] + split_words(Seq::<char>::empty()) =~= seq![word]);
}

proof fn lemma_folded_one(c: char)
    ensures
        folded(seq![c]) == folded_char(c),
{
    assert(seq![c].drop_last() =~= Seq::<char>::empty());
    assert(folded(Seq::<char>::empty()) == Seq::<char>::empty());
    assert(Seq::<char>::empty() + folded_char(c) =~= folded_char(c));
}

proof fn lemma_same_middle(a: Seq<char>, x: Seq<char>, y: Seq<char>, b: Seq<char>)
    requires
        folded(x) == folded(y),
    ensures
        normalized(a + x + b) == normalized(a + y + b),
{
    lemma_folded_concat(a + x, b);
    lemma_folded_concat(a, x);
    lemma_folded_concat(a + y, b);
    lemma_folded_concat(a, y);
}

/// Capitals and small letters are the same, wherever they stand.
pub proof fn law_capitals(a: Seq<char>, capital: char, small: char, b: Seq<char>)
    requires
        'A' <= capital <= 'Z',
        small as u32 - 'a' as u32 == capital as u32 - 'A' as u32,
    ensures
        normalized(a + seq![capital] + b) == normalized(a + seq![small] + b),
{
    lemma_folded_one(capital);
    lemma_folded_one(small);
    assert((capital as u32 + 32) as char == small);
    lemma_same_middle(a, seq![capital], seq![small], b);
}

proof fn lemma_spelled_with_two(a: Seq<char>, c: char, x: char, y: char, b: Seq<char>)
    requires
        folded_char(c) == seq![x, y],
        folded_char(x) == seq![x],
        folded_char(y) == seq![y],
    ensures
        normalized(a + seq![c] + b) == normalized(a + seq![x, y] + b),
{
    lemma_folded_one(c);
    lemma_folded_one(x);
    lemma_folded_one(y);
    lemma_folded_concat(seq![x], seq![y]);
    assert(seq![x] + seq![y] =~= seq![x, y]);
    lemma_same_middle(a, seq![c], seq![x, y], b);
}

/// An umlaut is the same as its vowel with an e, and the sharp s as two of them,
/// wherever they stand.
pub proof fn law_umlauts(a: Seq<char>, b: Seq<char>)
    ensures
        normalized(a + seq!['ä'] + b) == normalized(a + seq!['a', 'e'] + b),
        normalized(a + seq!['Ä'] + b) == normalized(a + seq!['a', 'e'] + b),
        normalized(a + seq!['ö'] + b) == normalized(a + seq!['o', 'e'] + b),
        normalized(a + seq!['Ö'] + b) == normalized(a + seq!['o', 'e'] + b),
        normalized(a + seq!['ü'] + b) == normalized(a + seq!['u', 'e'] + b),
        normalized(a + seq!['Ü'] + b) == normalized(a + seq!['u', 'e'] + b),
        normalized(a + seq!['ß'] + b) == normalized(a + seq!['s', 's'] + b),
{
    lemma_spelled_with_two(a, 'ä', 'a', 'e', b);
    lemma_spelled_with_two(a, 'Ä', 'a', 'e', b);
    lemma_spelled_with_two(a, 'ö', 'o', 'e', b);
    lemma_spelled_with_two(a, 'Ö', 'o', 'e', b);
    lemma_spelled_with_two(a, 'ü', 'u', 'e', b);
    lemma_spelled_with_two(a, 'Ü', 'u', 'e', b);
    lemma_spelled_with_two(a, 'ß', 's', 's', b);
}

/// Any other character but letters and digits is the same as a space, wherever it
/// stands.
pub proof fn law_other_characters(a: Seq<char>, c: char, b: Seq<char>)
    requires
        !('a' <= c <= 'z'),
        !('A' <= c <= 'Z'),
        !('0' <= c <= '9'),
        c != 'ä' && c != 'Ä' && c != 'ö' && c != 'Ö' && c != 'ü' && c != 'Ü' && c != 'ß',
    ensures
        normalized(a + seq![c] + b) == normalized(a + seq![' '] + b),
{
    lemma_folded_one(c);
    lemma_folded_one(' ');
    lemma_same_middle(a, seq![c], seq![' '], b);
}

proof fn lemma_plain_space(c: char)
    requires
        plain_char(c),
        white_space(c),
    ensures
        c == ' ',
{
}

proof fn lemma_singly_spaced_joins(s: Seq<char>)
    requires
        plain(s),
        singly_spaced(s),
    ensures
        join_words(split_words(s)) == s,
    decreases s.len(),
{
    if s.len() > 0 {
        lemma_word_end(s);
        if white_space(s[0]) {
            lemma_plain_space(s[0]);
        }
        let k = word_end(s) as int;
        let word = s.take(k);
        if k == s.len() {
            assert(s.skip(k) =~= Seq::<char>::empty());
            assert(word =~= s);
            law_single_word(s);
        } else {
            lemma_plain_space(s[k]);
            let rest = s.skip(k + 1);
            assert(s.skip(k).drop_first() =~= rest);
            assert(s.skip(k)[0] == s[k]);
            assert(rest.len() > 0);
            assert(rest[0] == s[k + 1]);
            assert(rest[rest.len() - 1] == s[s.len() - 1]);
            assert forall|i: int| 0 < i < rest.len() && rest[i - 1] == ' ' implies
                #[trigger] rest[i] != ' ' by {
                assert(rest[i] == s[i + k + 1]);
                assert(rest[i - 1] == s[i + k]);
            }
            assert(plain(rest));
            lemma_singly_spaced_joins(rest);
            let words = split_words(rest);
            assert(split_words(s.skip(k)) == words);
            assert(split_words(s) == seq![word] + words);
            assert((seq![word] + words).drop_first() =~= words);
            assert(words.len() > 0) by {
                if words.len() == 0 {
                    assert(join_words(words).len() == 0);
                }
            }
            assert(join_words(split_words(s)) =~= word + seq![' '] + rest);
            assert(word + seq![' '] + rest =~= s);
        }
    }
}

/// A text of small letters, digits and single spaces between them is its own normal
/// form.
pub proof fn law_normal_text_stays(s: Seq<char>)
    requires
        forall|i: int|
            0 <= i < s.len() ==> 'a' <= #[trigger] s[i] <= 'z' || '0' <= s[i] <= '9' || s[i]
                == ' ',
        s.len() > 0 ==> s[0] != ' ' && s[s.len() - 1] != ' ',
        forall|i: int| 0 < i < s.len() && s[i - 1] == ' ' ==> #[trigger] s[i] != ' ',
    ensures
        normalized(s) == s,
{
    assert(plain(s));
    assert(singly_spaced(s));
    lemma_folded_plain(s);
    lemma_singly_spaced_joins(s);
}

/// Text on two sides of a space is normalised on its own.
pub proof fn law_normal_form_of_two(a: Seq<char>, b: Seq<char>)
    requires
        normalized(a).len() > 0,
        normalized(b).len() > 0,
    ensures
        normalized(a + seq![' '] + b) == normalized(a) + seq![' '] + normalized(b),
{
    lemma_folded_concat(a + seq![' '], b);
    lemma_folded_concat(a, seq![' ']);
    lemma_folded_one(' ');
    law_words_of_concat(folded(a), ' ', folded(b));
    law_words_of_normal_form(a);
    law_words_of_normal_form(b);
    lemma_join_concat(split_words(folded(a)), split_words(folded(b)));
}

} // verus!
