//! Plain text: white space, words, trimming, substring search and the
//! normal form in which spoken text is compared.
use vstd::prelude::*;

verus! {

/// Appends `c` to the end of the string, as `String::push` documents.
pub assume_specification[ String::push ](s: &mut String, c: char)
    ensures
        final(s)@ == old(s)@.push(c),
;

/// The characters with the Unicode property `White_Space`.
pub open spec fn white_space(c: char) -> bool {
    let n = c as u32;
    ||| 0x09 <= n <= 0x0d
    ||| n == 0x20
    ||| n == 0x85
    ||| n == 0xa0
    ||| n == 0x1680
    ||| 0x2000 <= n <= 0x200a
    ||| n == 0x2028
    ||| n == 0x2029
    ||| n == 0x202f
    ||| n == 0x205f
    ||| n == 0x3000
}

/// The texts of a list of strings.
pub open spec fn texts(strings: Seq<String>) -> Seq<Seq<char>> {
    strings.map_values(|s: String| s@)
}

/// The number of leading characters of `s` that are not white space.
pub open spec fn word_end(s: Seq<char>) -> nat
    decreases s.len(),
{
    if s.len() == 0 || white_space(s[0]) {
        0
    } else {
        1 + word_end(s.drop_first())
    }
}

/// The maximal runs of characters that are not white space, in order.
pub open spec fn split_words(s: Seq<char>) -> Seq<Seq<char>>
    decreases s.len(),
{
    if s.len() == 0 {
        Seq::empty()
    } else if white_space(s[0]) {
        split_words(s.drop_first())
    } else {
        proof {
            lemma_word_end(s);
        }
        seq![s.take(word_end(s) as int)] + split_words(s.skip(word_end(s) as int))
    }
}

/// The words put together with one space between neighbours.
pub open spec fn join_words(words: Seq<Seq<char>>) -> Seq<char>
    decreases words.len(),
{
    if words.len() == 0 {
        Seq::empty()
    } else if words.len() == 1 {
        words[0]
    } else {
        words[0] + seq![' '] + join_words(words.drop_first())
    }
}

/// `s` without its leading white space.
pub open spec fn trim_start(s: Seq<char>) -> Seq<char>
    decreases s.len(),
{
    if s.len() > 0 && white_space(s[0]) {
        trim_start(s.drop_first())
    } else {
        s
    }
}

/// `s` without its trailing white space.
pub open spec fn trim_end(s: Seq<char>) -> Seq<char>
    decreases s.len(),
{
    if s.len() > 0 && white_space(s.last()) {
        trim_end(s.drop_last())
    } else {
        s
    }
}

/// `s` without its leading and trailing white space.
pub open spec fn trimmed(s: Seq<char>) -> Seq<char> {
    trim_end(trim_start(s))
}

/// Whether `needle` stands in `hay` at position `at`.
pub open spec fn occurs_at(needle: Seq<char>, hay: Seq<char>, at: int) -> bool {
    &&& 0 <= at <= hay.len() - needle.len()
    &&& hay.subrange(at, at + needle.len()) == needle
}

/// Whether `needle` is a contiguous part of `hay`.
pub open spec fn occurs_in(needle: Seq<char>, hay: Seq<char>) -> bool {
    exists|at: int| occurs_at(needle, hay, at)
}

/// What one character contributes to the normal form: lower-case ASCII letters,
/// digits and the space stay, capitals become lower case, the German umlauts and
/// the sharp s are spelled out, everything else becomes a space.
pub open spec fn folded_char(c: char) -> Seq<char> {
    let n = c as u32;
    if 0x61 <= n <= 0x7a || 0x30 <= n <= 0x39 || n == 0x20 {
        seq![c]
    } else if 0x41 <= n <= 0x5a {
        seq![(n + 32) as char]
    } else if c == 'ä' || c == 'Ä' {
        seq!['a', 'e']
    } else if c == 'ö' || c == 'Ö' {
        seq!['o', 'e']
    } else if c == 'ü' || c == 'Ü' {
        seq!['u', 'e']
    } else if c == 'ß' {
        seq!['s', 's']
    } else {
        seq![' ']
    }
}

/// The contributions of all characters, one after the other.
pub open spec fn folded(s: Seq<char>) -> Seq<char>
    decreases s.len(),
{
    if s.len() == 0 {
        Seq::empty()
    } else {
        folded(s.drop_last()) + folded_char(s.last())
    }
}

/// The normal form of a text: folded, with single spaces between its words and
/// none at the ends.
pub open spec fn normalized(s: Seq<char>) -> Seq<char> {
    join_words(split_words(folded(s)))
}

pub proof fn lemma_word_end(s: Seq<char>)
    ensures
        word_end(s) <= s.len(),
        forall|i: int| 0 <= i < word_end(s) ==> !white_space(#[trigger] s[i]),
        word_end(s) < s.len() ==> white_space(s[word_end(s) as int]),
    decreases s.len(),
{
    if s.len() > 0 && !white_space(s[0]) {
        let rest = s.drop_first();
        lemma_word_end(rest);
        assert forall|i: int| 0 <= i < word_end(s) implies !white_space(#[trigger] s[i]) by {
            if i > 0 {
                assert(s[i] == rest[i - 1]);
            }
        }
    }
}

/// Whether `c` is white space.
pub fn is_white_space(c: char) -> (r: bool)
    ensures
        r == white_space(c),
{
    let n: u32 = c as u32;
    (n >= 0x09 && n <= 0x0d) || n == 0x20 || n == 0x85 || n == 0xa0 || n == 0x1680 || (n >= 0x2000
        && n <= 0x200a) || n == 0x2028 || n == 0x2029 || n == 0x202f || n == 0x205f || n == 0x3000
}

/// The characters of a text.
pub fn chars_of(s: &str) -> (out: Vec<char>)
    ensures
        out@ == s@,
{
    let mut out: Vec<char> = Vec::new();
    for c in it: s.chars()
        invariant
            it.seq() == s@,
            out@ == s@.take(it.index() as int),
    {
        out.push(c);
    }
    out
}

/// The text made of the characters from `from` up to `to`.
pub fn string_of(chars: &Vec<char>, from: usize, to: usize) -> (out: String)
    requires
        from <= to <= chars@.len(),
    ensures
        out@ == chars@.subrange(from as int, to as int),
{
    let mut out = String::new();
    let mut i: usize = from;
    while i < to
        invariant
            from <= i <= to <= chars@.len(),
            out@ == chars@.subrange(from as int, i as int),
        decreases to - i,
    {
        out.push(chars[i]);
        i += 1;
    }
    out
}

/// The text without its leading and trailing white space.
pub fn trim(s: &str) -> (out: String)
    ensures
        out@ == trimmed(s@),
{
    let chars = chars_of(s);
    let n: usize = chars.len();
    let mut start: usize = 0;
    assert(chars@.skip(0) =~= s@);
    while start < n && is_white_space(chars[start])
        invariant
            n == chars@.len(),
            chars@ == s@,
            start <= n,
            trim_start(chars@.skip(start as int)) == trim_start(s@),
        decreases n - start,
    {
        assert(chars@.skip(start as int).drop_first() =~= chars@.skip(start + 1));
        start += 1;
    }
    assert(trim_start(s@) == chars@.skip(start as int));
    let mut end: usize = n;
    assert(chars@.subrange(start as int, n as int) =~= chars@.skip(start as int));
    while end > start && is_white_space(chars[end - 1])
        invariant
            chars@ == s@,
            start <= end <= chars@.len(),
            trim_end(chars@.subrange(start as int, end as int)) == trimmed(s@),
        decreases end,
    {
        assert(chars@.subrange(start as int, end as int).drop_last() =~= chars@.subrange(
            start as int,
            end - 1,
        ));
        end -= 1;
    }
    string_of(&chars, start, end)
}

/// The words of a text that is given as characters.
fn words_of(chars: &Vec<char>) -> (out: Vec<String>)
    ensures
        texts(out@) == split_words(chars@),
{
    let mut out: Vec<String> = Vec::new();
    let mut i: usize = 0;
    assert(chars@.skip(0) =~= chars@);
    assert(texts(out@) + split_words(chars@) =~= split_words(chars@));
    while i < chars.len()
        invariant
            i <= chars@.len(),
            texts(out@) + split_words(chars@.skip(i as int)) == split_words(chars@),
        decreases chars@.len() - i,
    {
        let ghost rest = chars@.skip(i as int);
        if is_white_space(chars[i]) {
            assert(rest.drop_first() =~= chars@.skip(i + 1));
            i += 1;
        } else {
            let from: usize = i;
            proof {
                lemma_word_end(rest);
            }
            while i < chars.len() && !is_white_space(chars[i])
                invariant
                    rest == chars@.skip(from as int),
                    from <= i <= chars@.len(),
                    i - from <= word_end(rest) <= rest.len(),
                    forall|k: int| 0 <= k < word_end(rest) ==> !white_space(#[trigger] rest[k]),
                    word_end(rest) < rest.len() ==> white_space(rest[word_end(rest) as int]),
                decreases chars@.len() - i,
            {
                assert(rest[i - from] == chars@[i as int]);
                i += 1;
            }
            if i < chars.len() {
                assert(rest[i - from] == chars@[i as int]);
            }
            let word = string_of(chars, from, i);
            assert(word@ =~= rest.take(word_end(rest) as int));
            assert(chars@.skip(i as int) =~= rest.skip(word_end(rest) as int));
            let ghost before = out@;
            out.push(word);
            assert(texts(out@) =~= texts(before).push(word@));
            assert(texts(out@) + split_words(chars@.skip(i as int)) =~= texts(before) + (
            seq![word@] + split_words(chars@.skip(i as int))));
        }
    }
    assert(chars@.skip(i as int) =~= Seq::<char>::empty());
    assert(texts(out@) + split_words(Seq::<char>::empty()) =~= texts(out@));
    out
}

/// The words of a text.
pub fn words(s: &str) -> (out: Vec<String>)
    ensures
        texts(out@) == split_words(s@),
{
    let chars = chars_of(s);
    words_of(&chars)
}

/// The words from `from` up to `to`, put together with single spaces.
pub fn join(list: &Vec<String>, from: usize, to: usize) -> (out: String)
    requires
        from <= to <= list@.len(),
    ensures
        out@ == join_words(texts(list@).subrange(from as int, to as int)),
{
    let mut out = String::new();
    let mut i: usize = to;
    let ghost all = texts(list@);
    while i > from
        invariant
            all == texts(list@),
            from <= i <= to <= list@.len(),
            out@ == join_words(all.subrange(i as int, to as int)),
        decreases i,
    {
        let mut longer = list[i - 1].clone();
        let ghost tail = all.subrange(i as int, to as int);
        let ghost whole = all.subrange(i - 1, to as int);
        assert(whole.drop_first() =~= tail);
        assert(whole[0] == list@[i - 1]@);
        if i < to {
            longer.push(' ');
            longer.append(out.as_str());
            assert(longer@ =~= whole[0] + seq![' '] + join_words(tail));
        }
        out = longer;
        i -= 1;
    }
    out
}

/// Whether two texts are the same.
pub fn same_text(a: &str, b: &str) -> (r: bool)
    ensures
        r == (a@ == b@),
{
    let x = chars_of(a);
    let y = chars_of(b);
    if x.len() != y.len() {
        return false;
    }
    let mut i: usize = 0;
    while i < x.len()
        invariant
            x@ == a@,
            y@ == b@,
            x@.len() == y@.len(),
            i <= x@.len(),
            forall|k: int| 0 <= k < i ==> x@[k] == y@[k],
        decreases x@.len() - i,
    {
        if x[i] != y[i] {
            return false;
        }
        i += 1;
    }
    assert(x@ =~= y@);
    true
}

/// Whether `needle` is a contiguous part of `hay`.
pub fn contains(hay: &str, needle: &str) -> (r: bool)
    ensures
        r == occurs_in(needle@, hay@),
{
    let h = chars_of(hay);
    let w = chars_of(needle);
    if w.len() > h.len() {
        return false;
    }
    let n: usize = h.len();
    let last: usize = n - w.len();
    let mut at: usize = 0;
    loop
        invariant
            h@ == hay@,
            w@ == needle@,
            n == h@.len(),
            last == n - w@.len(),
            at <= last,
            forall|k: int| 0 <= k < at ==> !#[trigger] occurs_at(needle@, hay@, k),
        decreases last - at,
    {
        let mut i: usize = 0;
        while i < w.len() && h[at + i] == w[i]
            invariant
                h@ == hay@,
                w@ == needle@,
                n == h@.len(),
            last == n - w@.len(),
                at <= last,
                i <= w@.len(),
                forall|k: int| 0 <= k < i ==> h@[at + k] == #[trigger] w@[k],
            decreases w@.len() - i,
        {
            i += 1;
        }
        if i == w.len() {
            assert(h@.subrange(at as int, at + w@.len()) =~= w@);
            assert(occurs_at(needle@, hay@, at as int));
            return true;
        }
        assert(!occurs_at(needle@, hay@, at as int)) by {
            if occurs_at(needle@, hay@, at as int) {
                assert(h@.subrange(at as int, at + w@.len())[i as int] == w@[i as int]);
            }
        }
        if at == last {
            return false;
        }
        at += 1;
    }
}

/// Appends what `c` contributes to the normal form.
fn push_folded(out: &mut Vec<char>, c: char)
    ensures
        final(out)@ == old(out)@ + folded_char(c),
{
    let n: u32 = c as u32;
    if (n >= 0x61 && n <= 0x7a) || (n >= 0x30 && n <= 0x39) || n == 0x20 {
        out.push(c);
    } else if n >= 0x41 && n <= 0x5a {
        out.push((c as u8 + 32) as char);
    } else if c == 'ä' || c == 'Ä' {
        out.push('a');
        out.push('e');
    } else if c == 'ö' || c == 'Ö' {
        out.push('o');
        out.push('e');
    } else if c == 'ü' || c == 'Ü' {
        out.push('u');
        out.push('e');
    } else if c == 'ß' {
        out.push('s');
        out.push('s');
    } else {
        out.push(' ');
    }
    assert(out@ =~= old(out)@ + folded_char(c));
}

/// The normal form in which spoken text is compared.
pub fn normalize_text(s: &str) -> (out: String)
    ensures
        out@ == normalized(s@),
{
    let mut flat: Vec<char> = Vec::new();
    for c in it: s.chars()
        invariant
            it.seq() == s@,
            flat@ == folded(s@.take(it.index() as int)),
    {
        proof {
            let k = it.index() as int;
            assert(s@.take(k + 1).drop_last() =~= s@.take(k));
        }
        push_folded(&mut flat, c);
    }
    assert(s@.take(s@.len() as int) =~= s@);
    let list = words_of(&flat);
    let n: usize = list.len();
    let out = join(&list, 0, n);
    assert(texts(list@).subrange(0, n as int) =~= texts(list@));
    out
}

/// The same texts once more.
pub fn copied_texts(strings: &[String]) -> (copy: Vec<String>)
    ensures
        texts(copy@) == texts(strings@),
{
    let mut copy: Vec<String> = Vec::new();
    let ghost all = texts(strings@);
    assert(texts(copy@) =~= all.take(0));
    for i in 0..strings.len()
        invariant
            all == texts(strings@),
            texts(copy@) == all.take(i as int),
    {
        let ghost before = copy@;
        copy.push(strings[i].clone());
        assert(texts(copy@) =~= texts(before).push(all[i as int]));
        assert(all.take(i + 1) =~= all.take(i as int).push(all[i as int]));
    }
    assert(all.take(strings@.len() as int) =~= all);
    copy
}

} // verus!
