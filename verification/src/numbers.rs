//! Numbers as decimal text.
use vstd::arithmetic::power::{lemma_pow0, lemma_pow1, lemma_pow_adds, pow};
use vstd::prelude::*;

use crate::text::chars_of;

verus! {

/// Whether a character is an ASCII digit.
pub open spec fn is_digit(c: char) -> bool {
    0x30 <= c as u32 <= 0x39
}

/// The value of a digit.
pub open spec fn digit_value(c: char) -> nat {
    (c as u32 - 0x30) as nat
}

/// The number that a sequence of digits stands for.
pub open spec fn digits_value(s: Seq<char>) -> nat
    decreases s.len(),
{
    if s.len() == 0 {
        0
    } else {
        digits_value(s.drop_last()) * 10 + digit_value(s.last())
    }
}

/// Whether a text consists of digits, at least one.
pub open spec fn all_digits(s: Seq<char>) -> bool {
    s.len() > 0 && forall|i: int| 0 <= i < s.len() ==> is_digit(#[trigger] s[i])
}

/// A text without a plus sign at its beginning.
pub open spec fn without_plus(s: Seq<char>) -> Seq<char> {
    if s.len() > 0 && s[0] == '+' {
        s.drop_first()
    } else {
        s
    }
}

/// The number that a text stands for: digits, at least one, which a plus sign may
/// precede.
pub open spec fn decimal_value(s: Seq<char>) -> Option<nat> {
    if all_digits(without_plus(s)) {
        Some(digits_value(without_plus(s)))
    } else {
        None
    }
}

/// The digits of a number, without leading zeros.
pub open spec fn decimal_text(n: nat) -> Seq<char>
    decreases n,
{
    let digit = seq![(0x30 + n % 10) as char];
    if n < 10 {
        digit
    } else {
        decimal_text(n / 10) + digit
    }
}

/// The number that a text stands for, if it stands for one that fits.
pub fn parse_u64(s: &str) -> (n: Option<u64>)
    ensures
        match n {
            Some(v) => decimal_value(s@) == Some(v as nat),
            None => decimal_value(s@) is None || decimal_value(s@)->Some_0 > u64::MAX,
        },
{
    let chars = chars_of(s);
    let start: usize = if chars.len() > 0 && chars[0] == '+' {
        1
    } else {
        0
    };
    let ghost digits = without_plus(s@);
    assert(digits =~= s@.skip(start as int));
    if start == chars.len() {
        return None;
    }
    let mut value: u64 = 0;
    let mut fits = true;
    let mut i: usize = start;
    while i < chars.len()
        invariant
            chars@ == s@,
            start <= i <= chars@.len(),
            digits == s@.skip(start as int),
            digits == without_plus(s@),
            digits.len() > 0,
            forall|k: int| 0 <= k < i - start ==> is_digit(#[trigger] digits[k]),
            fits ==> value == digits_value(digits.take(i - start)),
            !fits ==> digits_value(digits.take(i - start)) > u64::MAX,
        decreases chars@.len() - i,
    {
        let n: u32 = chars[i] as u32;
        assert(digits[i - start] == chars@[i as int]);
        if n < 0x30 || n > 0x39 {
            assert(!is_digit(digits[i - start]));
            return None;
        }
        assert(digits.take(i - start + 1).drop_last() =~= digits.take(i - start));
        assert(digits.take(i - start + 1).last() == chars@[i as int]);
        let digit: u64 = (n - 0x30) as u64;
        if fits {
            match value.checked_mul(10) {
                Some(tens) => match tens.checked_add(digit) {
                    Some(sum) => {
                        value = sum;
                    },
                    None => {
                        fits = false;
                    },
                },
                None => {
                    fits = false;
                },
            }
        }
        i += 1;
    }
    assert(digits.take(i - start) =~= digits);
    if fits {
        Some(value)
    } else {
        None
    }
}

/// The digits of a number.
pub fn decimal(n: u64) -> (out: String)
    ensures
        out@ == decimal_text(n as nat),
    decreases n,
{
    let mut out = if n < 10 {
        String::new()
    } else {
        decimal(n / 10)
    };
    out.push((0x30 + (n % 10) as u8) as char);
    assert(out@ =~= decimal_text(n as nat));
    out
}

proof fn lemma_decimal_text(n: nat)
    ensures
        all_digits(decimal_text(n)),
        digits_value(decimal_text(n)) == n,
    decreases n,
{
    let digit = (0x30 + n % 10) as char;
    let s = decimal_text(n);
    if n < 10 {
        assert(s.drop_last() =~= Seq::<char>::empty());
        assert(digits_value(s.drop_last()) == 0);
    } else {
        lemma_decimal_text(n / 10);
        assert(s.drop_last() =~= decimal_text(n / 10));
    }
    assert(s.last() == digit);
}

/// Reading the digits of a number gives the number back.
pub proof fn law_digits_read_back(n: nat)
    ensures
        decimal_value(decimal_text(n)) == Some(n),
{
    lemma_decimal_text(n);
    assert(is_digit(decimal_text(n)[0]));
}

proof fn lemma_digit_char(c: char)
    ensures
        is_digit(c) <==> '0' <= c <= '9',
{
}

proof fn lemma_digits_concat(a: Seq<char>, b: Seq<char>)
    ensures
        digits_value(a + b) == digits_value(a) * pow(10, b.len()) + digits_value(b),
    decreases b.len(),
{
    if b.len() == 0 {
        assert(a + b =~= a);
        lemma_pow0(10);
    } else {
        let shorter = b.drop_last();
        lemma_digits_concat(a, shorter);
        assert((a + b).drop_last() =~= a + shorter);
        assert((a + b).last() == b.last());
        lemma_pow1(10);
        lemma_pow_adds(10, shorter.len(), 1);
        let high = digits_value(a) as int;
        let p = pow(10, shorter.len());
        assert(pow(10, b.len()) == p * 10);
        assert((high * p) * 10 == high * (p * 10)) by (nonlinear_arith);
    }
}

/// A number is read place by place: the digits in front count as many tens as digits
/// follow them, and one digit counts itself.
pub proof fn law_places(a: Seq<char>, b: Seq<char>, digit: char)
    requires
        a.len() > 0,
        b.len() > 0,
        forall|i: int| 0 <= i < a.len() ==> '0' <= #[trigger] a[i] <= '9',
        forall|i: int| 0 <= i < b.len() ==> '0' <= #[trigger] b[i] <= '9',
        '0' <= digit <= '9',
    ensures
        ({
            &&& decimal_value(a) matches Some(x)
            &&& decimal_value(b) matches Some(y)
            &&& decimal_value(a + b) matches Some(z)
            &&& z == x * pow(10, b.len()) + y
        }),
        decimal_value(seq![digit]) == Some((digit as u32 - '0' as u32) as nat),
{
    assert forall|i: int| 0 <= i < a.len() implies is_digit(#[trigger] a[i]) by {
        lemma_digit_char(a[i]);
    }
    assert forall|i: int| 0 <= i < b.len() implies is_digit(#[trigger] b[i]) by {
        lemma_digit_char(b[i]);
    }
    assert(is_digit(a[0]));
    assert(is_digit(b[0]));
    let both = a + b;
    assert forall|i: int| 0 <= i < both.len() implies is_digit(#[trigger] both[i]) by {
        if i < a.len() {
            assert(both[i] == a[i]);
        } else {
            assert(both[i] == b[i - a.len()]);
        }
    }
    lemma_digits_concat(a, b);
    let one = seq![digit];
    assert(one.drop_last() =~= Seq::<char>::empty());
    assert(digits_value(one.drop_last()) == 0);
}

/// A plus sign in front of a number changes nothing, and a text that holds anything else
/// but digits, or no digit, stands for no number.
pub proof fn law_what_is_no_number(s: Seq<char>)
    ensures
        (s.len() > 0 && s[0] != '+') ==> decimal_value(seq!['+'] + s) == decimal_value(s),
        s.len() == 0 ==> decimal_value(s) is None && decimal_value(seq!['+']) is None,
        (exists|i: int| 0 < i < s.len() && !('0' <= #[trigger] s[i] <= '9'))
            ==> decimal_value(s) is None,
        s.len() > 0 && s[0] != '+' && !('0' <= s[0] <= '9') ==> decimal_value(s) is None,
{
    let plus = seq!['+'] + s;
    assert(plus.drop_first() =~= s);
    assert(plus[0] == '+');
    assert(seq!['+'].drop_first() =~= Seq::<char>::empty());
    if exists|i: int| 0 < i < s.len() && !('0' <= #[trigger] s[i] <= '9') {
        let i = choose|i: int| 0 < i < s.len() && !('0' <= #[trigger] s[i] <= '9');
        if s[0] == '+' {
            assert(s.drop_first()[i - 1] == s[i]);
        }
        lemma_digit_char(s[i]);
    }
    if s.len() > 0 {
        lemma_digit_char(s[0]);
    }
}

proof fn lemma_char_above(digit: u32)
    requires
        0 < digit < 10,
    ensures
        (0x30 + digit) as char != '0',
{
}

/// A number is written with digits only, the first of which is no zero unless it is the
/// only one.
pub proof fn law_written_digits(n: nat)
    ensures
        decimal_text(n).len() > 0,
        forall|i: int|
            0 <= i < decimal_text(n).len() ==> '0' <= #[trigger] decimal_text(n)[i] <= '9',
        decimal_text(n).len() > 1 ==> decimal_text(n)[0] != '0',
    decreases n,
{
    lemma_decimal_text(n);
    let s = decimal_text(n);
    assert forall|i: int| 0 <= i < s.len() implies '0' <= #[trigger] s[i] <= '9' by {
        assert(is_digit(s[i]));
        lemma_digit_char(s[i]);
    }
    if n >= 10 {
        law_written_digits(n / 10);
        let front = decimal_text(n / 10);
        assert(s[0] == front[0]);
        if n / 10 < 10 {
            assert(front[0] == (0x30 + n / 10) as char);
            lemma_char_above((n / 10) as u32);
        } else {
            lemma_decimal_text(n / 10 / 10);
            assert(front.len() == decimal_text(n / 10 / 10).len() + 1);
        }
    }
}

} // verus!
