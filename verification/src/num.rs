//! Numbers as text, and division that rounds toward zero.

use vstd::prelude::*;
use vstd::string::StringExecFns;

use crate::text::chars_of;

verus! {

/// The character of a decimal digit.
pub open spec fn digit_char(d: int) -> char {
    (('0' as int) + d) as char
}

/// A natural number in decimal, without leading zeros.
pub open spec fn digits(n: nat) -> Seq<char>
    decreases n,
{
    if n < 10 {
        seq![digit_char(n as int)]
    } else {
        digits(n / 10).push(digit_char((n % 10) as int))
    }
}

/// An integer in decimal, with a sign in front where it is negative.
pub open spec fn decimal(n: int) -> Seq<char> {
    if n < 0 {
        seq!['-'] + digits((-n) as nat)
    } else {
        digits(n as nat)
    }
}

/// The size of an integer.
pub open spec fn magnitude(a: int) -> nat {
    if a >= 0 {
        a as nat
    } else {
        (-a) as nat
    }
}

/// The quotient rounded toward zero.
pub open spec fn trunc_div(a: int, b: int) -> int {
    let q = (magnitude(a) / magnitude(b)) as int;
    if (a >= 0) == (b >= 0) {
        q
    } else {
        -q
    }
}

/// What is left of a division rounded toward zero; it has the sign of the dividend.
pub open spec fn trunc_rem(a: int, b: int) -> int {
    a - trunc_div(a, b) * b
}

fn digit(d: u8) -> (c: char)
    requires
        d < 10,
    ensures
        c == digit_char(d as int),
{
    (48u8 + d) as char
}

/// A natural number in decimal.
pub(crate) fn digits_text(n: u128) -> (r: String)
    ensures
        r@ == digits(n as nat),
    decreases n,
{
    if n < 10 {
        let mut s = String::new();
        s.push(digit(n as u8));
        proof {
            assert(s@ =~= digits(n as nat));
        }
        s
    } else {
        let mut s = digits_text(n / 10);
        s.push(digit((n % 10) as u8));
        s
    }
}

/// A signed number in decimal.
pub(crate) fn decimal_text(n: i64) -> (r: String)
    ensures
        r@ == decimal(n as int),
{
    if n < 0 {
        let d = digits_text((-(n as i128)) as u128);
        let mut s = String::new();
        s.push('-');
        s.append(d.as_str());
        proof {
            assert(s@ =~= decimal(n as int));
        }
        s
    } else {
        digits_text(n as u128)
    }
}

/// The quotient rounded toward zero.
pub(crate) fn div_toward_zero(a: i64, b: i64) -> (r: i64)
    requires
        b != 0,
        a != i64::MIN || b != -1,
    ensures
        r == trunc_div(a as int, b as int),
{
    let m: u64 = if a >= 0 {
        a as u64
    } else {
        (-(a as i128)) as u64
    };
    let n: u64 = if b >= 0 {
        b as u64
    } else {
        (-(b as i128)) as u64
    };
    let q: u64 = m / n;
    proof {
        assert(q <= m) by (nonlinear_arith)
            requires
                q == m / n,
                n > 0,
        ;
        if n > 1 {
            assert(2 * q <= m) by (nonlinear_arith)
                requires
                    q == m / n,
                    n > 1,
            ;
        }
    }
    if (a >= 0) == (b >= 0) {
        q as i64
    } else {
        (-(q as i128)) as i64
    }
}

/// Whether a character is a decimal digit.
pub open spec fn is_digit(c: char) -> bool {
    '0' <= c && c <= '9'
}

/// Whether a text is one or more decimal digits.
pub open spec fn all_digits(s: Seq<char>) -> bool {
    s.len() > 0 && forall|i: int| 0 <= i < s.len() ==> is_digit(#[trigger] s[i])
}

/// The number that decimal digits stand for.
pub open spec fn value(s: Seq<char>) -> nat
    decreases s.len(),
{
    if s.len() == 0 {
        0
    } else {
        value(s.drop_last()) * 10 + ((s.last() as int) - ('0' as int)) as nat
    }
}

/// A text without a leading plus sign.
pub open spec fn unsigned_part(s: Seq<char>) -> Seq<char> {
    if s.len() > 0 && s[0] == '+' {
        s.skip(1)
    } else {
        s
    }
}

/// The natural number that a text stands for: decimal digits, with a plus sign in front or
/// without, and no more than `max`.
pub open spec fn parsed_nat(s: Seq<char>, max: nat) -> Option<nat> {
    let d = unsigned_part(s);
    if all_digits(d) && value(d) <= max {
        Some(value(d))
    } else {
        None
    }
}

proof fn lemma_value_monotone(s: Seq<char>, i: int)
    requires
        0 <= i <= s.len(),
        forall|k: int| 0 <= k < s.len() ==> is_digit(#[trigger] s[k]),
    ensures
        value(s.take(i)) <= value(s),
    decreases s.len() - i,
{
    if i < s.len() {
        assert(s.take(i + 1).drop_last() =~= s.take(i));
        assert(s.take(i + 1).last() == s[i]);
        assert(is_digit(s[i]));
        lemma_value_monotone(s, i + 1);
    } else {
        assert(s.take(i) =~= s);
    }
}

/// The number that decimal digits from a place on stand for, if it is no more than `max`.
fn parse_digits(v: &Vec<char>, from: usize, max: u64) -> (r: Option<u64>)
    requires
        from <= v.len(),
    ensures
        match r {
            Some(n) => all_digits(v@.skip(from as int)) && value(v@.skip(from as int)) == n && n
                <= max,
            None => !(all_digits(v@.skip(from as int)) && value(v@.skip(from as int)) <= max),
        },
{
    let ghost d = v@.skip(from as int);
    if from == v.len() {
        return None;
    }
    let mut n: u64 = 0;
    let mut i: usize = from;
    proof {
        assert(d.take(0) =~= Seq::empty());
    }
    while i < v.len()
        invariant
            from <= i <= v.len(),
            d == v@.skip(from as int),
            forall|k: int| 0 <= k < i - from ==> is_digit(#[trigger] d[k]),
            n == value(d.take(i - from)),
            n <= max,
        decreases v.len() - i,
    {
        let c = v[i];
        assert(d[i - from] == c);
        if c < '0' || c > '9' {
            assert(!is_digit(d[i - from]));
            return None;
        }
        let digit: u64 = (c as u64) - 48;
        proof {
            assert(d.take(i - from + 1).drop_last() =~= d.take(i - from));
            assert(d.take(i - from + 1).last() == c);
        }
        let wide: u128 = (n as u128) * 10 + (digit as u128);
        if wide > max as u128 {
            proof {
                if all_digits(d) {
                    lemma_value_monotone(d, i - from + 1);
                }
            }
            return None;
        }
        n = wide as u64;
        i += 1;
    }
    proof {
        assert(d.take(d.len() as int) =~= d);
    }
    Some(n)
}

/// The natural number that a text stands for, if it is no more than `max`.
pub(crate) fn parse_nat(s: &str, max: u64) -> (r: Option<u64>)
    ensures
        match r {
            Some(n) => parsed_nat(s@, max as nat) == Some(n as nat),
            None => parsed_nat(s@, max as nat) is None,
        },
{
    let v = chars_of(s);
    let from: usize = if v.len() > 0 && v[0] == '+' {
        1
    } else {
        0
    };
    proof {
        if from == 0 {
            assert(v@.skip(0) =~= v@);
        }
    }
    parse_digits(&v, from, max)
}

/// The integer that a text stands for: decimal digits, with a sign in front or without, that fit
/// in 64 bits.
pub open spec fn parsed_int(s: Seq<char>) -> Option<int> {
    if s.len() > 0 && s[0] == '-' {
        let d = s.skip(1);
        if all_digits(d) && -(value(d) as int) >= i64::MIN {
            Some(-(value(d) as int))
        } else {
            None
        }
    } else {
        match parsed_nat(s, i64::MAX as nat) {
            Some(n) => Some(n as int),
            None => None,
        }
    }
}

/// The integer that a text stands for, if it fits in 64 bits.
pub(crate) fn parse_int(s: &str) -> (r: Option<i64>)
    ensures
        match r {
            Some(n) => parsed_int(s@) == Some(n as int),
            None => parsed_int(s@) is None,
        },
{
    let v = chars_of(s);
    if v.len() > 0 && v[0] == '-' {
        match parse_digits(&v, 1, 0x8000_0000_0000_0000) {
            Some(n) => Some((-(n as i128)) as i64),
            None => None,
        }
    } else {
        match parse_nat(s, i64::MAX as u64) {
            Some(n) => Some(n as i64),
            None => None,
        }
    }
}

pub(crate) proof fn lemma_digits_are_digits(n: nat)
    ensures
        all_digits(digits(n)),
        value(digits(n)) == n,
    decreases n,
{
    if n < 10 {
        let d = digits(n);
        assert(d.drop_last() =~= Seq::empty());
        assert(is_digit(d[0]));
        assert(value(d.drop_last()) == 0);
    } else {
        lemma_digits_are_digits(n / 10);
        let d = digits(n);
        assert(d.drop_last() =~= digits(n / 10));
        assert forall|i: int| 0 <= i < d.len() implies is_digit(#[trigger] d[i]) by {
            if i < d.len() - 1 {
                assert(d[i] == digits(n / 10)[i]);
            }
        }
    }
}

/// A number that was written in decimal is read back as itself.
pub proof fn decimal_round_trip(n: nat, max: nat)
    requires
        n <= max,
    ensures
        parsed_nat(digits(n), max) == Some(n),
{
    lemma_digits_are_digits(n);
    assert(is_digit(digits(n)[0]));
}

/// An integer that was written in decimal is read back as itself, with its sign; a plus sign changes
/// nothing, and what holds anything else is no number.
pub proof fn signed_round_trip(n: int, s: Seq<char>)
    requires
        i64::MIN <= n <= i64::MAX,
    ensures
        parsed_int(decimal(n)) == Some(n),
        n >= 0 ==> parsed_int(seq!['+'] + decimal(n)) == Some(n),
        s.len() == 0 ==> parsed_int(s) is None,
        (exists|i: int| 1 <= i < s.len() && !is_digit(#[trigger] s[i])) ==> parsed_int(s) is None,
{
    if n < 0 {
        let d = digits((-n) as nat);
        lemma_digits_are_digits((-n) as nat);
        assert(decimal(n).skip(1) =~= d);
    } else {
        let d = digits(n as nat);
        lemma_digits_are_digits(n as nat);
        decimal_round_trip(n as nat, i64::MAX as nat);
        assert(is_digit(d[0]));
        assert((seq!['+'] + d).skip(1) =~= d);
    }
    if exists|i: int| 1 <= i < s.len() && !is_digit(#[trigger] s[i]) {
        let i = choose|i: int| 1 <= i < s.len() && !is_digit(#[trigger] s[i]);
        assert(s.skip(1)[i - 1] == s[i]);
    }
}

/// A quotient is rounded toward zero: it has the size of the quotient of the sizes, and what is left is
/// smaller than the divisor and has the sign of the dividend.
pub proof fn quotients_are_rounded_toward_zero(a: nat, b: nat)
    requires
        b > 0,
    ensures
        trunc_div(a as int, b as int) == (a / b) as int,
        trunc_div(-(a as int), b as int) == -((a / b) as int),
        trunc_rem(a as int, b as int) == (a % b) as int,
        trunc_rem(-(a as int), b as int) == -((a % b) as int),
{
    vstd::arithmetic::div_mod::lemma_fundamental_div_mod(a as int, b as int);
    let q = (a / b) as int;
    assert(b as int * q == q * b as int) by (nonlinear_arith);
    assert((-q) * b as int == -(q * b as int)) by (nonlinear_arith);
    if a == 0 {
        assert(q == 0);
    }
}

} // verus!
