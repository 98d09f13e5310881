//! Decimal numbers in text.
use crate::text::chars_of;
use vstd::prelude::*;

verus! {

/// The character for the digit `d`.
pub open spec fn digit(d: nat) -> char {
    (48 + d) as char
}

/// The decimal digits of `n`.
pub open spec fn decimal(n: nat) -> Seq<char>
    decreases n,
{
    if n < 10 {
        seq![digit(n)]
    } else {
        decimal(n / 10).push(digit(n % 10))
    }
}

/// The decimal form of an integer, with a minus sign where it is negative.
pub open spec fn signed_decimal(n: int) -> Seq<char> {
    if n < 0 {
        seq!['-'] + decimal((-n) as nat)
    } else {
        decimal(n as nat)
    }
}

/// An ASCII digit.
pub open spec fn is_digit(c: char) -> bool {
    '0' <= c <= '9'
}

/// The number that a non-empty run of ASCII digits stands for.
pub open spec fn value(s: Seq<char>) -> Option<nat>
    decreases s.len(),
{
    if s.len() == 0 || !is_digit(s.last()) {
        None
    } else if s.len() == 1 {
        Some((s[0] as u32 - 48) as nat)
    } else {
        match value(s.drop_last()) {
            Some(v) => Some(v * 10 + (s.last() as u32 - 48) as nat),
            None => None,
        }
    }
}

/// The natural number that `s` stands for, if it is at most `max`: ASCII digits, with or
/// without a plus sign before them.
pub open spec fn natural(s: Seq<char>, max: nat) -> Option<nat> {
    let digits = if s.len() > 0 && s[0] == '+' {
        s.skip(1)
    } else {
        s
    };
    match value(digits) {
        Some(v) => if v <= max {
            Some(v)
        } else {
            None
        },
        None => None,
    }
}

/// The integer that `s` stands for, if it fits in 32 bits: ASCII digits, with or without a
/// sign before them.
pub open spec fn integer(s: Seq<char>) -> Option<int> {
    if s.len() > 0 && s[0] == '-' {
        match value(s.skip(1)) {
            Some(v) => if v <= 0x8000_0000 {
                Some(-(v as int))
            } else {
                None
            },
            None => None,
        }
    } else {
        match natural(s, 0x7fff_ffff) {
            Some(v) => Some(v as int),
            None => None,
        }
    }
}

fn digit_char(d: u64) -> (c: char)
    requires
        d < 10,
    ensures
        c == digit(d as nat),
{
    ((d as u8) + 48) as char
}

/// Appends the decimal digits of `n`.
pub fn push_decimal(out: &mut String, n: u64)
    ensures
        final(out)@ == old(out)@ + decimal(n as nat),
    decreases n,
{
    if n >= 10 {
        push_decimal(out, n / 10);
    }
    out.push(digit_char(n % 10));
    proof {
        assert(out@ =~= old(out)@ + decimal(n as nat));
    }
}

/// Appends the decimal form of `n`.
pub fn push_signed(out: &mut String, n: i32)
    ensures
        final(out)@ == old(out)@ + signed_decimal(n as int),
{
    if n < 0 {
        out.push('-');
        let m: u64 = (-(n as i64)) as u64;
        push_decimal(out, m);
        proof {
            assert(out@ =~= old(out)@ + signed_decimal(n as int));
        }
    } else {
        push_decimal(out, n as u64);
    }
}

/// Digits after a prefix that is no number make no number.
proof fn lemma_value_prefix_none(s: Seq<char>, k: int)
    requires
        0 < k <= s.len(),
        value(s.take(k)) is None,
    ensures
        value(s) is None,
    decreases s.len() - k,
{
    if k == s.len() {
        assert(s.take(k) =~= s);
    } else {
        assert(s.take(k + 1).drop_last() =~= s.take(k));
        assert(value(s.take(k + 1)) is None);
        lemma_value_prefix_none(s, k + 1);
    }
}

/// More digits make no smaller number.
proof fn lemma_value_prefix(s: Seq<char>, k: int)
    requires
        0 < k <= s.len(),
        value(s.take(k)) is Some,
        value(s) is Some,
    ensures
        value(s.take(k))->0 <= value(s)->0,
    decreases s.len() - k,
{
    if k == s.len() {
        assert(s.take(k) =~= s);
    } else {
        assert(s.take(k + 1).drop_last() =~= s.take(k));
        if value(s.take(k + 1)) is None {
            lemma_value_prefix_none(s, k + 1);
        }
        lemma_value_prefix(s, k + 1);
    }
}

/// Reads the digits `v[from..]`.
fn read_digits(v: &Vec<char>, from: usize, max: u64) -> (r: Option<u64>)
    requires
        from <= v@.len(),
    ensures
        r == (match value(v@.skip(from as int)) {
            Some(n) => if n <= max {
                Some(n as u64)
            } else {
                None
            },
            None => None,
        }),
{
    let ghost s = v@.skip(from as int);
    if from == v.len() {
        return None;
    }
    let mut acc: u64 = 0;
    let mut i: usize = from;
    while i < v.len()
        invariant
            from <= i <= v.len(),
            s == v@.skip(from as int),
            i == from ==> acc == 0,
            i > from ==> value(s.take(i - from)) == Some(acc as nat),
            acc <= max,
        decreases v.len() - i,
    {
        let c = v[i];
        proof {
            let k = i - from;
            assert(s.take(k + 1).drop_last() =~= s.take(k));
            assert(s.take(k + 1).last() == c);
        }
        if !('0' <= c && c <= '9') {
            proof {
                lemma_value_prefix_none(s, i - from + 1);
            }
            return None;
        }
        let d: u64 = ((c as u8) - 48) as u64;
        if d > max || acc > (max - d) / 10 {
            proof {
                let k = i - from;
                if k > 0 {
                    assert(value(s.take(k + 1)) == Some((acc * 10 + d) as nat));
                } else {
                    assert(value(s.take(k + 1)) == Some(d as nat));
                }
                if value(s) is Some {
                    lemma_value_prefix(s, k + 1);
                }
            }
            return None;
        }
        acc = acc * 10 + d;
        i = i + 1;
    }
    proof {
        assert(s.take(v.len() - from) =~= s);
    }
    Some(acc)
}

/// Reads a natural number of at most `max`.
pub fn parse_natural(s: &str, max: u64) -> (r: Option<u64>)
    ensures
        r is Some == natural(s@, max as nat) is Some,
        r matches Some(n) ==> natural(s@, max as nat) == Some(n as nat),
{
    let v = chars_of(s);
    if v.len() > 0 && v[0] == '+' {
        read_digits(&v, 1, max)
    } else {
        proof {
            assert(v@.skip(0) =~= v@);
        }
        read_digits(&v, 0, max)
    }
}

/// Reads a 32-bit integer.
pub fn parse_integer(s: &str) -> (r: Option<i32>)
    ensures
        r is Some == integer(s@) is Some,
        r matches Some(n) ==> integer(s@) == Some(n as int),
{
    let v = chars_of(s);
    if v.len() > 0 && v[0] == '-' {
        match read_digits(&v, 1, 0x8000_0000) {
            Some(n) => Some((-(n as i64)) as i32),
            None => None,
        }
    } else {
        match parse_natural(s, 0x7fff_ffff) {
            Some(n) => Some(n as i32),
            None => None,
        }
    }
}

/// A number's decimal form is digits only, has at least one, and stands for the number.
pub proof fn lemma_decimal_value(n: nat)
    ensures
        decimal(n).len() > 0,
        forall|i: int| 0 <= i < decimal(n).len() ==> is_digit(#[trigger] decimal(n)[i]),
        value(decimal(n)) == Some(n),
    decreases n,
{
    if n >= 10 {
        lemma_decimal_value(n / 10);
        assert(decimal(n).drop_last() =~= decimal(n / 10));
        assert(decimal(n).last() == digit(n % 10));
    }
}

/// Reading what was written gives the number back.
pub proof fn law_decimal_round_trip(n: nat, max: nat)
    requires
        n <= max,
    ensures
        natural(decimal(n), max) == Some(n),
{
    lemma_decimal_value(n);
    assert(is_digit(decimal(n)[0]));
}

/// A number is written digit by digit: the digits of its tenth part, and then its last digit.
pub proof fn law_decimal_digit_by_digit(n: nat, d: nat)
    requires
        d < 10,
    ensures
        decimal(d) == seq![(('0' as u32) + d) as char],
        n > 0 ==> decimal(n * 10 + d) == decimal(n).push((('0' as u32) + d) as char),
        signed_decimal(n as int) == decimal(n),
        n > 0 ==> signed_decimal(-(n as int)) == seq!['-'] + decimal(n),
{
    assert((n * 10 + d) / 10 == n) by (nonlinear_arith)
        requires
            d < 10,
    ;
    assert((n * 10 + d) % 10 == d) by (nonlinear_arith)
        requires
            d < 10,
    ;
}

/// A number with a sign is read back.
pub proof fn law_integer_round_trip(n: int)
    requires
        -0x8000_0000 <= n <= 0x7fff_ffff,
    ensures
        integer(signed_decimal(n)) == Some(n),
{
    if n < 0 {
        let s = signed_decimal(n);
        lemma_decimal_value((-n) as nat);
        assert(s.skip(1) =~= decimal((-n) as nat));
    } else {
        lemma_decimal_value(n as nat);
        assert(is_digit(decimal(n as nat)[0]));
        law_decimal_round_trip(n as nat, 0x7fff_ffff);
    }
}

/// Only texts of digits are numbers, with a plus before them or without, and only up to the
/// bound.
pub proof fn law_numbers_are_digits(s: Seq<char>, max: nat)
    ensures
        natural(s, max) is Some ==> natural(s, max)->0 <= max && ({
            let digits = if s.len() > 0 && s[0] == '+' {
                s.skip(1)
            } else {
                s
            };
            digits.len() > 0 && forall|i: int|
                0 <= i < digits.len() ==> '0' <= #[trigger] digits[i] <= '9'
        }),
{
    let digits = if s.len() > 0 && s[0] == '+' {
        s.skip(1)
    } else {
        s
    };
    lemma_value_digits(digits);
}

proof fn lemma_value_digits(s: Seq<char>)
    ensures
        value(s) is Some ==> s.len() > 0 && forall|i: int|
            0 <= i < s.len() ==> is_digit(#[trigger] s[i]),
    decreases s.len(),
{
    if s.len() > 1 && value(s) is Some {
        lemma_value_digits(s.drop_last());
        assert forall|i: int| 0 <= i < s.len() implies is_digit(#[trigger] s[i]) by {
            if i < s.len() - 1 {
                assert(s.drop_last()[i] == s[i]);
            }
        }
    }
}

/// A plus before the digits changes nothing, and a minus, a blank or nothing at all is no number
/// without a sign.
pub proof fn law_signs_of_numbers(n: nat, max: nat)
    requires
        n <= max,
    ensures
        natural(seq!['+'] + decimal(n), max) == Some(n),
        natural(seq!['-'] + decimal(n), max) is None,
        natural(seq![' '] + decimal(n), max) is None,
        natural(seq![], max) is None,
        n < max ==> natural(decimal(max), n) is None,
{
    lemma_decimal_value(n);
    lemma_decimal_value(max);
    let plus = seq!['+'] + decimal(n);
    assert(plus.skip(1) =~= decimal(n));
    let minus = seq!['-'] + decimal(n);
    let blank = seq![' '] + decimal(n);
    lemma_value_digits(minus);
    lemma_value_digits(blank);
    assert(minus[0] == '-' && blank[0] == ' ');
    assert(is_digit(decimal(max)[0]));
}

} // verus!
