//! Integers as text: reading them as Rust's `str::parse` does for integer
//! types, and writing them as `to_string` does.
use vstd::prelude::*;

use crate::text::{chars_of, concat2, decimal, decimal_spec, digit_char};

verus! {

/// `c` is an ASCII decimal digit.
pub open spec fn is_digit(c: char) -> bool {
    '0' <= c && c <= '9'
}

/// The value of the ASCII digit `c`.
pub open spec fn digit_value(c: char) -> nat {
    (c as int - '0' as int) as nat
}

/// `d` is made of ASCII digits only.
pub open spec fn all_digits(d: Seq<char>) -> bool {
    forall|i: int| 0 <= i < d.len() ==> is_digit(#[trigger] d[i])
}

/// The number the digits `d` spell in decimal.
pub open spec fn digits_value(d: Seq<char>) -> nat
    decreases d.len(),
{
    if d.len() == 0 {
        0
    } else {
        digits_value(d.drop_last()) * 10 + digit_value(d.last())
    }
}

/// The integer `s` spells as Rust reads integers: an optional sign (`+`, or
/// `-` where `signed`) followed by at least one ASCII digit, and nothing else.
pub open spec fn int_text_value(s: Seq<char>, signed: bool) -> Option<int> {
    if s.len() > 0 && (s[0] == '+' || (signed && s[0] == '-')) {
        let d = s.drop_first();
        if d.len() > 0 && all_digits(d) {
            if s[0] == '-' {
                Some(-(digits_value(d) as int))
            } else {
                Some(digits_value(d) as int)
            }
        } else {
            None
        }
    } else if s.len() > 0 && all_digits(s) {
        Some(digits_value(s) as int)
    } else {
        None
    }
}

/// What `s.parse::<i64>().ok()` gives.
pub open spec fn parse_i64_spec(s: Seq<char>) -> Option<i64> {
    match int_text_value(s, true) {
        Some(v) => if i64::MIN <= v <= i64::MAX {
            Some(v as i64)
        } else {
            None
        },
        None => None,
    }
}

/// What `s.parse::<u8>().ok()` gives.
pub open spec fn parse_u8_spec(s: Seq<char>) -> Option<u8> {
    match int_text_value(s, false) {
        Some(v) => if 0 <= v <= u8::MAX {
            Some(v as u8)
        } else {
            None
        },
        None => None,
    }
}

/// A prefix of a digit string is worth no more than the whole.
proof fn lemma_digits_prefix(d: Seq<char>, k: int)
    requires
        all_digits(d),
        0 <= k <= d.len(),
    ensures
        digits_value(d.take(k)) <= digits_value(d),
    decreases d.len(),
{
    if k < d.len() {
        assert(d.drop_last().take(k) =~= d.take(k));
        lemma_digits_prefix(d.drop_last(), k);
    } else {
        assert(d.take(k) =~= d);
    }
}

/// The value of the digits `v[from..]`, when there is at least one, all are
/// digits and the value is at most `limit`.
fn digits_at_most(v: &Vec<char>, from: usize, limit: u64) -> (r: Option<u64>)
    requires
        from <= v@.len(),
    ensures
        r matches Some(x) ==> from < v@.len() && all_digits(v@.skip(from as int)) && x
            == digits_value(v@.skip(from as int)),
        r matches Some(x) ==> x <= limit,
        r is None ==> !(from < v@.len() && all_digits(v@.skip(from as int)) && digits_value(
            v@.skip(from as int),
        ) <= limit),
{
    if from == v.len() {
        return None;
    }
    let ghost d = v@.skip(from as int);
    let mut acc: u128 = 0;
    let mut i: usize = from;
    while i < v.len()
        invariant
            from <= i <= v@.len(),
            d == v@.skip(from as int),
            all_digits(d.take(i - from)),
            acc == digits_value(d.take(i - from)),
            acc <= limit,
        decreases v@.len() - i,
    {
        let c = v[i];
        if !('0' <= c && c <= '9') {
            proof {
                assert(d[i - from] == c);
            }
            return None;
        }
        proof {
            assert(d.take(i - from + 1).drop_last() =~= d.take(i - from));
            assert(d.take(i - from + 1).last() == c);
            assert forall|k: int| 0 <= k < d.take(i - from + 1).len() implies is_digit(
                #[trigger] d.take(i - from + 1)[k],
            ) by {
                if k < i - from {
                    assert(d.take(i - from + 1)[k] == d.take(i - from)[k]);
                }
            }
        }
        let dv: u128 = (c as u32 - '0' as u32) as u128;
        acc = acc * 10 + dv;
        i = i + 1;
        if acc > limit as u128 {
            proof {
                if all_digits(d) {
                    lemma_digits_prefix(d, i - from);
                }
            }
            return None;
        }
    }
    proof {
        assert(d.take(i - from) =~= d);
    }
    Some(acc as u64)
}

/// `s.parse::<i64>().ok()`: an optional `+` or `-` and decimal digits, in range.
pub fn parse_i64(s: &str) -> (r: Option<i64>)
    ensures
        r == parse_i64_spec(s@),
{
    let v = chars_of(s);
    if v.len() == 0 {
        return None;
    }
    if v[0] == '-' {
        assert(v@.skip(1) =~= s@.drop_first());
        match digits_at_most(&v, 1, 0x8000_0000_0000_0000u64) {
            Some(m) => Some((0i128 - m as i128) as i64),
            None => None,
        }
    } else if v[0] == '+' {
        assert(v@.skip(1) =~= s@.drop_first());
        match digits_at_most(&v, 1, 0x7fff_ffff_ffff_ffffu64) {
            Some(m) => Some(m as i64),
            None => None,
        }
    } else {
        assert(v@.skip(0) =~= s@);
        match digits_at_most(&v, 0, 0x7fff_ffff_ffff_ffffu64) {
            Some(m) => Some(m as i64),
            None => None,
        }
    }
}

/// `s.parse::<u8>().ok()`: an optional `+` and decimal digits, in range.
pub fn parse_u8(s: &str) -> (r: Option<u8>)
    ensures
        r == parse_u8_spec(s@),
{
    let v = chars_of(s);
    if v.len() == 0 {
        return None;
    }
    if v[0] == '+' {
        assert(v@.skip(1) =~= s@.drop_first());
        match digits_at_most(&v, 1, 255) {
            Some(m) => Some(m as u8),
            None => None,
        }
    } else {
        assert(v@.skip(0) =~= s@);
        match digits_at_most(&v, 0, 255) {
            Some(m) => Some(m as u8),
            None => None,
        }
    }
}

/// `i` in decimal with a leading `-` when negative, as `i.to_string()`.
pub open spec fn signed_decimal_spec(i: int) -> Seq<char> {
    if i < 0 {
        "-"@ + decimal_spec((-i) as nat)
    } else {
        decimal_spec(i as nat)
    }
}

/// `i.to_string()` for an `i64`.
pub fn i64_decimal(i: i64) -> (r: String)
    ensures
        r@ == signed_decimal_spec(i as int),
{
    if i < 0 {
        let m: u64 = (0i128 - i as i128) as u64;
        let digits = decimal(m);
        concat2("-", digits.as_str())
    } else {
        decimal(i as u64)
    }
}

proof fn lemma_digit_char(k: nat)
    requires
        k < 10,
    ensures
        is_digit(digit_char(k)),
        digit_value(digit_char(k)) == k,
{
}

/// The decimal digits of `n` are at least one ASCII digit, and read back as
/// `n`.
pub proof fn lemma_decimal_digits(n: nat)
    ensures
        decimal_spec(n).len() >= 1,
        all_digits(decimal_spec(n)),
        digits_value(decimal_spec(n)) == n,
    decreases n,
{
    lemma_digit_char((n % 10) as nat);
    if n < 10 {
        assert(n % 10 == n);
        assert(digits_value(decimal_spec(n)) == digits_value(Seq::<char>::empty()) * 10
            + digit_value(digit_char(n))) by {
            assert(decimal_spec(n).drop_last() =~= Seq::<char>::empty());
        }
    } else {
        lemma_decimal_digits(n / 10);
        let d = decimal_spec(n);
        assert(d.drop_last() =~= decimal_spec(n / 10));
        assert(n == (n / 10) * 10 + n % 10);
        assert forall|i: int| 0 <= i < d.len() implies is_digit(#[trigger] d[i]) by {
            if i < d.len() - 1 {
                assert(d[i] == decimal_spec(n / 10)[i]);
            }
        }
    }
}

/// Round trip: an `i64` written by `to_string` reads back, by
/// `str::parse::<i64>`, as the same number.
pub proof fn lemma_i64_text_round_trip(i: i64)
    ensures
        parse_i64_spec(signed_decimal_spec(i as int)) == Some(i),
{
    reveal_strlit("-");
    if i < 0 {
        let m = (-i) as nat;
        lemma_decimal_digits(m);
        let s = signed_decimal_spec(i as int);
        assert(s[0] == '-');
        assert(s.drop_first() =~= decimal_spec(m));
    } else {
        lemma_decimal_digits(i as nat);
        let s = decimal_spec(i as nat);
        assert(is_digit(s[0]));
    }
}

} // verus!
