//! Reading and writing decimal integers.
use vstd::prelude::*;

use crate::text::{chars_of, trim, trim_bounds};

verus! {

/// The largest magnitude that a parsed number may have.
pub const MAX_PARSE_VALUE: i32 = 2147483647;

/// All the ways that parsing a number can fail.
#[derive(Copy, Clone, Debug, PartialEq, Eq, Structural)]
pub enum ParseNumberError {
    /// The text is not a valid float.
    InvalidFloat,
    /// The text is not a valid integer of the wanted type.
    InvalidInteger,
    /// The number is larger than the allowed limit.
    NumberOverflow,
    /// The number is smaller than the negated allowed limit.
    NumberUnderflow,
}

pub open spec fn is_digit(c: char) -> bool {
    '0' <= c && c <= '9'
}

pub open spec fn digit_value(c: char) -> int {
    c as int - '0' as int
}

pub open spec fn all_digits(s: Seq<char>) -> bool {
    forall|i: int| 0 <= i < s.len() ==> is_digit(#[trigger] s[i])
}

/// The value of a string of decimal digits.
pub open spec fn digits_value(s: Seq<char>) -> int
    decreases s.len(),
{
    if s.len() == 0 {
        0
    } else {
        digits_value(s.drop_last()) * 10 + digit_value(s.last())
    }
}

/// A signed integer as Rust's integer `FromStr` reads it: an optional `+` or
/// `-`, then one or more ASCII digits, nothing else.
pub open spec fn signed_literal(s: Seq<char>) -> Option<int> {
    if s.len() > 1 && s[0] == '-' && all_digits(s.drop_first()) {
        Some(-digits_value(s.drop_first()))
    } else if s.len() > 1 && s[0] == '+' && all_digits(s.drop_first()) {
        Some(digits_value(s.drop_first()))
    } else if s.len() > 0 && all_digits(s) {
        Some(digits_value(s))
    } else {
        None
    }
}

/// An unsigned integer as Rust's unsigned `FromStr` reads it: an optional
/// `+`, then one or more ASCII digits, nothing else.
pub open spec fn unsigned_literal(s: Seq<char>) -> Option<int> {
    if s.len() > 1 && s[0] == '+' && all_digits(s.drop_first()) {
        Some(digits_value(s.drop_first()))
    } else if s.len() > 0 && all_digits(s) {
        Some(digits_value(s))
    } else {
        None
    }
}

/// `s.parse::<i32>()` on the exact text `s`.
pub open spec fn spec_parse_i32(s: Seq<char>) -> Option<i32> {
    match signed_literal(s) {
        Some(v) => if i32::MIN <= v <= i32::MAX {
            Some(v as i32)
        } else {
            None
        },
        None => None,
    }
}

/// `s.parse::<u8>()` on the exact text `s`.
pub open spec fn spec_parse_u8(s: Seq<char>) -> Option<u8> {
    match unsigned_literal(s) {
        Some(v) => if v <= 255 {
            Some(v as u8)
        } else {
            None
        },
        None => None,
    }
}

/// Parsing an `i32` from trimmed text, accepting only magnitudes up to `limit`.
pub open spec fn spec_parse_num_i32(s: Seq<char>, limit: i32) -> Result<i32, ParseNumberError> {
    match spec_parse_i32(trim(s)) {
        None => Err(ParseNumberError::InvalidInteger),
        Some(v) => if v < -limit {
            Err(ParseNumberError::NumberUnderflow)
        } else if v > limit {
            Err(ParseNumberError::NumberOverflow)
        } else {
            Ok(v)
        },
    }
}

proof fn lemma_digits_value_nonneg(s: Seq<char>)
    requires
        all_digits(s),
    ensures
        digits_value(s) >= 0,
    decreases s.len(),
{
    if s.len() > 0 {
        assert(all_digits(s.drop_last())) by {
            assert forall|i: int| 0 <= i < s.drop_last().len() implies is_digit(
                #[trigger] s.drop_last()[i],
            ) by {
                assert(s.drop_last()[i] == s[i]);
            }
        }
        lemma_digits_value_nonneg(s.drop_last());
        assert(is_digit(s[s.len() - 1]));
    }
}

/// The saturation point of [`read_digits`].
pub open spec fn digits_cap() -> int {
    0x1_0000_0000
}

/// Reads `v[from..to]` as a string of digits. The flag tells whether it is a
/// non-empty string of digits; the value is exact up to [`digits_cap`] and
/// above it otherwise.
fn read_digits(v: &Vec<char>, from: usize, to: usize) -> (r: (bool, u64))
    requires
        from <= to <= v.len(),
    ensures
        r.0 == (from < to && all_digits(v@.subrange(from as int, to as int))),
        r.0 ==> r.1 <= digits_cap() + 1,
        r.0 ==> (digits_value(v@.subrange(from as int, to as int)) <= digits_cap() ==> r.1
            == digits_value(v@.subrange(from as int, to as int))),
        r.0 ==> (digits_value(v@.subrange(from as int, to as int)) > digits_cap() ==> r.1
            == digits_cap() + 1),
{
    if from == to {
        return (false, 0);
    }
    let mut acc: u64 = 0;
    let mut i: usize = from;
    while i < to
        invariant
            from <= i <= to <= v.len(),
            all_digits(v@.subrange(from as int, i as int)),
            acc <= digits_cap() + 1,
            digits_value(v@.subrange(from as int, i as int)) <= digits_cap() ==> acc
                == digits_value(v@.subrange(from as int, i as int)),
            digits_value(v@.subrange(from as int, i as int)) > digits_cap() ==> acc == digits_cap()
                + 1,
        decreases to - i,
    {
        let c = v[i];
        if !('0' <= c && c <= '9') {
            proof {
                let s = v@.subrange(from as int, to as int);
                assert(s[i - from] == c);
            }
            return (false, 0);
        }
        let d = (c as u32 - '0' as u32) as u64;
        let ghost old_sub = v@.subrange(from as int, i as int);
        let ghost new_sub = v@.subrange(from as int, i + 1);
        proof {
            assert(new_sub.drop_last() =~= old_sub);
            assert(new_sub.last() == c);
            assert(all_digits(new_sub)) by {
                assert forall|k: int| 0 <= k < new_sub.len() implies is_digit(
                    #[trigger] new_sub[k],
                ) by {
                    if k < old_sub.len() {
                        assert(new_sub[k] == old_sub[k]);
                    }
                }
            }
            lemma_digits_value_nonneg(old_sub);
        }
        if acc > 0x1_0000_0000 {
            acc = 0x1_0000_0001;
        } else {
            let next = acc * 10 + d;
            if next > 0x1_0000_0000 {
                acc = 0x1_0000_0001;
            } else {
                acc = next;
            }
        }
        i = i + 1;
    }
    (true, acc)
}

/// Reads the signed literal in `v[from..to]` as an `i32`, as
/// [`spec_parse_i32`].
pub fn parse_i32_range(v: &Vec<char>, from: usize, to: usize) -> (r: Option<i32>)
    requires
        from <= to <= v.len(),
    ensures
        r == spec_parse_i32(v@.subrange(from as int, to as int)),
{
    let ghost s = v@.subrange(from as int, to as int);
    if from == to {
        return None;
    }
    let c = v[from];
    if (c == '-' || c == '+') && to - from > 1 {
        let (ok, val) = read_digits(v, from + 1, to);
        proof {
            assert(s.drop_first() =~= v@.subrange(from + 1, to as int));
            assert(s[0] == c);
        }
        if !ok {
            return None;
        }
        if c == '-' {
            if val <= 0x8000_0000 {
                let n = 0 - (val as i64);
                return Some(n as i32);
            } else {
                return None;
            }
        } else {
            if val <= 0x7fff_ffff {
                return Some(val as i32);
            } else {
                return None;
            }
        }
    }
    let (ok, val) = read_digits(v, from, to);
    proof {
        assert(s[0] == c);
    }
    if !ok {
        return None;
    }
    if val <= 0x7fff_ffff {
        Some(val as i32)
    } else {
        None
    }
}

/// Reads the unsigned literal in `v[from..to]` as a `u8`, as
/// [`spec_parse_u8`].
pub fn parse_u8_range(v: &Vec<char>, from: usize, to: usize) -> (r: Option<u8>)
    requires
        from <= to <= v.len(),
    ensures
        r == spec_parse_u8(v@.subrange(from as int, to as int)),
{
    let ghost s = v@.subrange(from as int, to as int);
    if from == to {
        return None;
    }
    let c = v[from];
    if c == '+' && to - from > 1 {
        let (ok, val) = read_digits(v, from + 1, to);
        proof {
            assert(s.drop_first() =~= v@.subrange(from + 1, to as int));
            assert(s[0] == c);
        }
        if !ok {
            return None;
        }
        if val <= 255 {
            return Some(val as u8);
        } else {
            return None;
        }
    }
    let (ok, val) = read_digits(v, from, to);
    proof {
        assert(s[0] == c);
    }
    if !ok {
        return None;
    }
    if val <= 255 {
        Some(val as u8)
    } else {
        None
    }
}

/// `s.parse::<i32>()`: the exact text as a signed integer.
pub fn parse_i32(s: &str) -> (r: Option<i32>)
    ensures
        r == spec_parse_i32(s@),
{
    let v = chars_of(s);
    proof {
        assert(v@.subrange(0, v@.len() as int) =~= v@);
    }
    parse_i32_range(&v, 0, v.len())
}

/// `s.parse::<u8>()`: the exact text as an unsigned byte.
pub fn parse_u8(s: &str) -> (r: Option<u8>)
    ensures
        r == spec_parse_u8(s@),
{
    let v = chars_of(s);
    proof {
        assert(v@.subrange(0, v@.len() as int) =~= v@);
    }
    parse_u8_range(&v, 0, v.len())
}

/// Parses trimmed text as an `i32` whose magnitude is at most `limit`.
pub fn parse_num_i32_with_limit(s: &str, limit: i32) -> (r: Result<i32, ParseNumberError>)
    requires
        limit >= 0,
    ensures
        r == spec_parse_num_i32(s@, limit),
{
    let v = chars_of(s);
    let (a, b) = trim_bounds(&v, 0, v.len());
    proof {
        assert(v@.subrange(0, v@.len() as int) =~= v@);
    }
    match parse_i32_range(&v, a, b) {
        None => Err(ParseNumberError::InvalidInteger),
        Some(n) => {
            if n < -limit {
                Err(ParseNumberError::NumberUnderflow)
            } else if n > limit {
                Err(ParseNumberError::NumberOverflow)
            } else {
                Ok(n)
            }
        },
    }
}

/// Parses trimmed text as an `i32` whose magnitude is at most
/// [`MAX_PARSE_VALUE`].
pub fn parse_num_i32(s: &str) -> (r: Result<i32, ParseNumberError>)
    ensures
        r == spec_parse_num_i32(s@, MAX_PARSE_VALUE),
{
    parse_num_i32_with_limit(s, MAX_PARSE_VALUE)
}

/// The decimal digits of `n`, most significant first.
pub open spec fn nat_digits(n: nat) -> Seq<char>
    decreases n,
{
    if n < 10 {
        seq![(n + '0' as nat) as char]
    } else {
        nat_digits(n / 10).push(((n % 10) + '0' as nat) as char)
    }
}

/// The decimal text of `n`, as `Display` writes it.
pub open spec fn int_text(n: int) -> Seq<char> {
    if n < 0 {
        seq!['-'].add(nat_digits((-n) as nat))
    } else {
        nat_digits(n as nat)
    }
}

/// The decimal digits of `n` are digits that read back as `n`.
pub proof fn lemma_nat_digits(n: nat)
    ensures
        nat_digits(n).len() > 0,
        all_digits(nat_digits(n)),
        digits_value(nat_digits(n)) == n,
    decreases n,
{
    let d = nat_digits(n);
    if n < 10 {
        assert(is_digit(d[0]));
        assert(d.drop_last() =~= Seq::<char>::empty());
        assert(digits_value(d) == digits_value(d.drop_last()) * 10 + digit_value(d.last()));
    } else {
        lemma_nat_digits(n / 10);
        let p = nat_digits(n / 10);
        assert(d.drop_last() =~= p);
        assert(d.last() == ((n % 10) + '0' as nat) as char);
        assert forall|i: int| 0 <= i < d.len() implies is_digit(#[trigger] d[i]) by {
            if i < p.len() {
                assert(d[i] == p[i]);
            }
        }
        assert(digits_value(d) == digits_value(p) * 10 + (n % 10));
        assert(n == (n / 10) * 10 + n % 10) by (nonlinear_arith);
    }
}

/// The first digit of a positive number is no zero.
pub proof fn lemma_leading_digit(n: nat)
    requires
        n >= 1,
    ensures
        nat_digits(n)[0] != '0',
    decreases n,
{
    if n >= 10 {
        lemma_leading_digit(n / 10);
        lemma_nat_digits(n / 10);
        assert(nat_digits(n)[0] == nat_digits(n / 10)[0]);
    }
}

/// A byte written in decimal parses back as that byte.
pub proof fn lemma_parse_u8_digits(b: u8)
    ensures
        spec_parse_u8(nat_digits(b as nat)) == Some(b),
{
    lemma_nat_digits(b as nat);
    let d = nat_digits(b as nat);
    assert(is_digit(d[0]));
}

/// An `i32` written in decimal parses back as that number.
pub proof fn lemma_parse_i32_text(n: i32)
    ensures
        spec_parse_i32(int_text(n as int)) == Some(n),
{
    if n < 0 {
        let m = (-n) as nat;
        lemma_nat_digits(m);
        let t = int_text(n as int);
        let d = nat_digits(m);
        assert(t.drop_first() =~= d);
        assert(t[0] == '-');
        assert(is_digit(d[0]));
    } else {
        lemma_nat_digits(n as nat);
        let d = nat_digits(n as nat);
        assert(is_digit(d[0]));
    }
}

/// Decimal text of an unsigned value, most significant digit first.
pub(crate) fn u64_digits(n: u64) -> (r: Vec<char>)
    ensures
        r@ == nat_digits(n as nat),
    decreases n,
{
    if n < 10 {
        let c = char_of_digit(n as u32);
        let mut v: Vec<char> = Vec::new();
        v.push(c);
        assert(v@ =~= seq![(n + '0' as nat) as char]);
        v
    } else {
        let mut v = u64_digits(n / 10);
        let c = char_of_digit((n % 10) as u32);
        v.push(c);
        v
    }
}

fn char_of_digit(d: u32) -> (c: char)
    requires
        d < 10,
    ensures
        c == (d + '0' as nat) as char,
{
    if d == 0 {
        '0'
    } else if d == 1 {
        '1'
    } else if d == 2 {
        '2'
    } else if d == 3 {
        '3'
    } else if d == 4 {
        '4'
    } else if d == 5 {
        '5'
    } else if d == 6 {
        '6'
    } else if d == 7 {
        '7'
    } else if d == 8 {
        '8'
    } else {
        '9'
    }
}

/// The decimal text of `n`.
pub fn int_to_chars(n: i64) -> (r: Vec<char>)
    requires
        n > i64::MIN,
    ensures
        r@ == int_text(n as int),
{
    if n < 0 {
        let digits = u64_digits((-n) as u64);
        let mut v: Vec<char> = Vec::new();
        v.push('-');
        let mut i: usize = 0;
        while i < digits.len()
            invariant
                0 <= i <= digits.len(),
                v@ == seq!['-'].add(digits@.take(i as int)),
            decreases digits.len() - i,
        {
            v.push(digits[i]);
            i = i + 1;
            assert(v@ =~= seq!['-'].add(digits@.take(i as int)));
        }
        assert(digits@.take(digits.len() as int) =~= digits@);
        v
    } else {
        u64_digits(n as u64)
    }
}

} // verus!
