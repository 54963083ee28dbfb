//! Decimal integers: `str::parse` for integer types and `to_string` of integers.
use vstd::prelude::*;
use crate::text::{append, is_ascii_digit, is_digit};

verus! {

pub open spec fn digit_value(c: char) -> int {
    (c as u32) as int - ('0' as u32) as int
}

pub open spec fn all_digits(d: Seq<char>) -> bool {
    forall|i: int| 0 <= i < d.len() ==> is_ascii_digit(#[trigger] d[i])
}

/// The value of a string of decimal digits.
pub open spec fn digits_value(d: Seq<char>) -> nat
    decreases d.len(),
{
    if d.len() == 0 {
        0
    } else {
        (digits_value(d.drop_last()) * 10 + digit_value(d.last())) as nat
    }
}

/// `str::parse` for an integer type whose values are `lo..=hi` (`signed`:
/// whether a leading `-` is accepted): an optional sign, then one or more
/// ASCII digits, and the value in range; anything else is an error.
pub open spec fn parse_int(s: Seq<char>, lo: int, hi: int, signed: bool) -> Option<int> {
    if s.len() == 0 {
        None
    } else if (s[0] == '+' || s[0] == '-') && s.len() == 1 {
        None
    } else {
        let neg = signed && s[0] == '-';
        let d = if s[0] == '+' || neg {
            s.drop_first()
        } else {
            s
        };
        if !all_digits(d) {
            None
        } else {
            let v = if neg {
                -(digits_value(d) as int)
            } else {
                digits_value(d) as int
            };
            if lo <= v <= hi {
                Some(v)
            } else {
                None
            }
        }
    }
}

/// `str::parse::<i32>`.
pub open spec fn parse_i32(s: Seq<char>) -> Option<int> {
    parse_int(s, i32::MIN as int, i32::MAX as int, true)
}

/// `str::parse::<i64>`.
pub open spec fn parse_i64(s: Seq<char>) -> Option<int> {
    parse_int(s, i64::MIN as int, i64::MAX as int, true)
}

/// `str::parse::<u32>`.
pub open spec fn parse_u32(s: Seq<char>) -> Option<int> {
    parse_int(s, 0, u32::MAX as int, false)
}

proof fn lemma_digits_value_prefix(d: Seq<char>, i: int)
    requires
        0 <= i <= d.len(),
        all_digits(d),
    ensures
        digits_value(d.take(i)) <= digits_value(d),
    decreases d.len(),
{
    if i < d.len() {
        assert(d.drop_last().take(i) =~= d.take(i));
        lemma_digits_value_prefix(d.drop_last(), i);
    } else {
        assert(d.take(i) =~= d);
    }
}

/// Parses `s[start..]` as a run of digits; `None` when a character is not a
/// digit or the value exceeds `bound`.
fn digits_upto(s: &[char], start: usize, bound: u64) -> (r: Option<u64>)
    requires
        start <= s@.len(),
    ensures
        r matches Some(v) ==> all_digits(s@.skip(start as int)) && v == digits_value(
            s@.skip(start as int),
        ) && v <= bound,
        r is None ==> !all_digits(s@.skip(start as int)) || digits_value(s@.skip(start as int))
            > bound,
{
    let ghost d = s@.skip(start as int);
    let mut v: u64 = 0;
    let mut i: usize = start;
    assert(d.take(0) =~= Seq::<char>::empty());
    while i < s.len()
        invariant
            start <= i <= s@.len(),
            d == s@.skip(start as int),
            all_digits(d.take(i - start)),
            v == digits_value(d.take(i - start)),
            v <= bound,
        decreases s@.len() - i,
    {
        let c = s[i];
        let ghost pre = d.take(i - start);
        assert(d.take(i - start + 1).drop_last() =~= pre);
        assert(d[i - start] == c);
        if !is_digit(c) {
            assert(!is_ascii_digit(d[i - start]));
            return None;
        }
        let x = (c as u32 - '0' as u32) as u64;
        if x > bound || v > (bound - x) / 10 {
            proof {
                assert(all_digits(d.take(i - start + 1)));
                assert(digits_value(d.take(i - start + 1)) == v * 10 + x);
                if x <= bound {
                    assert(v * 10 + x > bound) by (nonlinear_arith)
                        requires
                            v > (bound - x) / 10,
                            x <= bound,
                    ;
                }
                if all_digits(d) {
                    lemma_digits_value_prefix(d, i - start + 1);
                }
            }
            return None;
        }
        assert(v * 10 + x <= bound) by (nonlinear_arith)
            requires
                v <= (bound - x) / 10,
                x <= bound,
        ;
        v = v * 10 + x;
        i = i + 1;
    }
    assert(d.take(i - start) =~= d);
    Some(v)
}

/// Parses a decimal integer with optional sign into `lo..=hi`.
fn parse_in(s: &[char], lo: i64, hi: i64, signed: bool) -> (r: Option<i64>)
    requires
        lo <= 0 <= hi,
    ensures
        r matches Some(v) ==> parse_int(s@, lo as int, hi as int, signed) == Some(v as int),
        r is None ==> parse_int(s@, lo as int, hi as int, signed) is None,
{
    if s.len() == 0 {
        return None;
    }
    if (s[0] == '+' || s[0] == '-') && s.len() == 1 {
        return None;
    }
    let neg = signed && s[0] == '-';
    let start: usize = if s[0] == '+' || neg {
        1
    } else {
        0
    };
    let ghost d = if s@[0] == '+' || neg {
        s@.drop_first()
    } else {
        s@
    };
    assert(d =~= s@.skip(start as int));
    if neg {
        let bound: u64 = (0i128 - lo as i128) as u64;
        match digits_upto(s, start, bound) {
            Some(m) => {
                let v: i128 = 0i128 - m as i128;
                Some(v as i64)
            },
            None => None,
        }
    } else {
        match digits_upto(s, start, hi as u64) {
            Some(m) => Some(m as i64),
            None => None,
        }
    }
}

pub fn parse_i32_of(s: &[char]) -> (r: Option<i32>)
    ensures
        r matches Some(v) ==> parse_i32(s@) == Some(v as int),
        r is None ==> parse_i32(s@) is None,
{
    match parse_in(s, i32::MIN as i64, i32::MAX as i64, true) {
        Some(v) => Some(v as i32),
        None => None,
    }
}

pub fn parse_i64_of(s: &[char]) -> (r: Option<i64>)
    ensures
        r matches Some(v) ==> parse_i64(s@) == Some(v as int),
        r is None ==> parse_i64(s@) is None,
{
    parse_in(s, i64::MIN, i64::MAX, true)
}

pub fn parse_u32_of(s: &[char]) -> (r: Option<u32>)
    ensures
        r matches Some(v) ==> parse_u32(s@) == Some(v as int),
        r is None ==> parse_u32(s@) is None,
{
    match parse_in(s, 0, u32::MAX as i64, false) {
        Some(v) => Some(v as u32),
        None => None,
    }
}

// ---------------------------------------------------------------------------
// Formatting
// ---------------------------------------------------------------------------

pub open spec fn digit_char(d: nat) -> char {
    (('0' as u32) + d) as char
}

/// The decimal digits of `n`, without leading zeros.
pub open spec fn decimal(n: nat) -> Seq<char>
    decreases n,
{
    if n < 10 {
        seq![digit_char(n)]
    } else {
        decimal(n / 10).push(digit_char(n % 10))
    }
}

/// `to_string` of an integer.
pub open spec fn int_text(v: int) -> Seq<char> {
    if v < 0 {
        seq!['-'] + decimal((-v) as nat)
    } else {
        decimal(v as nat)
    }
}

/// `format!("{:0w$}", n)` for a non-negative `n`.
pub open spec fn zero_padded(n: nat, w: nat) -> Seq<char> {
    let d = decimal(n);
    if d.len() < w {
        Seq::new((w - d.len()) as nat, |i: int| '0') + d
    } else {
        d
    }
}

pub fn decimal_of(n: u64) -> (v: Vec<char>)
    ensures
        v@ == decimal(n as nat),
    decreases n,
{
    let c = ('0' as u8 + (n % 10) as u8) as char;
    assert(c == digit_char((n % 10) as nat));
    if n < 10 {
        let mut v: Vec<char> = Vec::new();
        v.push(c);
        assert(v@ =~= seq![digit_char(n as nat)]);
        v
    } else {
        let mut v = decimal_of(n / 10);
        v.push(c);
        v
    }
}

pub fn i64_text(v: i64) -> (s: Vec<char>)
    ensures
        s@ == int_text(v as int),
{
    if v < 0 {
        let m: u64 = (0i128 - v as i128) as u64;
        let d = decimal_of(m);
        let mut s: Vec<char> = Vec::new();
        s.push('-');
        append(&mut s, d.as_slice());
        assert(s@ =~= seq!['-'] + d@);
        s
    } else {
        decimal_of(v as u64)
    }
}

pub fn zero_padded_of(n: u64, w: usize) -> (s: Vec<char>)
    ensures
        s@ == zero_padded(n as nat, w as nat),
{
    let d = decimal_of(n);
    if d.len() < w {
        let mut s: Vec<char> = Vec::new();
        let k = w - d.len();
        let mut i: usize = 0;
        while i < k
            invariant
                i <= k,
                s@ == Seq::new(i as nat, |j: int| '0'),
            decreases k - i,
        {
            s.push('0');
            assert(s@ =~= Seq::new((i + 1) as nat, |j: int| '0'));
            i = i + 1;
        }
        append(&mut s, d.as_slice());
        s
    } else {
        d
    }
}

} // verus!
