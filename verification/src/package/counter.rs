//! The download counter's on-disk value: a decimal rendering that is
//! read back on first use and rewritten after every increment.

use vstd::prelude::*;
use crate::text::{
    dec_digits, digit_run, digits_value, is_digit, lemma_dec_digits_are_digits,
    lemma_dec_digits_value, lemma_digit_run_bounds, lemma_digit_run_split,
    lemma_digits_value_monotone,
};

verus! {

/// What a counter file's bytes denote: a decimal number, optionally
/// after one `+` sign, with no other bytes around it; nothing otherwise
/// or when the value does not fit in `u64`.
pub open spec fn spec_counter_value(s: Seq<u8>) -> Option<u64> {
    let digits = if s.len() >= 1 && s[0] == 43 {
        s.skip(1)
    } else {
        s
    };
    if digits.len() >= 1 && digit_run(digits) == digits.len() && digits_value(digits) <= u64::MAX {
        Some(digits_value(digits) as u64)
    } else {
        None
    }
}

/// The value of an all-digit prefix is non-negative.
proof fn lemma_digits_value_nonneg_prefix(s: Seq<u8>, i: int)
    requires
        0 <= i <= s.len(),
        forall|j: int| 0 <= j < i ==> is_digit(s[j]),
    ensures
        digits_value(s.take(i)) >= 0,
{
    assert(forall|j: int| 0 <= j < i ==> is_digit(#[trigger] s.take(i)[j]));
    crate::text::lemma_digits_value_nonneg(s.take(i));
}

/// Parses a counter file's bytes: the whole input must be a decimal
/// number, optionally signed with `+`.
pub fn parse_counter(s: &[u8]) -> (r: Option<u64>)
    ensures
        r == spec_counter_value(s@),
{
    let digits: &[u8] = if s.len() >= 1 && s[0] == 43 {
        let d = vstd::slice::slice_subrange(s, 1, s.len());
        proof {
            assert(d@ =~= s@.skip(1));
        }
        d
    } else {
        s
    };
    if digits.len() == 0 {
        return None;
    }
    let ghost ds = digits@;
    let ghost signed = s@.len() >= 1 && s@[0] == 43;
    proof {
        if signed {
            assert(ds == s@.skip(1));
        } else {
            assert(ds == s@);
        }
    }
    let mut v: u64 = 0;
    let mut i: usize = 0;
    while i < digits.len()
        invariant
            ds == digits@,
            ds.len() >= 1,
            signed == (s@.len() >= 1 && s@[0] == 43),
            signed ==> ds == s@.skip(1),
            !signed ==> ds == s@,
            0 <= i <= ds.len(),
            forall|j: int| 0 <= j < i ==> is_digit(ds[j]),
            v == digits_value(ds.take(i as int)),
        decreases ds.len() - i,
    {
        let b = digits[i];
        if b < 48 || b > 57 {
            proof {
                lemma_digit_run_bounds(ds);
                if digit_run(ds) == ds.len() {
                    assert(is_digit(ds[i as int]));
                }
            }
            return None;
        }
        let d = b - 48;
        proof {
            assert(ds.take(i as int + 1).drop_last() =~= ds.take(i as int));
            assert(ds.take(i as int + 1).last() == ds[i as int]);
            lemma_digits_value_nonneg_prefix(ds, i as int);
        }
        if v > 1844674407370955161 || (v == 1844674407370955161 && d > 5) {
            proof {
                if digit_run(ds) == ds.len() {
                    lemma_digit_run_bounds(ds);
                    assert(digits_value(ds.take(i as int + 1)) == v * 10 + d);
                    lemma_digits_value_monotone(ds, i as int + 1, ds.len() as int);
                    assert(ds.take(ds.len() as int) =~= ds);
                    assert(digits_value(ds) > u64::MAX);
                }
            }
            return None;
        }
        v = v * 10 + (d as u64);
        i = i + 1;
    }
    proof {
        assert(ds.take(ds.len() as int) =~= ds);
        lemma_digit_run_split(ds, ds.len() as int);
        assert(digit_run(ds) == ds.len());
    }
    Some(v)
}

/// Renders a counter value as decimal digits for the counter file.
pub fn format_counter(n: u64) -> (r: Vec<u8>)
    ensures
        r@ == dec_digits(n as int),
    decreases n,
{
    if n < 10 {
        let mut v: Vec<u8> = Vec::new();
        v.push(48 + (n as u8));
        v
    } else {
        let mut v = format_counter(n / 10);
        v.push(48 + ((n % 10) as u8));
        v
    }
}

/// The value a counter starts from: the on-disk value when it reads as a
/// counter, 0 otherwise (also when no file exists).
pub fn initial_count(disk: Option<&[u8]>) -> (r: u64)
    ensures
        r == match disk {
            Some(s) => match spec_counter_value(s@) {
                Some(v) => v,
                None => 0u64,
            },
            None => 0u64,
        },
{
    match disk {
        Some(s) => match parse_counter(s) {
            Some(v) => v,
            None => 0,
        },
        None => 0,
    }
}

/// One successful increment: the counter grows by exactly one.
pub fn increment_count(n: u64) -> (r: u64)
    requires
        n < u64::MAX,
    ensures
        r == n + 1,
{
    n + 1
}

/// A rendered counter always reads back as the same value: the file is a
/// parseable non-negative integer after every successful rewrite.
pub proof fn lemma_counter_round_trip(n: u64)
    ensures
        spec_counter_value(dec_digits(n as int)) == Some(n),
{
    let d = dec_digits(n as int);
    lemma_dec_digits_are_digits(n as int);
    lemma_dec_digits_value(n as int);
    assert(d[0] != 43);
    assert(d.skip(d.len() as int) =~= Seq::<u8>::empty());
    lemma_digit_run_split(d, d.len() as int);
    assert(digit_run(d) == d.len());
}

} // verus!
