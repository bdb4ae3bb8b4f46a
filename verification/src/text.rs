//! Textual primitives shared by the parsers: whitespace skipping, decimal
//! digit runs, and rendering numbers back to decimal digits.

use vstd::prelude::*;
use vstd::slice::slice_subrange;

verus! {

/// The whitespace bytes skipped between tokens: space, tab, line feed,
/// carriage return.
pub open spec fn is_space(b: u8) -> bool {
    b == 32 || b == 9 || b == 10 || b == 13
}

/// A decimal digit byte.
pub open spec fn is_digit(b: u8) -> bool {
    48 <= b && b <= 57
}

/// The input with its maximal whitespace prefix removed.
pub open spec fn spec_skip_ws(s: Seq<u8>) -> Seq<u8>
    decreases s.len(),
{
    if s.len() > 0 && is_space(s[0]) {
        spec_skip_ws(s.skip(1))
    } else {
        s
    }
}

/// The length of the maximal decimal digit prefix of the input.
pub open spec fn digit_run(s: Seq<u8>) -> int
    decreases s.len(),
{
    if s.len() > 0 && is_digit(s[0]) {
        1 + digit_run(s.skip(1))
    } else {
        0
    }
}

/// The value of a sequence of decimal digit bytes.
pub open spec fn digits_value(s: Seq<u8>) -> int
    decreases s.len(),
{
    if s.len() == 0 {
        0
    } else {
        digits_value(s.drop_last()) * 10 + (s.last() - 48)
    }
}

/// What parsing a decimal number yields: the value of the maximal digit
/// prefix and the rest of the input; nothing if no digit starts the input
/// or the value does not fit in `u32`.
pub open spec fn spec_numeric(s: Seq<u8>) -> Option<(u32, Seq<u8>)> {
    let n = digit_run(s);
    if n == 0 {
        None
    } else if digits_value(s.take(n)) > u32::MAX {
        None
    } else {
        Some((digits_value(s.take(n)) as u32, s.skip(n)))
    }
}

/// The first index at which `b` occurs in `s`, or `s.len()` when it does
/// not occur.
pub open spec fn find_byte(s: Seq<u8>, b: u8) -> int
    decreases s.len(),
{
    if s.len() == 0 {
        0
    } else if s[0] == b {
        0
    } else {
        1 + find_byte(s.skip(1), b)
    }
}

pub proof fn lemma_find_byte_bounds(s: Seq<u8>, b: u8)
    ensures
        0 <= find_byte(s, b) <= s.len(),
        find_byte(s, b) < s.len() ==> s[find_byte(s, b)] == b,
        forall|j: int| 0 <= j < find_byte(s, b) ==> s[j] != b,
    decreases s.len(),
{
    if s.len() > 0 && s[0] != b {
        lemma_find_byte_bounds(s.skip(1), b);
        assert forall|j: int| 0 <= j < find_byte(s, b) implies s[j] != b by {
            if j > 0 {
                assert(s.skip(1)[j - 1] != b);
            }
        }
    }
}

/// Finds the first occurrence of a byte.
pub fn find_byte_at(s: &[u8], b: u8) -> (r: usize)
    ensures
        r as int == find_byte(s@, b),
{
    proof {
        lemma_find_byte_bounds(s@, b);
    }
    let mut i: usize = 0;
    while i < s.len() && s[i] != b
        invariant
            0 <= i <= s@.len(),
            forall|j: int| 0 <= j < i ==> s@[j] != b,
        decreases s@.len() - i,
    {
        i = i + 1;
    }
    proof {
        let k = find_byte(s@, b);
        if k < i {
            assert(s@[k] == b);
        }
        if i < k {
            assert(s@[i as int] == b);
        }
    }
    i
}

/// The decimal digits of `n`, most significant first, without leading
/// zeros (a single zero digit for 0).
pub open spec fn dec_digits(n: int) -> Seq<u8>
    decreases n,
{
    if n < 10 {
        seq![(48 + n) as u8]
    } else {
        dec_digits(n / 10).push((48 + n % 10) as u8)
    }
}

pub proof fn lemma_skip_ws_no_space(s: Seq<u8>)
    requires
        s.len() == 0 || !is_space(s[0]),
    ensures
        spec_skip_ws(s) == s,
{
}

/// Skipping whitespace distributes over the split at the first `i` bytes
/// when those bytes are all whitespace.
pub proof fn lemma_skip_ws_prefix(s: Seq<u8>, i: int)
    requires
        0 <= i <= s.len(),
        forall|j: int| 0 <= j < i ==> is_space(s[j]),
    ensures
        spec_skip_ws(s) == spec_skip_ws(s.skip(i)),
    decreases i,
{
    if i > 0 {
        assert(is_space(s[0]));
        assert(s.skip(1).skip(i - 1) =~= s.skip(i));
        lemma_skip_ws_prefix(s.skip(1), i - 1);
    } else {
        assert(s.skip(0) =~= s);
    }
}

/// The digit run of the input equals `i` plus the digit run past `i` when
/// the first `i` bytes are all digits.
pub proof fn lemma_digit_run_split(s: Seq<u8>, i: int)
    requires
        0 <= i <= s.len(),
        forall|j: int| 0 <= j < i ==> is_digit(s[j]),
    ensures
        digit_run(s) == i + digit_run(s.skip(i)),
    decreases i,
{
    if i > 0 {
        assert(is_digit(s[0]));
        assert(s.skip(1).skip(i - 1) =~= s.skip(i));
        lemma_digit_run_split(s.skip(1), i - 1);
    } else {
        assert(s.skip(0) =~= s);
    }
}

/// The digit run never exceeds the input's length, and every byte within
/// it is a digit.
pub proof fn lemma_digit_run_bounds(s: Seq<u8>)
    ensures
        0 <= digit_run(s) <= s.len(),
        forall|j: int| 0 <= j < digit_run(s) ==> is_digit(s[j]),
    decreases s.len(),
{
    if s.len() > 0 && is_digit(s[0]) {
        lemma_digit_run_bounds(s.skip(1));
        assert forall|j: int| 0 <= j < digit_run(s) implies is_digit(s[j]) by {
            if j > 0 {
                assert(is_digit(s.skip(1)[j - 1]));
            }
        }
    }
}

/// The value of an all-digit sequence is non-negative.
pub proof fn lemma_digits_value_nonneg(s: Seq<u8>)
    requires
        forall|j: int| 0 <= j < s.len() ==> is_digit(s[j]),
    ensures
        digits_value(s) >= 0,
    decreases s.len(),
{
    if s.len() > 0 {
        lemma_digits_value_nonneg(s.drop_last());
    }
}

/// The value of a digit prefix never exceeds the value of a longer digit
/// prefix of the same sequence.
pub proof fn lemma_digits_value_monotone(s: Seq<u8>, i: int, k: int)
    requires
        0 <= i <= k <= s.len(),
        forall|j: int| 0 <= j < k ==> is_digit(s[j]),
    ensures
        digits_value(s.take(i)) <= digits_value(s.take(k)),
    decreases k - i,
{
    if i < k {
        lemma_digits_value_monotone(s, i, k - 1);
        assert(s.take(k).drop_last() =~= s.take(k - 1));
        assert(forall|j: int| 0 <= j < k - 1 ==> is_digit(#[trigger] s.take(k - 1)[j]));
        lemma_digits_value_nonneg(s.take(k - 1));
        assert(digits_value(s.take(k)) == digits_value(s.take(k - 1)) * 10 + (s[k - 1] - 48));
    }
}

/// Every byte that `dec_digits` renders is a decimal digit.
pub proof fn lemma_dec_digits_are_digits(n: int)
    requires
        n >= 0,
    ensures
        dec_digits(n).len() >= 1,
        forall|j: int| 0 <= j < dec_digits(n).len() ==> is_digit(#[trigger] dec_digits(n)[j]),
    decreases n,
{
    if n >= 10 {
        lemma_dec_digits_are_digits(n / 10);
    }
}

/// Parsing the rendered digits of `n` recovers `n`.
pub proof fn lemma_dec_digits_value(n: int)
    requires
        n >= 0,
    ensures
        digits_value(dec_digits(n)) == n,
    decreases n,
{
    if n < 10 {
        assert(dec_digits(n).len() == 1);
        assert(digits_value(dec_digits(n)) == digits_value(dec_digits(n).drop_last()) * 10 + (
        dec_digits(n).last() - 48));
        assert(dec_digits(n).drop_last() =~= Seq::<u8>::empty());
        assert(digits_value(Seq::<u8>::empty()) == 0);
        assert(dec_digits(n).last() == (48 + n) as u8);
    } else {
        lemma_dec_digits_value(n / 10);
        assert(dec_digits(n).drop_last() =~= dec_digits(n / 10));
        assert(dec_digits(n).last() == (48 + n % 10) as u8);
        assert(0 <= n % 10 < 10);
        assert(digits_value(dec_digits(n)) == digits_value(dec_digits(n / 10)) * 10 + ((48 + n
            % 10) as u8 - 48));
        assert(n == (n / 10) * 10 + n % 10) by (nonlinear_arith)
            requires
                n >= 10,
        ;
    }
}

/// `spec_numeric` on rendered digits followed by a non-digit rest yields
/// the number and the rest.
pub proof fn lemma_numeric_of_dec_digits(n: u32, rest: Seq<u8>)
    requires
        rest.len() == 0 || !is_digit(rest[0]),
    ensures
        spec_numeric(dec_digits(n as int) + rest) == Some((n, rest)),
{
    let d = dec_digits(n as int);
    let s = d + rest;
    lemma_dec_digits_are_digits(n as int);
    lemma_dec_digits_value(n as int);
    assert(forall|j: int| 0 <= j < d.len() ==> is_digit(s[j]));
    assert(s.skip(d.len() as int) =~= rest);
    lemma_digit_run_split(s, d.len() as int);
    assert(digit_run(s) == d.len());
    assert(s.take(d.len() as int) =~= d);
}

/// Skips leading whitespace bytes.
pub fn ws(input: &[u8]) -> (r: &[u8])
    ensures
        r@ == spec_skip_ws(input@),
{
    let mut i: usize = 0;
    while i < input.len() && (input[i] == 32 || input[i] == 9 || input[i] == 10 || input[i] == 13)
        invariant
            0 <= i <= input@.len(),
            forall|j: int| 0 <= j < i ==> is_space(input@[j]),
        decreases input@.len() - i,
    {
        i = i + 1;
    }
    proof {
        lemma_skip_ws_prefix(input@, i as int);
        lemma_skip_ws_no_space(input@.skip(i as int));
    }
    slice_subrange(input, i, input.len())
}

/// Parses a decimal number: the value of the maximal digit prefix and the
/// rest of the input. Yields nothing when no digit starts the input or the
/// value overflows `u32`.
pub fn numeric(input: &[u8]) -> (r: Option<(u32, &[u8])>)
    ensures
        match r {
            Some((v, rest)) => spec_numeric(input@) == Some((v, rest@)),
            None => spec_numeric(input@) is None,
        },
{
    let ghost s = input@;
    let mut i: usize = 0;
    while i < input.len() && input[i] >= 48 && input[i] <= 57
        invariant
            0 <= i <= input@.len(),
            forall|j: int| 0 <= j < i ==> is_digit(input@[j]),
        decreases input@.len() - i,
    {
        i = i + 1;
    }
    proof {
        lemma_digit_run_split(s, i as int);
        assert(digit_run(s) == i);
    }
    if i == 0 {
        return None;
    }
    let mut v: u64 = 0;
    let mut k: usize = 0;
    while k < i
        invariant
            s == input@,
            0 <= k <= i <= input@.len(),
            forall|j: int| 0 <= j < i ==> is_digit(input@[j]),
            digit_run(s) == i,
            v <= u32::MAX,
            v == digits_value(s.take(k as int)),
        decreases i - k,
    {
        let d = input[k] - 48;
        proof {
            assert(s.take(k as int + 1).drop_last() =~= s.take(k as int));
        }
        v = v * 10 + (d as u64);
        k = k + 1;
        if v > u32::MAX as u64 {
            proof {
                lemma_digits_value_monotone(s, k as int, i as int);
            }
            return None;
        }
    }
    proof {
        assert(s.take(i as int) =~= s.take(digit_run(s)));
    }
    Some((v as u32, slice_subrange(input, i, input.len())))
}

/// Renders `n` as decimal digits, most significant first.
pub fn dec_format(n: u32) -> (r: Vec<u8>)
    ensures
        r@ == dec_digits(n as int),
    decreases n,
{
    if n < 10 {
        let mut v: Vec<u8> = Vec::new();
        v.push(48 + (n as u8));
        v
    } else {
        let mut v = dec_format(n / 10);
        v.push(48 + ((n % 10) as u8));
        v
    }
}

} // verus!
