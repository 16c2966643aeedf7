//! Monetary amounts as fixed-point cents.
//!
//! The snapshot store keeps amounts as decimal strings with at most two
//! fraction digits (`"123.45"`). The library computes on their exact
//! value in hundredths — "cents" — held in a `u64`, so derivation and
//! statistics are exact; rounding to two decimals for display is the
//! identity on this representation.

use vstd::prelude::*;

use crate::text::all_digits;
use crate::text::check_digits;
use crate::text::dec_rep;
use crate::text::digits_val;
use crate::text::is_digit;
use crate::text::is_digit_exec;
use crate::text::lemma_digits_val_bound;
use crate::text::lemma_pow10_increases;
use crate::text::lemma_pow10_vals;
use crate::text::parse_digits;
use crate::text::pow10;
use crate::text::two_digit_rep;
use crate::text::u64_to_string;
use crate::text::u64_to_two_digits;

verus! {

/// Exclusive upper bound on any amount the library accepts, in cents:
/// the amount grammar allows at most thirteen integer digits.
pub const MAX_CENTS: u64 = 1000000000000000;

/// Length of the run of digits of `s` starting at index `i`.
pub open spec fn digit_run(s: Seq<char>, i: int) -> int
    decreases s.len() - i when 0 <= i <= s.len()
{
    if i < s.len() && is_digit(s[i]) {
        1 + digit_run(s, i + 1)
    } else {
        0
    }
}

/// `s` has the shape of an amount string: one to thirteen integer
/// digits, optionally followed by a dot and one or two fraction digits.
pub open spec fn is_amount_str(s: Seq<char>) -> bool {
    let k = digit_run(s, 0);
    let fl = s.len() as int - k - 1;
    &&& 1 <= k <= 13
    &&& (k == s.len() || (s[k] == '.' && 1 <= fl <= 2 && all_digits(
        s.subrange(k + 1, s.len() as int),
    )))
}

/// The value in cents an amount-shaped string denotes.
pub open spec fn amount_cents(s: Seq<char>) -> int {
    let k = digit_run(s, 0);
    let fl = s.len() as int - k - 1;
    let ip = digits_val(s.subrange(0, k));
    if k == s.len() {
        ip * 100
    } else if fl == 1 {
        ip * 100 + digits_val(s.subrange(k + 1, s.len() as int)) * 10
    } else {
        ip * 100 + digits_val(s.subrange(k + 1, s.len() as int))
    }
}

/// The first `digit_run(s, 0)` characters are digits, and the run is
/// bounded by the length.
proof fn lemma_digit_run_range(s: Seq<char>, i: int)
    requires
        0 <= i <= s.len(),
    ensures
        0 <= digit_run(s, i) <= s.len() - i,
        forall|p: int| i <= p < i + digit_run(s, i) ==> is_digit(#[trigger] s[p]),
    decreases s.len() - i,
{
    if i < s.len() && is_digit(s[i]) {
        lemma_digit_run_range(s, i + 1);
    }
}

/// An amount-shaped string denotes fewer than [`MAX_CENTS`] cents.
pub proof fn lemma_amount_cents_bound(s: Seq<char>)
    requires
        is_amount_str(s),
    ensures
        0 <= amount_cents(s) < MAX_CENTS,
{
    let k = digit_run(s, 0);
    lemma_digit_run_range(s, 0);
    let ip_seq = s.subrange(0, k);
    assert(all_digits(ip_seq));
    lemma_digits_val_bound(ip_seq);
    lemma_pow10_increases(ip_seq.len(), 13nat);
    lemma_pow10_vals();
    if k < s.len() {
        let fr_seq = s.subrange(k + 1, s.len() as int);
        lemma_digits_val_bound(fr_seq);
        lemma_pow10_increases(fr_seq.len(), 2nat);
    }
}

/// Parses an amount string into cents.
///
/// Returns `Some` exactly when the string has the amount shape; the
/// result is then its exact value in hundredths.
pub fn parse_amount(s: &str) -> (r: Option<u64>)
    ensures
        r is Some <==> is_amount_str(s@),
        r matches Some(c) ==> c == amount_cents(s@) && c < MAX_CENTS,
{
    let n = s.unicode_len();
    let mut k: usize = 0;
    while k < n && is_digit_exec(s.get_char(k))
        invariant
            0 <= k <= n,
            n == s@.len(),
            digit_run(s@, 0) == k + digit_run(s@, k as int),
            forall|p: int| 0 <= p < k ==> is_digit(#[trigger] s@[p]),
        decreases n - k,
    {
        k = k + 1;
    }
    proof {
        assert(digit_run(s@, k as int) == 0);
        assert(digit_run(s@, 0) == k as int);
    }
    if k < 1 || k > 13 {
        return None;
    }
    proof {
        assert(s@.subrange(0, k as int) =~= s@.subrange(0, k as int));
        assert forall|p: int| 0 <= p < k implies is_digit(#[trigger] s@.subrange(0, k as int)[p]) by {
            assert(s@.subrange(0, k as int)[p] == s@[p]);
        }
        lemma_pow10_vals();
    }
    if k == n {
        let ip = parse_digits(s, n, 0, k);
        proof {
            lemma_pow10_increases(k as nat, 13nat);
            assert(is_amount_str(s@));
        }
        return Some(ip * 100);
    }
    if s.get_char(k) != '.' {
        return None;
    }
    let fl: usize = n - k - 1;
    if fl < 1 || fl > 2 {
        return None;
    }
    if !check_digits(s, n, k + 1, fl) {
        return None;
    }
    let ip = parse_digits(s, n, 0, k);
    let fv = parse_digits(s, n, k + 1, fl);
    proof {
        lemma_pow10_increases(k as nat, 13nat);
        lemma_pow10_increases(fl as nat, 2nat);
        assert(is_amount_str(s@));
    }
    if fl == 1 {
        Some(ip * 100 + fv * 10)
    } else {
        Some(ip * 100 + fv)
    }
}

/// The canonical rendering of a cent value: integer part, dot, two
/// fraction digits.
pub open spec fn amount_rep(c: nat) -> Seq<char> {
    dec_rep(c / 100) + seq!['.'] + two_digit_rep(c % 100)
}

/// A run of digits up to a non-digit (or the end) has that length.
proof fn lemma_digit_run_value(s: Seq<char>, i: int, k: int)
    requires
        0 <= i <= k <= s.len(),
        forall|j: int| i <= j < k ==> is_digit(#[trigger] s[j]),
        k == s.len() || !is_digit(s[k]),
    ensures
        digit_run(s, i) == k - i,
    decreases k - i,
{
    if i < k {
        lemma_digit_run_value(s, i + 1, k);
    }
}

/// Formatting cents and parsing the result is the identity: what the
/// library writes to the store it reads back unchanged on the next
/// run.
pub proof fn lemma_amount_round_trip(c: u64)
    requires
        c < MAX_CENTS,
    ensures
        is_amount_str(amount_rep(c as nat)),
        amount_cents(amount_rep(c as nat)) == c,
{
    let s = amount_rep(c as nat);
    let ip = (c as nat) / 100;
    let fr = (c as nat) % 100;
    let a = crate::text::dec_rep(ip);
    let b = crate::text::two_digit_rep(fr);
    crate::text::lemma_dec_rep_digits(ip);
    crate::text::lemma_two_digit_rep(fr);
    crate::text::lemma_pow10_vals();
    assert(ip < pow10(13nat)) by {
        vstd::arithmetic::div_mod::lemma_multiply_divide_lt(c as int, 100, pow10(13nat));
    }
    crate::text::lemma_dec_rep_len(ip, 13nat);
    let k = a.len() as int;
    assert(s.len() == k + 3);
    assert forall|j: int| 0 <= j < k implies is_digit(#[trigger] s[j]) by {
        assert(s[j] == a[j]);
    }
    assert(s[k] == '.');
    assert(!is_digit('.'));
    lemma_digit_run_value(s, 0, k);
    assert(s.subrange(0, k) =~= a);
    assert(s.subrange(k + 1, s.len() as int) =~= b);
    assert(is_amount_str(s));
    assert(amount_cents(s) == ip * 100 + fr);
    vstd::arithmetic::div_mod::lemma_fundamental_div_mod(c as int, 100);
}

/// Formats cents as a decimal string with exactly two fraction digits.
pub fn format_cents(c: u64) -> (s: String)
    ensures
        s@ == amount_rep(c as nat),
{
    proof {
        reveal_strlit(".");
    }
    let mut s = u64_to_string(c / 100);
    s.append(".");
    let fr = u64_to_two_digits(c % 100);
    s.append(fr.as_str());
    proof {
        assert(s@ =~= amount_rep(c as nat));
    }
    s
}

} // verus!
