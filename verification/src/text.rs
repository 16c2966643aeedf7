//! Decimal digit sequences: parsing and formatting primitives.
//!
//! Every number that crosses the library's boundary travels as text
//! (`"123.45"`, `"2024-01-02"`), so the digit grammar and its value are
//! specified here once and shared by the date and amount modules.

use vstd::prelude::*;

verus! {

/// `c` is a decimal digit `'0'..='9'`.
pub open spec fn is_digit(c: char) -> bool {
    48 <= c as u32 <= 57
}

/// Numeric value of a digit character.
pub open spec fn digit_val(c: char) -> int {
    c as u32 - 48
}

/// The digit character for a value in `0..=9`.
pub open spec fn digit_char(d: int) -> char {
    if d == 0 {
        '0'
    } else if d == 1 {
        '1'
    } else if d == 2 {
        '2'
    } else if d == 3 {
        '3'
    } else if d == 4 {
        '4'
    } else if d == 5 {
        '5'
    } else if d == 6 {
        '6'
    } else if d == 7 {
        '7'
    } else if d == 8 {
        '8'
    } else {
        '9'
    }
}

/// Every character of `s` is a decimal digit.
pub open spec fn all_digits(s: Seq<char>) -> bool {
    forall|i: int| 0 <= i < s.len() ==> is_digit(#[trigger] s[i])
}

/// Value of a digit string read in base 10, most significant digit first.
pub open spec fn digits_val(s: Seq<char>) -> int
    decreases s.len(),
{
    if s.len() == 0 {
        0
    } else {
        digits_val(s.drop_last()) * 10 + digit_val(s.last())
    }
}

/// `10^n`.
pub open spec fn pow10(n: nat) -> int
    decreases n,
{
    if n == 0 {
        1
    } else {
        10 * pow10((n - 1) as nat)
    }
}

/// A digit string's value is bounded by `10^len`.
pub proof fn lemma_digits_val_bound(s: Seq<char>)
    requires
        all_digits(s),
    ensures
        0 <= digits_val(s) < pow10(s.len()),
    decreases s.len(),
{
    if s.len() > 0 {
        assert(all_digits(s.drop_last()));
        lemma_digits_val_bound(s.drop_last());
        assert(0 <= digit_val(s.last()) <= 9);
    }
}

/// Decimal representation of a non-negative integer, no leading zeros.
pub open spec fn dec_rep(n: nat) -> Seq<char>
    decreases n,
{
    if n < 10 {
        seq![digit_char(n as int)]
    } else {
        dec_rep(n / 10) + seq![digit_char((n % 10) as int)]
    }
}

/// Two-digit zero-padded representation of a value below 100.
pub open spec fn two_digit_rep(n: nat) -> Seq<char> {
    seq![digit_char(n as int / 10), digit_char(n as int % 10)]
}

/// Four-digit zero-padded representation of a value below 10000.
pub open spec fn four_digit_rep(n: nat) -> Seq<char> {
    seq![
        digit_char(n as int / 1000),
        digit_char((n as int / 100) % 10),
        digit_char((n as int / 10) % 10),
        digit_char(n as int % 10),
    ]
}

/// `digit_char` yields digits, and `digit_val` reads them back.
pub proof fn lemma_digit_char_val(d: int)
    requires
        0 <= d <= 9,
    ensures
        is_digit(digit_char(d)),
        digit_val(digit_char(d)) == d,
{
}

/// A formatted number is all digits and reads back to its value.
pub proof fn lemma_dec_rep_digits(n: nat)
    ensures
        all_digits(dec_rep(n)),
        digits_val(dec_rep(n)) == n,
        dec_rep(n).len() >= 1,
    decreases n,
{
    if n < 10 {
        reveal_with_fuel(digits_val, 3);
        lemma_digit_char_val(n as int);
        assert(dec_rep(n).drop_last() =~= Seq::<char>::empty());
    } else {
        lemma_dec_rep_digits(n / 10);
        lemma_digit_char_val((n % 10) as int);
        let s = dec_rep(n);
        assert(s.drop_last() =~= dec_rep(n / 10));
        assert(s.last() == digit_char((n % 10) as int));
        assert forall|i: int| 0 <= i < s.len() implies is_digit(#[trigger] s[i]) by {
            if i < s.len() - 1 {
                assert(s[i] == dec_rep(n / 10)[i]);
            }
        }
    }
}

/// A value below `10^k` formats to at most `k` digits.
pub proof fn lemma_dec_rep_len(n: nat, k: nat)
    requires
        1 <= k,
        n < pow10(k),
    ensures
        dec_rep(n).len() <= k,
    decreases k,
{
    if n >= 10 {
        assert(k >= 2) by {
            if k == 1 {
                assert(pow10(1nat) == 10) by {
                    reveal_with_fuel(pow10, 3);
                }
            }
        }
        assert(n / 10 < pow10((k - 1) as nat)) by {
            vstd::arithmetic::div_mod::lemma_multiply_divide_lt(
                n as int,
                10,
                pow10((k - 1) as nat),
            );
        }
        lemma_dec_rep_len(n / 10, (k - 1) as nat);
    }
}

/// A two-digit rendering is all digits and reads back to its value.
pub proof fn lemma_two_digit_rep(n: nat)
    requires
        n < 100,
    ensures
        all_digits(two_digit_rep(n)),
        digits_val(two_digit_rep(n)) == n,
        two_digit_rep(n).len() == 2,
{
    reveal_with_fuel(digits_val, 4);
    lemma_digit_char_val(n as int / 10);
    lemma_digit_char_val(n as int % 10);
    let s = two_digit_rep(n);
    assert(s.drop_last() =~= seq![digit_char(n as int / 10)]);
    assert(seq![digit_char(n as int / 10)].drop_last() =~= Seq::<char>::empty());
    assert(digits_val(s) == (n as int / 10) * 10 + n as int % 10);
    vstd::arithmetic::div_mod::lemma_fundamental_div_mod(n as int, 10);
}

/// A four-digit rendering is all digits and reads back to its value.
pub proof fn lemma_four_digit_rep(n: nat)
    requires
        n < 10000,
    ensures
        all_digits(four_digit_rep(n)),
        digits_val(four_digit_rep(n)) == n,
        four_digit_rep(n).len() == 4,
{
    reveal_with_fuel(digits_val, 6);
    let x = n as int;
    lemma_digit_char_val(x / 1000);
    lemma_digit_char_val((x / 100) % 10);
    lemma_digit_char_val((x / 10) % 10);
    lemma_digit_char_val(x % 10);
    let s = four_digit_rep(n);
    let s3 = seq![digit_char(x / 1000), digit_char((x / 100) % 10), digit_char((x / 10) % 10)];
    let s2 = seq![digit_char(x / 1000), digit_char((x / 100) % 10)];
    let s1 = seq![digit_char(x / 1000)];
    assert(s.drop_last() =~= s3);
    assert(s3.drop_last() =~= s2);
    assert(s2.drop_last() =~= s1);
    assert(s1.drop_last() =~= Seq::<char>::empty());
    assert(digits_val(s) == ((x / 1000 * 10 + (x / 100) % 10) * 10 + (x / 10) % 10) * 10 + x % 10);
    vstd::arithmetic::div_mod::lemma_fundamental_div_mod(x, 10);
    vstd::arithmetic::div_mod::lemma_fundamental_div_mod(x / 10, 10);
    vstd::arithmetic::div_mod::lemma_fundamental_div_mod(x / 100, 10);
    assert((x / 10) / 10 == x / 100) by {
        vstd::arithmetic::div_mod::lemma_div_denominator(x, 10, 10);
    }
    assert((x / 100) / 10 == x / 1000) by {
        vstd::arithmetic::div_mod::lemma_div_denominator(x, 100, 10);
    }
}

/// `piece` repeated `n` times.
pub open spec fn repeat_seq(piece: Seq<char>, n: nat) -> Seq<char>
    decreases n,
{
    if n == 0 {
        Seq::empty()
    } else {
        repeat_seq(piece, (n - 1) as nat) + piece
    }
}

/// Is `c` a decimal digit?
pub fn is_digit_exec(c: char) -> (r: bool)
    ensures
        r == is_digit(c),
{
    let u = c as u32;
    48 <= u && u <= 57
}

/// The one-character string for a digit value.
pub fn digit_str(d: u8) -> (r: &'static str)
    requires
        d < 10,
    ensures
        r@ == seq![digit_char(d as int)],
{
    proof {
        reveal_strlit("0");
        reveal_strlit("1");
        reveal_strlit("2");
        reveal_strlit("3");
        reveal_strlit("4");
        reveal_strlit("5");
        reveal_strlit("6");
        reveal_strlit("7");
        reveal_strlit("8");
        reveal_strlit("9");
    }
    let r = match d {
        0 => "0",
        1 => "1",
        2 => "2",
        3 => "3",
        4 => "4",
        5 => "5",
        6 => "6",
        7 => "7",
        8 => "8",
        _ => "9",
    };
    proof {
        assert(r@ =~= seq![digit_char(d as int)]);
    }
    r
}

/// Decimal formatting of a `u64`, without leading zeros.
pub fn u64_to_string(n: u64) -> (s: String)
    ensures
        s@ == dec_rep(n as nat),
    decreases n,
{
    if n < 10 {
        String::from_str(digit_str(n as u8))
    } else {
        let mut s = u64_to_string(n / 10);
        s.append(digit_str((n % 10) as u8));
        s
    }
}

/// Two-digit zero-padded formatting.
pub fn u64_to_two_digits(n: u64) -> (s: String)
    requires
        n < 100,
    ensures
        s@ == two_digit_rep(n as nat),
{
    let mut s = String::from_str(digit_str((n / 10) as u8));
    s.append(digit_str((n % 10) as u8));
    proof {
        assert(s@ =~= two_digit_rep(n as nat));
    }
    s
}

/// Four-digit zero-padded formatting.
pub fn u64_to_four_digits(n: u64) -> (s: String)
    requires
        n < 10000,
    ensures
        s@ == four_digit_rep(n as nat),
{
    let mut s = String::from_str(digit_str((n / 1000) as u8));
    s.append(digit_str(((n / 100) % 10) as u8));
    s.append(digit_str(((n / 10) % 10) as u8));
    s.append(digit_str((n % 10) as u8));
    proof {
        assert(s@ =~= four_digit_rep(n as nat));
    }
    s
}

/// `piece` repeated `n` times as a `String`.
pub fn repeat_str(piece: &str, n: usize) -> (s: String)
    ensures
        s@ == repeat_seq(piece@, n as nat),
{
    let mut s = String::new();
    let mut i: usize = 0;
    while i < n
        invariant
            i <= n,
            s@ == repeat_seq(piece@, i as nat),
        decreases n - i,
    {
        s.append(piece);
        i = i + 1;
    }
    s
}

/// Checks that `s[start .. start + len]` consists of decimal digits.
pub fn check_digits(s: &str, n: usize, start: usize, len: usize) -> (r: bool)
    requires
        n == s@.len(),
        start + len <= n,
    ensures
        r == all_digits(s@.subrange(start as int, (start + len) as int)),
{
    let ghost sub = s@.subrange(start as int, (start + len) as int);
    let mut j: usize = 0;
    while j < len
        invariant
            j <= len,
            start + len <= n,
            n == s@.len(),
            sub == s@.subrange(start as int, (start + len) as int),
            forall|p: int| 0 <= p < j ==> is_digit(#[trigger] sub[p]),
        decreases len - j,
    {
        let c = s.get_char(start + j);
        proof {
            assert(sub[j as int] == s@[start + j]);
        }
        if !is_digit_exec(c) {
            return false;
        }
        j = j + 1;
    }
    true
}

/// Reads the value of the digit run `s[start .. start + len]`.
///
/// The run is at most 15 digits, so the value fits comfortably in `u64`.
pub fn parse_digits(s: &str, n: usize, start: usize, len: usize) -> (r: u64)
    requires
        n == s@.len(),
        start + len <= n,
        len <= 15,
        all_digits(s@.subrange(start as int, (start + len) as int)),
    ensures
        r == digits_val(s@.subrange(start as int, (start + len) as int)),
        r < pow10(len as nat),
{
    proof {
        lemma_pow10_vals();
    }
    let ghost whole = s@.subrange(start as int, (start + len) as int);
    let mut acc: u64 = 0;
    let mut j: usize = 0;
    while j < len
        invariant
            j <= len,
            len <= 15,
            start + len <= n,
            n == s@.len(),
            all_digits(s@.subrange(start as int, (start + len) as int)),
            whole == s@.subrange(start as int, (start + len) as int),
            acc == digits_val(whole.subrange(0, j as int)),
            acc < pow10(j as nat),
            pow10(15nat) == 1000000000000000,
        decreases len - j,
    {
        let c = s.get_char(start + j);
        proof {
            assert(whole[j as int] == s@[start + j]);
            assert(is_digit(whole[j as int]));
            lemma_pow10_increases(j as nat, 14nat);
        }
        let d = (c as u32 - 48) as u64;
        proof {
            let pre = whole.subrange(0, j as int);
            let cur = whole.subrange(0, j + 1);
            assert(cur.drop_last() =~= pre);
            assert(cur.last() == whole[j as int]);
        }
        acc = acc * 10 + d;
        j = j + 1;
    }
    proof {
        assert(whole.subrange(0, len as int) =~= whole);
    }
    acc
}

/// Concrete values of small powers of ten, for overflow bounds.
pub proof fn lemma_pow10_vals()
    ensures
        pow10(1nat) == 10,
        pow10(2nat) == 100,
        pow10(4nat) == 10000,
        pow10(13nat) == 10000000000000,
        pow10(15nat) == 1000000000000000,
{
    reveal_with_fuel(pow10, 17);
}

/// `pow10` grows with its argument.
pub proof fn lemma_pow10_increases(a: nat, b: nat)
    requires
        a <= b,
    ensures
        pow10(a) <= pow10(b),
    decreases b,
{
    if a < b {
        lemma_pow10_increases(a, (b - 1) as nat);
        lemma_pow10_positive((b - 1) as nat);
    }
}

/// `pow10` is positive.
pub proof fn lemma_pow10_positive(n: nat)
    ensures
        pow10(n) >= 1,
    decreases n,
{
    if n > 0 {
        lemma_pow10_positive((n - 1) as nat);
    }
}

} // verus!
