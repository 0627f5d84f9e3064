//! Decimal integers as text: `str::parse` for the integer types used by the
//! panel, and their `Display` form.
use vstd::prelude::*;

verus! {

pub open spec fn is_digit(c: char) -> bool {
    '0' <= c <= '9'
}

pub open spec fn all_digits(d: Seq<char>) -> bool {
    forall|i: int| 0 <= i < d.len() ==> is_digit(#[trigger] d[i])
}

pub open spec fn digit_value(c: char) -> nat {
    (c as int - '0' as int) as nat
}

/// The value of a string of decimal digits.
pub open spec fn digits_value(d: Seq<char>) -> nat
    decreases d.len(),
{
    if d.len() == 0 {
        0
    } else {
        digits_value(d.drop_last()) * 10 + digit_value(d.last())
    }
}

/// The value that `str::parse` gives for a natural number (after its sign),
/// when it is at most `limit`.
pub open spec fn natural_spec(d: Seq<char>, limit: nat) -> Option<nat> {
    if d.len() > 0 && all_digits(d) && digits_value(d) <= limit {
        Some(digits_value(d))
    } else {
        None
    }
}

/// `s.parse::<u64>().ok()`: an optional `+`, then one or more ASCII digits,
/// whose value fits.
pub open spec fn parse_u64_spec(s: Seq<char>) -> Option<u64> {
    let d = if s.len() > 0 && s[0] == '+' { s.drop_first() } else { s };
    match natural_spec(d, u64::MAX as nat) {
        Some(v) => Some(v as u64),
        None => None,
    }
}

/// The value of a signed decimal: an optional `+` or `-`, then one or more
/// ASCII digits (not yet bounded).
pub open spec fn signed_spec(s: Seq<char>) -> Option<int> {
    let neg = s.len() > 0 && s[0] == '-';
    let d = if s.len() > 0 && (s[0] == '+' || s[0] == '-') { s.drop_first() } else { s };
    if d.len() > 0 && all_digits(d) {
        Some(if neg { -(digits_value(d) as int) } else { digits_value(d) as int })
    } else {
        None
    }
}

/// `s.parse::<i64>().ok()`.
pub open spec fn parse_i64_spec(s: Seq<char>) -> Option<i64> {
    match signed_spec(s) {
        Some(v) => if i64::MIN <= v <= i64::MAX { Some(v as i64) } else { None },
        None => None,
    }
}

/// `s.parse::<i32>().ok()`.
pub open spec fn parse_i32_spec(s: Seq<char>) -> Option<i32> {
    match signed_spec(s) {
        Some(v) => if i32::MIN <= v <= i32::MAX { Some(v as i32) } else { None },
        None => None,
    }
}

proof fn lemma_digits_value_prefix(d: Seq<char>, k: int)
    requires
        0 <= k <= d.len(),
    ensures
        digits_value(d) >= digits_value(d.take(k)),
    decreases d.len(),
{
    if k < d.len() {
        lemma_digits_value_prefix(d.drop_last(), k);
        assert(d.drop_last().take(k) =~= d.take(k));
    } else {
        assert(d.take(k) =~= d);
    }
}

fn is_digit_exec(c: char) -> (r: bool)
    ensures
        r == is_digit(c),
{
    '0' <= c && c <= '9'
}

fn digit_of(c: char) -> (r: u64)
    requires
        is_digit(c),
    ensures
        r == digit_value(c),
        r <= 9,
{
    (c as u32 - '0' as u32) as u64
}

/// The value of the digits `s[from..]` when they are all digits, at least one,
/// and at most `limit`.
fn natural(s: &Vec<char>, from: usize, limit: u64) -> (r: Option<u64>)
    requires
        from <= s.len(),
    ensures
        match natural_spec(s@.skip(from as int), limit as nat) {
            Some(v) => r == Some(v as u64),
            None => r is None,
        },
{
    let ghost d = s@.skip(from as int);
    if from == s.len() {
        return None;
    }
    let mut acc: u64 = 0;
    let mut i = from;
    let mut over = false;
    while i < s.len()
        invariant
            from <= i <= s.len(),
            d == s@.skip(from as int),
            all_digits(d.take(i - from)),
            !over ==> acc == digits_value(d.take(i - from)) && acc <= limit,
            over ==> digits_value(d.take(i - from)) > limit,
        decreases s.len() - i,
    {
        let c = s[i];
        let ghost k = i - from;
        proof {
            assert(d[k] == c);
            assert(d.take(k + 1).drop_last() =~= d.take(k));
        }
        if !is_digit_exec(c) {
            proof {
                assert(!all_digits(d)) by {
                    assert(!is_digit(d[k]));
                }
            }
            return None;
        }
        let v = digit_of(c);
        proof {
            assert(all_digits(d.take(k + 1))) by {
                assert forall|j: int| 0 <= j < k + 1 implies is_digit(#[trigger] d.take(k + 1)[j]) by {
                    if j < k {
                        assert(d.take(k + 1)[j] == d.take(k)[j]);
                    }
                }
            }
            assert(digits_value(d.take(k + 1)) == digits_value(d.take(k)) * 10 + v);
        }
        if !over {
            if v > limit || acc > (limit - v) / 10 {
                proof {
                    if v <= limit {
                        assert(acc * 10 + v > limit) by (nonlinear_arith)
                            requires
                                acc > (limit - v) / 10,
                                v <= limit,
                        ;
                    }
                }
                over = true;
            } else {
                proof {
                    assert(acc * 10 + v <= limit) by (nonlinear_arith)
                        requires
                            acc <= (limit - v) / 10,
                            v <= limit,
                    ;
                }
                acc = acc * 10 + v;
            }
        } else {
            proof {
                assert(digits_value(d.take(k)) * 10 + v > limit) by (nonlinear_arith)
                    requires
                        digits_value(d.take(k)) > limit,
                ;
            }
        }
        i = i + 1;
    }
    proof {
        assert(d.take(i - from) =~= d);
    }
    if over {
        None
    } else {
        Some(acc)
    }
}

/// `s.parse::<u64>().ok()`.
pub fn parse_u64(s: &Vec<char>) -> (r: Option<u64>)
    ensures
        r == parse_u64_spec(s@),
{
    let from: usize = if s.len() > 0 && s[0] == '+' { 1 } else { 0 };
    proof {
        if from == 1 {
            assert(s@.skip(1) =~= s@.drop_first());
        } else {
            assert(s@.skip(0) =~= s@);
        }
    }
    natural(s, from, u64::MAX)
}

/// The signed value of `s` (sign and digits), when its magnitude is within
/// the bound of its sign.
fn signed(s: &Vec<char>, pos_limit: u64, neg_limit: u64) -> (r: Option<(bool, u64)>)
    ensures
        match r {
            Some((neg, m)) => signed_spec(s@) == Some(if neg { -(m as int) } else { m as int })
                && (if neg { m <= neg_limit } else { m <= pos_limit }),
            None => match signed_spec(s@) {
                Some(v) => v > pos_limit || v < -(neg_limit as int),
                None => true,
            },
        },
{
    let neg = s.len() > 0 && s[0] == '-';
    let from: usize = if s.len() > 0 && (s[0] == '+' || s[0] == '-') { 1 } else { 0 };
    proof {
        if from == 1 {
            assert(s@.skip(1) =~= s@.drop_first());
        } else {
            assert(s@.skip(0) =~= s@);
        }
    }
    let limit = if neg { neg_limit } else { pos_limit };
    match natural(s, from, limit) {
        Some(m) => Some((neg, m)),
        None => {
            proof {
                let d = s@.skip(from as int);
                if d.len() > 0 && all_digits(d) {
                    assert(digits_value(d) > limit);
                }
            }
            None
        },
    }
}

/// `s.parse::<i64>().ok()`.
pub fn parse_i64(s: &Vec<char>) -> (r: Option<i64>)
    ensures
        r == parse_i64_spec(s@),
{
    match signed(s, 0x7fff_ffff_ffff_ffff, 0x8000_0000_0000_0000) {
        Some((neg, m)) => {
            if neg {
                if m == 0x8000_0000_0000_0000 {
                    Some(i64::MIN)
                } else {
                    Some(-(m as i64))
                }
            } else {
                Some(m as i64)
            }
        },
        None => None,
    }
}

/// `s.parse::<i32>().ok()`.
pub fn parse_i32(s: &Vec<char>) -> (r: Option<i32>)
    ensures
        r == parse_i32_spec(s@),
{
    match signed(s, 0x7fff_ffff, 0x8000_0000) {
        Some((neg, m)) => {
            if neg {
                Some((-(m as i64)) as i32)
            } else {
                Some(m as i32)
            }
        },
        None => None,
    }
}

// ---------------------------------------------------------------------------
// Display

pub open spec fn digit_char(n: nat) -> char {
    if n == 0 {
        '0'
    } else if n == 1 {
        '1'
    } else if n == 2 {
        '2'
    } else if n == 3 {
        '3'
    } else if n == 4 {
        '4'
    } else if n == 5 {
        '5'
    } else if n == 6 {
        '6'
    } else if n == 7 {
        '7'
    } else if n == 8 {
        '8'
    } else {
        '9'
    }
}

/// The `Display` form of a natural number.
pub open spec fn decimal_spec(n: nat) -> Seq<char>
    decreases n,
{
    if n < 10 {
        seq![digit_char(n)]
    } else {
        decimal_spec(n / 10).push(digit_char(n % 10))
    }
}

/// The `Display` form of an integer.
pub open spec fn int_decimal_spec(v: int) -> Seq<char> {
    if v < 0 {
        seq!['-'] + decimal_spec((-v) as nat)
    } else {
        decimal_spec(v as nat)
    }
}

pub(crate) fn digit_to_char(d: u64) -> (c: char)
    requires
        d < 10,
    ensures
        c == digit_char(d as nat),
{
    if d == 0 {
        '0'
    } else if d == 1 {
        '1'
    } else if d == 2 {
        '2'
    } else if d == 3 {
        '3'
    } else if d == 4 {
        '4'
    } else if d == 5 {
        '5'
    } else if d == 6 {
        '6'
    } else if d == 7 {
        '7'
    } else if d == 8 {
        '8'
    } else {
        '9'
    }
}

/// Appends the `Display` form of `n` to `out`.
pub fn push_decimal(out: &mut Vec<char>, n: u64)
    ensures
        final(out)@ == old(out)@ + decimal_spec(n as nat),
    decreases n,
{
    if n >= 10 {
        push_decimal(out, n / 10);
    }
    out.push(digit_to_char(n % 10));
    proof {
        if n >= 10 {
            assert(old(out)@ + decimal_spec(n as nat) =~= old(out)@ + decimal_spec((n / 10) as nat)
                + seq![digit_char((n % 10) as nat)]);
        }
    }
}

/// Appends the `Display` form of `v` to `out`.
pub fn push_int_decimal(out: &mut Vec<char>, v: i64)
    ensures
        final(out)@ == old(out)@ + int_decimal_spec(v as int),
{
    if v < 0 {
        out.push('-');
        let m: u64 = if v == i64::MIN { 0x8000_0000_0000_0000 } else { (-v) as u64 };
        push_decimal(out, m);
        proof {
            assert(old(out)@ + int_decimal_spec(v as int) =~= old(out)@.push('-') + decimal_spec(
                m as nat,
            ));
        }
    } else {
        push_decimal(out, v as u64);
    }
}

/// The `Display` form of `n`.
pub fn decimal(n: u64) -> (r: Vec<char>)
    ensures
        r@ == decimal_spec(n as nat),
{
    let mut r: Vec<char> = Vec::new();
    push_decimal(&mut r, n);
    assert(r@ =~= decimal_spec(n as nat));
    r
}

proof fn lemma_decimal_digits(n: nat)
    ensures
        decimal_spec(n).len() > 0,
        all_digits(decimal_spec(n)),
        digits_value(decimal_spec(n)) == n,
    decreases n,
{
    if n >= 10 {
        lemma_decimal_digits(n / 10);
        let d = decimal_spec(n);
        assert(d.drop_last() =~= decimal_spec(n / 10));
        assert forall|i: int| 0 <= i < d.len() implies is_digit(#[trigger] d[i]) by {
            if i < d.len() - 1 {
                assert(d[i] == decimal_spec(n / 10)[i]);
            }
        }
        assert(d.last() == digit_char(n % 10));
        assert(digit_value(digit_char(n % 10)) == n % 10);
        assert((n / 10) * 10 + n % 10 == n);
        assert(d.len() > 0);
        assert(digits_value(d) == digits_value(d.drop_last()) * 10 + digit_value(d.last()));
        assert(digits_value(d.drop_last()) == n / 10);
    } else {
        let d = decimal_spec(n);
        assert(d.drop_last() =~= Seq::<char>::empty());
        assert(digit_value(digit_char(n)) == n);
        assert(digits_value(d) == digits_value(d.drop_last()) * 10 + digit_value(d.last()));
    }
}

/// Reading back what `decimal` writes gives the number again.
pub proof fn law_parse_decimal_roundtrip(n: u64)
    ensures
        parse_u64_spec(decimal_spec(n as nat)) == Some(n),
{
    lemma_decimal_digits(n as nat);
    let d = decimal_spec(n as nat);
    assert(is_digit(d[0]));
}

// ---------------------------------------------------------------------------
// rounding as floating point does it

/// `n / d` rounded to the nearest integer, a tie going to the even one.
pub open spec fn half_even_div(n: nat, d: nat) -> nat {
    let q = n / d;
    let r = n % d;
    if 2 * r > d || (2 * r == d && q % 2 == 1) {
        q + 1
    } else {
        q
    }
}

pub fn half_even_div_exec(n: u128, d: u128) -> (r: u128)
    requires
        0 < d <= 0x1_0000_0000_0000_0000,
    ensures
        r == half_even_div(n as nat, d as nat),
{
    let q = n / d;
    let m = n % d;
    if 2 * m > d || (2 * m == d && q % 2 == 1) {
        assert(d >= 2);
        assert(q <= n / 2) by (nonlinear_arith)
            requires
                q == n / d,
                d >= 2,
        ;
        q + 1
    } else {
        q
    }
}

/// The distance between neighbouring `f64` values near a `u64` value `b`:
/// 1 below 2^53, doubling at each power of two above it.
pub open spec fn f64_spacing(b: nat) -> nat {
    if b < 0x20_0000_0000_0000 {
        1
    } else if b < 0x40_0000_0000_0000 {
        2
    } else if b < 0x80_0000_0000_0000 {
        4
    } else if b < 0x100_0000_0000_0000 {
        8
    } else if b < 0x200_0000_0000_0000 {
        16
    } else if b < 0x400_0000_0000_0000 {
        32
    } else if b < 0x800_0000_0000_0000 {
        64
    } else if b < 0x1000_0000_0000_0000 {
        128
    } else if b < 0x2000_0000_0000_0000 {
        256
    } else if b < 0x4000_0000_0000_0000 {
        512
    } else if b < 0x8000_0000_0000_0000 {
        1024
    } else {
        2048
    }
}

/// The value of `b as f64` for a `u64` `b`: the nearest multiple of the
/// spacing, a tie going to the even multiple.
pub open spec fn f64_of(b: nat) -> nat {
    half_even_div(b, f64_spacing(b)) * f64_spacing(b)
}

fn f64_spacing_exec(b: u64) -> (r: u64)
    ensures
        r == f64_spacing(b as nat),
        1 <= r <= 2048,
{
    if b < 0x20_0000_0000_0000 {
        1
    } else if b < 0x40_0000_0000_0000 {
        2
    } else if b < 0x80_0000_0000_0000 {
        4
    } else if b < 0x100_0000_0000_0000 {
        8
    } else if b < 0x200_0000_0000_0000 {
        16
    } else if b < 0x400_0000_0000_0000 {
        32
    } else if b < 0x800_0000_0000_0000 {
        64
    } else if b < 0x1000_0000_0000_0000 {
        128
    } else if b < 0x2000_0000_0000_0000 {
        256
    } else if b < 0x4000_0000_0000_0000 {
        512
    } else if b < 0x8000_0000_0000_0000 {
        1024
    } else {
        2048
    }
}

/// `b as f64`, as an exact integer.
pub fn f64_of_exec(b: u64) -> (r: u128)
    ensures
        r == f64_of(b as nat),
        r <= b + 2048,
{
    let s = f64_spacing_exec(b) as u128;
    let q = half_even_div_exec(b as u128, s);
    assert(q * s <= b + s) by (nonlinear_arith)
        requires
            q <= (b as int) / (s as int) + 1,
            s > 0,
    ;
    q * s
}

} // verus!
