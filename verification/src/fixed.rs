//! Fixed-point representation of prices and quantities.
//!
//! Every price and every quantity in the library is an `i64` holding the
//! value times [`PRICE_SCALE`], i.e. with eight implied decimal places.
//! Profit-and-loss figures are products of a price and a quantity and so
//! carry sixteen implied decimal places ([`PNL_SCALE`]); they are held as
//! `i128`.
//!
//! The module also holds the verified parser that turns the decimal
//! strings of the market-data feed ("1800.5") into scaled integers.

use vstd::prelude::*;

verus! {

/// One whole unit of a price or a quantity: eight implied decimal places.
pub const PRICE_SCALE: i64 = 100_000_000;

/// One whole unit of a profit-and-loss figure: sixteen implied decimal
/// places, the product of two [`PRICE_SCALE`]s.
pub const PNL_SCALE: i128 = 10_000_000_000_000_000;

/// Largest price the library accepts (ten million whole units).
pub const PRICE_LIMIT: i64 = 1_000_000_000_000_000;

/// Largest order quantity the library accepts (ten million whole units).
pub const QTY_LIMIT: i64 = 1_000_000_000_000_000;

/// Largest magnitude a position's signed quantity may reach.
pub const POSITION_LIMIT: i64 = 1_000_000_000_000_000_000;

/// An ASCII decimal digit.
pub open spec fn is_digit_byte(b: u8) -> bool {
    48 <= b <= 57
}

/// The numeric value of an ASCII digit.
pub open spec fn digit_val(b: u8) -> int {
    b - 48
}

/// Every byte of `s` is an ASCII decimal digit.
pub open spec fn all_digits(s: Seq<u8>) -> bool {
    forall|i: int| 0 <= i < s.len() ==> is_digit_byte(#[trigger] s[i])
}

/// The value of a string of ASCII digits, most significant first.
pub open spec fn digits_value(s: Seq<u8>) -> int
    decreases s.len(),
{
    if s.len() == 0 {
        0
    } else {
        digits_value(s.drop_last()) * 10 + digit_val(s.last())
    }
}

/// Ten to the `k`.
pub open spec fn pow10(k: nat) -> int
    decreases k,
{
    if k == 0 {
        1
    } else {
        10 * pow10((k - 1) as nat)
    }
}

/// `s` is a plain run of digits, such as "42".
pub open spec fn is_plain_digits(s: Seq<u8>) -> bool {
    s.len() >= 1 && all_digits(s)
}

/// `s` is a decimal string whose dot sits at index `i`: digits on both
/// sides, at least one integer digit, one to eight fractional digits.
pub open spec fn is_decimal_at(s: Seq<u8>, i: int) -> bool {
    &&& 1 <= i < s.len() - 1
    &&& s.len() - i - 1 <= 8
    &&& s[i] == 46
    &&& all_digits(s.subrange(0, i))
    &&& all_digits(s.subrange(i + 1, s.len() as int))
}

/// The scaled value of a decimal string whose dot sits at index `i`.
pub open spec fn decimal_value_at(s: Seq<u8>, i: int) -> int {
    digits_value(s.subrange(0, i)) * PRICE_SCALE + digits_value(
        s.subrange(i + 1, s.len() as int),
    ) * pow10((8 - (s.len() - i - 1)) as nat)
}

/// The scaled value a byte string denotes, if it is a well-formed
/// unsigned decimal: a run of digits, optionally followed by a dot and
/// one to eight fractional digits.
pub open spec fn spec_decimal_value(s: Seq<u8>) -> Option<int> {
    if is_plain_digits(s) {
        Some(digits_value(s) * PRICE_SCALE)
    } else if exists|i: int| is_decimal_at(s, i) {
        Some(decimal_value_at(s, choose|i: int| is_decimal_at(s, i)))
    } else {
        None
    }
}

/// A decimal string has only one possible dot position.
proof fn lemma_decimal_at_unique(s: Seq<u8>, i: int, j: int)
    requires
        is_decimal_at(s, i),
        is_decimal_at(s, j),
    ensures
        i == j,
{
    if i < j {
        assert(s.subrange(i + 1, s.len() as int)[j - i - 1] == s[j]);
    } else if j < i {
        assert(s.subrange(j + 1, s.len() as int)[i - j - 1] == s[i]);
    }
}

/// Digit strings denote values from zero up to (but not reaching) ten to
/// their length.
pub proof fn lemma_digits_value_bound(s: Seq<u8>)
    requires
        all_digits(s),
    ensures
        0 <= digits_value(s) < pow10(s.len()),
    decreases s.len(),
{
    if s.len() == 0 {
    } else {
        assert(all_digits(s.drop_last())) by {
            assert(forall|i: int|
                0 <= i < s.len() - 1 ==> is_digit_byte(#[trigger] s.drop_last()[i]) == is_digit_byte(
                    s[i],
                ));
        }
        lemma_digits_value_bound(s.drop_last());
        assert(digits_value(s.drop_last()) * 10 + digit_val(s.last()) < pow10(s.len())) by {
            let v = digits_value(s.drop_last());
            let p = pow10((s.len() - 1) as nat);
            assert(v <= p - 1);
            assert(v * 10 <= (p - 1) * 10) by (nonlinear_arith)
                requires v <= p - 1;
            assert(pow10(s.len()) == 10 * p);
        }
    }
}

/// A prefix of a digit string never denotes more than the whole string.
proof fn lemma_digits_prefix_le(s: Seq<u8>, i: int)
    requires
        all_digits(s),
        0 <= i <= s.len(),
    ensures
        digits_value(s.subrange(0, i)) <= digits_value(s),
    decreases s.len() - i,
{
    if i == s.len() {
        assert(s.subrange(0, i) =~= s);
    } else {
        lemma_digits_prefix_le(s, i + 1);
        let p = s.subrange(0, i);
        let q = s.subrange(0, i + 1);
        assert(q.drop_last() =~= p);
        assert(all_digits(p));
        lemma_digits_value_bound(p);
        assert(digits_value(q) == digits_value(p) * 10 + digit_val(q.last()));
        assert(digits_value(p) * 10 >= digits_value(p)) by (nonlinear_arith)
            requires digits_value(p) >= 0;
    }
}

/// The value of the digits of `bs` between `from` and `to`, capped: `None`
/// when the value would not fit an `i64`.
fn digits_slice_value(bs: &[u8], from: usize, to: usize) -> (r: Option<i64>)
    requires
        from <= to <= bs@.len(),
        all_digits(bs@.subrange(from as int, to as int)),
    ensures
        match r {
            Some(v) => 0 <= v && v == digits_value(bs@.subrange(from as int, to as int)),
            None => digits_value(bs@.subrange(from as int, to as int)) > i64::MAX,
        },
{
    let s = Ghost(bs@.subrange(from as int, to as int));
    let mut acc: i64 = 0;
    let mut i: usize = from;
    while i < to
        invariant
            from <= i <= to <= bs@.len(),
            s@ == bs@.subrange(from as int, to as int),
            all_digits(s@),
            0 <= acc,
            acc == digits_value(s@.subrange(0, i - from)),
        decreases to - i,
    {
        let d = bs[i];
        assert(s@[i - from] == bs@[i as int]);
        assert(is_digit_byte(d));
        let dv: i64 = (d - 48) as i64;
        proof {
            assert(s@.subrange(0, i + 1 - from).drop_last() =~= s@.subrange(0, i - from));
            assert(s@.subrange(0, i + 1 - from).last() == s@[i - from]);
        }
        if acc > (i64::MAX - dv) / 10 {
            proof {
                let k = i + 1 - from;
                assert(digits_value(s@.subrange(0, k)) == acc * 10 + dv);
                assert(acc * 10 + dv > i64::MAX) by (nonlinear_arith)
                    requires acc > (i64::MAX - dv) / 10, 0 <= dv <= 9;
                lemma_digits_prefix_le(s@, k);
            }
            return None;
        }
        assert(acc * 10 + dv <= i64::MAX) by (nonlinear_arith)
            requires 0 <= acc <= (i64::MAX - dv) / 10, 0 <= dv <= 9;
        acc = acc * 10 + dv;
        i = i + 1;
    }
    assert(s@.subrange(0, to - from) =~= s@);
    Some(acc)
}

/// Ten to the `k`, for the small exponents of a fractional part.
fn pow10_exec(k: usize) -> (r: i64)
    requires
        k <= 8,
    ensures
        r == pow10(k as nat),
        1 <= r <= 100_000_000,
{
    proof {
        assert(pow10(0) == 1);
        assert(pow10(1) == 10);
        assert(pow10(2) == 100);
        assert(pow10(3) == 1000);
        assert(pow10(4) == 10_000);
        assert(pow10(5) == 100_000);
        assert(pow10(6) == 1_000_000);
        assert(pow10(7) == 10_000_000);
        assert(pow10(8) == 100_000_000);
    }
    match k {
        0 => 1,
        1 => 10,
        2 => 100,
        3 => 1000,
        4 => 10_000,
        5 => 100_000,
        6 => 1_000_000,
        7 => 10_000_000,
        _ => 100_000_000,
    }
}

/// Parses an unsigned decimal byte string into a scaled fixed-point
/// value: "1800.5" becomes 1800.5 times [`PRICE_SCALE`]. Returns `None`
/// when the string is not a well-formed decimal or the value does not fit.
pub fn parse_scaled_decimal(bs: &[u8]) -> (r: Option<i64>)
    ensures
        match r {
            Some(v) => 0 <= v && spec_decimal_value(bs@) == Some(v as int),
            None => match spec_decimal_value(bs@) {
                Some(v) => v > i64::MAX,
                None => true,
            },
        },
{
    let n = bs.len();
    if n == 0 {
        return None;
    }
    // Find the dot, if any, and check every other byte is a digit.
    let mut dot: Option<usize> = None;
    let mut i: usize = 0;
    while i < n
        invariant
            0 <= i <= n == bs@.len(),
            match dot {
                Some(d) => 1 <= d < i && bs@[d as int] == 46 && (forall|j: int|
                    0 <= j < i && j != d ==> is_digit_byte(#[trigger] bs@[j])),
                None => forall|j: int| 0 <= j < i ==> is_digit_byte(#[trigger] bs@[j]),
            },
        decreases n - i,
    {
        let b = bs[i];
        if b == 46 {
            if dot.is_some() || i == 0 {
                proof {
                    lemma_no_decimal(bs@, dot, i as int);
                }
                return None;
            }
            dot = Some(i);
        } else if b < 48 || b > 57 {
            proof {
                lemma_no_decimal_bad_byte(bs@, i as int);
            }
            return None;
        }
        i = i + 1;
    }
    match dot {
        None => {
            assert(all_digits(bs@)) by {
                assert(bs@.subrange(0, n as int) =~= bs@);
            }
            assert(is_plain_digits(bs@));
            assert(bs@.subrange(0, n as int) =~= bs@);
            match digits_slice_value(bs, 0, n) {
                None => {
                    proof {
                        let v = digits_value(bs@);
                        assert(v * PRICE_SCALE >= v) by (nonlinear_arith)
                            requires v > i64::MAX;
                    }
                    None
                },
                Some(v) => {
                    proof {
                        assert(v * PRICE_SCALE <= i64::MAX * (PRICE_SCALE as int))
                            by (nonlinear_arith)
                            requires 0 <= v <= i64::MAX;
                        assert(v * PRICE_SCALE >= 0) by (nonlinear_arith)
                            requires v >= 0;
                    }
                    let scaled: i128 = (v as i128) * (PRICE_SCALE as i128);
                    if scaled > i64::MAX as i128 {
                        None
                    } else {
                        Some(scaled as i64)
                    }
                },
            }
        },
        Some(d) => {
            let frac_len = n - d - 1;
            if frac_len == 0 || frac_len > 8 {
                proof {
                    lemma_no_decimal_bad_frac(bs@, d as int);
                }
                return None;
            }
            proof {
                assert forall|j: int| 0 <= j < d implies is_digit_byte(
                    #[trigger] bs@.subrange(0, d as int)[j],
                ) by {
                    assert(bs@.subrange(0, d as int)[j] == bs@[j]);
                }
                assert forall|j: int| 0 <= j < n - d - 1 implies is_digit_byte(
                    #[trigger] bs@.subrange(d + 1, n as int)[j],
                ) by {
                    assert(bs@.subrange(d + 1, n as int)[j] == bs@[d + 1 + j]);
                }
            }
            assert(is_decimal_at(bs@, d as int));
            let int_part = match digits_slice_value(bs, 0, d) {
                None => {
                    proof {
                        lemma_decimal_value_dominates_int_part(bs@, d as int);
                    }
                    return None;
                },
                Some(v) => v,
            };
            let frac_part = match digits_slice_value(bs, d + 1, n) {
                None => {
                    proof {
                        let fs = bs@.subrange(d + 1, n as int);
                        lemma_digits_value_bound(fs);
                        assert(pow10(fs.len()) <= pow10(8)) by {
                            lemma_pow10_le(fs.len(), 8);
                        }
                        assert(pow10(8) == 100_000_000) by {
                            lemma_pow10_values();
                        }
                    }
                    return None;  // unreachable: at most 8 digits
                },
                Some(v) => v,
            };
            proof {
                let fs = bs@.subrange(d + 1, n as int);
                lemma_digits_value_bound(fs);
                lemma_pow10_le(fs.len(), 8);
                lemma_pow10_values();
                assert(frac_part <= 100_000_000);
            }
            let mult = pow10_exec(8 - frac_len);
            proof {
                assert(int_part * PRICE_SCALE <= i64::MAX * (PRICE_SCALE as int))
                    by (nonlinear_arith)
                    requires 0 <= int_part <= i64::MAX;
                assert(int_part * PRICE_SCALE >= 0) by (nonlinear_arith)
                    requires int_part >= 0;
                assert(frac_part * mult <= 100_000_000 * 100_000_000int) by (nonlinear_arith)
                    requires 0 <= frac_part <= 100_000_000, 0 <= mult <= 100_000_000;
            }
            let scaled: i128 = (int_part as i128) * (PRICE_SCALE as i128) + (frac_part as i128) * (
            mult as i128);
            proof {
                let v = decimal_value_at(bs@, d as int);
                lemma_decimal_at_choose(bs@, d as int);
                assert(int_part * PRICE_SCALE >= 0) by (nonlinear_arith)
                    requires int_part >= 0;
                assert(frac_part * mult >= 0) by (nonlinear_arith)
                    requires frac_part >= 0, mult >= 1;
            }
            if scaled > i64::MAX as i128 {
                proof {
                    let v = decimal_value_at(bs@, d as int);
                    assert(v == int_part * PRICE_SCALE + frac_part * pow10(
                        (8 - (bs@.len() - d - 1)) as nat,
                    ));
                }
                None
            } else {
                Some(scaled as i64)
            }
        },
    }
}

/// Powers of ten are monotone in the exponent.
proof fn lemma_pow10_le(a: nat, b: nat)
    requires
        a <= b,
    ensures
        pow10(a) <= pow10(b),
        pow10(a) >= 1,
    decreases b,
{
    if a == b {
        lemma_pow10_pos(a);
    } else {
        lemma_pow10_le(a, (b - 1) as nat);
        lemma_pow10_pos((b - 1) as nat);
    }
}

/// Powers of ten are positive.
proof fn lemma_pow10_pos(k: nat)
    ensures
        pow10(k) >= 1,
    decreases k,
{
    if k > 0 {
        lemma_pow10_pos((k - 1) as nat);
    }
}

/// The small powers of ten, spelled out.
proof fn lemma_pow10_values()
    ensures
        pow10(0) == 1,
        pow10(1) == 10,
        pow10(2) == 100,
        pow10(3) == 1000,
        pow10(4) == 10_000,
        pow10(5) == 100_000,
        pow10(6) == 1_000_000,
        pow10(7) == 10_000_000,
        pow10(8) == 100_000_000,
{
    assert(pow10(0) == 1);
    assert(pow10(1) == 10);
    assert(pow10(2) == 100);
    assert(pow10(3) == 1000);
    assert(pow10(4) == 10_000);
    assert(pow10(5) == 100_000);
    assert(pow10(6) == 1_000_000);
    assert(pow10(7) == 10_000_000);
    assert(pow10(8) == 100_000_000);
}

/// `spec_decimal_value` agrees with the dot position found by the scan.
proof fn lemma_decimal_at_choose(s: Seq<u8>, d: int)
    requires
        is_decimal_at(s, d),
    ensures
        spec_decimal_value(s) == Some(decimal_value_at(s, d)),
{
    assert(!is_plain_digits(s)) by {
        if all_digits(s) {
            assert(is_digit_byte(s[d]));
        }
    }
    let c = choose|i: int| is_decimal_at(s, i);
    lemma_decimal_at_unique(s, c, d);
}

/// A decimal value is at least the value of its integer part.
proof fn lemma_decimal_value_dominates_int_part(s: Seq<u8>, d: int)
    requires
        is_decimal_at(s, d),
        digits_value(s.subrange(0, d)) > i64::MAX,
    ensures
        spec_decimal_value(s) matches Some(v) && v > i64::MAX,
{
    lemma_decimal_at_choose(s, d);
    let iv = digits_value(s.subrange(0, d));
    let fs = s.subrange(d + 1, s.len() as int);
    lemma_digits_value_bound(fs);
    lemma_pow10_pos((8 - (s.len() - d - 1)) as nat);
    assert(iv * PRICE_SCALE >= iv) by (nonlinear_arith)
        requires iv > 0;
    assert(digits_value(fs) * pow10((8 - (s.len() - d - 1)) as nat) >= 0) by (nonlinear_arith)
        requires digits_value(fs) >= 0, pow10((8 - (s.len() - d - 1)) as nat) >= 1;
}

/// A string with a misplaced or repeated dot is not a decimal.
proof fn lemma_no_decimal(s: Seq<u8>, dot: Option<usize>, at: int)
    requires
        0 <= at < s.len(),
        s[at] == 46,
        match dot {
            Some(d) => d < at && s[d as int] == 46,
            None => at == 0,
        },
    ensures
        spec_decimal_value(s) is None,
{
    assert(!is_plain_digits(s)) by {
        if all_digits(s) {
            assert(is_digit_byte(s[at]));
        }
    }
    assert forall|i: int| !is_decimal_at(s, i) by {
        if is_decimal_at(s, i) {
            match dot {
                Some(d) => {
                    if i != d {
                        if d < i {
                            assert(s.subrange(0, i)[d as int] == s[d as int]);
                        } else {
                            assert(s.subrange(i + 1, s.len() as int)[d - i - 1] == s[d as int]);
                        }
                    } else {
                        assert(s.subrange(i + 1, s.len() as int)[at - i - 1] == s[at]);
                    }
                },
                None => {
                    assert(i >= 1);
                    assert(s.subrange(0, i)[0] == s[0]);
                },
            }
        }
    }
}

/// A string holding a byte that is neither digit nor dot is not a decimal.
proof fn lemma_no_decimal_bad_byte(s: Seq<u8>, at: int)
    requires
        0 <= at < s.len(),
        !is_digit_byte(s[at]),
        s[at] != 46,
    ensures
        spec_decimal_value(s) is None,
{
    assert(!is_plain_digits(s));
    assert forall|i: int| !is_decimal_at(s, i) by {
        if is_decimal_at(s, i) {
            if at < i {
                assert(s.subrange(0, i)[at] == s[at]);
            } else if at > i {
                assert(s.subrange(i + 1, s.len() as int)[at - i - 1] == s[at]);
            }
        }
    }
}

/// A lone dot with no or too many fractional digits is not a decimal.
proof fn lemma_no_decimal_bad_frac(s: Seq<u8>, d: int)
    requires
        0 <= d < s.len(),
        s[d] == 46,
        forall|j: int| 0 <= j < s.len() && j != d ==> is_digit_byte(#[trigger] s[j]),
        s.len() - d - 1 == 0 || s.len() - d - 1 > 8,
    ensures
        spec_decimal_value(s) is None,
{
    assert(!is_plain_digits(s)) by {
        if all_digits(s) {
            assert(is_digit_byte(s[d]));
        }
    }
    assert forall|i: int| !is_decimal_at(s, i) by {
        if is_decimal_at(s, i) {
            if i != d {
                if d < i {
                    assert(s.subrange(0, i)[d] == s[d]);
                } else {
                    assert(s.subrange(i + 1, s.len() as int)[d - i - 1] == s[d]);
                }
            }
        }
    }
}

} // verus!
