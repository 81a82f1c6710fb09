//! Construction of exact scalars from decimal-string literals.
//!
//! A literal is an optional sign, digits, and at most one decimal
//! point, with at least one digit in all: `"12"`, `"-3.6875"`, `".5"`,
//! `"7."`. Anything else is rejected with a parse error, never
//! silently defaulted; a literal whose digits outgrow the stored range
//! is rejected as out of range.

use crate::rat::{rat_eqv, Rat};
use crate::ratio::Ratio;
use vstd::arithmetic::div_mod::{lemma_fundamental_div_mod, lemma_mod_bound};
use vstd::prelude::*;
use vstd::string::StringSliceAdditionalSpecFns;

verus! {

/// Why a decimal literal was rejected.
#[derive(Clone, Copy, Debug, PartialEq, Eq, Structural)]
pub enum ParseDecimalError {
    /// Nothing after the optional sign.
    Empty,
    /// A byte that is neither a digit, a single leading sign, nor the
    /// first decimal point; or no digit at all.
    InvalidCharacter,
    /// More mantissa digits than the stored range can hold, or more
    /// than eighteen fractional digits.
    OutOfRange,
}

/// An ASCII digit.
pub open spec fn is_digit_byte(c: u8) -> bool {
    48 <= c <= 57
}

/// Every byte is an ASCII digit.
pub open spec fn all_digit_bytes(s: Seq<u8>) -> bool {
    forall|i: int| 0 <= i < s.len() ==> is_digit_byte(#[trigger] s[i])
}

/// The number the digit string denotes, most significant first.
pub open spec fn digits_val(s: Seq<u8>) -> int
    decreases s.len(),
{
    if s.len() == 0 {
        0
    } else {
        10 * digits_val(s.drop_last()) + (s.last() - 48)
    }
}

/// Ten to the `k`.
pub open spec fn pow10(k: nat) -> int
    decreases k,
{
    if k == 0 {
        1
    } else {
        10 * pow10((k - 1) as nat)
    }
}

/// How many leading bytes are a sign: one for `+` or `-`, else none.
pub open spec fn sign_len(s: Seq<u8>) -> int {
    if s.len() > 0 && (s[0] == 43 || s[0] == 45) {
        1
    } else {
        0
    }
}

/// Whether the literal denotes a negated number.
pub open spec fn is_negative_literal(s: Seq<u8>) -> bool {
    s.len() > 0 && s[0] == 45
}

/// The literal after its sign.
pub open spec fn body_of(s: Seq<u8>) -> Seq<u8> {
    s.subrange(sign_len(s), s.len() as int)
}

/// The index of the first decimal point, or the length if there is
/// none.
pub open spec fn first_dot(b: Seq<u8>) -> int
    decreases b.len(),
{
    if b.len() == 0 {
        0
    } else if b[0] == 46 {
        0
    } else {
        1 + first_dot(b.subrange(1, b.len() as int))
    }
}

/// The digits before the decimal point.
pub open spec fn int_digits(s: Seq<u8>) -> Seq<u8> {
    body_of(s).subrange(0, first_dot(body_of(s)))
}

/// The digits after the decimal point; empty if there is none.
pub open spec fn frac_digits(s: Seq<u8>) -> Seq<u8> {
    let b = body_of(s);
    if first_dot(b) == b.len() {
        Seq::empty()
    } else {
        b.subrange(first_dot(b) + 1, b.len() as int)
    }
}

/// A well-shaped decimal literal: after the sign and at most one
/// decimal point, only digits, and at least one of them.
pub open spec fn valid_decimal(s: Seq<u8>) -> bool {
    &&& all_digit_bytes(int_digits(s))
    &&& all_digit_bytes(frac_digits(s))
    &&& int_digits(s).len() + frac_digits(s).len() >= 1
}

/// The literal's digits, read as one integer.
pub open spec fn decimal_mantissa(s: Seq<u8>) -> int {
    digits_val(int_digits(s).add(frac_digits(s)))
}

/// Whether the literal's value fits the stored scalar range.
pub open spec fn decimal_fits(s: Seq<u8>) -> bool {
    &&& decimal_mantissa(s) <= i64::MAX as int
    &&& frac_digits(s).len() <= 18
}

/// The rational number a well-shaped literal denotes.
pub open spec fn decimal_rat(s: Seq<u8>) -> Rat {
    Rat {
        n: if is_negative_literal(s) {
            -decimal_mantissa(s)
        } else {
            decimal_mantissa(s)
        },
        d: pow10(frac_digits(s).len()),
    }
}

/// Every power of ten is at least one.
proof fn lemma_pow10_pos(k: nat)
    ensures
        pow10(k) >= 1,
    decreases k,
{
    if k > 0 {
        lemma_pow10_pos((k - 1) as nat);
    }
}

/// Powers of ten grow with the exponent.
proof fn lemma_pow10_mono(j: nat, k: nat)
    requires
        j <= k,
    ensures
        pow10(j) <= pow10(k),
    decreases k,
{
    if j < k {
        lemma_pow10_mono(j, (k - 1) as nat);
        lemma_pow10_pos((k - 1) as nat);
    }
}

/// The eighteenth power of ten, evaluated.
proof fn lemma_pow10_18()
    ensures
        pow10(18) == 1000000000000000000,
{
    reveal_with_fuel(pow10, 19);
}

/// Appending a digit multiplies the value by ten and adds the digit.
proof fn lemma_digits_val_push(s: Seq<u8>, d: u8)
    ensures
        digits_val(s.push(d)) == 10 * digits_val(s) + (d - 48),
{
    assert(s.push(d).drop_last() =~= s);
}

/// A digit string's value is nonnegative.
proof fn lemma_digits_val_nonneg(s: Seq<u8>)
    requires
        all_digit_bytes(s),
    ensures
        digits_val(s) >= 0,
    decreases s.len(),
{
    if s.len() > 0 {
        assert(all_digit_bytes(s.drop_last()));
        lemma_digits_val_nonneg(s.drop_last());
        assert(digits_val(s) == 10 * digits_val(s.drop_last()) + (s.last() - 48));
    }
}

/// A digit string is worth at least any of its prefixes.
proof fn lemma_digits_val_prefix_le(s: Seq<u8>, k: int)
    requires
        all_digit_bytes(s),
        0 <= k <= s.len(),
    ensures
        digits_val(s.subrange(0, k)) <= digits_val(s),
    decreases s.len() - k,
{
    if k < s.len() {
        lemma_digits_val_prefix_le(s, k + 1);
        assert(s.subrange(0, k + 1) =~= s.subrange(0, k).push(s[k]));
        lemma_digits_val_push(s.subrange(0, k), s[k]);
        assert(all_digit_bytes(s.subrange(0, k)));
        lemma_digits_val_nonneg(s.subrange(0, k));
    } else {
        assert(s.subrange(0, k) =~= s);
    }
}

/// If no decimal point occurs before `k`, the first one is at `k` or
/// later; and exactly at `k` if `k` holds one (or at the end if `k` is
/// the length).
proof fn lemma_first_dot_from_scan(b: Seq<u8>, k: int)
    requires
        0 <= k <= b.len(),
        forall|j: int| 0 <= j < k ==> b[j] != 46,
    ensures
        k <= first_dot(b) <= b.len(),
        k < b.len() && b[k] == 46 ==> first_dot(b) == k,
        k == b.len() ==> first_dot(b) == b.len(),
    decreases b.len(),
{
    if b.len() == 0 {
    } else if k == 0 {
        if b[0] != 46 {
            lemma_first_dot_from_scan(b.subrange(1, b.len() as int), 0);
        }
    } else {
        let t = b.subrange(1, b.len() as int);
        assert(forall|j: int| 0 <= j < k - 1 ==> t[j] != 46);
        lemma_first_dot_from_scan(t, k - 1);
    }
}

/// Parses a decimal literal into an exact scalar. Succeeds on exactly
/// the well-shaped literals whose digits fit the stored range, and
/// returns the denoted number; each malformed input is rejected with
/// the error naming what is wrong with it.
#[verifier::loop_isolation(false)]
#[verifier::rlimit(60)]
pub fn parse_decimal(s: &str) -> (r: Result<Ratio, ParseDecimalError>)
    ensures
        (r is Ok) <==> valid_decimal(s.spec_bytes()) && decimal_fits(s.spec_bytes()),
        r matches Ok(v) ==> v.wf() && rat_eqv(v@, decimal_rat(s.spec_bytes())),
        (r == Result::<Ratio, ParseDecimalError>::Err(ParseDecimalError::Empty)) <==> body_of(
            s.spec_bytes(),
        ).len() == 0,
        (r == Result::<Ratio, ParseDecimalError>::Err(ParseDecimalError::InvalidCharacter))
            <==> body_of(s.spec_bytes()).len() > 0 && !valid_decimal(s.spec_bytes()),
        (r == Result::<Ratio, ParseDecimalError>::Err(ParseDecimalError::OutOfRange))
            <==> valid_decimal(s.spec_bytes()) && !decimal_fits(s.spec_bytes()),
{
    let bytes = s.as_bytes();
    let ghost sb = s.spec_bytes();
    let n = bytes.len();
    let mut start: usize = 0;
    let mut neg = false;
    if n > 0 && (bytes[0] == 43 || bytes[0] == 45) {
        neg = bytes[0] == 45;
        start = 1;
    }
    proof {
        assert(start == sign_len(sb));
        assert(neg == is_negative_literal(sb));
        assert(body_of(sb) =~= sb.subrange(start as int, n as int));
    }
    if start == n {
        return Err(ParseDecimalError::Empty);
    }
    let ghost body = body_of(sb);
    // First pass: find the first decimal point, and reject any byte
    // that is neither a digit nor that one point.
    let mut dot: usize = n;
    let mut j: usize = start;
    while j < n
        invariant
            start <= j <= n,
            n == sb.len(),
            bytes@ == sb,
            body == sb.subrange(start as int, n as int),
            dot == n || (start <= dot < j && sb[dot as int] == 46),
            forall|t: int| start <= t < j && t != dot ==> is_digit_byte(#[trigger] sb[t]),
            dot == n ==> forall|t: int| start <= t < j ==> sb[t] != 46,
        decreases n - j,
    {
        let c = bytes[j];
        if c == 46 {
            if dot < n {
                proof {
                    lemma_dot_position(sb, start as int, dot as int);
                    assert(frac_digits(sb)[j - dot - 1] == sb[j as int]);
                    assert(!is_digit_byte(sb[j as int]));
                }
                return Err(ParseDecimalError::InvalidCharacter);
            }
            dot = j;
        } else if c < 48 || c > 57 {
            proof {
                if dot == n {
                    lemma_first_dot_from_scan(body, j - start + 1);
                    assert(int_digits(sb)[j - start] == sb[j as int]);
                } else {
                    lemma_dot_position(sb, start as int, dot as int);
                    assert(frac_digits(sb)[j - dot - 1] == sb[j as int]);
                }
            }
            return Err(ParseDecimalError::InvalidCharacter);
        }
        j += 1;
    }
    proof {
        if dot == n {
            lemma_first_dot_from_scan(body, n - start);
            assert(int_digits(sb) =~= body);
            assert(frac_digits(sb) =~= Seq::<u8>::empty());
        } else {
            lemma_dot_position(sb, start as int, dot as int);
        }
        assert forall|i: int| 0 <= i < int_digits(sb).len() implies is_digit_byte(
            #[trigger] int_digits(sb)[i],
        ) by {
            assert(int_digits(sb)[i] == sb[start + i]);
        }
        assert forall|i: int| 0 <= i < frac_digits(sb).len() implies is_digit_byte(
            #[trigger] frac_digits(sb)[i],
        ) by {
            assert(frac_digits(sb)[i] == sb[dot + 1 + i]);
        }
    }
    if dot == start && dot + 1 == n {
        return Err(ParseDecimalError::InvalidCharacter);
    }
    proof {
        assert(int_digits(sb).len() + frac_digits(sb).len() >= 1);
        assert(valid_decimal(sb));
    }
    let frac_len: usize = if dot == n {
        0
    } else {
        n - dot - 1
    };
    if frac_len > 18 {
        return Err(ParseDecimalError::OutOfRange);
    }
    // Second pass: accumulate the mantissa, most significant digit
    // first, stopping as soon as it can no longer fit.
    let mut mant: u64 = 0;
    let mut k: usize = start;
    let int_end: usize = if dot == n {
        n
    } else {
        dot
    };
    while k < int_end
        invariant
            start <= k <= int_end,
            n == sb.len(),
            bytes@ == sb,
            int_end == start + int_digits(sb).len(),
            int_digits(sb) == sb.subrange(start as int, int_end as int),
            all_digit_bytes(int_digits(sb)),
            0 <= mant <= i64::MAX,
            mant == digits_val(sb.subrange(start as int, k as int)),
            mant <= i64::MAX as u64,
        decreases int_end - k,
    {
        let c = bytes[k];
        proof {
            assert(int_digits(sb)[k - start] == sb[k as int]);
            assert(sb.subrange(start as int, k as int + 1) =~= sb.subrange(
                start as int,
                k as int,
            ).push(sb[k as int]));
            lemma_digits_val_push(sb.subrange(start as int, k as int), sb[k as int]);
            assert(sb.subrange(start as int, k as int + 1) =~= int_digits(sb).subrange(
                0,
                k as int + 1 - start,
            ));
            lemma_prefix_through_concat(int_digits(sb), frac_digits(sb), k as int + 1 - start);
            lemma_fundamental_div_mod(i64::MAX as int - (sb[k as int] - 48), 10);
            lemma_mod_bound(i64::MAX as int - (sb[k as int] - 48), 10);
        }
        let dv: u64 = (c - 48) as u64;
        if mant > (i64::MAX as u64 - dv) / 10 {
            return Err(ParseDecimalError::OutOfRange);
        }
        mant = mant * 10 + dv;
        k += 1;
    }
    proof {
        assert(sb.subrange(start as int, int_end as int) =~= int_digits(sb));
    }
    let mut den: i64 = 1;
    if dot < n {
        proof {
            assert(int_digits(sb).add(sb.subrange(dot + 1, dot + 1)) =~= int_digits(sb));
        }
        let mut f: usize = dot + 1;
        while f < n
            invariant
                dot + 1 <= f <= n,
                n == sb.len(),
                bytes@ == sb,
                start <= dot < n,
                frac_digits(sb) == sb.subrange(dot + 1, n as int),
                all_digit_bytes(frac_digits(sb)),
                all_digit_bytes(int_digits(sb)),
                0 <= mant <= i64::MAX,
                mant == digits_val(int_digits(sb).add(sb.subrange(dot + 1, f as int))),
                mant <= i64::MAX as u64,
                n - dot - 1 <= 18,
                den == pow10((f - dot - 1) as nat),
                1 <= den <= 1000000000000000000,
            decreases n - f,
        {
            let c = bytes[f];
            proof {
                assert(frac_digits(sb)[f - dot - 1] == sb[f as int]);
                assert(sb.subrange(dot + 1, f as int + 1) =~= sb.subrange(dot + 1, f as int).push(
                    sb[f as int],
                ));
                assert(int_digits(sb).add(sb.subrange(dot + 1, f as int + 1)) =~= int_digits(
                    sb,
                ).add(sb.subrange(dot + 1, f as int)).push(sb[f as int]));
                lemma_digits_val_push(int_digits(sb).add(sb.subrange(dot + 1, f as int)), sb[
                f as int]);
                lemma_prefix_of_frac(sb, dot as int, f as int + 1);
                lemma_pow10_mono((f - dot) as nat, 18);
                lemma_pow10_18();
                lemma_pow10_pos((f - dot - 1) as nat);
                lemma_fundamental_div_mod(i64::MAX as int - (sb[f as int] - 48), 10);
                lemma_mod_bound(i64::MAX as int - (sb[f as int] - 48), 10);
            }
            let dv: u64 = (c - 48) as u64;
            if mant > (i64::MAX as u64 - dv) / 10 {
                return Err(ParseDecimalError::OutOfRange);
            }
            mant = mant * 10 + dv;
            den = den * 10;
            f += 1;
        }
        proof {
            assert(sb.subrange(dot + 1, n as int) =~= frac_digits(sb));
        }
    } else {
        proof {
            assert(int_digits(sb).add(frac_digits(sb)) =~= int_digits(sb));
        }
    }
    proof {
        assert(mant == decimal_mantissa(sb));
        assert(den == pow10(frac_digits(sb).len()));
        assert(decimal_fits(sb));
    }
    let mant_signed: i64 = mant as i64;
    let num: i64 = if neg {
        -mant_signed
    } else {
        mant_signed
    };
    let v = Ratio::new(num, den);
    Ok(v)
}

/// From a scan that found the first decimal point at `dot`, the split
/// of the literal around that point.
proof fn lemma_dot_position(sb: Seq<u8>, start: int, dot: int)
    requires
        0 <= start <= dot < sb.len(),
        start == sign_len(sb),
        sb[dot] == 46,
        forall|t: int| start <= t < dot ==> sb[t] != 46,
    ensures
        first_dot(body_of(sb)) == dot - start,
        int_digits(sb) == sb.subrange(start, dot),
        frac_digits(sb) == sb.subrange(dot + 1, sb.len() as int),
{
    let b = body_of(sb);
    assert(forall|j: int| 0 <= j < dot - start ==> b[j] != 46);
    lemma_first_dot_from_scan(b, dot - start);
    assert(b[dot - start] == 46);
    assert(int_digits(sb) =~= sb.subrange(start, dot));
    assert(frac_digits(sb) =~= sb.subrange(dot + 1, sb.len() as int));
}

/// A prefix of the concatenated digits is worth no more than the
/// whole.
proof fn lemma_prefix_through_concat(a: Seq<u8>, b: Seq<u8>, k: int)
    requires
        all_digit_bytes(a),
        all_digit_bytes(b),
        0 <= k <= a.len(),
    ensures
        digits_val(a.subrange(0, k)) <= digits_val(a.add(b)),
{
    assert(all_digit_bytes(a.add(b)));
    assert(a.subrange(0, k) =~= a.add(b).subrange(0, k));
    lemma_digits_val_prefix_le(a.add(b), k);
}

/// A prefix of the mantissa that already covers the integer digits is
/// worth no more than the whole mantissa.
proof fn lemma_prefix_of_frac(sb: Seq<u8>, dot: int, f: int)
    requires
        all_digit_bytes(int_digits(sb)),
        all_digit_bytes(frac_digits(sb)),
        0 <= dot < sb.len(),
        frac_digits(sb) == sb.subrange(dot + 1, sb.len() as int),
        dot + 1 <= f <= sb.len(),
    ensures
        digits_val(int_digits(sb).add(sb.subrange(dot + 1, f))) <= digits_val(
            int_digits(sb).add(frac_digits(sb)),
        ),
{
    let a = int_digits(sb);
    let whole = a.add(frac_digits(sb));
    assert(all_digit_bytes(whole));
    assert(a.add(sb.subrange(dot + 1, f)) =~= whole.subrange(0, a.len() + f - dot - 1));
    lemma_digits_val_prefix_le(whole, a.len() + f - dot - 1);
}

impl crate::units::Diamond {
    /// Parses a table-relative distance from a decimal literal,
    /// rejecting malformed text with the error naming what is wrong.
    pub fn from_decimal_str(s: &str) -> (r: Result<crate::units::Diamond, ParseDecimalError>)
        ensures
            (r is Ok) <==> valid_decimal(s.spec_bytes()) && decimal_fits(s.spec_bytes()),
            r matches Ok(v) ==> v.wf() && rat_eqv(v@, decimal_rat(s.spec_bytes())),
            r matches Err(e) ==> Result::<Ratio, ParseDecimalError>::Err(e) == parse_err_witness(
                s.spec_bytes(),
            ),
    {
        match parse_decimal(s) {
            Ok(m) => Ok(crate::units::Diamond { magnitude: m }),
            Err(e) => Err(e),
        }
    }
}

impl crate::units::Inches {
    /// Parses a physical length from a decimal literal, rejecting
    /// malformed text with the error naming what is wrong.
    pub fn from_decimal_str(s: &str) -> (r: Result<crate::units::Inches, ParseDecimalError>)
        ensures
            (r is Ok) <==> valid_decimal(s.spec_bytes()) && decimal_fits(s.spec_bytes()),
            r matches Ok(v) ==> v.wf() && rat_eqv(v@, decimal_rat(s.spec_bytes())),
            r matches Err(e) ==> Result::<Ratio, ParseDecimalError>::Err(e) == parse_err_witness(
                s.spec_bytes(),
            ),
    {
        match parse_decimal(s) {
            Ok(m) => Ok(crate::units::Inches { magnitude: m }),
            Err(e) => Err(e),
        }
    }
}

/// The error a malformed or oversized literal is rejected with.
pub open spec fn parse_err_witness(sb: Seq<u8>) -> Result<Ratio, ParseDecimalError> {
    if body_of(sb).len() == 0 {
        Result::Err(ParseDecimalError::Empty)
    } else if !valid_decimal(sb) {
        Result::Err(ParseDecimalError::InvalidCharacter)
    } else {
        Result::Err(ParseDecimalError::OutOfRange)
    }
}

} // verus!
