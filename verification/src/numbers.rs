//! Decimal and hexadecimal token values: the mathematical value of a digit
//! string, executable parsers proved against it, and digit-string renderers
//! whose output parses back to the value it came from.

use vstd::prelude::*;
use vstd::arithmetic::div_mod::{lemma_div_decreases, lemma_fundamental_div_mod};
use crate::DecodeError;

verus! {

pub open spec fn is_digit(b: u8) -> bool {
    48 <= b && b <= 57
}

pub open spec fn digit_val(b: u8) -> nat {
    (b - 48) as nat
}

pub open spec fn is_hex_digit(b: u8) -> bool {
    is_digit(b) || (65 <= b && b <= 70) || (97 <= b && b <= 102)
}

pub open spec fn hex_digit_val(b: u8) -> nat {
    if is_digit(b) {
        (b - 48) as nat
    } else if 65 <= b && b <= 70 {
        (b - 55) as nat
    } else {
        (b - 87) as nat
    }
}

pub open spec fn all_digits(s: Seq<u8>) -> bool {
    forall|i: int| 0 <= i < s.len() ==> is_digit(#[trigger] s[i])
}

pub open spec fn all_hex_digits(s: Seq<u8>) -> bool {
    forall|i: int| 0 <= i < s.len() ==> is_hex_digit(#[trigger] s[i])
}

/// The value of a decimal digit string, most significant digit first.
pub open spec fn dec_val(s: Seq<u8>) -> nat
    decreases s.len(),
{
    if s.len() == 0 {
        0
    } else {
        dec_val(s.drop_last()) * 10 + digit_val(s.last())
    }
}

/// The value of a hexadecimal digit string, most significant digit first.
pub open spec fn hex_val(s: Seq<u8>) -> nat
    decreases s.len(),
{
    if s.len() == 0 {
        0
    } else {
        hex_val(s.drop_last()) * 16 + hex_digit_val(s.last())
    }
}

/// What parsing a whole token as a decimal `u64` yields.
pub open spec fn dec_u64_of(s: Seq<u8>) -> Result<u64, DecodeError> {
    if s.len() > 0 && all_digits(s) && dec_val(s) <= u64::MAX {
        Ok(dec_val(s) as u64)
    } else {
        Err(DecodeError::BadDecimal)
    }
}

pub open spec fn dec_u32_of(s: Seq<u8>) -> Result<u32, DecodeError> {
    if s.len() > 0 && all_digits(s) && dec_val(s) <= u32::MAX {
        Ok(dec_val(s) as u32)
    } else {
        Err(DecodeError::BadDecimal)
    }
}

pub open spec fn dec_u8_of(s: Seq<u8>) -> Result<u8, DecodeError> {
    if s.len() > 0 && all_digits(s) && dec_val(s) <= u8::MAX {
        Ok(dec_val(s) as u8)
    } else {
        Err(DecodeError::BadDecimal)
    }
}

/// What parsing a whole token as a hexadecimal `u64` yields.
pub open spec fn hex_u64_of(s: Seq<u8>) -> Result<u64, DecodeError> {
    if s.len() > 0 && all_hex_digits(s) && hex_val(s) <= u64::MAX {
        Ok(hex_val(s) as u64)
    } else {
        Err(DecodeError::BadHex)
    }
}

pub open spec fn hex_u16_of(s: Seq<u8>) -> Result<u16, DecodeError> {
    if s.len() > 0 && all_hex_digits(s) && hex_val(s) <= u16::MAX {
        Ok(hex_val(s) as u16)
    } else {
        Err(DecodeError::BadHex)
    }
}

/// A digit string's value only grows as more digits follow.
pub proof fn lemma_dec_val_prefix(s: Seq<u8>, i: int)
    requires
        0 <= i <= s.len(),
    ensures
        dec_val(s.take(i)) <= dec_val(s),
    decreases s.len() - i,
{
    if i == s.len() {
        assert(s.take(i) =~= s);
    } else {
        assert(s.take(i + 1).drop_last() =~= s.take(i));
        assert(s.take(i + 1).last() == s[i]);
        assert(dec_val(s.take(i)) <= dec_val(s.take(i)) * 10 + digit_val(s[i]));
        lemma_dec_val_prefix(s, i + 1);
    }
}

pub proof fn lemma_hex_val_prefix(s: Seq<u8>, i: int)
    requires
        0 <= i <= s.len(),
    ensures
        hex_val(s.take(i)) <= hex_val(s),
    decreases s.len() - i,
{
    if i == s.len() {
        assert(s.take(i) =~= s);
    } else {
        assert(s.take(i + 1).drop_last() =~= s.take(i));
        assert(s.take(i + 1).last() == s[i]);
        assert(hex_val(s.take(i)) <= hex_val(s.take(i)) * 16 + hex_digit_val(s[i]));
        lemma_hex_val_prefix(s, i + 1);
    }
}

/// Parse a whole token as a decimal `u64`, rejecting overflow.
pub fn parse_u64_dec(t: &[u8]) -> (r: Result<u64, DecodeError>)
    ensures
        r == dec_u64_of(t@),
{
    if t.len() == 0 {
        return Err(DecodeError::BadDecimal);
    }
    let mut acc: u64 = 0;
    let mut i: usize = 0;
    while i < t.len()
        invariant
            0 <= i <= t@.len(),
            all_digits(t@.take(i as int)),
            acc == dec_val(t@.take(i as int)),
        decreases t@.len() - i,
    {
        let b = t[i];
        if !(48 <= b && b <= 57) {
            assert(!is_digit(t@[i as int]));
            return Err(DecodeError::BadDecimal);
        }
        let d = (b - 48) as u64;
        proof {
            assert(t@.take(i + 1).drop_last() =~= t@.take(i as int));
            assert(t@.take(i + 1).last() == t@[i as int]);
        }
        if acc > (u64::MAX - d) / 10 {
            proof {
                lemma_fundamental_div_mod((u64::MAX - d) as int, 10);
                assert(acc * 10 + d > u64::MAX);
                assert(dec_val(t@.take(i + 1)) > u64::MAX);
                lemma_dec_val_prefix(t@, i + 1);
            }
            return Err(DecodeError::BadDecimal);
        }
        proof {
            lemma_fundamental_div_mod((u64::MAX - d) as int, 10);
            assert(acc * 10 + d <= u64::MAX);
        }
        acc = acc * 10 + d;
        i = i + 1;
    }
    proof {
        assert(t@.take(t@.len() as int) =~= t@);
    }
    Ok(acc)
}

/// Parse a whole token as a hexadecimal `u64` (either letter case), rejecting overflow.
pub fn parse_u64_hex(t: &[u8]) -> (r: Result<u64, DecodeError>)
    ensures
        r == hex_u64_of(t@),
{
    if t.len() == 0 {
        return Err(DecodeError::BadHex);
    }
    let mut acc: u64 = 0;
    let mut i: usize = 0;
    while i < t.len()
        invariant
            0 <= i <= t@.len(),
            all_hex_digits(t@.take(i as int)),
            acc == hex_val(t@.take(i as int)),
        decreases t@.len() - i,
    {
        let b = t[i];
        let d: u64;
        if 48 <= b && b <= 57 {
            d = (b - 48) as u64;
        } else if 65 <= b && b <= 70 {
            d = (b - 55) as u64;
        } else if 97 <= b && b <= 102 {
            d = (b - 87) as u64;
        } else {
            assert(!is_hex_digit(t@[i as int]));
            return Err(DecodeError::BadHex);
        }
        proof {
            assert(t@.take(i + 1).drop_last() =~= t@.take(i as int));
            assert(t@.take(i + 1).last() == t@[i as int]);
        }
        if acc > (u64::MAX - d) / 16 {
            proof {
                lemma_fundamental_div_mod((u64::MAX - d) as int, 16);
                assert(acc * 16 + d > u64::MAX);
                assert(hex_val(t@.take(i + 1)) > u64::MAX);
                lemma_hex_val_prefix(t@, i + 1);
            }
            return Err(DecodeError::BadHex);
        }
        proof {
            lemma_fundamental_div_mod((u64::MAX - d) as int, 16);
            assert(acc * 16 + d <= u64::MAX);
        }
        acc = acc * 16 + d;
        i = i + 1;
    }
    proof {
        assert(t@.take(t@.len() as int) =~= t@);
    }
    Ok(acc)
}

pub fn parse_u32_dec(t: &[u8]) -> (r: Result<u32, DecodeError>)
    ensures
        r == dec_u32_of(t@),
{
    match parse_u64_dec(t) {
        Ok(v) => {
            if v <= u32::MAX as u64 {
                Ok(v as u32)
            } else {
                Err(DecodeError::BadDecimal)
            }
        },
        Err(e) => Err(e),
    }
}

pub fn parse_u8_dec(t: &[u8]) -> (r: Result<u8, DecodeError>)
    ensures
        r == dec_u8_of(t@),
{
    match parse_u64_dec(t) {
        Ok(v) => {
            if v <= u8::MAX as u64 {
                Ok(v as u8)
            } else {
                Err(DecodeError::BadDecimal)
            }
        },
        Err(e) => Err(e),
    }
}

pub fn parse_u16_hex(t: &[u8]) -> (r: Result<u16, DecodeError>)
    ensures
        r == hex_u16_of(t@),
{
    match parse_u64_hex(t) {
        Ok(v) => {
            if v <= u16::MAX as u64 {
                Ok(v as u16)
            } else {
                Err(DecodeError::BadHex)
            }
        },
        Err(e) => Err(e),
    }
}

// ---------------------------------------------------------------------------
// Renderers: canonical digit strings for a value.
// ---------------------------------------------------------------------------

/// The canonical decimal rendering of a value: no sign, no leading zero
/// (a lone zero for the value zero).
pub open spec fn dec_digits(v: nat) -> Seq<u8>
    decreases v,
    via dec_digits_decreases
{
    if v < 10 {
        seq![(48 + v) as u8]
    } else {
        dec_digits(v / 10).push((48 + (v % 10)) as u8)
    }
}

#[via_fn]
proof fn dec_digits_decreases(v: nat) {
    if v >= 10 {
        lemma_div_decreases(v as int, 10);
    }
}

/// The byte of one hexadecimal digit, upper case.
pub open spec fn hex_digit_byte(d: nat) -> u8 {
    if d < 10 {
        (48 + d) as u8
    } else {
        (55 + d) as u8
    }
}

/// The canonical unpadded hexadecimal rendering of a value, upper case.
pub open spec fn hex_digits(v: nat) -> Seq<u8>
    decreases v,
    via hex_digits_decreases
{
    if v < 16 {
        seq![hex_digit_byte(v)]
    } else {
        hex_digits(v / 16).push(hex_digit_byte(v % 16))
    }
}

#[via_fn]
proof fn hex_digits_decreases(v: nat) {
    if v >= 16 {
        lemma_div_decreases(v as int, 16);
    }
}

/// The hexadecimal rendering of a value padded to a fixed width, upper case.
pub open spec fn hex_digits_w(v: nat, w: nat) -> Seq<u8>
    decreases w,
{
    if w == 0 {
        Seq::empty()
    } else {
        hex_digits_w(v / 16, (w - 1) as nat).push(hex_digit_byte(v % 16))
    }
}

pub open spec fn pow16(w: nat) -> nat
    decreases w,
{
    if w == 0 {
        1
    } else {
        16 * pow16((w - 1) as nat)
    }
}

pub proof fn lemma_dec_digits_val(v: nat)
    ensures
        dec_val(dec_digits(v)) == v,
        all_digits(dec_digits(v)),
        dec_digits(v).len() >= 1,
    decreases v,
{
    if v < 10 {
        let s = dec_digits(v);
        assert(s.drop_last() =~= Seq::<u8>::empty());
        assert(dec_val(Seq::<u8>::empty()) == 0);
        assert(dec_val(s) == digit_val(s.last()));
    } else {
        lemma_div_decreases(v as int, 10);
        lemma_dec_digits_val(v / 10);
        let s = dec_digits(v);
        assert(s.drop_last() =~= dec_digits(v / 10));
        assert(s.last() == (48 + (v % 10)) as u8);
        lemma_fundamental_div_mod(v as int, 10);
        assert(dec_val(s) == (v / 10) * 10 + v % 10);
        assert forall|i: int| 0 <= i < s.len() implies is_digit(#[trigger] s[i]) by {
            if i < s.len() - 1 {
                assert(s[i] == dec_digits(v / 10)[i]);
            }
        }
    }
}

pub proof fn lemma_hex_digit_byte(d: nat)
    requires
        d < 16,
    ensures
        is_hex_digit(hex_digit_byte(d)),
        hex_digit_val(hex_digit_byte(d)) == d,
{
}

pub proof fn lemma_hex_digits_val(v: nat)
    ensures
        hex_val(hex_digits(v)) == v,
        all_hex_digits(hex_digits(v)),
        hex_digits(v).len() >= 1,
    decreases v,
{
    if v < 16 {
        let s = hex_digits(v);
        assert(s.drop_last() =~= Seq::<u8>::empty());
        lemma_hex_digit_byte(v);
        assert(hex_val(Seq::<u8>::empty()) == 0);
        assert(hex_val(s) == hex_digit_val(s.last()));
    } else {
        lemma_div_decreases(v as int, 16);
        lemma_hex_digits_val(v / 16);
        let s = hex_digits(v);
        assert(s.drop_last() =~= hex_digits(v / 16));
        lemma_fundamental_div_mod(v as int, 16);
        lemma_hex_digit_byte(v % 16);
        assert(hex_val(s) == (v / 16) * 16 + v % 16);
        assert forall|i: int| 0 <= i < s.len() implies is_hex_digit(#[trigger] s[i]) by {
            if i < s.len() - 1 {
                assert(s[i] == hex_digits(v / 16)[i]);
            }
        }
    }
}

pub proof fn lemma_hex_digits_w_val(v: nat, w: nat)
    requires
        v < pow16(w),
    ensures
        hex_val(hex_digits_w(v, w)) == v,
        all_hex_digits(hex_digits_w(v, w)),
        hex_digits_w(v, w).len() == w,
    decreases w,
{
    if w == 0 {
        assert(v == 0);
    } else {
        lemma_fundamental_div_mod(v as int, 16);
        assert(v / 16 < pow16((w - 1) as nat)) by {
            if v / 16 >= pow16((w - 1) as nat) {
                assert(v >= 16 * (v / 16));
                assert(16 * (v / 16) >= 16 * pow16((w - 1) as nat)) by (nonlinear_arith)
                    requires
                        v / 16 >= pow16((w - 1) as nat),
                ;
            }
        }
        lemma_hex_digits_w_val(v / 16, (w - 1) as nat);
        let s = hex_digits_w(v, w);
        assert(s.drop_last() =~= hex_digits_w(v / 16, (w - 1) as nat));
        lemma_hex_digit_byte(v % 16);
        assert(hex_val(s) == (v / 16) * 16 + v % 16);
        assert forall|i: int| 0 <= i < s.len() implies is_hex_digit(#[trigger] s[i]) by {
            if i < s.len() - 1 {
                assert(s[i] == hex_digits_w(v / 16, (w - 1) as nat)[i]);
            }
        }
    }
}

/// A decimal digit string is a clean, colon-free token.
pub proof fn lemma_digits_clean(s: Seq<u8>)
    requires
        s.len() > 0,
        all_digits(s),
    ensures
        crate::scan::token_clean(s),
        crate::scan::colon_free(s),
{
    assert forall|k: int| 0 <= k < s.len() implies !crate::scan::is_space(#[trigger] s[k]) && s[k]
        != crate::scan::NL && s[k] != crate::scan::CR && s[k] != crate::scan::COLON by {
        assert(is_digit(s[k]));
    }
}

/// A hexadecimal digit string is a clean, colon-free token.
pub proof fn lemma_hex_clean(s: Seq<u8>)
    requires
        s.len() > 0,
        all_hex_digits(s),
    ensures
        crate::scan::token_clean(s),
        crate::scan::colon_free(s),
{
    assert forall|k: int| 0 <= k < s.len() implies !crate::scan::is_space(#[trigger] s[k]) && s[k]
        != crate::scan::NL && s[k] != crate::scan::CR && s[k] != crate::scan::COLON by {
        assert(is_hex_digit(s[k]));
    }
}

/// Render a value in decimal.
pub fn u64_to_dec(v: u64) -> (r: Vec<u8>)
    ensures
        r@ == dec_digits(v as nat),
    decreases v,
{
    if v < 10 {
        let mut r: Vec<u8> = Vec::new();
        r.push(48 + v as u8);
        proof {
            assert(r@ =~= dec_digits(v as nat));
        }
        r
    } else {
        proof {
            lemma_div_decreases(v as int, 10);
        }
        let mut r = u64_to_dec(v / 10);
        r.push(48 + (v % 10) as u8);
        proof {
            assert(r@ =~= dec_digits(v as nat));
        }
        r
    }
}

fn hex_digit_of(d: u8) -> (r: u8)
    requires
        d < 16,
    ensures
        r == hex_digit_byte(d as nat),
{
    if d < 10 {
        48 + d
    } else {
        55 + d
    }
}

/// Render a value in unpadded upper-case hexadecimal.
pub fn u64_to_hex(v: u64) -> (r: Vec<u8>)
    ensures
        r@ == hex_digits(v as nat),
    decreases v,
{
    if v < 16 {
        let mut r: Vec<u8> = Vec::new();
        r.push(hex_digit_of(v as u8));
        proof {
            assert(r@ =~= hex_digits(v as nat));
        }
        r
    } else {
        proof {
            lemma_div_decreases(v as int, 16);
        }
        let mut r = u64_to_hex(v / 16);
        r.push(hex_digit_of((v % 16) as u8));
        proof {
            assert(r@ =~= hex_digits(v as nat));
        }
        r
    }
}

/// Render a value in upper-case hexadecimal padded to a fixed width.
pub fn u64_to_hex_w(v: u64, w: usize) -> (r: Vec<u8>)
    ensures
        r@ == hex_digits_w(v as nat, w as nat),
    decreases w,
{
    if w == 0 {
        let r: Vec<u8> = Vec::new();
        proof {
            assert(r@ =~= hex_digits_w(v as nat, 0));
        }
        r
    } else {
        let mut r = u64_to_hex_w(v / 16, w - 1);
        r.push(hex_digit_of((v % 16) as u8));
        proof {
            assert((v / 16) as nat == (v as nat) / 16);
            assert((v % 16) as nat == (v as nat) % 16);
            assert(r@ =~= hex_digits_w(v as nat, w as nat));
        }
        r
    }
}

} // verus!
