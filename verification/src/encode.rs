//! The order-preserving encoder for IEEE-754 double-precision values.
//!
//! A double enters the library as its raw 64-bit pattern (the result of
//! `f64::to_bits`): bit 63 is the sign, bits 62..=52 the biased exponent,
//! bits 51..=0 the fraction.  The pattern of a negative value has every
//! bit complemented; the pattern of a non-negative value has only its
//! sign bit flipped.  The resulting 64-bit key, written out as big-endian
//! bytes, sorts byte-wise exactly as the original values sort numerically.

use crate::lex::{be_bytes, be_bytes_spec, lex_lt, lex_lt_from};
use vstd::prelude::*;

verus! {

/// Mask selecting the sign bit of a double's bit pattern.
pub const SIGN_MASK: u64 = 0x8000_0000_0000_0000;

/// The sign bit of a double's bit pattern: 1 for a negative sign.
pub open spec fn sign_bit(bits: u64) -> u64 {
    bits >> 63
}

/// True when the exponent field is not all ones, so the pattern stands
/// for a finite number rather than an infinity or a NaN.
pub open spec fn is_finite(bits: u64) -> bool {
    (bits >> 52) & 0x7FF != 0x7FF
}

/// True when the pattern stands for zero, of either sign.
pub open spec fn is_zero(bits: u64) -> bool {
    bits & 0x7FFF_FFFF_FFFF_FFFF == 0
}

/// Numeric "strictly less" on the finite doubles behind two bit patterns.
/// Non-negative doubles order as their patterns do; negative doubles
/// order opposite to their patterns, because a larger magnitude stands
/// for a smaller value; every negative value lies below every
/// non-negative one, except that the two zeros are numerically equal.
pub open spec fn float_lt(a: u64, b: u64) -> bool {
    if sign_bit(a) == 1 && sign_bit(b) == 1 {
        a > b
    } else if sign_bit(a) == 0 && sign_bit(b) == 0 {
        a < b
    } else if sign_bit(a) == 1 && sign_bit(b) == 0 {
        !(is_zero(a) && is_zero(b))
    } else {
        false
    }
}

/// Numeric equality on the finite doubles behind two bit patterns: the
/// same pattern, or the two zeros.
pub open spec fn float_eq(a: u64, b: u64) -> bool {
    a == b || (is_zero(a) && is_zero(b))
}

/// The order key of a double's bit pattern: a negative value has every
/// bit complemented, a non-negative value only its sign bit flipped.
pub open spec fn order_key_spec(bits: u64) -> u64 {
    if sign_bit(bits) == 1 {
        !bits
    } else {
        bits ^ SIGN_MASK
    }
}

/// The eight-byte encoding of a double's bit pattern: its order key,
/// most significant byte first.
pub open spec fn encode_spec(bits: u64) -> Seq<u8> {
    be_bytes_spec(order_key_spec(bits))
}

/// Computes the 64-bit order key of a double's bit pattern.
pub fn order_key(bits: u64) -> (key: u64)
    ensures
        key == order_key_spec(bits),
{
    if bits >> 63 == 1 {
        !bits
    } else {
        bits ^ SIGN_MASK
    }
}

/// Encodes a double's bit pattern as exactly eight bytes whose
/// lexicographic order, as unsigned bytes, is the numeric order of the
/// encoded values.
pub fn encode_bits(bits: u64) -> (r: [u8; 8])
    ensures
        r@ == encode_spec(bits),
        r@.len() == 8,
{
    let key = order_key(bits);
    be_bytes(key)
}

/// The nine bytes of the split-field layout before sign handling: the
/// 11-bit exponent field as two big-endian bytes, then the 52-bit
/// fraction field as seven.
pub open spec fn split_field_raw_spec(bits: u64) -> Seq<u8> {
    seq![
        ((bits >> 60) & 0x7) as u8,
        (bits >> 52) as u8,
        ((bits >> 48) & 0xF) as u8,
        (bits >> 40) as u8,
        (bits >> 32) as u8,
        (bits >> 24) as u8,
        (bits >> 16) as u8,
        (bits >> 8) as u8,
        bits as u8,
    ]
}

/// The split-field encoding: the raw nine bytes, each complemented when
/// the sign bit is set.
pub open spec fn split_field_spec(bits: u64) -> Seq<u8> {
    if sign_bit(bits) == 1 {
        split_field_raw_spec(bits).map(|i: int, b: u8| !b)
    } else {
        split_field_raw_spec(bits)
    }
}

/// Superseded split-field variant, kept for reference only: it packs the
/// exponent as two bytes and the fraction as seven, complementing all
/// nine bytes for a negative sign.  Unlike [`encode_bits`] it sets no
/// distinguishing bit for a non-negative sign, so negative encodings sort
/// lexicographically *above* non-negative ones; use [`encode_bits`] for
/// order-preserving keys.
pub fn split_field_bytes(bits: u64) -> (r: [u8; 9])
    ensures
        r@ == split_field_spec(bits),
{
    let b0: u8 = ((bits >> 60) & 0x7) as u8;
    let b1: u8 = (bits >> 52) as u8;
    let b2: u8 = ((bits >> 48) & 0xF) as u8;
    let b3: u8 = (bits >> 40) as u8;
    let b4: u8 = (bits >> 32) as u8;
    let b5: u8 = (bits >> 24) as u8;
    let b6: u8 = (bits >> 16) as u8;
    let b7: u8 = (bits >> 8) as u8;
    let b8: u8 = bits as u8;
    if bits >> 63 == 1 {
        let r: [u8; 9] = [!b0, !b1, !b2, !b3, !b4, !b5, !b6, !b7, !b8];
        proof {
            assert(r@ =~= split_field_spec(bits));
        }
        r
    } else {
        let r: [u8; 9] = [b0, b1, b2, b3, b4, b5, b6, b7, b8];
        proof {
            assert(r@ =~= split_field_spec(bits));
        }
        r
    }
}

/// Complementing two bytes reverses their order and keeps equality.
proof fn lemma_complement_reverses(u: u8, v: u8)
    by (bit_vector)
    ensures
        (!u < !v) <==> (v < u),
        (!u == !v) <==> (u == v),
{
}

/// The raw split-field bytes compare exactly as the magnitudes, the
/// patterns without their sign bits, compare.
proof fn lemma_split_raw_order(x: u64, y: u64)
    ensures
        lex_lt(split_field_raw_spec(x), split_field_raw_spec(y)) <==> (x & 0x7FFF_FFFF_FFFF_FFFF)
            < (y & 0x7FFF_FFFF_FFFF_FFFF),
        (split_field_raw_spec(x) == split_field_raw_spec(y)) <==> (x & 0x7FFF_FFFF_FFFF_FFFF) == (
        y & 0x7FFF_FFFF_FFFF_FFFF),
{
    let s = split_field_raw_spec(x);
    let t = split_field_raw_spec(y);
    reveal_with_fuel(lex_lt_from, 11);
    assert(((x & 0x7FFF_FFFF_FFFF_FFFF) < (y & 0x7FFF_FFFF_FFFF_FFFF)) <==> ((((x >> 60) & 0x7) as u8) != (((y >> 60) & 0x7) as u8) && (((x >> 60) & 0x7) as u8) < (((y >> 60) & 0x7) as u8)
        || ((((x >> 60) & 0x7) as u8) == (((y >> 60) & 0x7) as u8) && (((x >> 52) as u8) != ((y >> 52) as u8) && ((x >> 52) as u8) < ((y >> 52) as u8)
        || (((x >> 52) as u8) == ((y >> 52) as u8) && ((((x >> 48) & 0xF) as u8) != (((y >> 48) & 0xF) as u8) && (((x >> 48) & 0xF) as u8) < (((y >> 48) & 0xF) as u8)
        || ((((x >> 48) & 0xF) as u8) == (((y >> 48) & 0xF) as u8) && (((x >> 40) as u8) != ((y >> 40) as u8) && ((x >> 40) as u8) < ((y >> 40) as u8)
        || (((x >> 40) as u8) == ((y >> 40) as u8) && (((x >> 32) as u8) != ((y >> 32) as u8) && ((x >> 32) as u8) < ((y >> 32) as u8)
        || (((x >> 32) as u8) == ((y >> 32) as u8) && (((x >> 24) as u8) != ((y >> 24) as u8) && ((x >> 24) as u8) < ((y >> 24) as u8)
        || (((x >> 24) as u8) == ((y >> 24) as u8) && (((x >> 16) as u8) != ((y >> 16) as u8) && ((x >> 16) as u8) < ((y >> 16) as u8)
        || (((x >> 16) as u8) == ((y >> 16) as u8) && (((x >> 8) as u8) != ((y >> 8) as u8) && ((x >> 8) as u8) < ((y >> 8) as u8)
        || (((x >> 8) as u8) == ((y >> 8) as u8) && ((x as u8) != (y as u8) && (x as u8) < (y as u8))))))))))))))))))) by (bit_vector);
    assert(((x & 0x7FFF_FFFF_FFFF_FFFF) == (y & 0x7FFF_FFFF_FFFF_FFFF)) <==> ((((x >> 60) & 0x7) as u8) == (((y >> 60) & 0x7) as u8)
        && ((x >> 52) as u8) == ((y >> 52) as u8) && (((x >> 48) & 0xF) as u8) == (((y >> 48) & 0xF) as u8)
        && ((x >> 40) as u8) == ((y >> 40) as u8) && ((x >> 32) as u8) == ((y >> 32) as u8)
        && ((x >> 24) as u8) == ((y >> 24) as u8) && ((x >> 16) as u8) == ((y >> 16) as u8)
        && ((x >> 8) as u8) == ((y >> 8) as u8) && (x as u8) == (y as u8))) by (bit_vector);
    if x & 0x7FFF_FFFF_FFFF_FFFF == y & 0x7FFF_FFFF_FFFF_FFFF {
        assert(s =~= t);
    }
    if s == t {
        assert(s[0] == t[0] && s[1] == t[1] && s[2] == t[2] && s[3] == t[3] && s[4] == t[4]
            && s[5] == t[5] && s[6] == t[6] && s[7] == t[7] && s[8] == t[8]);
    }
}

/// Within one sign the split-field layout still preserves numeric
/// order: for finite patterns whose sign bits agree, numeric order of
/// the values is exactly lexicographic order of their split-field
/// bytes, and numeric equality is exactly equality of the bytes.
pub proof fn lemma_split_field_same_sign_order(a: u64, b: u64)
    requires
        is_finite(a),
        is_finite(b),
        sign_bit(a) == sign_bit(b),
    ensures
        float_lt(a, b) <==> lex_lt(split_field_spec(a), split_field_spec(b)),
        float_eq(a, b) <==> (split_field_spec(a) == split_field_spec(b)),
{
    let ra = split_field_raw_spec(a);
    let rb = split_field_raw_spec(b);
    assert(a >> 63 == 0 || a >> 63 == 1) by (bit_vector);
    assert(b >> 63 == 0 || b >> 63 == 1) by (bit_vector);
    if sign_bit(a) == 0 {
        lemma_split_raw_order(a, b);
        assert(((a < b) <==> ((a & 0x7FFF_FFFF_FFFF_FFFF) < (b & 0x7FFF_FFFF_FFFF_FFFF)))
            && ((a == b) <==> ((a & 0x7FFF_FFFF_FFFF_FFFF) == (b & 0x7FFF_FFFF_FFFF_FFFF)))
            && (a & 0x7FFF_FFFF_FFFF_FFFF == 0 && b & 0x7FFF_FFFF_FFFF_FFFF == 0 ==> a == b))
            by (bit_vector)
            requires
                a >> 63 == 0,
                b >> 63 == 0,
        ;
    } else {
        let s = split_field_spec(a);
        let t = split_field_spec(b);
        assert(s[0] == !ra[0] && s[1] == !ra[1] && s[2] == !ra[2] && s[3] == !ra[3] && s[4]
            == !ra[4] && s[5] == !ra[5] && s[6] == !ra[6] && s[7] == !ra[7] && s[8] == !ra[8]);
        assert(t[0] == !rb[0] && t[1] == !rb[1] && t[2] == !rb[2] && t[3] == !rb[3] && t[4]
            == !rb[4] && t[5] == !rb[5] && t[6] == !rb[6] && t[7] == !rb[7] && t[8] == !rb[8]);
        lemma_complement_reverses(ra[0], rb[0]);
        lemma_complement_reverses(ra[1], rb[1]);
        lemma_complement_reverses(ra[2], rb[2]);
        lemma_complement_reverses(ra[3], rb[3]);
        lemma_complement_reverses(ra[4], rb[4]);
        lemma_complement_reverses(ra[5], rb[5]);
        lemma_complement_reverses(ra[6], rb[6]);
        lemma_complement_reverses(ra[7], rb[7]);
        lemma_complement_reverses(ra[8], rb[8]);
        reveal_with_fuel(lex_lt_from, 11);
        lemma_split_raw_order(b, a);
        assert(lex_lt(s, t) <==> lex_lt(rb, ra));
        if s == t {
            assert(rb =~= ra);
        }
        if rb == ra {
            assert(s =~= t);
        }
        assert(((a > b) <==> ((b & 0x7FFF_FFFF_FFFF_FFFF) < (a & 0x7FFF_FFFF_FFFF_FFFF)))
            && ((a == b) <==> ((b & 0x7FFF_FFFF_FFFF_FFFF) == (a & 0x7FFF_FFFF_FFFF_FFFF)))
            && (a & 0x7FFF_FFFF_FFFF_FFFF == 0 && b & 0x7FFF_FFFF_FFFF_FFFF == 0 ==> a == b))
            by (bit_vector)
            requires
                a >> 63 == 1,
                b >> 63 == 1,
        ;
    }
}

/// The defect that superseded the split-field layout: across signs its
/// order is inverted, the bytes of any negative-sign pattern sorting
/// above the bytes of any non-negative one.
pub proof fn lemma_split_field_sign_inversion(a: u64, b: u64)
    requires
        sign_bit(a) == 1,
        sign_bit(b) == 0,
    ensures
        lex_lt(split_field_spec(b), split_field_spec(a)),
{
    let s = split_field_spec(b);
    let t = split_field_spec(a);
    assert(t[0] == !split_field_raw_spec(a)[0]);
    assert((((b >> 60) & 0x7) as u8) < !(((a >> 60) & 0x7) as u8)) by (bit_vector);
    reveal_with_fuel(lex_lt_from, 2);
    assert(lex_lt_from(s, t, 0));
}

/// The order key alone already preserves numeric order: for finite
/// patterns that are not the two distinct zeros, numeric comparison and
/// unsigned comparison of the keys agree exactly.
pub proof fn lemma_order_key_preserves_order(a: u64, b: u64)
    requires
        is_finite(a),
        is_finite(b),
        !(is_zero(a) && is_zero(b) && a != b),
    ensures
        float_lt(a, b) <==> order_key_spec(a) < order_key_spec(b),
        float_eq(a, b) <==> order_key_spec(a) == order_key_spec(b),
{
    assert((if a >> 63 == 1 && b >> 63 == 1 {
        a > b
    } else if a >> 63 == 0 && b >> 63 == 0 {
        a < b
    } else if a >> 63 == 1 && b >> 63 == 0 {
        !(a & 0x7FFF_FFFF_FFFF_FFFF == 0 && b & 0x7FFF_FFFF_FFFF_FFFF == 0)
    } else {
        false
    }) <==> ((if a >> 63 == 1 {
        !a
    } else {
        a ^ 0x8000_0000_0000_0000
    }) < (if b >> 63 == 1 {
        !b
    } else {
        b ^ 0x8000_0000_0000_0000
    }))) by (bit_vector)
        requires
            !(a & 0x7FFF_FFFF_FFFF_FFFF == 0 && b & 0x7FFF_FFFF_FFFF_FFFF == 0 && a != b),
    ;
    assert((a == b || (a & 0x7FFF_FFFF_FFFF_FFFF == 0 && b & 0x7FFF_FFFF_FFFF_FFFF == 0))
        <==> ((if a >> 63 == 1 {
        !a
    } else {
        a ^ 0x8000_0000_0000_0000
    }) == (if b >> 63 == 1 {
        !b
    } else {
        b ^ 0x8000_0000_0000_0000
    }))) by (bit_vector)
        requires
            !(a & 0x7FFF_FFFF_FFFF_FFFF == 0 && b & 0x7FFF_FFFF_FFFF_FFFF == 0 && a != b),
    ;
}

/// Order preservation, the property the encoding exists for: for finite
/// patterns that are not the two distinct zeros, numeric order of the
/// values is exactly lexicographic order of their encodings, and numeric
/// equality is exactly equality of the encodings.
pub proof fn lemma_order_preserving(a: u64, b: u64)
    requires
        is_finite(a),
        is_finite(b),
        !(is_zero(a) && is_zero(b) && a != b),
    ensures
        float_lt(a, b) <==> lex_lt(encode_spec(a), encode_spec(b)),
        float_eq(a, b) <==> encode_spec(a) == encode_spec(b),
{
    lemma_order_key_preserves_order(a, b);
    crate::lex::lemma_be_bytes_order(order_key_spec(a), order_key_spec(b));
}

/// Sign separation: the encoding of any pattern with a negative sign
/// lies lexicographically below the encoding of any pattern with a
/// non-negative sign, whatever the exponent and fraction hold.
pub proof fn lemma_sign_separation(a: u64, b: u64)
    requires
        sign_bit(a) == 1,
        sign_bit(b) == 0,
    ensures
        lex_lt(encode_spec(a), encode_spec(b)),
{
    assert((if a >> 63 == 1 {
        !a
    } else {
        a ^ 0x8000_0000_0000_0000
    }) < (if b >> 63 == 1 {
        !b
    } else {
        b ^ 0x8000_0000_0000_0000
    })) by (bit_vector)
        requires
            a >> 63 == 1,
            b >> 63 == 0,
    ;
    crate::lex::lemma_be_bytes_order(order_key_spec(a), order_key_spec(b));
}

/// The encoding keeps the two zeros apart, and places the negative zero
/// first: the pattern of `-0.0` is the sign mask alone, the pattern of
/// `0.0` is all zeros, and their keys sit immediately on either side of
/// the midpoint of the unsigned 64-bit range.
pub proof fn lemma_signed_zero()
    ensures
        order_key_spec(SIGN_MASK) == 0x7FFF_FFFF_FFFF_FFFF,
        order_key_spec(0) == 0x8000_0000_0000_0000,
        lex_lt(encode_spec(SIGN_MASK), encode_spec(0)),
        encode_spec(SIGN_MASK) != encode_spec(0),
{
    assert(0x8000_0000_0000_0000u64 >> 63 == 1) by (bit_vector);
    assert(0u64 >> 63 == 0) by (bit_vector);
    assert(!0x8000_0000_0000_0000u64 == 0x7FFF_FFFF_FFFF_FFFFu64) by (bit_vector);
    assert(0u64 ^ 0x8000_0000_0000_0000u64 == 0x8000_0000_0000_0000u64) by (bit_vector);
    crate::lex::lemma_be_bytes_order(order_key_spec(SIGN_MASK), order_key_spec(0));
}

/// Determinism: the encoding is a function of the bit pattern alone, so
/// any two byte strings that satisfy the encoder's contract for the same
/// pattern are the same string.
pub proof fn lemma_encode_deterministic(bits: u64, r1: Seq<u8>, r2: Seq<u8>)
    requires
        r1 == encode_spec(bits),
        r2 == encode_spec(bits),
    ensures
        r1 == r2,
{
}

/// Fixed width: every pattern encodes to exactly eight bytes.
pub proof fn lemma_fixed_width(bits: u64)
    ensures
        encode_spec(bits).len() == 8,
{
}

} // verus!
