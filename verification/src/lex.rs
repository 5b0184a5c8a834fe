//! Big-endian serialization of 64-bit keys, and the lexicographic order
//! on byte strings that callers compare the serialized keys under.

use vstd::prelude::*;

verus! {

/// Lexicographic "strictly less" on byte strings, compared as unsigned
/// bytes, starting at position `i`: the first differing position decides,
/// and a proper prefix sorts before every extension of it.
pub open spec fn lex_lt_from(s: Seq<u8>, t: Seq<u8>, i: int) -> bool
    decreases s.len() - i,
{
    if i >= s.len() || i >= t.len() {
        i >= s.len() && i < t.len()
    } else if s[i] != t[i] {
        s[i] < t[i]
    } else {
        lex_lt_from(s, t, i + 1)
    }
}

/// Lexicographic "strictly less" on whole byte strings.
pub open spec fn lex_lt(s: Seq<u8>, t: Seq<u8>) -> bool {
    lex_lt_from(s, t, 0)
}

/// The eight bytes of a 64-bit unsigned integer, most significant first.
pub open spec fn be_bytes_spec(x: u64) -> Seq<u8> {
    seq![
        (x >> 56) as u8,
        (x >> 48) as u8,
        (x >> 40) as u8,
        (x >> 32) as u8,
        (x >> 24) as u8,
        (x >> 16) as u8,
        (x >> 8) as u8,
        x as u8,
    ]
}

/// Serializes a 64-bit unsigned integer as eight bytes, most significant
/// byte first.
pub fn be_bytes(x: u64) -> (r: [u8; 8])
    ensures
        r@ == be_bytes_spec(x),
{
    let r: [u8; 8] = [
        (x >> 56) as u8,
        (x >> 48) as u8,
        (x >> 40) as u8,
        (x >> 32) as u8,
        (x >> 24) as u8,
        (x >> 16) as u8,
        (x >> 8) as u8,
        x as u8,
    ];
    proof {
        assert(r@ =~= be_bytes_spec(x));
    }
    r
}

/// Big-endian serialization is exactly what makes byte-wise comparison
/// agree with integer comparison: two keys compare the same way as their
/// byte strings, and equal byte strings come only from equal keys.
pub proof fn lemma_be_bytes_order(x: u64, y: u64)
    ensures
        lex_lt(be_bytes_spec(x), be_bytes_spec(y)) <==> x < y,
        be_bytes_spec(x) == be_bytes_spec(y) <==> x == y,
{
    let s = be_bytes_spec(x);
    let t = be_bytes_spec(y);
    reveal_with_fuel(lex_lt_from, 10);
    assert((x < y) <==> (((x >> 56) as u8) != ((y >> 56) as u8) && ((x >> 56) as u8) < ((y >> 56) as u8)
        || (((x >> 56) as u8) == ((y >> 56) as u8) && (((x >> 48) as u8) != ((y >> 48) as u8) && ((x >> 48) as u8) < ((y >> 48) as u8)
        || (((x >> 48) as u8) == ((y >> 48) as u8) && (((x >> 40) as u8) != ((y >> 40) as u8) && ((x >> 40) as u8) < ((y >> 40) as u8)
        || (((x >> 40) as u8) == ((y >> 40) as u8) && (((x >> 32) as u8) != ((y >> 32) as u8) && ((x >> 32) as u8) < ((y >> 32) as u8)
        || (((x >> 32) as u8) == ((y >> 32) as u8) && (((x >> 24) as u8) != ((y >> 24) as u8) && ((x >> 24) as u8) < ((y >> 24) as u8)
        || (((x >> 24) as u8) == ((y >> 24) as u8) && (((x >> 16) as u8) != ((y >> 16) as u8) && ((x >> 16) as u8) < ((y >> 16) as u8)
        || (((x >> 16) as u8) == ((y >> 16) as u8) && (((x >> 8) as u8) != ((y >> 8) as u8) && ((x >> 8) as u8) < ((y >> 8) as u8)
        || (((x >> 8) as u8) == ((y >> 8) as u8) && ((x as u8) != (y as u8) && (x as u8) < (y as u8))))))))))))))))) by (bit_vector);
    assert((x == y) <==> (((x >> 56) as u8) == ((y >> 56) as u8) && ((x >> 48) as u8) == ((y >> 48) as u8)
        && ((x >> 40) as u8) == ((y >> 40) as u8) && ((x >> 32) as u8) == ((y >> 32) as u8)
        && ((x >> 24) as u8) == ((y >> 24) as u8) && ((x >> 16) as u8) == ((y >> 16) as u8)
        && ((x >> 8) as u8) == ((y >> 8) as u8) && (x as u8) == (y as u8))) by (bit_vector);
    if x == y {
        assert(s =~= t);
    }
    if s == t {
        assert(s[0] == t[0] && s[1] == t[1] && s[2] == t[2] && s[3] == t[3] && s[4] == t[4]
            && s[5] == t[5] && s[6] == t[6] && s[7] == t[7]);
    }
}

} // verus!
