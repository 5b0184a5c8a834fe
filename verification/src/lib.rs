//! Order-preserving byte encoding for IEEE-754 double-precision values.
//!
//! A 64-bit float is handed to the library as its raw bit pattern (the
//! result of `f64::to_bits`).  The encoder turns that pattern into a key
//! of exactly eight bytes such that lexicographic comparison of the keys,
//! as unsigned big-endian byte strings, agrees with numeric comparison of
//! the original finite values.

pub mod encode;
pub mod lex;
