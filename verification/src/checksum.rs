//! The Fx hash of a transposition entry's fields, and why a change to any one
//! of them changes it.

use crate::score::ScoreTy;
use std::hash::Hasher;
use vstd::arithmetic::div_mod::{lemma_mod_multiples_vanish, lemma_mul_mod_noop_left, lemma_small_mod};
use vstd::prelude::*;

verus! {

/// The multiplier of the Fx hash where `usize` has 64 bits.
pub const FX_SEED_64: u64 = 0x517cc1b727220a95;

/// The multiplier of the Fx hash where `usize` has 32 bits.
pub const FX_SEED_32: u32 = 0x9e3779b9;

/// One step of the 64-bit Fx hash: rotate the state left by five bits, fold
/// the word in, and multiply by the seed modulo 2^64.
pub open spec fn fx_mix64(state: u64, word: u64) -> u64 {
    (((((state << 5) | (state >> 59)) ^ word) as int * FX_SEED_64 as int)
        % 0x1_0000_0000_0000_0000) as u64
}

/// One step of the 32-bit Fx hash.
pub open spec fn fx_mix32(state: u32, word: u32) -> u32 {
    (((((state << 5) | (state >> 27)) ^ word) as int * FX_SEED_32 as int) % 0x1_0000_0000) as u32
}

/// The Fx hash of a depth, a flag's code, a score and a position hash, written
/// in that order into a fresh hasher. A write is one step on the word written;
/// the score enters as an unsigned 16-bit word; where `usize` has 32 bits the
/// position hash enters as two words, the low half first.
#[verifier::opaque]
pub open spec fn fx_hash_of(depth: u8, code: u8, value: ScoreTy, board_hash: u64) -> u64 {
    if usize::BITS == 64 {
        fx_mix64(
            fx_mix64(fx_mix64(fx_mix64(0, depth as u64), code as u64), (value as u16) as u64),
            board_hash,
        )
    } else {
        fx_mix32(
            fx_mix32(
                fx_mix32(fx_mix32(fx_mix32(0, depth as u32), code as u32), (value as u16) as u32),
                board_hash as u32,
            ),
            (board_hash >> 32) as u32,
        ) as u64
    }
}

/// Runs `rustc_hash::FxHasher` over the four values: `write_u8` twice,
/// `write_i16`, `write_u64`, then `finish`, on a hasher made by `default`.
/// The hasher starts at zero, every write folds its word into the state as
/// [`fx_hash_of`] says, and `finish` hands the state out.
#[verifier::external_body]
pub(crate) fn fx_hash_fields(depth: u8, code: u8, value: ScoreTy, board_hash: u64) -> (sum: u64)
    ensures
        sum == fx_hash_of(depth, code, value, board_hash),
{
    let mut hasher = rustc_hash::FxHasher::default();
    hasher.write_u8(depth);
    hasher.write_u8(code);
    hasher.write_i16(value);
    hasher.write_u64(board_hash);
    hasher.finish()
}


/// The inverse of [`FX_SEED_64`] modulo 2^64.
pub const FX_UNSEED_64: u64 = 0x2040003d780970bd;

/// The inverse of [`FX_SEED_32`] modulo 2^32.
pub const FX_UNSEED_32: u32 = 0x144cbc89;

proof fn lemma_seed64_cancels(a: int)
    requires
        0 <= a < 0x1_0000_0000_0000_0000,
    ensures
        ((a * FX_SEED_64 as int) % 0x1_0000_0000_0000_0000) * (FX_UNSEED_64 as int)
            % 0x1_0000_0000_0000_0000 == a,
{
    let m = 0x1_0000_0000_0000_0000int;
    let k = FX_SEED_64 as int;
    let u = FX_UNSEED_64 as int;
    let t = 739706870995725965int;
    lemma_mul_mod_noop_left(a * k, u, m);
    assert(k * u == 1 + t * m);
    assert((a * k) * u == m * (a * t) + a) by (nonlinear_arith)
        requires
            k * u == 1 + t * m,
    ;
    lemma_mod_multiples_vanish(a * t, a, m);
    lemma_small_mod(a as nat, m as nat);
}

proof fn lemma_seed32_cancels(a: int)
    requires
        0 <= a < 0x1_0000_0000,
    ensures
        ((a * FX_SEED_32 as int) % 0x1_0000_0000) * (FX_UNSEED_32 as int) % 0x1_0000_0000 == a,
{
    let m = 0x1_0000_0000int;
    let k = FX_SEED_32 as int;
    let u = FX_UNSEED_32 as int;
    let t = 210485888int;
    lemma_mul_mod_noop_left(a * k, u, m);
    assert(k * u == 1 + t * m);
    assert((a * k) * u == m * (a * t) + a) by (nonlinear_arith)
        requires
            k * u == 1 + t * m,
    ;
    lemma_mod_multiples_vanish(a * t, a, m);
    lemma_small_mod(a as nat, m as nat);
}

/// Two 64-bit steps that end in the same state started from the same state
/// exactly if they folded in the same word.
pub proof fn lemma_mix64_one_to_one(s1: u64, w1: u64, s2: u64, w2: u64)
    requires
        fx_mix64(s1, w1) == fx_mix64(s2, w2),
    ensures
        (s1 == s2) == (w1 == w2),
{
    let a1 = ((s1 << 5) | (s1 >> 59)) ^ w1;
    let a2 = ((s2 << 5) | (s2 >> 59)) ^ w2;
    lemma_seed64_cancels(a1 as int);
    lemma_seed64_cancels(a2 as int);
    assert(a1 == a2);
    assert(((s1 << 5) | (s1 >> 59)) ^ w1 == ((s2 << 5) | (s2 >> 59)) ^ w2 ==> ((s1 == s2) == (w1
        == w2))) by (bit_vector);
}

/// Two 32-bit steps that end in the same state started from the same state
/// exactly if they folded in the same word.
pub proof fn lemma_mix32_one_to_one(s1: u32, w1: u32, s2: u32, w2: u32)
    requires
        fx_mix32(s1, w1) == fx_mix32(s2, w2),
    ensures
        (s1 == s2) == (w1 == w2),
{
    let a1 = ((s1 << 5) | (s1 >> 27)) ^ w1;
    let a2 = ((s2 << 5) | (s2 >> 27)) ^ w2;
    lemma_seed32_cancels(a1 as int);
    lemma_seed32_cancels(a2 as int);
    assert(a1 == a2);
    assert(((s1 << 5) | (s1 >> 27)) ^ w1 == ((s2 << 5) | (s2 >> 27)) ^ w2 ==> ((s1 == s2) == (w1
        == w2))) by (bit_vector);
}

/// Of a depth, a flag's code and a score, at most one differs between the two
/// triples.
pub open spec fn at_most_one_differs(
    d1: u8,
    c1: u8,
    v1: ScoreTy,
    d2: u8,
    c2: u8,
    v2: ScoreTy,
) -> bool {
    ||| (d1 == d2 && c1 == c2)
    ||| (d1 == d2 && v1 == v2)
    ||| (c1 == c2 && v1 == v2)
}

/// The Fx hash tells apart any two field triples for one position that differ
/// in a single field: if the hashes agree, so do the triples.
pub proof fn lemma_fx_hash_tells_apart(
    d1: u8,
    c1: u8,
    v1: ScoreTy,
    d2: u8,
    c2: u8,
    v2: ScoreTy,
    board_hash: u64,
)
    requires
        at_most_one_differs(d1, c1, v1, d2, c2, v2),
        fx_hash_of(d1, c1, v1, board_hash) == fx_hash_of(d2, c2, v2, board_hash),
    ensures
        d1 == d2,
        c1 == c2,
        v1 == v2,
{
    reveal(fx_hash_of);
    assert(v1 == v2 <==> (v1 as u16) == (v2 as u16)) by (bit_vector);
    if usize::BITS == 64 {
        let a1 = fx_mix64(0, d1 as u64);
        let a2 = fx_mix64(0, d2 as u64);
        let b1 = fx_mix64(a1, c1 as u64);
        let b2 = fx_mix64(a2, c2 as u64);
        let e1 = fx_mix64(b1, (v1 as u16) as u64);
        let e2 = fx_mix64(b2, (v2 as u16) as u64);
        lemma_mix64_one_to_one(e1, board_hash, e2, board_hash);
        lemma_mix64_one_to_one(b1, (v1 as u16) as u64, b2, (v2 as u16) as u64);
        if b1 == b2 {
            lemma_mix64_one_to_one(a1, c1 as u64, a2, c2 as u64);
            if a1 == a2 {
                lemma_mix64_one_to_one(0, d1 as u64, 0, d2 as u64);
            }
        }
    } else {
        let a1 = fx_mix32(0, d1 as u32);
        let a2 = fx_mix32(0, d2 as u32);
        let b1 = fx_mix32(a1, c1 as u32);
        let b2 = fx_mix32(a2, c2 as u32);
        let e1 = fx_mix32(b1, (v1 as u16) as u32);
        let e2 = fx_mix32(b2, (v2 as u16) as u32);
        let g1 = fx_mix32(e1, board_hash as u32);
        let g2 = fx_mix32(e2, board_hash as u32);
        lemma_mix32_one_to_one(g1, (board_hash >> 32) as u32, g2, (board_hash >> 32) as u32);
        lemma_mix32_one_to_one(e1, board_hash as u32, e2, board_hash as u32);
        lemma_mix32_one_to_one(b1, (v1 as u16) as u32, b2, (v2 as u16) as u32);
        if b1 == b2 {
            lemma_mix32_one_to_one(a1, c1 as u32, a2, c2 as u32);
            if a1 == a2 {
                lemma_mix32_one_to_one(0, d1 as u32, 0, d2 as u32);
            }
        }
    }
}

} // verus!
