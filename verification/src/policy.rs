//! The rules of validity for a signature.
use crate::bytes::{le256, lemma_le_bounds, load_words, words256};
use crate::edwards::sign_weight;
use crate::math::gf::{lemma_p, p};
use vstd::prelude::*;

verus! {

/// Which rules decide whether a signature is valid.
#[derive(Clone, Copy, Debug, PartialEq, Eq, Structural)]
pub enum VerifyPolicy {
    /// The cofactored equation, on any encodings of points.
    Zip215,
    /// The cofactorless equation, by comparison with the encoding of `R`, with
    /// the keys and the encodings that legacy verifiers exclude.
    Dalek,
}

impl Default for VerifyPolicy {
    fn default() -> (r: Self)
        ensures
            r == VerifyPolicy::Zip215,
    {
        VerifyPolicy::Zip215
    }
}

/// The encodings of `R` that legacy verifiers exclude, as little-endian
/// integers.
pub open spec fn is_excluded(v: int) -> bool {
    ||| v == 0x0000000000000000000000000000000000000000000000000000000000000000int
    ||| v == 0x0000000000000000000000000000000000000000000000000000000000000001int
    ||| v == 0x05fc536d880238b13933c6d305acdfd5f098eff289f4c345b027b2c28f95e826int
    ||| v == 0x7a03ac9277fdc74ec6cc392cfa53202a0f67100d760b3cba4fd84d3d706a17c7int
    ||| v == 0x85fc536d880238b13933c6d305acdfd5f098eff289f4c345b027b2c28f95e813int
    ||| v == 0xfa03ac9277fdc74ec6cc392cfa53202a0f67100d760b3cba4fd84d3d706a17b4int
    ||| v == 0x7fffffffffffffffffffffffffffffffffffffffffffffffffffffffffffffecint
    ||| v == 0x7fffffffffffffffffffffffffffffffffffffffffffffffffffffffffffffedint
    ||| v == 0x7fffffffffffffffffffffffffffffffffffffffffffffffffffffffffffffeeint
    ||| v == 0xffffffffffffffffffffffffffffffffffffffffffffffffffffffffffffffd9int
    ||| v == 0xffffffffffffffffffffffffffffffffffffffffffffffffffffffffffffffdaint
}

/// The `y` coordinate of an encoding is reduced.
pub open spec fn has_canonical_y(bytes: Seq<u8>) -> bool {
    le256(bytes) % sign_weight() < p()
}

/// Whether the `y` coordinate of an encoding is reduced.
pub fn r_encoding_has_canonical_y(bytes: &[u8; 32]) -> (r: bool)
    ensures
        r == has_canonical_y(bytes@),
{
    let w = load_words(bytes);
    proof {
        lemma_p();
        lemma_le_bounds(bytes@);
    }
    let top: u64 = w[3] % 0x8000_0000_0000_0000;
    assert(le256(bytes@) % sign_weight() == words256(w[0] as int, w[1] as int, w[2] as int, top as int));
    !(top == 0x7fff_ffff_ffff_ffff && w[2] == 0xffff_ffff_ffff_ffff && w[1] == 0xffff_ffff_ffff_ffff
        && w[0] >= 0xffff_ffff_ffff_ffed)
}

/// Whether four words are given ones.
fn is_words(w: &[u64; 4], w0: u64, w1: u64, w2: u64, w3: u64) -> (r: bool)
    ensures
        r == (words256(w[0] as int, w[1] as int, w[2] as int, w[3] as int) == words256(
            w0 as int,
            w1 as int,
            w2 as int,
            w3 as int,
        )),
{
    w[0] == w0 && w[1] == w1 && w[2] == w2 && w[3] == w3
}

/// Whether an encoding of `R` is one that legacy verifiers exclude.
pub fn r_encoding_is_legacy_excluded(bytes: &[u8; 32]) -> (r: bool)
    ensures
        r == is_excluded(le256(bytes@)),
{
    let w = load_words(bytes);
    is_words(&w, 0x0, 0x0, 0x0, 0x0) ||
        is_words(&w, 0x1, 0x0, 0x0, 0x0) ||
        is_words(&w, 0xb027b2c28f95e826, 0xf098eff289f4c345, 0x3933c6d305acdfd5, 0x5fc536d880238b1) ||
        is_words(&w, 0x4fd84d3d706a17c7, 0xf67100d760b3cba, 0xc6cc392cfa53202a, 0x7a03ac9277fdc74e) ||
        is_words(&w, 0xb027b2c28f95e813, 0xf098eff289f4c345, 0x3933c6d305acdfd5, 0x85fc536d880238b1) ||
        is_words(&w, 0x4fd84d3d706a17b4, 0xf67100d760b3cba, 0xc6cc392cfa53202a, 0xfa03ac9277fdc74e) ||
        is_words(&w, 0xffffffffffffffec, 0xffffffffffffffff, 0xffffffffffffffff, 0x7fffffffffffffff) ||
        is_words(&w, 0xffffffffffffffed, 0xffffffffffffffff, 0xffffffffffffffff, 0x7fffffffffffffff) ||
        is_words(&w, 0xffffffffffffffee, 0xffffffffffffffff, 0xffffffffffffffff, 0x7fffffffffffffff) ||
        is_words(&w, 0xffffffffffffffd9, 0xffffffffffffffff, 0xffffffffffffffff, 0xffffffffffffffff) ||
        is_words(&w, 0xffffffffffffffda, 0xffffffffffffffff, 0xffffffffffffffff, 0xffffffffffffffff)
}

} // verus!
