//! Signatures, and when they are valid.
use crate::bytes::{le256, le512, le64, lemma_le_bounds};
use crate::edwards::{decoded, encoded, encoded_sign, lemma_decoded_encoded, sign_weight};
use crate::math::curve::{on_curve, Affine};
use crate::math::gf::{lemma_p, p};
use crate::policy::{has_canonical_y, is_excluded, VerifyPolicy};
use crate::scalar::{order, wide_from};
use crate::sha512::digest;
use crate::wide::{cofactored, recomputed};
use vstd::prelude::*;

verus! {

/// The encoded `R` of a signature.
pub open spec fn signature_r(signature: Seq<u8>) -> Seq<u8> {
    signature.subrange(0, 32)
}

/// The scalar `s` of a signature, which need not be below the order.
pub open spec fn signature_s(signature: Seq<u8>) -> int {
    le256(signature.subrange(32, 64))
}

/// The challenge: the SHA-512 digest of the encoded `R`, the public key and the
/// message, modulo the order.
pub open spec fn challenge(r: Seq<u8>, public_key: Seq<u8>, message: Seq<u8>) -> int {
    le512(digest(r + public_key + message)) % order()
}

/// The equation of a policy, for a key that stands for a point and a scalar
/// below the order.
pub open spec fn equation_holds(
    policy: VerifyPolicy,
    public_key: Seq<u8>,
    r: Seq<u8>,
    s: int,
    k: int,
) -> bool {
    match policy {
        VerifyPolicy::Zip215 => decoded(r) is Some && cofactored(
            s,
            k,
            decoded(public_key)->0,
            decoded(r)->0,
        ),
        VerifyPolicy::Dalek => le256(r) == encoded(recomputed(s, k, decoded(public_key)->0))
            && !excluded_lane(public_key, r),
    }
}

/// The keys and the encodings of `R` that legacy verifiers exclude.
pub open spec fn excluded_lane(public_key: Seq<u8>, r: Seq<u8>) -> bool {
    le256(public_key) == 0 || is_excluded(le256(r))
}

/// Whether a signature is valid under a policy: its scalar is below the order,
/// the public key stands for a point, and the equation of the policy holds.
pub open spec fn signature_valid(
    policy: VerifyPolicy,
    public_key: Seq<u8>,
    signature: Seq<u8>,
    message: Seq<u8>,
) -> bool {
    let r = signature_r(signature);
    let s = signature_s(signature);
    &&& s < order()
    &&& decoded(public_key) is Some
    &&& equation_holds(policy, public_key, r, s, challenge(r, public_key, message))
}

/// Eight little-endian words stand for the integer of the 64 bytes that they
/// are read from.
pub proof fn lemma_wide(words: Seq<u64>, b: Seq<u8>)
    requires
        words.len() == 8,
        forall|i: int| 0 <= i < 8 ==> #[trigger] words[i] == le64(b, 8 * i),
    ensures
        wide_from(words, 0) == le512(b),
{
    reveal_with_fuel(wide_from, 9);
    assert(words[0] == le64(b, 0));
    assert(words[1] == le64(b, 8));
    assert(words[2] == le64(b, 16));
    assert(words[3] == le64(b, 24));
    assert(words[4] == le64(b, 32));
    assert(words[5] == le64(b, 40));
    assert(words[6] == le64(b, 48));
    assert(words[7] == le64(b, 56));
}

/// An encoding is that of a point exactly where it stands for that point, its
/// `y` is reduced, and it does not carry a sign with a zero `x`.
pub proof fn lemma_encoding(bytes: Seq<u8>, a: Affine)
    requires
        bytes.len() == 32,
        on_curve(a),
    ensures
        le256(bytes) == encoded(a) <==> decoded(bytes) == Some(a) && has_canonical_y(bytes) && !(a.x
            == 0 && encoded_sign(bytes) != 0),
{
    lemma_p();
    lemma_le_bounds(bytes);
    if le256(bytes) == encoded(a) {
        lemma_decoded_encoded(bytes, a);
        assert(le256(bytes) % sign_weight() == a.y);
        assert(encoded_sign(bytes) == a.x % 2);
    }
    if decoded(bytes) == Some(a) && has_canonical_y(bytes) && !(a.x == 0 && encoded_sign(bytes) != 0) {
        vstd::arithmetic::div_mod::lemma_small_mod(
            (le256(bytes) % sign_weight()) as nat,
            p() as nat,
        );
        assert(a.y == le256(bytes) % sign_weight());
        assert(a.x % 2 == encoded_sign(bytes));
    }
}

} // verus!
