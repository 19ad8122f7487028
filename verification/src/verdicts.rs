//! What a verdict means, in terms of the group.
use crate::bytes::le256;
use crate::edwards::{basepoint, decoded, encoded, lemma_basepoint, lemma_decoded_on_curve};
use crate::encodings::lemma_bytes_of_encoding;
use crate::math::curve::{
    identity, lemma_add_assoc, lemma_add_comm, lemma_add_identity, lemma_add_neg,
    lemma_add_on_curve, lemma_add_right_cancel, lemma_neg_on_curve, lemma_neg_unique,
    lemma_smul_mul, lemma_smul_neg, lemma_smul_of_add, lemma_smul_on_curve, lemma_smul_small, neg,
    on_curve, padd, smul, Affine,
};
use crate::policy::{is_excluded, VerifyPolicy};
use crate::signature::{challenge, signature_valid};
use crate::verify::{batch_results, VerifyInput};
use crate::wide::{cofactored, lemma_recomputed, recomputed};
use vstd::prelude::*;

verus! {

/// A multiple of the inverse is the inverse of the multiple.
proof fn lemma_multiple_of_inverse(n: int, a: Affine)
    requires
        on_curve(a),
    ensures
        smul(n, neg(a)) == neg(smul(n, a)),
{
    lemma_smul_small(a);
    lemma_smul_mul(n, -1, a);
    lemma_smul_neg(n, a);
    assert(n * (-1) == -n);
}

/// A difference is a point exactly where the point and the subtrahend add up.
proof fn lemma_difference(x: Affine, y: Affine, r: Affine)
    requires
        on_curve(x),
        on_curve(y),
        on_curve(r),
    ensures
        on_curve(padd(x, neg(y))),
        padd(x, neg(y)) == r <==> x == padd(r, y),
{
    lemma_neg_on_curve(y);
    lemma_add_on_curve(x, neg(y));
    lemma_add_on_curve(r, y);
    lemma_add_neg(y);
    lemma_add_comm(y, neg(y));
    lemma_add_assoc(x, neg(y), y);
    lemma_add_identity(x);
    if x == padd(r, y) {
        lemma_add_right_cancel(padd(x, neg(y)), r, y);
    }
}

/// The cofactored equation is `[8] [s] B = [8] R + [8] [k] A`.
pub proof fn lemma_cofactored_means(s: int, k: int, a: Affine, r: Affine)
    requires
        on_curve(a),
        on_curve(r),
    ensures
        cofactored(s, k, a, r) <==> smul(8, smul(s, basepoint())) == padd(
            smul(8, r),
            smul(8, smul(k, a)),
        ),
{
    lemma_basepoint();
    let (x, y) = (smul(s, basepoint()), smul(k, a));
    lemma_smul_on_curve(s, basepoint());
    lemma_smul_on_curve(k, a);
    lemma_neg_on_curve(y);
    lemma_neg_on_curve(r);
    lemma_add_on_curve(x, neg(y));
    // [8] ((x - y) - r) == ([8] x - [8] y) - [8] r
    lemma_smul_of_add(8, padd(x, neg(y)), neg(r));
    lemma_smul_of_add(8, x, neg(y));
    lemma_multiple_of_inverse(8, y);
    lemma_multiple_of_inverse(8, r);
    lemma_smul_on_curve(8, x);
    lemma_smul_on_curve(8, y);
    lemma_smul_on_curve(8, r);
    let (x8, y8, r8) = (smul(8, x), smul(8, y), smul(8, r));
    lemma_difference(x8, y8, r8);
    let q = padd(x8, neg(y8));
    lemma_neg_on_curve(r8);
    if padd(q, neg(r8)) == identity() {
        lemma_neg_unique(q, neg(r8));
    }
    lemma_add_neg(r8);
}

/// The recomputed point is the one `Q` with `[s] B = Q + [k] A`; and bytes are its
/// encoding exactly where the top bit is the parity of the `x` of such a point and
/// the others are its `y`.
pub proof fn lemma_recomputed_means(s: int, k: int, a: Affine, r: Seq<u8>)
    requires
        on_curve(a),
        r.len() == 32,
    ensures
        on_curve(recomputed(s, k, a)),
        smul(s, basepoint()) == padd(recomputed(s, k, a), smul(k, a)),
        le256(r) == encoded(recomputed(s, k, a)) <==> exists|q: Affine|
            on_curve(q) && smul(s, basepoint()) == #[trigger] padd(q, smul(k, a)) && r[31] / 128 == q.x
                % 2 && le256(r) - 0x8000000000000000000000000000000000000000000000000000000000000000int
                * (r[31] / 128) == q.y,
{
    lemma_basepoint();
    let (x, y) = (smul(s, basepoint()), smul(k, a));
    lemma_smul_on_curve(s, basepoint());
    lemma_smul_on_curve(k, a);
    let q = recomputed(s, k, a);
    lemma_recomputed(s, k, a);
    lemma_difference(x, y, q);
    lemma_bytes_of_encoding(r, q);
    assert forall|t: Affine| on_curve(t) && x == #[trigger] padd(t, y) implies t == q by {
        lemma_difference(x, y, t);
    }
}

/// A signature is valid under the cofactored policy exactly where its scalar is
/// below the order, the public key and `R` are encodings of points `A` and `R`,
/// and `[8] [s] B = [8] R + [8] [k] A`.
pub proof fn lemma_zip215_means(public_key: Seq<u8>, signature: Seq<u8>, message: Seq<u8>)
    requires
        public_key.len() == 32,
        signature.len() == 64,
    ensures
        signature_valid(VerifyPolicy::Zip215, public_key, signature, message) <==> {
            &&& le256(signature.subrange(32, 64))
                < 0x1000000000000000000000000000000014def9dea2f79cd65812631a5cf5d3edint
            &&& decoded(public_key) is Some
            &&& decoded(signature.subrange(0, 32)) is Some
            &&& smul(8, smul(le256(signature.subrange(32, 64)), basepoint())) == padd(
                smul(8, decoded(signature.subrange(0, 32))->0),
                smul(
                    8,
                    smul(
                        challenge(signature.subrange(0, 32), public_key, message),
                        decoded(public_key)->0,
                    ),
                ),
            )
        },
{
    let bytes = signature.subrange(0, 32);
    if decoded(public_key) is Some && decoded(bytes) is Some {
        lemma_decoded_on_curve(public_key);
        lemma_decoded_on_curve(bytes);
        lemma_cofactored_means(
            le256(signature.subrange(32, 64)),
            challenge(bytes, public_key, message),
            decoded(public_key)->0,
            decoded(bytes)->0,
        );
    }
}

/// A signature is valid under the cofactorless policy exactly where its scalar
/// is below the order, the public key is the encoding of a point `A` and not all
/// zero, `R` is not excluded, and its bytes are the encoding of the point `Q`
/// with `[s] B = Q + [k] A`: the top bit is the parity of its `x`, the others are
/// its `y`.
pub proof fn lemma_dalek_means(public_key: Seq<u8>, signature: Seq<u8>, message: Seq<u8>)
    requires
        public_key.len() == 32,
        signature.len() == 64,
    ensures
        signature_valid(VerifyPolicy::Dalek, public_key, signature, message) <==> {
            &&& le256(signature.subrange(32, 64))
                < 0x1000000000000000000000000000000014def9dea2f79cd65812631a5cf5d3edint
            &&& decoded(public_key) is Some
            &&& le256(public_key) != 0
            &&& !is_excluded(le256(signature.subrange(0, 32)))
            &&& exists|q: Affine|
                on_curve(q) && smul(le256(signature.subrange(32, 64)), basepoint())
                    == #[trigger] padd(
                    q,
                    smul(
                        challenge(signature.subrange(0, 32), public_key, message),
                        decoded(public_key)->0,
                    ),
                ) && signature[31] / 128 == q.x % 2 && le256(signature.subrange(0, 32))
                    - 0x8000000000000000000000000000000000000000000000000000000000000000int * (
                signature[31] / 128) == q.y
        },
{
    let bytes = signature.subrange(0, 32);
    assert(bytes[31] == signature[31]);
    if decoded(public_key) is Some {
        lemma_decoded_on_curve(public_key);
        lemma_recomputed_means(
            le256(signature.subrange(32, 64)),
            challenge(bytes, public_key, message),
            decoded(public_key)->0,
            bytes,
        );
    }
}

/// The results of a batch: one for each request, and each is whether the
/// request's own signature is valid for its own key and message.
pub proof fn lemma_results_of_a_batch(
    policy: VerifyPolicy,
    inputs: Seq<VerifyInput<'_>>,
    i: int,
)
    requires
        0 <= i < inputs.len(),
    ensures
        batch_results(policy, inputs).len() == inputs.len(),
        batch_results(policy, inputs)[i] == signature_valid(
            policy,
            inputs[i].public_key@,
            inputs[i].signature@,
            inputs[i].message@,
        ),
{
}

/// One signature that is valid for two messages under the cofactored policy: the
/// two challenges give the same multiple of the key, up to the cofactor.
pub proof fn lemma_two_messages(
    public_key: Seq<u8>,
    signature: Seq<u8>,
    first: Seq<u8>,
    second: Seq<u8>,
)
    requires
        public_key.len() == 32,
        signature.len() == 64,
        signature_valid(VerifyPolicy::Zip215, public_key, signature, first),
        signature_valid(VerifyPolicy::Zip215, public_key, signature, second),
    ensures
        smul(
            8,
            smul(
                challenge(signature.subrange(0, 32), public_key, first),
                decoded(public_key)->0,
            ),
        ) == smul(
            8,
            smul(
                challenge(signature.subrange(0, 32), public_key, second),
                decoded(public_key)->0,
            ),
        ),
{
    lemma_zip215_means(public_key, signature, first);
    lemma_zip215_means(public_key, signature, second);
    let bytes = signature.subrange(0, 32);
    let a = decoded(public_key)->0;
    let r8 = smul(8, decoded(bytes)->0);
    lemma_decoded_on_curve(public_key);
    lemma_decoded_on_curve(bytes);
    lemma_smul_on_curve(8, decoded(bytes)->0);
    let k1 = smul(challenge(bytes, public_key, first), a);
    let k2 = smul(challenge(bytes, public_key, second), a);
    lemma_smul_on_curve(challenge(bytes, public_key, first), a);
    lemma_smul_on_curve(challenge(bytes, public_key, second), a);
    lemma_smul_on_curve(8, k1);
    lemma_smul_on_curve(8, k2);
    lemma_add_comm(r8, smul(8, k1));
    lemma_add_comm(r8, smul(8, k2));
    lemma_add_right_cancel(smul(8, k1), smul(8, k2), r8);
}

} // verus!
