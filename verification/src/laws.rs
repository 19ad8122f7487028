//! What holds of the library as a whole.
use crate::base_order::lemma_base_order;
use crate::batch::{PreparedBatch, R_ENCODING_LEN};
use crate::bytes::le256;
use crate::cache::KeyCache;
use crate::chunk::{dalek_verdict, r_points_of, split_verdict, zip215_verdict};
use crate::edwards::{
    basepoint, decoded, encoded, encoded_sign, lemma_basepoint, lemma_decoded_encoded,
    lemma_decoded_on_curve, EdwardsPoint,
};
use crate::math::curve::{
    identity, lemma_add_identity, lemma_add_neg, lemma_smul_add, lemma_smul_mul, lemma_smul_neg,
    lemma_smul_on_curve, lemma_smul_small, neg, on_curve, padd, smul, Affine,
};
use crate::math::gf::{
    d, eq, finv, lemma_eq_ops, lemma_eq_refl, lemma_eq_sym, lemma_eq_trans,
};
use crate::policy::{has_canonical_y, VerifyPolicy};
use crate::scalar::{order, Scalar};
use crate::signature::{
    challenge, excluded_lane, lemma_encoding, signature_r, signature_s,
    signature_valid,
};
use crate::tables::{
    all_invertible, lemma_same_table, lemma_table_point, AffineCachedPoint, CachedPoint,
    PointTable,
};
use crate::verify::{batch_results, Verifier, VerifyInput};
use crate::wide::{cofactored, lemma_recomputed, recomputed, WideRPoints};
use vstd::arithmetic::div_mod::lemma_fundamental_div_mod;
use vstd::prelude::*;

verus! {

/// Multiples of the base point are the same for counts that differ by a
/// multiple of the order.
pub proof fn lemma_count_modulo_order(n: int)
    ensures
        smul(n % order(), basepoint()) == smul(n, basepoint()),
{
    let b = basepoint();
    let q = n / order();
    let r = n % order();
    lemma_basepoint();
    lemma_base_order();
    lemma_smul_small(b);
    lemma_fundamental_div_mod(n, order());
    // [q L] B == [q] O == O
    lemma_smul_mul(q, order(), b);
    lemma_smul_mul(q, 0, b);
    assert(q * 0 == 0) by (nonlinear_arith);
    assert(order() * q == q * order()) by (nonlinear_arith);
    lemma_smul_add(r, q * order(), b);
    lemma_smul_on_curve(r, b);
    lemma_add_identity(smul(r, b));
}

/// A signature made with a secret scalar and a nonce is valid: with the public
/// key `[a] B`, `R = [r] B` and `s = r + k a` modulo the order. Under the
/// cofactorless policy the key and `R` must not be excluded.
pub proof fn lemma_signed_is_valid(
    secret: int,
    nonce: int,
    public_key: Seq<u8>,
    signature: Seq<u8>,
    message: Seq<u8>,
)
    requires
        public_key.len() == 32,
        signature.len() == 64,
        le256(public_key) == encoded(smul(secret, basepoint())),
        le256(signature_r(signature)) == encoded(smul(nonce, basepoint())),
        signature_s(signature) == (nonce + challenge(
            signature_r(signature),
            public_key,
            message,
        ) * secret) % order(),
    ensures
        signature_valid(VerifyPolicy::Zip215, public_key, signature, message),
        signature_valid(VerifyPolicy::Dalek, public_key, signature, message) == !excluded_lane(
            public_key,
            signature_r(signature),
        ),
{
    let b = basepoint();
    let r = signature_r(signature);
    let s = signature_s(signature);
    let k = challenge(r, public_key, message);
    let a = smul(secret, b);
    lemma_basepoint();
    lemma_smul_on_curve(secret, b);
    lemma_smul_on_curve(nonce, b);
    lemma_decoded_encoded(public_key, a);
    lemma_decoded_encoded(r, smul(nonce, b));
    // [s] B - [k] A == [r + k a] B + [-k a] B == [r] B
    let n = nonce + k * secret;
    lemma_count_modulo_order(n);
    lemma_smul_mul(k, secret, b);
    lemma_smul_neg(k * secret, b);
    lemma_smul_add(n, -(k * secret), b);
    assert(recomputed(s, k, a) == smul(nonce, b));
    lemma_difference_vanishes(smul(nonce, b));
    lemma_dalek_is_zip215(public_key, signature, message);
}

/// The cofactored equation holds of equal points.
proof fn lemma_difference_vanishes(a: Affine)
    requires
        on_curve(a),
    ensures
        smul(8, padd(a, neg(a))) == identity(),
{
    lemma_add_neg(a);
    lemma_basepoint();
    lemma_smul_small(basepoint());
    lemma_smul_mul(8, 0, basepoint());
}

/// What is valid under the cofactorless policy is valid under the cofactored
/// one.
pub proof fn lemma_dalek_is_zip215(public_key: Seq<u8>, signature: Seq<u8>, message: Seq<u8>)
    requires
        public_key.len() == 32,
        signature.len() == 64,
    ensures
        signature_valid(VerifyPolicy::Dalek, public_key, signature, message) ==> signature_valid(
            VerifyPolicy::Zip215,
            public_key,
            signature,
            message,
        ),
{
    if signature_valid(VerifyPolicy::Dalek, public_key, signature, message) {
        let r = signature_r(signature);
        let a = decoded(public_key)->0;
        let k = challenge(r, public_key, message);
        let s = signature_s(signature);
        lemma_decoded_on_curve(public_key);
        lemma_recomputed(s, k, a);
        lemma_decoded_encoded(r, recomputed(s, k, a));
        lemma_difference_vanishes(recomputed(s, k, a));
    }
}

/// The point recovered from a table is the one that the table was made of, and
/// so is the one recovered from the normalized table.
pub proof fn lemma_recovered_point(
    point: Affine,
    table: PointTable,
    normalized: PointTable,
    recovered: EdwardsPoint,
    recovered_normalized: EdwardsPoint,
)
    requires
        table.is_table_of(point),
        normalized.wf(),
        normalized.same_points(table),
        recovered.affine() == table.entry(1).affine(),
        recovered_normalized.affine() == normalized.entry(1).affine(),
    ensures
        recovered.affine() == point,
        recovered_normalized.affine() == point,
{
    lemma_table_point(table, point);
    lemma_same_table(normalized, table, point);
    lemma_table_point(normalized, point);
}

/// The cached form of the inverse of a point is the inverse of its cached form.
pub proof fn lemma_cached_inverse(
    point: EdwardsPoint,
    inverse: EdwardsPoint,
    cached: CachedPoint,
    cached_inverse: CachedPoint,
    inverse_cached: CachedPoint,
)
    requires
        inverse.negates(point),
        cached.caches(point),
        cached_inverse.caches(inverse),
        inverse_cached.negates(cached),
    ensures
        eq(cached_inverse.plusv(), inverse_cached.plusv()),
        eq(cached_inverse.minusv(), inverse_cached.minusv()),
        eq(cached_inverse.z2v(), inverse_cached.z2v()),
        eq(cached_inverse.t2dv(), inverse_cached.t2dv()),
{
    let (x, y, t, k) = (point.xv(), point.yv(), point.tv(), 2 * d());
    let (a, b) = (cached_inverse, inverse_cached);
    lemma_eq_refl(y);
    lemma_eq_ops(y, y, inverse.xv(), -x);
    lemma_eq_trans(a.plusv(), y + inverse.xv(), y - x);
    lemma_eq_sym(b.plusv(), y - x);
    lemma_eq_trans(a.plusv(), y - x, b.plusv());
    lemma_eq_trans(a.minusv(), y - inverse.xv(), y + x);
    lemma_eq_sym(b.minusv(), y + x);
    lemma_eq_trans(a.minusv(), y + x, b.minusv());
    lemma_eq_sym(b.z2v(), 2 * point.zv());
    lemma_eq_trans(a.z2v(), 2 * point.zv(), b.z2v());
    lemma_eq_refl(k);
    lemma_eq_ops(k, k, inverse.tv(), -t);
    lemma_eq_trans(a.t2dv(), k * inverse.tv(), k * (-t));
    lemma_eq_refl(0);
    lemma_eq_ops(0, 0, cached.t2dv(), k * t);
    lemma_eq_trans(b.t2dv(), -cached.t2dv(), -(k * t));
    assert(k * (-t) == -(k * t)) by (nonlinear_arith);
    lemma_eq_sym(b.t2dv(), k * (-t));
    lemma_eq_trans(a.t2dv(), k * (-t), b.t2dv());
}

/// The affine cached form of `(-x, y)` is the inverse of that of `(x, y)`, for
/// any coordinates; and that of `(0, 1)` is the identity's.
pub proof fn lemma_affine_cached_inverse(
    x: int,
    n: int,
    y: int,
    cached: AffineCachedPoint,
    cached_inverse: AffineCachedPoint,
    inverse_cached: AffineCachedPoint,
)
    requires
        eq(n, -x),
        cached.caches_affine(x, y),
        cached_inverse.caches_affine(n, y),
        inverse_cached.negates(cached),
    ensures
        eq(cached_inverse.plusv(), inverse_cached.plusv()),
        eq(cached_inverse.minusv(), inverse_cached.minusv()),
        eq(cached_inverse.t2dv(), inverse_cached.t2dv()),
        x == 0 && y == 1 ==> eq(cached.plusv(), 1) && eq(cached.minusv(), 1) && eq(
            cached.t2dv(),
            0,
        ),
{
    let k = 2 * d();
    let (a, b) = (cached_inverse, inverse_cached);
    lemma_eq_refl(y);
    a.lemma_caches_affine(n, y, -x, y);
    lemma_eq_sym(b.plusv(), y - x);
    lemma_eq_trans(a.plusv(), y - x, b.plusv());
    lemma_eq_sym(b.minusv(), y + x);
    lemma_eq_trans(a.minusv(), y + x, b.minusv());
    assert(k * ((-x) * y) == -(k * (x * y))) by (nonlinear_arith);
    lemma_eq_refl(0);
    lemma_eq_ops(0, 0, cached.t2dv(), k * (x * y));
    lemma_eq_trans(b.t2dv(), -cached.t2dv(), -(k * (x * y)));
    lemma_eq_sym(b.t2dv(), -(k * (x * y)));
    lemma_eq_trans(a.t2dv(), -(k * (x * y)), b.t2dv());
    assert(k * (0 * 1int) == 0) by (nonlinear_arith);
}

/// A lane that is verified by the full ladder gets the verdict that the split
/// chunk gives it, where the ladder is prepared with a table of the decoded key
/// and with the digits of the same scalars.
pub proof fn lemma_ladders_agree(
    prepared: PreparedBatch<'_>,
    lane: int,
    valid: bool,
    public_key: Seq<u8>,
    r: Seq<u8>,
    s: Scalar,
    k: int,
)
    requires
        decoded(public_key) is Some,
        prepared.public_key_tables@[lane].is_table_of(decoded(public_key)->0),
        prepared.s_value(lane) == s.val(),
        prepared.k_value(lane) == k,
    ensures
        split_verdict(VerifyPolicy::Zip215, valid, public_key, r, s.val(), k) == zip215_verdict(
            prepared,
            lane,
            valid,
            r,
        ),
        split_verdict(VerifyPolicy::Dalek, valid, public_key, r, s.val(), k) == dalek_verdict(
            prepared,
            lane,
            valid,
            public_key,
            r,
        ),
{
    lemma_table_point(*prepared.public_key_tables@[lane], decoded(public_key)->0);
}

/// The verdicts do not depend on whether `R` was decompressed before. Under the
/// cofactored policy the equation takes the point that is there. Under the other
/// the recomputed point is encoded and the bytes are compared where there is
/// none; where there is one the points are compared, and what is not the
/// encoding of its point is left out. Both come to the same.
pub proof fn lemma_decoded_r_does_not_matter(
    prepared: PreparedBatch<'_>,
    lane: int,
    valid: bool,
    public_key: Seq<u8>,
    r: Seq<u8>,
    r_bytes: Seq<[u8; R_ENCODING_LEN]>,
    points: WideRPoints,
    flags: Seq<bool>,
)
    requires
        prepared.lane_wf(lane),
        r_bytes.len() == 8,
        0 <= lane < 8,
        r == r_bytes[lane]@,
        r_points_of(points, flags, r_bytes),
    ensures
        zip215_verdict(prepared, lane, valid, r) == (valid && flags[lane] && cofactored(
            prepared.s_value(lane),
            prepared.k_value(lane),
            prepared.key(lane),
            points.at(lane),
        )),
        dalek_verdict(prepared, lane, valid, public_key, r) == (valid && flags[lane] && recomputed(
            prepared.s_value(lane),
            prepared.k_value(lane),
            prepared.key(lane),
        ) == points.at(lane) && has_canonical_y(r) && !(points.at(lane).x == 0 && encoded_sign(r)
            != 0) && !excluded_lane(public_key, r)),
{
    let (s, k, a) = (prepared.s_value(lane), prepared.k_value(lane), prepared.key(lane));
    lemma_recomputed(s, k, a);
    lemma_encoding(r, recomputed(s, k, a));
    assert(flags[lane] == (decoded(r_bytes[lane]@) is Some));
    assert(decoded(r_bytes[lane]@) is Some ==> points.at(lane) == decoded(r_bytes[lane]@)->0);
}

/// The verdicts do not depend on the form of the key's table: normalized or
/// not, it gives the same ones, for every point of the curve.
pub proof fn lemma_table_form_does_not_matter(
    first: PreparedBatch<'_>,
    second: PreparedBatch<'_>,
    point: Affine,
    lane: int,
    valid: bool,
    public_key: Seq<u8>,
    r: Seq<u8>,
)
    requires
        first.public_key_tables@[lane].is_table_of(point),
        second.public_key_tables@[lane].is_table_of(point),
        first.s_value(lane) == second.s_value(lane),
        first.k_value(lane) == second.k_value(lane),
    ensures
        zip215_verdict(first, lane, valid, r) == zip215_verdict(second, lane, valid, r),
        dalek_verdict(first, lane, valid, public_key, r) == dalek_verdict(
            second,
            lane,
            valid,
            public_key,
            r,
        ),
{
    lemma_table_point(*first.public_key_tables@[lane], point);
    lemma_table_point(*second.public_key_tables@[lane], point);
}

/// A table has one normalized form: whether it is normalized alone or together
/// with others, in whatever order, the entries hold the same field elements.
pub proof fn lemma_normalized_form(
    tables: Seq<&PointTable>,
    t: int,
    alone: PointTable,
    together: PointTable,
    digit: int,
)
    requires
        0 <= t < tables.len(),
        all_invertible(tables),
        -8 <= digit <= 8,
        alone.normalizes(*tables[t], tables[t].invertible()),
        together.normalizes(*tables[t], all_invertible(tables)),
    ensures
        alone.entry(digit).z2v() == together.entry(digit).z2v(),
        eq(alone.entry(digit).plusv(), together.entry(digit).plusv()),
        eq(alone.entry(digit).minusv(), together.entry(digit).minusv()),
        eq(alone.entry(digit).t2dv(), together.entry(digit).t2dv()),
{
    assert(tables[t].invertible());
    let (e, a, b) = (tables[t].entry(digit), alone.entry(digit), together.entry(digit));
    let w = 2 * finv(e.z2v());
    assert(a.rescales(e, w) && b.rescales(e, w));
    lemma_eq_sym(b.plusv(), e.plusv() * w);
    lemma_eq_sym(b.minusv(), e.minusv() * w);
    lemma_eq_sym(b.t2dv(), e.t2dv() * w);
    lemma_eq_trans(a.plusv(), e.plusv() * w, b.plusv());
    lemma_eq_trans(a.minusv(), e.minusv() * w, b.minusv());
    lemma_eq_trans(a.t2dv(), e.t2dv() * w, b.t2dv());
}

/// The results of a batch do not depend on what a cache holds, nor on its kind:
/// two verifiers with the same policy that verify the same batch give the same
/// results.
pub proof fn lemma_cache_does_not_matter<C: KeyCache, D: KeyCache>(
    warm: Verifier<C>,
    cold: Verifier<D>,
    inputs: Seq<VerifyInput<'_>>,
    warm_results: Seq<bool>,
    cold_results: Seq<bool>,
)
    requires
        warm.rules() == cold.rules(),
        warm_results == batch_results(warm.rules(), inputs),
        cold_results == batch_results(cold.rules(), inputs),
    ensures
        warm_results == cold_results,
{
}

/// The results of a batch are those of its parts.
pub proof fn lemma_batches_join(
    policy: VerifyPolicy,
    first: Seq<VerifyInput<'_>>,
    second: Seq<VerifyInput<'_>>,
)
    ensures
        batch_results(policy, first + second) == batch_results(policy, first) + batch_results(
            policy,
            second,
        ),
{
    assert(batch_results(policy, first + second) =~= batch_results(policy, first) + batch_results(
        policy,
        second,
    ));
}

} // verus!
