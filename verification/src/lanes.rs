//! What the eight lanes of a chunk hold, and what is decided of each.
use crate::batch::{
    bucket, is_bucket_order, lemma_order_count, precedes, PreparedBatch, PreparedSplitBatch,
    R_ENCODING_LEN,
};
use crate::bytes::le256;
use crate::cache::{CachedPublicKey, KeyCache};
use crate::chunk::{
    chunk_of, dalek_verdict, entries_of, halves_of, in_chunk, is_plain_identity, keys_decoded,
    lane_keys, leading_lanes, leads, parts_of, point_or_identity, r_points_of, split_verdict,
    zip215_verdict, ChunkParts,
};
use crate::edwards::{basepoint, decoded, lemma_decoded_on_curve, EdwardsPoint};
use crate::encodings::lemma_thirty_two_bytes;
use crate::math::curve::{
    identity, lemma_add_identity, lemma_add_shuffle, lemma_smul_add, lemma_smul_on_curve,
    lemma_smul_small, on_curve, padd, smul, Affine,
};
use crate::math::gf::p;
use crate::policy::VerifyPolicy;
use crate::scalar::{digits_from, wide_from};
use crate::signature::excluded_lane;
use crate::steps::{bucket_list, keys_of};
use crate::tables::PointTable;
use crate::torsion::lemma_excluded_are_torsion;
use crate::verdicts::{lemma_cofactored_means, lemma_recomputed_means};
use crate::verify::VerifyInput;
use crate::wide::{cofactored, combination, lane_bit, WideRPoints};
use vstd::arithmetic::power::{lemma_pow0, lemma_pow1, lemma_pow_adds, pow};
use vstd::prelude::*;

verus! {

/// A mask is the sum of the weights of its lanes.
pub proof fn lemma_mask_is_sum_of_lanes(mask: int)
    requires
        0 <= mask < 256,
    ensures
        mask == (if lane_bit(mask, 0) { 1int } else { 0 }) + (if lane_bit(mask, 1) { 2int } else { 0 })
            + (if lane_bit(mask, 2) { 4int } else { 0 }) + (if lane_bit(mask, 3) { 8int } else { 0 })
            + (if lane_bit(mask, 4) { 16int } else { 0 }) + (if lane_bit(mask, 5) { 32int } else { 0 })
            + (if lane_bit(mask, 6) { 64int } else { 0 }) + (if lane_bit(mask, 7) { 128int } else { 0 }),
{
    reveal_with_fuel(lane_bit, 9);
}

/// The value of digits: no digits are zero, one digit is itself, and digits that
/// follow others count sixteen times more for each of them.
pub proof fn lemma_value_of_digits(low: Seq<i8>, high: Seq<i8>, x: i8)
    ensures
        digits_from(Seq::<i8>::empty(), 0) == 0,
        digits_from(seq![x], 0) == x,
        digits_from(low + high, 0) == digits_from(low, 0) + pow(16, low.len()) * digits_from(high, 0),
{
    reveal_with_fuel(digits_from, 2);
    lemma_digits_joined(low, high, 0);
}

proof fn lemma_digits_joined(low: Seq<i8>, high: Seq<i8>, i: int)
    requires
        0 <= i <= low.len(),
    ensures
        digits_from(low + high, i) == digits_from(low, i) + pow(16, (low.len() - i) as nat)
            * digits_from(high, 0),
    decreases low.len() - i,
{
    let v = digits_from(high, 0);
    if i == low.len() {
        lemma_pow0(16);
        lemma_digits_of_tail(low, high, i);
        assert(1 * v == v);
    } else {
        lemma_digits_joined(low, high, i + 1);
        let w = pow(16, (low.len() - i - 1) as nat);
        lemma_pow_adds(16, 1, (low.len() - i - 1) as nat);
        lemma_pow1(16);
        assert(16 * (w * v) == (16 * w) * v) by (nonlinear_arith);
    }
}

proof fn lemma_digits_of_tail(low: Seq<i8>, high: Seq<i8>, i: int)
    requires
        low.len() <= i <= low.len() + high.len(),
    ensures
        digits_from(low + high, i) == digits_from(high, i - low.len()),
    decreases low.len() + high.len() - i,
{
    if i < low.len() + high.len() {
        lemma_digits_of_tail(low, high, i + 1);
    }
}

/// The value of words: no words are zero, one word is itself, and words that
/// follow others count `2^64` times more for each of them.
pub proof fn lemma_value_of_words(low: Seq<u64>, high: Seq<u64>, x: u64)
    ensures
        wide_from(Seq::<u64>::empty(), 0) == 0,
        wide_from(seq![x], 0) == x,
        wide_from(low + high, 0) == wide_from(low, 0) + pow(0x1_0000000000000000, low.len()) * wide_from(
            high,
            0,
        ),
{
    reveal_with_fuel(wide_from, 2);
    lemma_words_joined(low, high, 0);
}

proof fn lemma_words_joined(low: Seq<u64>, high: Seq<u64>, i: int)
    requires
        0 <= i <= low.len(),
    ensures
        wide_from(low + high, i) == wide_from(low, i) + pow(
            0x1_0000000000000000,
            (low.len() - i) as nat,
        ) * wide_from(high, 0),
    decreases low.len() - i,
{
    let v = wide_from(high, 0);
    let m = 0x1_0000000000000000int;
    if i == low.len() {
        lemma_pow0(m);
        lemma_words_of_tail(low, high, i);
        assert(1 * v == v);
    } else {
        lemma_words_joined(low, high, i + 1);
        let w = pow(m, (low.len() - i - 1) as nat);
        lemma_pow_adds(m, 1, (low.len() - i - 1) as nat);
        lemma_pow1(m);
        assert(0x1_0000000000000000 * (w * v) == (0x1_0000000000000000 * w) * v) by (nonlinear_arith);
    }
}

proof fn lemma_words_of_tail(low: Seq<u64>, high: Seq<u64>, i: int)
    requires
        low.len() <= i <= low.len() + high.len(),
    ensures
        wide_from(low + high, i) == wide_from(high, i - low.len()),
    decreases low.len() + high.len() - i,
{
    if i < low.len() + high.len() {
        lemma_words_of_tail(low, high, i + 1);
    }
}

/// The halves of a scalar are its remainder and its quotient by `2^127`.
pub proof fn lemma_halves_are_quotient_and_remainder(low: Seq<i8>, high: Seq<i8>, value: int)
    ensures
        halves_of(low, high, value) <==> {
            &&& forall|i: int| 0 <= i < low.len() ==> -8 <= #[trigger] low[i] <= 8
            &&& forall|i: int| 0 <= i < high.len() ==> -8 <= #[trigger] high[i] <= 8
            &&& digits_from(low, 0) == value % 0x8000_0000_0000_0000_0000_0000_0000_0000int
            &&& digits_from(high, 0) == value / 0x8000_0000_0000_0000_0000_0000_0000_0000int
        },
{
}

/// The scalars of a lane of the split ladder are their low digits and `2^127`
/// times their high ones.
pub proof fn lemma_split_scalars(prepared: PreparedSplitBatch<'_>, lane: int)
    ensures
        prepared.s_value(lane) == digits_from(prepared.s0_digits@[lane]@, 0)
            + 0x8000_0000_0000_0000_0000_0000_0000_0000int * digits_from(
            prepared.s1_digits@[lane]@,
            0,
        ),
        prepared.k_value(lane) == digits_from(prepared.k0_digits@[lane]@, 0)
            + 0x8000_0000_0000_0000_0000_0000_0000_0000int * digits_from(
            prepared.k1_digits@[lane]@,
            0,
        ),
{
}

/// The bucket of a message is the number of blocks of 128 bytes that take the
/// message, the 64 bytes hashed before it, and the seventeen bytes at least that
/// it is padded with.
pub proof fn lemma_bucket_is_blocks(message: Seq<u8>)
    ensures
        128 * (bucket(message) - 1) < message.len() + 64 + 17 <= 128 * bucket(message),
{
}

/// An order of buckets holds every index once, by rising bucket, and by rising
/// index in the same bucket.
pub proof fn lemma_bucket_order_is_stable(buckets: Seq<u64>, order: Seq<usize>)
    requires
        buckets.len() <= usize::MAX,
    ensures
        is_bucket_order(buckets, order) <==> {
            &&& forall|j: int| 0 <= j < order.len() ==> (#[trigger] order[j]) < buckets.len()
            &&& forall|i: usize| i < buckets.len() ==> #[trigger] order.contains(i)
            &&& forall|j: int, l: int|
                0 <= j < l < order.len() ==> buckets[(#[trigger] order[j]) as int] < buckets[(
                #[trigger] order[l]) as int] || buckets[order[j] as int] == buckets[order[l] as int]
                    && order[j] < order[l]
        },
        is_bucket_order(buckets, order) ==> order.len() == buckets.len(),
{
    if is_bucket_order(buckets, order) {
        lemma_order_count(buckets, order);
        assert forall|j: int, l: int| 0 <= j < l < order.len() implies buckets[(
        #[trigger] order[j]) as int] < buckets[(#[trigger] order[l]) as int] || buckets[order[j] as int]
            == buckets[order[l] as int] && order[j] < order[l] by {
            assert(precedes(buckets, order[j], order[l]));
        }
    }
}

/// The parts of a request: the encoding of `R` is the first half of the signature,
/// the scalar is the second half where it is below the order and zero where not,
/// and the key and the message are those of the request, whole.
pub proof fn lemma_parts_of_a_request(
    parts: ChunkParts<'_>,
    inputs: Seq<VerifyInput<'_>>,
    lane: int,
)
    requires
        parts_of(parts, inputs, lane),
    ensures
        parts.valid@[lane] <==> le256(inputs[lane].signature@.subrange(32, 64))
            < 0x1000000000000000000000000000000014def9dea2f79cd65812631a5cf5d3edint,
        parts.s_scalars@[lane].val() == if parts.valid@[lane] {
            le256(inputs[lane].signature@.subrange(32, 64))
        } else {
            0
        },
        digits_from(parts.s_digits@[lane]@, 0) == parts.s_scalars@[lane].val(),
        parts.r_bytes@[lane]@ == inputs[lane].signature@.subrange(0, 32),
        parts.public_keys@[lane]@ == inputs[lane].public_key@,
        parts.messages@[lane]@ == inputs[lane].message@,
{
}

/// A chunk holds the requests of its places in the order, and repeats the first of
/// them in the lanes that are left.
pub proof fn lemma_requests_of_a_chunk(
    chunk: Seq<VerifyInput<'_>>,
    inputs: Seq<VerifyInput<'_>>,
    order: Seq<usize>,
    start: int,
    lanes: int,
    l: int,
)
    requires
        chunk_of(chunk, inputs, order, start, lanes),
        0 <= l < 8,
    ensures
        chunk.len() == 8,
        chunk[l] == inputs[if l < lanes {
            order[start + l]
        } else {
            order[start]
        } as int],
{
}

/// The lanes that lead: in rising order, each of those that are flagged and have
/// no flagged lane with the same key before them, and no others.
pub proof fn lemma_leading_lanes_are_first(
    flags: Seq<bool>,
    keys: Seq<Seq<u8>>,
    n: int,
)
    requires
        0 <= n <= usize::MAX,
    ensures
        forall|l: usize|
            #[trigger] leading_lanes(flags, keys, n).contains(l) <==> l < n && flags[l as int]
                && forall|j: int| 0 <= j < l && #[trigger] flags[j] ==> keys[j] != keys[l as int],
        forall|i: int, j: int|
            0 <= i < j < leading_lanes(flags, keys, n).len() ==> #[trigger] leading_lanes(
                flags,
                keys,
                n,
            )[i] < #[trigger] leading_lanes(flags, keys, n)[j],
    decreases n,
{
    let s = leading_lanes(flags, keys, n);
    if n > 0 {
        lemma_leading_lanes_are_first(flags, keys, n - 1);
        let r = leading_lanes(flags, keys, n - 1);
        assert forall|l: usize| #[trigger] s.contains(l) <==> l < n && flags[l as int]
            && forall|j: int| 0 <= j < l && #[trigger] flags[j] ==> keys[j] != keys[l as int] by {
            if leads(flags, keys, n - 1) {
                assert(s[s.len() - 1] == (n - 1) as usize);
                if r.contains(l) {
                    let i = choose|i: int| 0 <= i < r.len() && r[i] == l;
                    assert(s[i] == l);
                }
                if s.contains(l) && l != (n - 1) as usize {
                    let i = choose|i: int| 0 <= i < s.len() && s[i] == l;
                    assert(r[i] == l);
                }
            }
        }
        assert forall|i: int, j: int| 0 <= i < j < s.len() implies #[trigger] s[i]
            < #[trigger] s[j] by {
            if leads(flags, keys, n - 1) && j == s.len() - 1 {
                assert(r.contains(r[i]));
            }
        }
    }
}

/// The point of a key, and the neutral element where it has none.
pub proof fn lemma_point_of_a_key(key: Seq<u8>)
    ensures
        decoded(key) is Some ==> Some(point_or_identity(key)) == decoded(key),
        decoded(key) is None ==> point_or_identity(key) == (Affine { x: 0, y: 1 }),
{
}

/// The points of the encodings of `R`: a lane is flagged where its encoding is that
/// of a point, and then holds it.
pub proof fn lemma_points_of_encodings(
    points: WideRPoints,
    flags: Seq<bool>,
    r_bytes: Seq<[u8; R_ENCODING_LEN]>,
    lane: int,
)
    requires
        r_points_of(points, flags, r_bytes),
        0 <= lane < 8,
    ensures
        flags[lane] <==> decoded(r_bytes[lane]@) is Some,
        flags[lane] ==> decoded(r_bytes[lane]@) == Some(points.at(lane)),
        on_curve(points.at(lane)),
{
    assert(points.coordinates(lane).wf());
}

/// The tables of the keys: a lane is flagged where its key is that of a point, and
/// its table then holds the multiples of the point.
pub proof fn lemma_tables_of_keys(
    tables: Seq<PointTable>,
    flags: Seq<bool>,
    public_keys: Seq<[u8; 32]>,
    lane: int,
)
    requires
        keys_decoded(tables, flags, public_keys),
        0 <= lane < 8,
    ensures
        flags[lane] <==> decoded(public_keys[lane]@) is Some,
        flags[lane] ==> Some(tables[lane].point()) == decoded(public_keys[lane]@),
        !flags[lane] ==> tables[lane].point() == (Affine { x: 0, y: 1 }),
        forall|digit: int|
            -8 <= digit <= 8 ==> (#[trigger] tables[lane].entry(digit)).affine() == smul(
                digit,
                tables[lane].point(),
            ),
{
    assert(tables[lane].is_projective_table_of(point_or_identity(public_keys[lane]@)));
    lemma_smul_small(point_or_identity(public_keys[lane]@));
}

/// A lane is excluded under the cofactorless policy exactly where its key is all
/// zero, or where the integer of its encoding of `R` is congruent to the `y` of a
/// point that the cofactor annihilates and is not `2 p + 1`.
pub proof fn lemma_excluded_lanes(public_key: Seq<u8>, r: Seq<u8>)
    requires
        public_key.len() == 32,
        r.len() == 32,
    ensures
        excluded_lane(public_key, r) <==> {
            ||| forall|i: int| 0 <= i < 32 ==> #[trigger] public_key[i] == 0
            ||| le256(r) != 2 * p() + 1 && exists|a: Affine|
                on_curve(a) && #[trigger] smul(8, a) == identity() && (le256(r) - a.y) % p() == 0
        },
{
    lemma_thirty_two_bytes(public_key);
    lemma_thirty_two_bytes(r);
    lemma_excluded_are_torsion(le256(r));
    if le256(public_key) == 0 {
        assert forall|i: int| 0 <= i < 32 implies #[trigger] public_key[i] == 0 by {
            assert(0 <= i < 8 || 8 <= i < 16 || 16 <= i < 24 || 24 <= i < 32);
        }
    }
}

/// A double multiplication adds up in both counts, and starts from the two points.
pub proof fn lemma_combination(s: int, k: int, t: int, m: int, b: Affine, a: Affine)
    requires
        on_curve(b),
        on_curve(a),
    ensures
        combination(1, 0, b, a) == b,
        combination(0, 1, b, a) == a,
        combination(s + t, k + m, b, a) == padd(combination(s, k, b, a), combination(t, m, b, a)),
{
    lemma_smul_small(a);
    lemma_smul_small(b);
    lemma_add_identity(a);
    lemma_add_identity(b);
    lemma_smul_add(s, t, b);
    lemma_smul_add(k, m, a);
    lemma_smul_on_curve(s, b);
    lemma_smul_on_curve(t, b);
    lemma_smul_on_curve(k, a);
    lemma_smul_on_curve(m, a);
    lemma_add_shuffle(smul(s, b), smul(t, b), smul(k, a), smul(m, a));
}

/// The verdict of a lane under the cofactored policy: the request is valid so far,
/// its encoding of `R` is that of a point, and `[8] [s] B = [8] R + [8] [k] A`.
pub proof fn lemma_zip215_lane(prepared: PreparedBatch<'_>, lane: int, valid: bool, r: Seq<u8>)
    requires
        prepared.lane_wf(lane),
    ensures
        zip215_verdict(prepared, lane, valid, r) <==> {
            &&& valid
            &&& decoded(r) is Some
            &&& smul(8, smul(digits_from(prepared.s_digits@[lane]@, 0), basepoint())) == padd(
                smul(8, decoded(r)->0),
                smul(
                    8,
                    smul(
                        digits_from(prepared.k_digits@[lane]@, 0),
                        prepared.public_key_tables@[lane].point(),
                    ),
                ),
            )
        },
{
    if decoded(r) is Some {
        lemma_decoded_on_curve(r);
        lemma_cofactored_means(
            prepared.s_value(lane),
            prepared.k_value(lane),
            prepared.key(lane),
            decoded(r)->0,
        );
    }
}

/// The verdict of a lane under the cofactorless policy: the request is valid so
/// far, its lane is not excluded, and the encoding of `R` is that of the point `Q`
/// with `[s] B = Q + [k] A`.
pub proof fn lemma_dalek_lane(
    prepared: PreparedBatch<'_>,
    lane: int,
    valid: bool,
    public_key: Seq<u8>,
    r: Seq<u8>,
)
    requires
        prepared.lane_wf(lane),
        r.len() == 32,
    ensures
        dalek_verdict(prepared, lane, valid, public_key, r) <==> {
            &&& valid
            &&& !excluded_lane(public_key, r)
            &&& exists|q: Affine|
                on_curve(q) && smul(digits_from(prepared.s_digits@[lane]@, 0), basepoint())
                    == #[trigger] padd(
                    q,
                    smul(
                        digits_from(prepared.k_digits@[lane]@, 0),
                        prepared.public_key_tables@[lane].point(),
                    ),
                ) && r[31] / 128 == q.x % 2 && le256(r)
                    - 0x8000000000000000000000000000000000000000000000000000000000000000int * (r[31]
                    / 128) == q.y
        },
{
    lemma_recomputed_means(
        prepared.s_value(lane),
        prepared.k_value(lane),
        prepared.key(lane),
        r,
    );
}

/// The verdict of a lane of the split ladder: that of the equation of its policy.
pub proof fn lemma_split_lane(
    policy: VerifyPolicy,
    valid: bool,
    public_key: Seq<u8>,
    r: Seq<u8>,
    s: int,
    k: int,
)
    requires
        decoded(public_key) is Some,
        r.len() == 32,
    ensures
        split_verdict(policy, valid, public_key, r, s, k) <==> valid && match policy {
            VerifyPolicy::Zip215 => {
                &&& decoded(r) is Some
                &&& smul(8, smul(s, basepoint())) == padd(
                    smul(8, decoded(r)->0),
                    smul(8, smul(k, decoded(public_key)->0)),
                )
            },
            VerifyPolicy::Dalek => {
                &&& !excluded_lane(public_key, r)
                &&& exists|q: Affine|
                    on_curve(q) && smul(s, basepoint()) == #[trigger] padd(
                        q,
                        smul(k, decoded(public_key)->0),
                    ) && r[31] / 128 == q.x % 2 && le256(r)
                        - 0x8000000000000000000000000000000000000000000000000000000000000000int * (
                    r[31] / 128) == q.y
            },
        },
{
    lemma_decoded_on_curve(public_key);
    if decoded(r) is Some {
        lemma_decoded_on_curve(r);
        lemma_cofactored_means(s, k, decoded(public_key)->0, decoded(r)->0);
    }
    lemma_recomputed_means(s, k, decoded(public_key)->0, r);
}

/// The entries of the lanes: each is the one that the cache holds for the key of the
/// lane, and none where it holds none.
pub proof fn lemma_entries_of_lanes<C: KeyCache>(
    cache: C,
    cached_keys: Seq<Option<&CachedPublicKey>>,
    public_keys: Seq<[u8; 32]>,
    lane: int,
)
    requires
        entries_of(cache, cached_keys, public_keys, lane),
    ensures
        cached_keys[lane] is Some <==> cache.lookup(public_keys[lane]@) is Some,
        cached_keys[lane] is Some ==> cache.lookup(public_keys[lane]@) == Some(*cached_keys[lane]->0)
            && (cached_keys[lane]->0).key() == public_keys[lane]@,
{
}

/// The neutral element as it is written down: `X = T = 0` and `Y = Z = 1`.
pub proof fn lemma_plain_identity(point: EdwardsPoint)
    requires
        is_plain_identity(point),
    ensures
        point.affine() == (Affine { x: 0, y: 1 }),
        point.xv() == 0,
        point.yv() == 1,
        point.zv() == 1,
        point.tv() == 0,
{
}

/// The keys of a chunk, the keys of its lanes, and the buckets of a batch, one by one.
pub proof fn lemma_lists_of_requests(
    inputs: Seq<VerifyInput<'_>>,
    public_keys: Seq<[u8; 32]>,
    k: Seq<u8>,
)
    ensures
        in_chunk(inputs, k) <==> exists|i: int|
            0 <= i < inputs.len() && (#[trigger] inputs[i]).public_key@ == k,
        keys_of(inputs).len() == inputs.len(),
        forall|i: int| 0 <= i < inputs.len() ==> #[trigger] keys_of(inputs)[i] == inputs[i].public_key@,
        lane_keys(public_keys).len() == public_keys.len(),
        forall|i: int|
            0 <= i < public_keys.len() ==> #[trigger] lane_keys(public_keys)[i] == public_keys[i]@,
        bucket_list(inputs).len() == inputs.len(),
        forall|i: int|
            0 <= i < inputs.len() && bucket(inputs[i].message@) <= u64::MAX ==> #[trigger] bucket_list(
                inputs,
            )[i] == bucket(inputs[i].message@),
{
    assert forall|i: int|
        0 <= i < inputs.len() && bucket(inputs[i].message@) <= u64::MAX implies #[trigger] bucket_list(
        inputs,
    )[i] == bucket(inputs[i].message@) by {
        lemma_bucket_is_blocks(inputs[i].message@);
    }
}

} // verus!
