//! The batch verifier.
use crate::batch::{
    PUBLIC_KEY_LEN, PreparedBatch, PreparedSplitBatch, R_ENCODING_LEN, SIGNATURE_LEN, SIMD_LANES,
    fill_bucket_order, is_bucket_order, lemma_order_count, split_factor,
};
use crate::bytes::{le256, lemma_le_bounds};
use crate::cache::{CachedPublicKey, KeyCache, NullKeyCache, tables_of_key};
use crate::chunk::{
    all_promoted, any_lane, buckets_of, challenge_digits, challenge_scalars, dalek_legacy_excluded,
    dalek_verdict, distinct_lanes, entries_of, flagged, halves_of, in_chunk, keys_decoded,
    lane_flags_from_mask, lane_keys, leading_keys, lemma_chunk_results, lemma_leading_keys,
    lookup_lanes, parse_chunk_inputs, parts_of, point_or_identity, promoting_lanes, r_points_of,
    recover_promote_points, select_tables, split_digit_halves, split_verdict, take_chunk, zip215_verdict,
};
use crate::edwards::{EdwardsPoint, basepoint, decoded, encoded, encoded_sign};
use crate::math::curve::{identity, smul};
use crate::policy::{VerifyPolicy, r_encoding_has_canonical_y};
use crate::scalar::{Scalar, digits_small};
use crate::signature::{challenge, excluded_lane, lemma_encoding, signature_valid};
use crate::steps::{
    any_canonical, any_usable, batch_step, batch_transition, bucket_list, canonical, chunk_at, chunk_changes,
    chunk_step, chunk_transition, chunk_transitions, count_of, counting_lanes, fills_and_promotes,
    fresh_inserts, hit_by, holds_promoted, is_fresh, is_promotion, keys_of, lemma_batch_step,
    lemma_chunk, lemma_chunk_step, lemma_touch, lemma_no_inserts, lemma_no_promotions, lemma_promoted_stay,
    lemma_touches_in_order, promotable, promoting_keys, promotion_inserts, promotions,
    touches_in_order, usable,
};
use crate::tables::{BasepointTable, PointTable, lemma_invertible, lemma_same_table, lemma_table_point};
use crate::wide::{
    WideRPoints, build_promoted_split_tables, cofactored, decode_keys_and_decompress_r,
    decompress_r_points, lane_bit, lemma_recomputed, recomputed, verify_prepared_dalek,
    verify_prepared_dalek_projective, verify_prepared_split_dalek, verify_prepared_split_zip215,
    verify_prepared_zip215,
};
use vstd::prelude::*;

verus! {

/// One signature verification request: a public key, a signature and the
/// message that it signs.
#[derive(Clone, Copy, Debug)]
pub struct VerifyInput<'a> {
    /// The encoded public key.
    pub public_key: [u8; PUBLIC_KEY_LEN],
    /// The signature: the encoded `R` and the scalar `s`.
    pub signature: [u8; SIGNATURE_LEN],
    /// The signed message.
    pub message: &'a [u8],
}

impl<'a> VerifyInput<'a> {
    /// Whether the request is that of a valid signature.
    pub open spec fn valid(self, policy: VerifyPolicy) -> bool {
        signature_valid(policy, self.public_key@, self.signature@, self.message@)
    }
}

/// The tables that every verifier needs: of the base point, of its multiple by
/// `2^127`, and of the identity, for lanes without a key.
#[derive(Debug)]
struct BaseTables {
    base: BasepointTable,
    base_hi: BasepointTable,
    identity: PointTable,
}

impl BaseTables {
    #[verifier::type_invariant]
    spec fn inv(self) -> bool {
        &&& self.base.is_table_of(basepoint())
        &&& self.base_hi.is_table_of(smul(split_factor(), basepoint()))
        &&& self.identity.is_table_of(identity())
    }

    /// Builds the three tables.
    fn new() -> (r: Self)
        ensures
            r.base.is_table_of(basepoint()),
            r.base_hi.is_table_of(smul(split_factor(), basepoint())),
            r.identity.is_table_of(identity()),
    {
        BaseTables {
            base: BasepointTable::new(),
            base_hi: BasepointTable::from_point(&EdwardsPoint::basepoint().mul_by_pow2_127()),
            identity: PointTable::new(&EdwardsPoint::identity()),
        }
    }
}

/// Batch verifier for a fixed policy and key cache. Reuse one across batches.
#[derive(Debug)]
pub struct Verifier<C: KeyCache = NullKeyCache> {
    policy: VerifyPolicy,
    tables: BaseTables,
    bucket_order: Vec<usize>,
    cache: C,
}

impl Default for Verifier<NullKeyCache> {
    fn default() -> (r: Self)
        ensures
            r.rules() == VerifyPolicy::Zip215,
            r.keys() == (NullKeyCache {  }),
    {
        Verifier::new()
    }
}

impl Verifier<NullKeyCache> {
    /// A verifier with the default policy, without a cache.
    pub fn new() -> (r: Self)
        ensures
            r.rules() == VerifyPolicy::Zip215,
            r.keys() == (NullKeyCache {  }),
    {
        Verifier::with_policy(VerifyPolicy::default())
    }

    /// A verifier with a policy, without a cache.
    pub fn with_policy(policy: VerifyPolicy) -> (r: Self)
        ensures
            r.rules() == policy,
            r.keys() == (NullKeyCache {  }),
    {
        Verifier::with_cache(policy, NullKeyCache::new())
    }
}

impl<C: KeyCache> Verifier<C> {
    /// The policy that decides.
    pub closed spec fn rules(self) -> VerifyPolicy {
        self.policy
    }

    /// The cache of decoded keys.
    pub closed spec fn keys(self) -> C {
        self.cache
    }

    /// A verifier with a policy and a cache.
    pub fn with_cache(policy: VerifyPolicy, cache: C) -> (r: Self)
        ensures
            r.rules() == policy,
            r.keys() == cache,
    {
        Verifier { policy, tables: BaseTables::new(), bucket_order: Vec::new(), cache }
    }

    /// The cache.
    pub fn cache(&self) -> (r: &C)
        ensures
            *r == self.keys(),
    {
        &self.cache
    }

    /// The cache, to be changed.
    pub fn cache_mut(&mut self) -> (r: &mut C)
        ensures
            *r == old(self).keys(),
            final(self).keys() == *final(r),
            final(self).rules() == old(self).rules(),
    {
        &mut self.cache
    }

    /// The policy.
    pub fn policy(&self) -> (r: VerifyPolicy)
        ensures
            r == self.rules(),
    {
        self.policy
    }
}

impl<C: KeyCache> Verifier<C> {
    /// The cofactored equation in the lanes of a chunk. The verdicts are the
    /// same whether or not `R` is decompressed already.
    fn verify_zip215_lanes(
        &self,
        prepared: &PreparedBatch<'_>,
        decoded_r: Option<(WideRPoints, [bool; SIMD_LANES])>,
        r_bytes: &[[u8; R_ENCODING_LEN]; SIMD_LANES],
        valid: &[bool; SIMD_LANES],
        out: &mut [bool; SIMD_LANES],
    )
        requires
            prepared.wf(),
            match decoded_r {
                Some(r) => r_points_of(r.0, r.1@, r_bytes@),
                None => true,
            },
        ensures
            forall|lane: int|
                0 <= lane < 8 ==> #[trigger] final(out)@[lane] == zip215_verdict(
                    *prepared,
                    lane,
                    valid@[lane],
                    r_bytes@[lane]@,
                ),
    {
        proof {
            use_type_invariant(&self.tables);
        }
        let (r_points, r_valid) = match decoded_r {
            Some(r) => r,
            None => {
                let (points, mask) = decompress_r_points(r_bytes);
                let flags = lane_flags_from_mask(mask);
                proof {
                    assert forall|lane: int| 0 <= lane < 8 implies #[trigger] flags@[lane] == (
                    decoded(r_bytes@[lane]@) is Some) by {
                        assert(lane_bit(mask as int, lane) == (decoded(r_bytes@[lane]@) is Some));
                    }
                }
                (points, flags)
            },
        };
        assert(r_points_of(r_points, r_valid@, r_bytes@));
        let simd = verify_prepared_zip215(prepared, &r_points, &self.tables.base);
        let mut lane: usize = 0;
        while lane < 8
            invariant
                lane <= 8,
                r_points_of(r_points, r_valid@, r_bytes@),
                forall|l: int|
                    0 <= l < 8 ==> #[trigger] simd@[l] == cofactored(
                        prepared.s_value(l),
                        prepared.k_value(l),
                        prepared.key(l),
                        r_points.at(l),
                    ),
                forall|l: int|
                    0 <= l < lane ==> #[trigger] out@[l] == zip215_verdict(
                        *prepared,
                        l,
                        valid@[l],
                        r_bytes@[l]@,
                    ),
            decreases 8 - lane,
        {
            proof {
                let l = lane as int;
                assert(r_valid@[l] == (decoded(r_bytes@[l]@) is Some));
                assert(decoded(r_bytes@[l]@) is Some ==> r_points.at(l) == decoded(r_bytes@[l]@)->0);
            }
            out[lane] = simd[lane] && valid[lane] && r_valid[lane];
            lane += 1;
        }
    }

    /// The comparison with the encoded `R` in the lanes of a chunk. The verdicts
    /// are the same whether or not `R` is decompressed already.
    fn verify_dalek_lanes(
        &self,
        prepared: &PreparedBatch<'_>,
        decoded_r: Option<(WideRPoints, [bool; SIMD_LANES])>,
        r_bytes: &[[u8; R_ENCODING_LEN]; SIMD_LANES],
        public_keys: &[[u8; PUBLIC_KEY_LEN]; SIMD_LANES],
        valid: &[bool; SIMD_LANES],
        out: &mut [bool; SIMD_LANES],
    )
        requires
            prepared.wf(),
            match decoded_r {
                Some(r) => r_points_of(r.0, r.1@, r_bytes@),
                None => true,
            },
        ensures
            forall|lane: int|
                0 <= lane < 8 ==> #[trigger] final(out)@[lane] == dalek_verdict(
                    *prepared,
                    lane,
                    valid@[lane],
                    public_keys@[lane]@,
                    r_bytes@[lane]@,
                ),
    {
        proof {
            use_type_invariant(&self.tables);
        }
        match decoded_r {
            Some((r_points, r_valid)) => {
                // The points are there: compare them, and leave out what is
                // not the encoding of its point.
                let simd = verify_prepared_dalek_projective(prepared, &r_points, &self.tables.base);
                let x_zero = r_points.x_zero_lanes();
                let mut lane: usize = 0;
                while lane < 8
                    invariant
                        lane <= 8,
                        prepared.wf(),
                        r_points_of(r_points, r_valid@, r_bytes@),
                        forall|l: int|
                            0 <= l < 8 ==> #[trigger] x_zero@[l] == (r_points.at(l).x == 0),
                        forall|l: int|
                            0 <= l < 8 ==> #[trigger] simd@[l] == (recomputed(
                                prepared.s_value(l),
                                prepared.k_value(l),
                                prepared.key(l),
                            ) == r_points.at(l)),
                        forall|l: int|
                            0 <= l < lane ==> #[trigger] out@[l] == dalek_verdict(
                                *prepared,
                                l,
                                valid@[l],
                                public_keys@[l]@,
                                r_bytes@[l]@,
                            ),
                    decreases 8 - lane,
                {
                    proof {
                        let l = lane as int;
                        let bytes = r_bytes@[l]@;
                        let point = recomputed(
                            prepared.s_value(l),
                            prepared.k_value(l),
                            prepared.key(l),
                        );
                        assert(prepared.lane_wf(l));
                        lemma_recomputed(prepared.s_value(l), prepared.k_value(l), prepared.key(l));
                        lemma_encoding(bytes, point);
                        lemma_le_bounds(bytes);
                        assert(r_valid@[l] == (decoded(bytes) is Some));
                        assert(decoded(bytes) is Some ==> r_points.at(l) == decoded(bytes)->0);
                        assert((encoded_sign(bytes) != 0) == (bytes[31] >= 128));
                    }
                    let signed_zero = x_zero[lane] && r_bytes[lane][31] >= 128;
                    out[lane] = simd[lane] && valid[lane] && r_valid[lane]
                        && r_encoding_has_canonical_y(&r_bytes[lane]) && !signed_zero
                        && !dalek_legacy_excluded(&public_keys[lane], &r_bytes[lane]);
                    lane += 1;
                }
            },
            None => {
                // Nothing is decompressed yet: compare the encodings.
                let simd = verify_prepared_dalek(prepared, r_bytes, &self.tables.base);
                let mut lane: usize = 0;
                while lane < 8
                    invariant
                        lane <= 8,
                        forall|l: int|
                            0 <= l < 8 ==> #[trigger] simd@[l] == (le256(r_bytes@[l]@) == encoded(
                                recomputed(
                                    prepared.s_value(l),
                                    prepared.k_value(l),
                                    prepared.key(l),
                                ),
                            )),
                        forall|l: int|
                            0 <= l < lane ==> #[trigger] out@[l] == dalek_verdict(
                                *prepared,
                                l,
                                valid@[l],
                                public_keys@[l]@,
                                r_bytes@[l]@,
                            ),
                    decreases 8 - lane,
                {
                    out[lane] = simd[lane] && valid[lane] && !dalek_legacy_excluded(
                        &public_keys[lane],
                        &r_bytes[lane],
                    );
                    lane += 1;
                }
            },
        }
    }

    /// A chunk whose lanes are all hits with promoted entries, by the split
    /// ladder.
    fn verify_split_chunk(
        &self,
        cached_keys: &[Option<&CachedPublicKey>; SIMD_LANES],
        r_bytes: &[[u8; R_ENCODING_LEN]; SIMD_LANES],
        public_keys: &[[u8; PUBLIC_KEY_LEN]; SIMD_LANES],
        s_scalars: &[Scalar; SIMD_LANES],
        messages: [&[u8]; SIMD_LANES],
        valid: &[bool; SIMD_LANES],
        out: &mut [bool; SIMD_LANES],
    )
        requires
            forall|lane: int|
                0 <= lane < 8 ==> (#[trigger] cached_keys@[lane]) is Some
                    && cached_keys@[lane]->0.promoted() && cached_keys@[lane]->0.key()
                    == public_keys@[lane]@,
            forall|lane: int| 0 <= lane < 8 ==> (#[trigger] s_scalars@[lane]).wf(),
        ensures
            forall|lane: int|
                0 <= lane < 8 ==> decoded((#[trigger] public_keys@[lane])@) is Some,
            forall|lane: int|
                0 <= lane < 8 ==> #[trigger] final(out)@[lane] == split_verdict(
                    self.rules(),
                    valid@[lane],
                    public_keys@[lane]@,
                    r_bytes@[lane]@,
                    s_scalars@[lane].val(),
                    challenge(r_bytes@[lane]@, public_keys@[lane]@, messages@[lane]@),
                ),
    {
        proof {
            use_type_invariant(&self.tables);
        }
        let mut a_tables: [&PointTable; SIMD_LANES] = [&self.tables.identity; 8];
        let mut a_hi_tables: [&PointTable; SIMD_LANES] = [&self.tables.identity; 8];
        let mut lane: usize = 0;
        while lane < 8
            invariant
                lane <= 8,
                forall|l: int|
                    0 <= l < 8 ==> (#[trigger] cached_keys@[l]) is Some
                        && cached_keys@[l]->0.promoted() && cached_keys@[l]->0.key()
                        == public_keys@[l]@,
                forall|l: int|
                    0 <= l < lane ==> tables_of_key(
                        public_keys@[l]@,
                        *#[trigger] a_tables@[l],
                        Some(*a_hi_tables@[l]),
                    ),
            decreases 8 - lane,
        {
            assert(cached_keys@[lane as int] is Some);
            let entry = cached_keys[lane].unwrap();
            a_tables[lane] = entry.table();
            a_hi_tables[lane] = entry.table_hi().unwrap();
            lane += 1;
        }
        let k_scalars = challenge_scalars(r_bytes, public_keys, messages);
        let (k0_digits, k1_digits) = split_digit_halves(&k_scalars);
        let (s0_digits, s1_digits) = split_digit_halves(s_scalars);
        let prepared = PreparedSplitBatch {
            a_tables,
            a_hi_tables,
            k0_digits: &k0_digits,
            k1_digits: &k1_digits,
            s0_digits: &s0_digits,
            s1_digits: &s1_digits,
        };
        proof {
            assert forall|l: int| 0 <= l < 8 implies #[trigger] prepared.lane_wf(l)
                && prepared.s_value(l) == s_scalars@[l].val() && prepared.k_value(l) == challenge(
                r_bytes@[l]@,
                public_keys@[l]@,
                messages@[l]@,
            ) && decoded(public_keys@[l]@) == Some(prepared.key(l)) by {
                assert(halves_of(k0_digits@[l]@, k1_digits@[l]@, k_scalars@[l].val()));
                assert(halves_of(s0_digits@[l]@, s1_digits@[l]@, s_scalars@[l].val()));
                assert(tables_of_key(public_keys@[l]@, *a_tables@[l], Some(*a_hi_tables@[l])));
                lemma_table_point(*a_tables@[l], decoded(public_keys@[l]@)->0);
                assert(k_scalars@[l].wf());
            }
        }
        assert forall|l: int| 0 <= l < 8 implies decoded((#[trigger] public_keys@[l])@) is Some by {
            assert(prepared.lane_wf(l));
        }
        match self.policy {
            VerifyPolicy::Zip215 => {
                let (simd, r_valid) = verify_prepared_split_zip215(
                    &prepared,
                    r_bytes,
                    &self.tables.base,
                    &self.tables.base_hi,
                );
                let mut lane: usize = 0;
                while lane < 8
                    invariant
                        lane <= 8,
                        forall|l: int|
                            0 <= l < lane ==> #[trigger] out@[l] == (simd@[l] && valid@[l]
                                && r_valid@[l]),
                    decreases 8 - lane,
                {
                    out[lane] = simd[lane] && valid[lane] && r_valid[lane];
                    lane += 1;
                }
                proof {
                    assert forall|l: int| 0 <= l < 8 implies #[trigger] out@[l] == split_verdict(
                        self.policy,
                        valid@[l],
                        public_keys@[l]@,
                        r_bytes@[l]@,
                        s_scalars@[l].val(),
                        challenge(r_bytes@[l]@, public_keys@[l]@, messages@[l]@),
                    ) by {
                        assert(prepared.lane_wf(l));
                        assert(r_valid@[l] == (decoded(r_bytes@[l]@) is Some));
                        assert(simd@[l] == (decoded(r_bytes@[l]@) is Some && cofactored(
                            prepared.s_value(l),
                            prepared.k_value(l),
                            prepared.key(l),
                            decoded(r_bytes@[l]@)->0,
                        )));
                    }
                }
            },
            VerifyPolicy::Dalek => {
                let simd = verify_prepared_split_dalek(
                    &prepared,
                    r_bytes,
                    &self.tables.base,
                    &self.tables.base_hi,
                );
                let mut lane: usize = 0;
                while lane < 8
                    invariant
                        lane <= 8,
                        forall|l: int|
                            0 <= l < lane ==> #[trigger] out@[l] == (simd@[l] && valid@[l]
                                && !excluded_lane(public_keys@[l]@, r_bytes@[l]@)),
                    decreases 8 - lane,
                {
                    out[lane] = simd[lane] && valid[lane] && !dalek_legacy_excluded(
                        &public_keys[lane],
                        &r_bytes[lane],
                    );
                    lane += 1;
                }
                proof {
                    assert forall|l: int| 0 <= l < 8 implies #[trigger] out@[l] == split_verdict(
                        self.policy,
                        valid@[l],
                        public_keys@[l]@,
                        r_bytes@[l]@,
                        s_scalars@[l].val(),
                        challenge(r_bytes@[l]@, public_keys@[l]@, messages@[l]@),
                    ) by {
                        assert(prepared.lane_wf(l));
                        assert(simd@[l] == (le256(r_bytes@[l]@) == encoded(
                            recomputed(
                                prepared.s_value(l),
                                prepared.k_value(l),
                                prepared.key(l),
                            ),
                        )));
                    }
                }
            },
        }
    }
}

/// Where the tables of a key stand that is promoted: the one that the cache
/// holds, and behind it the one of the multiple by `2^127`, with the hits. There
/// is no place for a key that the cache does not hold.
spec fn placed(
    slot: Option<(usize, u8)>,
    held: Option<CachedPublicKey>,
    key: Seq<u8>,
    tables: Seq<&PointTable>,
) -> bool {
    match held {
        None => slot is None,
        Some(e) => match slot {
            None => false,
            Some((at, hits)) => {
                &&& at + 1 < tables.len()
                &&& hits == e.hit_count()
                &&& *tables[at as int] == e.low()
                &&& tables_of_key(key, *tables[at as int], Some(*tables[at + 1]))
            },
        },
    }
}

impl<C: KeyCache> Verifier<C> {
    /// Builds the tables for the split ladder of the keys in the promoting
    /// lanes, normalizes them together with the tables that the cache holds,
    /// and puts both into the cache.
    fn run_promotion(
        &mut self,
        promote_points: &[EdwardsPoint; SIMD_LANES],
        promote_lanes: &[bool; SIMD_LANES],
        public_keys: &[[u8; PUBLIC_KEY_LEN]; SIMD_LANES],
    )
        requires
            forall|lane: int| 0 <= lane < 8 ==> (#[trigger] promote_points@[lane]).wf(),
            forall|lane: int|
                0 <= lane < 8 && #[trigger] promote_lanes@[lane] ==> decoded(
                    public_keys@[lane]@,
                ) == Some(promote_points@[lane].affine()),
        ensures
            final(self).rules() == old(self).rules(),
            promotions(
                old(self).keys(),
                final(self).keys(),
                leading_keys(promote_lanes@, lane_keys(public_keys@)),
            ),
    {
        let hi_tables = build_promoted_split_tables(promote_points);
        let lanes = distinct_lanes(promote_lanes, public_keys);
        let ghost start = self.cache;
        let ghost rules = self.policy;
        let ghost list = leading_keys(promote_lanes@, lane_keys(public_keys@));
        assert forall|j: int| 0 <= j < lanes@.len() implies public_keys@[(
        #[trigger] lanes@[j]) as int]@ == list[j] by {
        }
        let mut i: usize = 0;
        while i < lanes.len()
            invariant
                i <= lanes@.len(),
                self.policy == rules,
                forall|j: int|
                    0 <= j < lanes@.len() ==> (#[trigger] lanes@[j]) < 8
                        && public_keys@[lanes@[j] as int]@ == list[j],
                touches_in_order(start, self.cache, list, i as int),
            decreases lanes@.len() - i,
        {
            let ghost before = self.cache;
            let lane = lanes[i];
            let _ = self.cache.get(&public_keys[lane]);
            proof {
                lemma_touch(start, before, self.cache, list, i as int);
            }
            i += 1;
        }
        let ghost mid = self.cache;
        let mut slots: Vec<Option<(usize, u8)>> = Vec::new();
        let mut to_normalize: Vec<&PointTable> = Vec::new();
        let mut i: usize = 0;
        while i < lanes.len()
            invariant
                i <= lanes@.len(),
                lanes@.len() <= 8,
                self.cache == mid,
                forall|j: int|
                    0 <= j < lanes@.len() ==> (#[trigger] lanes@[j]) < 8
                        && promote_lanes@[lanes@[j] as int] && public_keys@[lanes@[j] as int]@
                        == list[j],
                forall|lane: int|
                    0 <= lane < 8 && #[trigger] promote_lanes@[lane] ==> decoded(
                        public_keys@[lane]@,
                    ) == Some(promote_points@[lane].affine()),
                forall|lane: int|
                    0 <= lane < 8 ==> (#[trigger] hi_tables@[lane]).is_table_of(
                        smul(split_factor(), promote_points@[lane].affine()),
                    ),
                slots@.len() == i,
                to_normalize@.len() <= 2 * i,
                forall|t: int| 0 <= t < to_normalize@.len() ==> (#[trigger] to_normalize@[t]).wf(),
                forall|j: int|
                    0 <= j < i ==> placed(
                        #[trigger] slots@[j],
                        mid.lookup(list[j]),
                        list[j],
                        to_normalize@,
                    ),
            decreases lanes@.len() - i,
        {
            let lane = lanes[i];
            let ghost (old_slots, old_tables) = (slots@, to_normalize@);
            match self.cache.peek(&public_keys[lane]) {
                None => {
                    slots.push(None);
                },
                Some(entry) => {
                    assert(promote_lanes@[lane as int]);
                    slots.push(Some((to_normalize.len(), entry.hits())));
                    to_normalize.push(entry.table());
                    to_normalize.push(&hi_tables[lane]);
                },
            }
            proof {
                assert forall|j: int| 0 <= j < i + 1 implies placed(
                    #[trigger] slots@[j],
                    mid.lookup(list[j]),
                    list[j],
                    to_normalize@,
                ) by {
                    if j < i {
                        assert(slots@[j] == old_slots[j]);
                        assert(placed(old_slots[j], mid.lookup(list[j]), list[j], old_tables));
                    }
                }
            }
            i += 1;
        }
        proof {
            lemma_invertible(to_normalize@);
        }
        let normalized = PointTable::normalized_affine_batch(to_normalize.as_slice());
        let ghost given = to_normalize@;
        let mut i: usize = 0;
        while i < lanes.len()
            invariant
                i <= lanes@.len(),
                lanes@.len() == slots@.len(),
                self.policy == rules,
                normalized@.len() == given.len(),
                given.len() <= 16,
                forall|j: int|
                    0 <= j < lanes@.len() ==> (#[trigger] lanes@[j]) < 8
                        && public_keys@[lanes@[j] as int]@ == list[j],
                forall|t: int| 0 <= t < given.len() ==> (#[trigger] given[t]).wf(),
                forall|t: int|
                    0 <= t < normalized@.len() ==> (#[trigger] normalized@[t]).wf()
                        && normalized@[t].normalized() && normalized@[t].same_points(
                        *given[t],
                    ),
                forall|j: int|
                    0 <= j < lanes@.len() ==> placed(
                        #[trigger] slots@[j],
                        mid.lookup(list[j]),
                        list[j],
                        given,
                    ),
                promotion_inserts(mid, self.cache, list, i as int),
            decreases lanes@.len() - i,
        {
            let lane = lanes[i];
            let ghost before = self.cache;
            let ghost key = list[i as int];
            assert(placed(slots@[i as int], mid.lookup(key), key, given));
            match slots[i] {
                None => {},
                Some((at, hits)) => {
                    proof {
                        let a = decoded(key)->0;
                        let (lo, hi) = (given[at as int], given[at + 1]);
                        assert(lo.wf() && hi.wf());
                        assert(normalized@[at as int].wf() && normalized@[at + 1].wf());
                        lemma_same_table(normalized@[at as int], *lo, a);
                        lemma_same_table(normalized@[at + 1], *hi, smul(split_factor(), a));
                    }
                    let entry = CachedPublicKey::new(
                        public_keys[lane],
                        normalized[at],
                        Some(normalized[at + 1]),
                        hits,
                    );
                    self.cache.insert(entry);
                    assert(is_promotion(entry, key, mid.lookup(key)->0));
                    assert(before.inserts_to(entry, &self.cache));
                },
            }
            i += 1;
        }
        assert(touches_in_order(start, mid, list, list.len() as int));
    }
}

impl<C: KeyCache> Verifier<C> {
    /// Counts a hit for every lane.
    fn touch_lanes(&mut self, public_keys: &[[u8; PUBLIC_KEY_LEN]; SIMD_LANES])
        ensures
            final(self).rules() == old(self).rules(),
            touches_in_order(old(self).keys(), final(self).keys(), lane_keys(public_keys@), 8),
            forall|k: Seq<u8>|
                hit_by(
                    old(self).keys().lookup(k),
                    #[trigger] final(self).keys().lookup(k),
                    count_of(lane_keys(public_keys@), k, 8),
                ),
    {
        let ghost start = self.cache;
        let ghost rules = self.policy;
        let ghost keys = lane_keys(public_keys@);
        let mut lane: usize = 0;
        while lane < 8
            invariant
                lane <= 8,
                self.policy == rules,
                keys == lane_keys(public_keys@),
                touches_in_order(start, self.cache, keys, lane as int),
            decreases 8 - lane,
        {
            let ghost before = self.cache;
            let _ = self.cache.get(&public_keys[lane]);
            proof {
                lemma_touch(start, before, self.cache, keys, lane as int);
            }
            lane += 1;
        }
        proof {
            assert forall|k: Seq<u8>| hit_by(
                start.lookup(k),
                #[trigger] self.cache.lookup(k),
                count_of(keys, k, 8),
            ) by {
                lemma_touches_in_order(start, self.cache, keys, 8, k);
            }
        }
    }
}

impl<C: KeyCache> Verifier<C> {
    /// Inserts the keys that were missing and that are points into the cache,
    /// lane by lane.
    fn insert_decoded(
        &mut self,
        tables: &[PointTable; SIMD_LANES],
        key_valid: &[bool; SIMD_LANES],
        missing: &[bool; SIMD_LANES],
        public_keys: &[[u8; PUBLIC_KEY_LEN]; SIMD_LANES],
    )
        requires
            keys_decoded(tables@, key_valid@, public_keys@),
            forall|l: int|
                0 <= l < 8 ==> #[trigger] missing@[l] == (old(self).keys().lookup(
                    public_keys@[l]@,
                ) is None),
        ensures
            final(self).rules() == old(self).rules(),
            fresh_inserts(
                old(self).keys(),
                final(self).keys(),
                lane_keys(public_keys@),
                tables@,
                8,
            ),
    {
        let ghost start = self.cache;
        let ghost rules = self.policy;
        let ghost keys = lane_keys(public_keys@);
        let mut lane: usize = 0;
        while lane < 8
            invariant
                lane <= 8,
                self.policy == rules,
                keys == lane_keys(public_keys@),
                fresh_inserts(start, self.cache, keys, tables@, lane as int),
                keys_decoded(tables@, key_valid@, public_keys@),
                forall|l: int|
                    0 <= l < 8 ==> #[trigger] missing@[l] == (start.lookup(
                        public_keys@[l]@,
                    ) is None),
            decreases 8 - lane,
        {
            let ghost key = public_keys@[lane as int]@;
            proof {
                assert(keys[lane as int] == key);
                assert(missing@[lane as int] == (start.lookup(key) is None));
                assert(key_valid@[lane as int] == (decoded(key) is Some));
                assert(tables@[lane as int].is_projective_table_of(point_or_identity(key)));
            }
            if missing[lane] && key_valid[lane] {
                let ghost before = self.cache;
                let entry = CachedPublicKey::new(public_keys[lane], tables[lane], None, 0);
                self.cache.insert(entry);
                assert(is_fresh(entry, key, tables@[lane as int]));
                assert(before.inserts_to(entry, &self.cache));
            }
            lane += 1;
        }
    }

    /// Verifies the eight requests of a chunk. Where no lane is usable the
    /// results are left as they are.
    fn try_verify_chunk(
        &mut self,
        inputs: &[VerifyInput<'_>; SIMD_LANES],
        out: &mut [bool; SIMD_LANES],
    )
        ensures
            final(self).rules() == old(self).rules(),
            any_usable(inputs@) ==> forall|l: int|
                0 <= l < 8 ==> #[trigger] final(out)@[l] == inputs@[l].valid(old(self).rules()),
            !any_usable(inputs@) ==> final(out)@ == old(out)@,
            chunk_transition(old(self).keys(), final(self).keys(), inputs@),
            !any_canonical(inputs@) ==> final(self).keys() == old(self).keys(),
            any_canonical(inputs@) && (!any_usable(inputs@) || holds_promoted(
                old(self).keys(),
                keys_of(inputs@),
            )) ==> touches_in_order(old(self).keys(), final(self).keys(), keys_of(inputs@), 8),
            forall|k: Seq<u8>|
                chunk_step(
                    old(self).keys().lookup(k),
                    #[trigger] final(self).keys().lookup(k),
                    k,
                    counting_lanes(inputs@, k),
                    any_usable(inputs@),
                ),
    {
        let policy = self.policy;
        let parts = parse_chunk_inputs(inputs);
        let mut valid = parts.valid;
        let ghost c0 = self.keys();
        let ghost keys = keys_of(inputs@);
        proof {
            assert forall|l: int| 0 <= l < 8 implies #[trigger] keys[l]
                == parts.public_keys@[l]@ by {
                assert(parts_of(parts, inputs@, l));
            }
            assert(keys =~= lane_keys(parts.public_keys@));
        }
        if !any_lane(&valid) {
            proof {
                assert forall|l: int| 0 <= l < 8 implies !canonical(#[trigger] inputs@[l]) by {
                    assert(parts_of(parts, inputs@, l));
                    assert(!valid@[l]);
                }
                self.lemma_chunk_done(c0, inputs@);
            }
            return ;
        }
        assert(any_canonical(inputs@)) by {
            let l = choose|l: int| 0 <= l < 8 && #[trigger] valid@[l];
            assert(parts_of(parts, inputs@, l));
            assert(canonical(inputs@[l]));
        }
        self.touch_lanes(&parts.public_keys);
        let ghost c1 = self.keys();
        proof {
            if holds_promoted(c0, keys) {
                lemma_promoted_stay(c0, c1, keys, 8);
            }
        }
        let (cached_keys, missing) = lookup_lanes(&self.cache, &parts.public_keys);
        proof {
            assert forall|l: int|
                0 <= l < 8 && (#[trigger] cached_keys@[l]) is Some implies cached_keys@[l]->0.key()
                == parts.public_keys@[l]@ by {
                assert(entries_of(c1, cached_keys@, parts.public_keys@, l));
            }
        }
        if all_promoted(&cached_keys) {
            proof {
                assert forall|l: int| 0 <= l < 8 implies (#[trigger] parts.s_scalars@[l]).wf() by {
                    assert(parts_of(parts, inputs@, l));
                }
            }
            self.verify_split_chunk(
                &cached_keys,
                &parts.r_bytes,
                &parts.public_keys,
                &parts.s_scalars,
                parts.messages,
                &valid,
                out,
            );
            proof {
                assert forall|l: int| 0 <= l < 8 implies #[trigger] out@[l] == inputs@[l].valid(
                    policy,
                ) by {
                    assert(parts_of(parts, inputs@, l));
                    assert(decoded(parts.public_keys@[l]@) is Some);
                }
                let m = choose|m: int| 0 <= m < 8 && #[trigger] valid@[m];
                assert(parts_of(parts, inputs@, m));
                assert(decoded(parts.public_keys@[m]@) is Some);
                assert(usable(inputs@[m]));
                assert forall|l: int| 0 <= l < 8 implies c1.lookup(#[trigger] keys[l]) is Some && (
                c1.lookup(keys[l])->0).promoted() by {
                    assert(entries_of(c1, cached_keys@, parts.public_keys@, l));
                    assert(cached_keys@[l] is Some);
                }
                assert(chunk_changes(c1, c1, inputs@));
                self.lemma_chunk_done(c0, inputs@);
            }
            return ;
        }
        assert(!holds_promoted(c1, keys)) by {
            let l = choose|l: int|
                0 <= l < 8 && !((#[trigger] cached_keys@[l]) is Some
                    && cached_keys@[l]->0.promoted());
            assert(entries_of(c1, cached_keys@, parts.public_keys@, l));
            assert(keys[l] == parts.public_keys@[l]@);
        }
        let promote_lanes = promoting_lanes(&cached_keys);
        proof {
            let flags = Seq::new(keys.len(), |l: int| promotable(c1.lookup(keys[l])));
            assert forall|l: int| 0 <= l < 8 implies #[trigger] promote_lanes@[l] == flags[l] by {
                assert(entries_of(c1, cached_keys@, parts.public_keys@, l));
                assert(keys[l] == parts.public_keys@[l]@);
            }
            assert(promote_lanes@ =~= flags);
            lemma_leading_keys(flags, keys);
        }
        let promote_points: Option<[EdwardsPoint; SIMD_LANES]> = if any_lane(&promote_lanes) {
            Some(recover_promote_points(&cached_keys, &promote_lanes))
        } else {
            None
        };
        let mut decoded_r: Option<(WideRPoints, [bool; SIMD_LANES])> = None;
        let mut decoded_keys: Option<([PointTable; SIMD_LANES], [bool; SIMD_LANES])> = None;
        if any_lane(&missing) {
            let (tables, key_mask, r_points, r_mask) = decode_keys_and_decompress_r(
                &parts.public_keys,
                &parts.r_bytes,
            );
            let key_flags = lane_flags_from_mask(key_mask);
            let r_flags = lane_flags_from_mask(r_mask);
            proof {
                assert forall|l: int| 0 <= l < 8 implies #[trigger] key_flags@[l] == (decoded(
                    parts.public_keys@[l]@,
                ) is Some) by {
                    assert(lane_bit(key_mask as int, l) == (decoded(
                        parts.public_keys@[l]@,
                    ) is Some));
                }
                assert forall|l: int| 0 <= l < 8 implies #[trigger] r_flags@[l] == (decoded(
                    parts.r_bytes@[l]@,
                ) is Some) by {
                    assert(lane_bit(r_mask as int, l) == (decoded(parts.r_bytes@[l]@) is Some));
                }
                assert(r_points_of(r_points, r_flags@, parts.r_bytes@));
                assert(keys_decoded(tables@, key_flags@, parts.public_keys@));
            }
            decoded_keys = Some((tables, key_flags));
            decoded_r = Some((r_points, r_flags));
        }
        proof {
            use_type_invariant(&self.tables);
            if decoded_keys is None {
                assert forall|l: int| 0 <= l < 8 implies (#[trigger] cached_keys@[l]) is Some by {
                    assert(missing@[l] == (cached_keys@[l] is None));
                }
            }
        }
        let public_key_tables = select_tables(
            &cached_keys,
            &decoded_keys,
            &self.tables.identity,
            &parts.public_keys,
            &mut valid,
        );
        if !any_lane(&valid) {
            proof {
                assert forall|l: int| 0 <= l < 8 implies !usable(#[trigger] inputs@[l]) by {
                    assert(parts_of(parts, inputs@, l));
                    assert(!valid@[l]);
                }
                assert(chunk_changes(c1, c1, inputs@));
                self.lemma_chunk_done(c0, inputs@);
            }
            return ;
        }
        assert(any_usable(inputs@)) by {
            let l = choose|l: int| 0 <= l < 8 && #[trigger] valid@[l];
            assert(parts_of(parts, inputs@, l));
            assert(usable(inputs@[l]));
        }
        let k_digits = challenge_digits(&parts.r_bytes, &parts.public_keys, parts.messages);
        let prepared = PreparedBatch {
            public_key_tables,
            s_digits: &parts.s_digits,
            k_digits: &k_digits,
        };
        proof {
            assert forall|l: int| 0 <= l < 8 implies #[trigger] prepared.lane_wf(l)
                && prepared.key(l) == point_or_identity(parts.public_keys@[l]@) by {
                assert(parts_of(parts, inputs@, l));
                assert(public_key_tables@[l].is_table_of(
                    point_or_identity(parts.public_keys@[l]@),
                ));
                lemma_table_point(
                    *public_key_tables@[l],
                    point_or_identity(parts.public_keys@[l]@),
                );
                assert(digits_small(k_digits@[l]@));
            }
        }
        match policy {
            VerifyPolicy::Zip215 => self.verify_zip215_lanes(
                &prepared,
                decoded_r,
                &parts.r_bytes,
                &valid,
                out,
            ),
            VerifyPolicy::Dalek => self.verify_dalek_lanes(
                &prepared,
                decoded_r,
                &parts.r_bytes,
                &parts.public_keys,
                &valid,
                out,
            ),
        }
        proof {
            assert forall|l: int| 0 <= l < 8 implies #[trigger] out@[l] == inputs@[l].valid(
                policy,
            ) by {
                assert(parts_of(parts, inputs@, l));
                assert(prepared.lane_wf(l));
                assert(digits_small(k_digits@[l]@));
                assert(valid@[l] == (parts.valid@[l] && decoded(parts.public_keys@[l]@) is Some));
                lemma_chunk_results(policy, parts, inputs@, prepared, valid@[l], out@[l], l);
            }
            assert forall|l: int| 0 <= l < 8 implies #[trigger] missing@[l] == (c1.lookup(
                parts.public_keys@[l]@,
            ) is None) by {
                assert(entries_of(c1, cached_keys@, parts.public_keys@, l));
            }
        }
        let ghost tables = match decoded_keys {
            Some(d) => d.0@,
            None => Seq::empty(),
        };
        match &decoded_keys {
            Some(d) => {
                self.insert_decoded(&d.0, &d.1, &missing, &parts.public_keys);
            },
            None => {
                proof {
                    assert forall|l: int| 0 <= l < 8 implies c1.lookup(
                        #[trigger] keys[l],
                    ) is Some by {
                        assert(cached_keys@[l] is Some);
                        assert(missing@[l] == (cached_keys@[l] is None));
                    }
                    lemma_no_inserts(c1, keys, tables, 8);
                }
            },
        }
        let ghost c2 = self.keys();
        proof {
            assert forall|l: int|
                0 <= l < keys.len() && c1.lookup(keys[l]) is None && decoded(
                    keys[l],
                ) is Some implies (#[trigger] tables[l]).is_projective_table_of(
                decoded(keys[l])->0,
            ) by {
                assert(missing@[l] == (c1.lookup(parts.public_keys@[l]@) is None));
                assert(tables[l].is_projective_table_of(
                    point_or_identity(parts.public_keys@[l]@),
                ));
            }
        }
        match &promote_points {
            Some(points) => {
                self.run_promotion(points, &promote_lanes, &parts.public_keys);
            },
            None => {
                proof {
                    let list = promoting_keys(c1, keys);
                    if list.len() > 0 {
                        assert(flagged(promote_lanes@, keys, list[0]));
                        let l = choose|l: int|
                            0 <= l < keys.len() && #[trigger] promote_lanes@[l] && keys[l]
                                == list[0];
                        assert(promote_lanes@[l]);
                    }
                    lemma_no_promotions(c2, list);
                }
            },
        }
        proof {
            assert(fills_and_promotes(c1, self.keys(), keys, tables, c2));
            self.lemma_chunk_done(c0, inputs@);
        }
    }

    /// A chunk that is done has changed the entries of the cache as it should.
    proof fn lemma_chunk_done(self, before: C, inputs: Seq<VerifyInput<'_>>)
        requires
            inputs.len() == 8,
            chunk_transition(before, self.keys(), inputs),
        ensures
            forall|k: Seq<u8>|
                chunk_step(
                    before.lookup(k),
                    #[trigger] self.keys().lookup(k),
                    k,
                    counting_lanes(inputs, k),
                    any_usable(inputs),
                ),
    {
        assert forall|k: Seq<u8>| chunk_step(
            before.lookup(k),
            #[trigger] self.keys().lookup(k),
            k,
            counting_lanes(inputs, k),
            any_usable(inputs),
        ) by {
            lemma_chunk_step(before, self.keys(), inputs, k);
        }
    }
}

/// The results of a batch: whether each request is that of a valid signature.
pub open spec fn batch_results(policy: VerifyPolicy, inputs: Seq<VerifyInput<'_>>) -> Seq<bool> {
    Seq::new(inputs.len(), |i: int| inputs[i].valid(policy))
}

impl<C: KeyCache> Verifier<C> {
    /// Verifies a batch and writes one result per request: whether its
    /// signature is valid under the policy. What the cache holds does not
    /// matter for the results. The keys of the batch are counted, cached and
    /// promoted chunk by chunk.
    pub fn verify_batch(&mut self, inputs: &[VerifyInput<'_>], out: &mut [bool])
        requires
            inputs@.len() == old(out)@.len(),
        ensures
            final(out)@ == batch_results(old(self).rules(), inputs@),
            final(out)@.len() == inputs@.len(),
            forall|i: int|
                0 <= i < inputs@.len() ==> #[trigger] final(out)@[i] == signature_valid(
                    old(self).rules(),
                    inputs@[i].public_key@,
                    inputs@[i].signature@,
                    inputs@[i].message@,
                ),
            final(self).rules() == old(self).rules(),
            batch_transition(old(self).keys(), final(self).keys(), inputs@),
            forall|k: Seq<u8>|
                batch_step(
                    old(self).keys().lookup(k),
                    #[trigger] final(self).keys().lookup(k),
                    in_chunk(inputs@, k),
                ),
    {
        let ghost c0 = self.keys();
        let ghost rules = self.rules();
        let buckets = buckets_of(inputs);
        let mut positions: Vec<usize> = Vec::new();
        std::mem::swap(&mut positions, &mut self.bucket_order);
        fill_bucket_order(&buckets, &mut positions);
        let count = buckets.len();
        let mut start: usize = 0;
        let ghost mut done: int = 0;
        proof {
            lemma_order_count(buckets@, positions@);
            assert(buckets@ =~= bucket_list(inputs@));
        }
        while start < count
            invariant
                count == positions@.len(),
                count == inputs@.len(),
                start <= count,
                is_bucket_order(buckets@, positions@),
                buckets@.len() == inputs@.len(),
                out@.len() == inputs@.len(),
                self.rules() == rules,
                done == (start + 7) / 8,
                start < count ==> start == 8 * done,
                chunk_transitions(c0, self.keys(), inputs@, positions@, done),
                forall|j: int|
                    0 <= j < start ==> out@[(#[trigger] positions@[j]) as int]
                        == inputs@[positions@[j] as int].valid(rules),
            decreases count - start,
        {
            let lanes: usize = if count - start < SIMD_LANES {
                count - start
            } else {
                SIMD_LANES
            };
            let chunk = take_chunk(inputs, &positions, start, lanes);
            let mut results: [bool; SIMD_LANES] = [false; 8];
            let ghost before = self.keys();
            self.try_verify_chunk(&chunk, &mut results);
            proof {
                assert(chunk@ =~= chunk_at(inputs@, positions@, start as int));
                lemma_chunk(c0, before, self.keys(), inputs@, positions@, done);
                done = done + 1;
                if !any_usable(chunk@) {
                    assert forall|l: int| 0 <= l < 8 implies !(#[trigger] chunk@[l]).valid(
                        rules,
                    ) by {
                        assert(!usable(chunk@[l]));
                    }
                }
                assert forall|l: int| 0 <= l < lanes implies #[trigger] results@[l]
                    == inputs@[positions@[start + l] as int].valid(rules) by {
                    assert(chunk@[l] == inputs@[positions@[start + l] as int]);
                }
            }
            let mut lane: usize = 0;
            while lane < lanes
                invariant
                    lane <= lanes,
                    lanes <= 8,
                    start + lanes <= count,
                    count == positions@.len(),
                    is_bucket_order(buckets@, positions@),
                    buckets@.len() == inputs@.len(),
                    out@.len() == inputs@.len(),
                    forall|l: int|
                        0 <= l < lanes ==> #[trigger] results@[l] == inputs@[positions@[start
                            + l] as int].valid(rules),
                    forall|j: int|
                        0 <= j < start + lane ==> out@[(#[trigger] positions@[j]) as int]
                            == inputs@[positions@[j] as int].valid(rules),
                decreases lanes - lane,
            {
                let index = positions[start + lane];
                let ghost before = out@;
                assert(positions@[start + lane] < buckets@.len());
                out[index] = results[lane];
                proof {
                    assert forall|j: int| 0 <= j < start + lane + 1 implies out@[(
                    #[trigger] positions@[j]) as int] == inputs@[positions@[j] as int].valid(
                        rules,
                    ) by {
                        if j < start + lane {
                            assert(before[positions@[j] as int]
                                == inputs@[positions@[j] as int].valid(rules));
                        }
                    }
                }
                lane += 1;
            }
            start = start + lanes;
        }
        proof {
            assert forall|i: int| 0 <= i < inputs@.len() implies #[trigger] out@[i]
                == inputs@[i].valid(rules) by {
                assert(positions@.contains(i as usize));
                let j = choose|j: int| 0 <= j < positions@.len() && positions@[j] == i as usize;
                assert(out@[positions@[j] as int] == inputs@[positions@[j] as int].valid(rules));
            }
            assert(out@ =~= batch_results(rules, inputs@));
        }
        let ghost end = self.keys();
        proof {
            reveal(batch_transition);
            assert forall|k: Seq<u8>| batch_step(
                c0.lookup(k),
                #[trigger] end.lookup(k),
                in_chunk(inputs@, k),
            ) by {
                assert forall|j: int| 0 <= j < positions@.len() implies (#[trigger] positions@[j])
                    < inputs@.len() by {
                    assert(positions@[j] < buckets@.len());
                }
                lemma_batch_step(c0, end, inputs@, positions@, done, k);
            }
        }
        self.bucket_order = positions;
        assert(self.keys() == end);
    }
}

} // verus!
