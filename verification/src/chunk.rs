//! The requests of a chunk, taken apart and prepared lane by lane.
use crate::batch::{
    PUBLIC_KEY_LEN, PreparedBatch, R_ENCODING_LEN, SIGNATURE_LEN, SIMD_LANES, bucket, split_factor,
};
use crate::bytes::{bytes_equal, le256, lemma_le256_injective};
use crate::cache::{CachedPublicKey, KeyCache};
use crate::edwards::{EdwardsPoint, decoded, encoded};
use crate::math::curve::{Affine, identity};
use crate::policy::{VerifyPolicy, r_encoding_is_legacy_excluded};
use crate::scalar::{Radix16, Radix16Half, Scalar, digits_from, digits_small, is_canonical, order};
use crate::sha512::{digest, hash_ed25519_challenge_words};
use crate::signature::{challenge, equation_holds, excluded_lane, lemma_wide, signature_r, signature_s};
use crate::tables::{PointTable, lemma_table_point};
use crate::verify::VerifyInput;
use crate::wide::{WideRPoints, cofactored, lane_bit, recomputed};
use vstd::prelude::*;

verus! {

/// The parts of the requests of a chunk.
pub struct ChunkParts<'a> {
    pub valid: [bool; SIMD_LANES],
    pub r_bytes: [[u8; R_ENCODING_LEN]; SIMD_LANES],
    pub public_keys: [[u8; PUBLIC_KEY_LEN]; SIMD_LANES],
    pub s_digits: [Radix16; SIMD_LANES],
    pub s_scalars: [Scalar; SIMD_LANES],
    pub messages: [&'a [u8]; SIMD_LANES],
}

/// The parts of a lane are those of its request; its scalar is zero where the
/// request holds none that is below the order.
pub open spec fn parts_of(parts: ChunkParts<'_>, inputs: Seq<VerifyInput<'_>>, lane: int) -> bool {
    let s = signature_s(inputs[lane].signature@);
    let value = if s < order() {
        s
    } else {
        0
    };
    &&& parts.valid@[lane] == (s < order())
    &&& parts.r_bytes@[lane]@ == signature_r(inputs[lane].signature@)
    &&& parts.public_keys@[lane]@ == inputs[lane].public_key@
    &&& parts.messages@[lane]@ == inputs[lane].message@
    &&& digits_small(parts.s_digits@[lane]@)
    &&& digits_from(parts.s_digits@[lane]@, 0) == value
    &&& parts.s_scalars@[lane].wf()
    &&& parts.s_scalars@[lane].val() == value
}

/// The encoded `R` and the bytes of the scalar of a signature.
pub fn split_signature(signature: &[u8; SIGNATURE_LEN]) -> (r: ([u8; 32], [u8; 32]))
    ensures
        r.0@ == signature_r(signature@),
        r.1@ == signature@.subrange(32, 64),
{
    let mut a: [u8; 32] = [0; 32];
    let mut b: [u8; 32] = [0; 32];
    let mut i: usize = 0;
    while i < 32
        invariant
            i <= 32,
            forall|j: int| 0 <= j < i ==> #[trigger] a@[j] == signature@[j],
            forall|j: int| 0 <= j < i ==> #[trigger] b@[j] == signature@[j + 32],
        decreases 32 - i,
    {
        a[i] = signature[i];
        b[i] = signature[i + 32];
        i += 1;
    }
    assert(a@ =~= signature_r(signature@));
    assert(b@ =~= signature@.subrange(32, 64));
    (a, b)
}

/// Takes the requests of a chunk apart.
pub fn parse_chunk_inputs<'a>(inputs: &[VerifyInput<'a>; SIMD_LANES]) -> (parts: ChunkParts<'a>)
    ensures
        forall|lane: int| 0 <= lane < 8 ==> #[trigger] parts_of(parts, inputs@, lane),
{
    let zero_bytes: [u8; 32] = [0; 32];
    assert(le256(zero_bytes@) == 0);
    let zero = Scalar::from_canonical_bytes(zero_bytes);
    let mut parts = ChunkParts {
        valid: [true; 8],
        r_bytes: [[0; 32]; 8],
        public_keys: [[0; 32]; 8],
        s_digits: [zero.to_radix16(); 8],
        s_scalars: [zero; 8],
        messages: [inputs[0].message; 8],
    };
    let mut lane: usize = 0;
    while lane < 8
        invariant
            lane <= 8,
            forall|l: int| 0 <= l < lane ==> #[trigger] parts_of(parts, inputs@, l),
            forall|l: int|
                lane <= l < 8 ==> digits_small((#[trigger] parts.s_digits@[l])@) && digits_from(
                    parts.s_digits@[l]@,
                    0,
                ) == 0,
            forall|l: int|
                lane <= l < 8 ==> (#[trigger] parts.s_scalars@[l]).wf() && parts.s_scalars@[l].val()
                    == 0,
            forall|l: int| lane <= l < 8 ==> #[trigger] parts.valid@[l],
        decreases 8 - lane,
    {
        let input = inputs[lane];
        let ghost before = parts;
        let (r, s_bytes) = split_signature(&input.signature);
        parts.r_bytes[lane] = r;
        if is_canonical(&s_bytes) {
            let scalar = Scalar::from_canonical_bytes(s_bytes);
            parts.s_digits[lane] = scalar.to_radix16();
            parts.s_scalars[lane] = scalar;
        } else {
            parts.valid[lane] = false;
        }
        parts.public_keys[lane] = input.public_key;
        parts.messages[lane] = input.message;
        proof {
            assert forall|l: int| 0 <= l < lane + 1 implies #[trigger] parts_of(parts, inputs@, l) by {
                if l < lane {
                    assert(parts_of(before, inputs@, l));
                } else {
                    assert(before.valid@[l]);
                    assert(digits_from(before.s_digits@[l]@, 0) == 0);
                    assert(before.s_scalars@[l].wf());
                }
            }
        }
        lane += 1;
    }
    parts
}

/// The challenges of all lanes.
pub fn challenge_scalars(
    r_bytes: &[[u8; R_ENCODING_LEN]; SIMD_LANES],
    public_keys: &[[u8; PUBLIC_KEY_LEN]; SIMD_LANES],
    messages: [&[u8]; SIMD_LANES],
) -> (r: [Scalar; SIMD_LANES])
    ensures
        forall|lane: int|
            0 <= lane < 8 ==> (#[trigger] r@[lane]).wf() && r@[lane].val() == challenge(
                r_bytes@[lane]@,
                public_keys@[lane]@,
                messages@[lane]@,
            ),
{
    let words = hash_ed25519_challenge_words(r_bytes, public_keys, messages);
    let mut r: [Scalar; SIMD_LANES] = [Scalar::from_wide_words(words[0]); 8];
    let mut lane: usize = 0;
    while lane < 8
        invariant
            lane <= 8,
            forall|l: int, i: int|
                0 <= l < 8 && 0 <= i < 8 ==> #[trigger] words@[l]@[i] == crate::bytes::le64(
                    digest(r_bytes@[l]@ + public_keys@[l]@ + messages@[l]@),
                    8 * i,
                ),
            forall|l: int|
                0 <= l < lane ==> (#[trigger] r@[l]).wf() && r@[l].val() == challenge(
                    r_bytes@[l]@,
                    public_keys@[l]@,
                    messages@[l]@,
                ),
        decreases 8 - lane,
    {
        r[lane] = Scalar::from_wide_words(words[lane]);
        proof {
            let l = lane as int;
            lemma_wide(
                words@[l]@,
                digest(r_bytes@[l]@ + public_keys@[l]@ + messages@[l]@),
            );
        }
        lane += 1;
    }
    r
}

/// The digits of the challenges of all lanes.
pub fn challenge_digits(
    r_bytes: &[[u8; R_ENCODING_LEN]; SIMD_LANES],
    public_keys: &[[u8; PUBLIC_KEY_LEN]; SIMD_LANES],
    messages: [&[u8]; SIMD_LANES],
) -> (r: [Radix16; SIMD_LANES])
    ensures
        forall|lane: int|
            0 <= lane < 8 ==> digits_small((#[trigger] r@[lane])@) && digits_from(r@[lane]@, 0)
                == challenge(r_bytes@[lane]@, public_keys@[lane]@, messages@[lane]@),
{
    let scalars = challenge_scalars(r_bytes, public_keys, messages);
    let mut r: [Radix16; SIMD_LANES] = [[0; 64]; 8];
    let mut lane: usize = 0;
    while lane < 8
        invariant
            lane <= 8,
            forall|l: int|
                0 <= l < 8 ==> (#[trigger] scalars@[l]).wf() && scalars@[l].val() == challenge(
                    r_bytes@[l]@,
                    public_keys@[l]@,
                    messages@[l]@,
                ),
            forall|l: int|
                0 <= l < lane ==> digits_small((#[trigger] r@[l])@) && digits_from(r@[l]@, 0)
                    == challenge(r_bytes@[l]@, public_keys@[l]@, messages@[l]@),
        decreases 8 - lane,
    {
        r[lane] = scalars[lane].to_radix16();
        lane += 1;
    }
    r
}

/// Small digits that stand for the halves of a scalar, split at bit 127.
pub open spec fn halves_of(lo: Seq<i8>, hi: Seq<i8>, value: int) -> bool {
    &&& digits_small(lo)
    &&& digits_small(hi)
    &&& digits_from(lo, 0) == value % split_factor()
    &&& digits_from(lo, 0) + split_factor() * digits_from(hi, 0) == value
}

/// The digits of the halves of the scalars of all lanes.
pub fn split_digit_halves(scalars: &[Scalar; SIMD_LANES]) -> (r: (
    [Radix16Half; SIMD_LANES],
    [Radix16Half; SIMD_LANES],
))
    requires
        forall|lane: int| 0 <= lane < 8 ==> (#[trigger] scalars@[lane]).wf(),
    ensures
        forall|lane: int|
            0 <= lane < 8 ==> #[trigger] halves_of(r.0@[lane]@, r.1@[lane]@, scalars@[lane].val()),
{
    let mut lo: [Radix16Half; SIMD_LANES] = [[0; 32]; 8];
    let mut hi: [Radix16Half; SIMD_LANES] = [[0; 32]; 8];
    let mut lane: usize = 0;
    while lane < 8
        invariant
            lane <= 8,
            forall|l: int| 0 <= l < 8 ==> (#[trigger] scalars@[l]).wf(),
            forall|l: int|
                0 <= l < lane ==> #[trigger] halves_of(lo@[l]@, hi@[l]@, scalars@[l].val()),
        decreases 8 - lane,
    {
        let (low, high) = scalars[lane].split_radix16();
        lo[lane] = low;
        hi[lane] = high;
        lane += 1;
    }
    (lo, hi)
}

/// Whether legacy verifiers exclude a key or an encoded `R`.
pub fn dalek_legacy_excluded(
    public_key: &[u8; PUBLIC_KEY_LEN],
    r_bytes: &[u8; R_ENCODING_LEN],
) -> (r: bool)
    ensures
        r == excluded_lane(public_key@, r_bytes@),
{
    let zero: [u8; 32] = [0; 32];
    proof {
        assert(le256(zero@) == 0);
        if le256(public_key@) == 0 {
            lemma_le256_injective(public_key@, zero@);
        }
    }
    bytes_equal(public_key, &zero) || r_encoding_is_legacy_excluded(r_bytes)
}

/// The flags of a mask.
pub fn lane_flags_from_mask(mask: u8) -> (r: [bool; SIMD_LANES])
    ensures
        forall|lane: int| 0 <= lane < 8 ==> #[trigger] r@[lane] == lane_bit(mask as int, lane),
{
    let mut r: [bool; SIMD_LANES] = [false; 8];
    let mut rest: u8 = mask;
    let mut lane: usize = 0;
    while lane < 8
        invariant
            lane <= 8,
            forall|l: int| 0 <= l < lane ==> #[trigger] r@[l] == lane_bit(mask as int, l),
            forall|l: int|
                lane <= l < 8 ==> #[trigger] lane_bit(mask as int, l) == lane_bit(
                    rest as int,
                    l - lane,
                ),
        decreases 8 - lane,
    {
        assert(lane_bit(mask as int, lane as int) == lane_bit(rest as int, 0));
        r[lane] = rest % 2 == 1;
        rest = rest / 2;
        lane += 1;
    }
    r
}

/// Whether any lane has its flag.
pub fn any_lane(lanes: &[bool; SIMD_LANES]) -> (r: bool)
    ensures
        r == exists|lane: int| 0 <= lane < 8 && #[trigger] lanes@[lane],
{
    let mut lane: usize = 0;
    while lane < 8
        invariant
            lane <= 8,
            forall|l: int| 0 <= l < lane ==> !#[trigger] lanes@[l],
        decreases 8 - lane,
    {
        if lanes[lane] {
            return true;
        }
        lane += 1;
    }
    false
}

/// The identity with the coordinates `(0 : 1 : 1 : 0)`.
pub open spec fn is_plain_identity(point: EdwardsPoint) -> bool {
    &&& point.affine() == identity()
    &&& point.xv() == 0
    &&& point.yv() == 1
    &&& point.zv() == 1
    &&& point.tv() == 0
}

/// The points of the promoting lanes, and the identity elsewhere.
pub fn recover_promote_points(
    cached_keys: &[Option<&CachedPublicKey>; SIMD_LANES],
    promote_lanes: &[bool; SIMD_LANES],
) -> (r: [EdwardsPoint; SIMD_LANES])
    requires
        forall|lane: int|
            0 <= lane < 8 && #[trigger] promote_lanes@[lane] ==> cached_keys@[lane] is Some,
    ensures
        forall|lane: int| 0 <= lane < 8 ==> (#[trigger] r@[lane]).wf(),
        forall|lane: int|
            0 <= lane < 8 && !#[trigger] promote_lanes@[lane] ==> is_plain_identity(r@[lane]),
        forall|lane: int|
            0 <= lane < 8 && #[trigger] promote_lanes@[lane]
                ==> cached_keys@[lane]->0.low().recovers_to(r@[lane]),
        forall|lane: int|
            0 <= lane < 8 && #[trigger] promote_lanes@[lane] ==> decoded(
                cached_keys@[lane]->0.key(),
            ) == Some(r@[lane].affine()),
{
    let mut r: [EdwardsPoint; SIMD_LANES] = [EdwardsPoint::identity(); 8];
    let mut lane: usize = 0;
    while lane < 8
        invariant
            lane <= 8,
            forall|l: int|
                0 <= l < 8 && #[trigger] promote_lanes@[l] ==> cached_keys@[l] is Some,
            forall|l: int| 0 <= l < 8 ==> (#[trigger] r@[l]).wf(),
            forall|l: int| lane <= l < 8 ==> is_plain_identity(#[trigger] r@[l]),
            forall|l: int|
                0 <= l < lane && !#[trigger] promote_lanes@[l] ==> is_plain_identity(r@[l]),
            forall|l: int|
                0 <= l < lane && #[trigger] promote_lanes@[l]
                    ==> cached_keys@[l]->0.low().recovers_to(r@[l]),
            forall|l: int|
                0 <= l < lane && #[trigger] promote_lanes@[l] ==> decoded(cached_keys@[l]->0.key())
                    == Some(r@[l].affine()),
        decreases 8 - lane,
    {
        if promote_lanes[lane] {
            let entry = cached_keys[lane].unwrap();
            let table = entry.table();
            proof {
                lemma_table_point(*table, decoded(entry.key())->0);
            }
            r[lane] = table.recover_base_point();
        }
        lane += 1;
    }
    r
}

/// Decompressed points and flags that belong to the encoded `R` of all lanes.
pub open spec fn r_points_of(points: WideRPoints, flags: Seq<bool>, r_bytes: Seq<[u8; R_ENCODING_LEN]>) -> bool {
    &&& points.wf()
    &&& forall|lane: int|
        0 <= lane < 8 ==> #[trigger] flags[lane] == (decoded(r_bytes[lane]@) is Some)
    &&& forall|lane: int|
        0 <= lane < 8 && decoded(r_bytes[lane]@) is Some ==> #[trigger] points.at(lane) == decoded(
            r_bytes[lane]@,
        )->0
}

/// The encoded keys of all lanes.
pub open spec fn lane_keys(public_keys: Seq<[u8; PUBLIC_KEY_LEN]>) -> Seq<Seq<u8>> {
    Seq::new(public_keys.len(), |l: int| public_keys[l]@)
}

/// A lane has its flag, and is the first with a flag and its key.
pub open spec fn leads(flags: Seq<bool>, keys: Seq<Seq<u8>>, l: int) -> bool {
    &&& flags[l]
    &&& forall|j: int| 0 <= j < l && #[trigger] flags[j] ==> keys[j] != keys[l]
}

/// The first lanes of the flagged keys, among the first `n` lanes.
pub open spec fn leading_lanes(flags: Seq<bool>, keys: Seq<Seq<u8>>, n: int) -> Seq<usize>
    decreases n,
{
    if n <= 0 {
        Seq::empty()
    } else if leads(flags, keys, n - 1) {
        leading_lanes(flags, keys, n - 1).push((n - 1) as usize)
    } else {
        leading_lanes(flags, keys, n - 1)
    }
}

/// The flagged keys, each once, in the order of their first lanes.
pub open spec fn leading_keys(flags: Seq<bool>, keys: Seq<Seq<u8>>) -> Seq<Seq<u8>> {
    let lanes = leading_lanes(flags, keys, keys.len() as int);
    Seq::new(lanes.len(), |j: int| keys[lanes[j] as int])
}

/// The leading lanes rise, each leads, and every flagged key is that of one.
pub proof fn lemma_leading_lanes(flags: Seq<bool>, keys: Seq<Seq<u8>>, n: int)
    requires
        0 <= n <= 8,
    ensures
        leading_lanes(flags, keys, n).len() <= n,
        forall|j: int|
            0 <= j < leading_lanes(flags, keys, n).len() ==> (#[trigger] leading_lanes(
                flags,
                keys,
                n,
            )[j]) < n && leads(flags, keys, leading_lanes(flags, keys, n)[j] as int),
        forall|i: int, j: int|
            0 <= i < j < leading_lanes(flags, keys, n).len() ==> (#[trigger] leading_lanes(
                flags,
                keys,
                n,
            )[i]) < (#[trigger] leading_lanes(flags, keys, n)[j]),
        forall|l: int|
            0 <= l < n && #[trigger] flags[l] ==> exists|j: int|
                0 <= j < leading_lanes(flags, keys, n).len() && keys[(#[trigger] leading_lanes(
                    flags,
                    keys,
                    n,
                )[j]) as int] == keys[l],
    decreases n,
{
    let r = leading_lanes(flags, keys, n);
    if n > 0 {
        lemma_leading_lanes(flags, keys, n - 1);
        let before = leading_lanes(flags, keys, n - 1);
        let m = n - 1;
        if leads(flags, keys, m) {
            assert(r[before.len() as int] == m as usize);
        }
        assert forall|l: int| 0 <= l < n && #[trigger] flags[l] implies exists|j: int|
            0 <= j < r.len() && keys[(#[trigger] r[j]) as int] == keys[l] by {
            if l == m && leads(flags, keys, m) {
                assert(keys[r[before.len() as int] as int] == keys[l]);
            } else {
                let l2 = if l < m {
                    l
                } else {
                    choose|j: int| 0 <= j < m && #[trigger] flags[j] && keys[j] == keys[m]
                };
                assert(flags[l2]);
                let j = choose|j: int|
                    0 <= j < before.len() && keys[(#[trigger] before[j]) as int] == keys[l2];
                assert(r[j] == before[j]);
            }
        }
    }
}

/// A key is that of a flagged lane.
pub open spec fn flagged(flags: Seq<bool>, keys: Seq<Seq<u8>>, k: Seq<u8>) -> bool {
    exists|l: int| 0 <= l < keys.len() && #[trigger] flags[l] && keys[l] == k
}

/// The leading keys are the flagged ones, each once.
pub proof fn lemma_leading_keys(flags: Seq<bool>, keys: Seq<Seq<u8>>)
    requires
        keys.len() == 8,
    ensures
        forall|i: int, j: int|
            0 <= i < j < leading_keys(flags, keys).len() ==> #[trigger] leading_keys(flags, keys)[i]
                != #[trigger] leading_keys(flags, keys)[j],
        forall|j: int|
            0 <= j < leading_keys(flags, keys).len() ==> flagged(
                flags,
                keys,
                #[trigger] leading_keys(flags, keys)[j],
            ),
        forall|l: int|
            0 <= l < 8 && #[trigger] flags[l] ==> leading_keys(flags, keys).contains(keys[l]),
{
    let lanes = leading_lanes(flags, keys, 8);
    let r = leading_keys(flags, keys);
    lemma_leading_lanes(flags, keys, 8);
    assert forall|i: int, j: int| 0 <= i < j < r.len() implies #[trigger] r[i]
        != #[trigger] r[j] by {
        assert(lanes[i] < lanes[j]);
        assert(leads(flags, keys, lanes[i] as int));
        assert(leads(flags, keys, lanes[j] as int));
        assert(flags[lanes[i] as int]);
    }
    assert forall|j: int| 0 <= j < r.len() implies flagged(flags, keys, #[trigger] r[j]) by {
        assert(leads(flags, keys, lanes[j] as int));
        assert(flags[lanes[j] as int]);
    }
    assert forall|l: int| 0 <= l < 8 && #[trigger] flags[l] implies r.contains(keys[l]) by {
        let j = choose|j: int| 0 <= j < lanes.len() && keys[(#[trigger] lanes[j]) as int] == keys[l];
        assert(r[j] == keys[l]);
    }
}

/// The promoting lanes, one for each key: the first of its lanes.
pub fn distinct_lanes(
    promote_lanes: &[bool; SIMD_LANES],
    public_keys: &[[u8; PUBLIC_KEY_LEN]; SIMD_LANES],
) -> (r: Vec<usize>)
    ensures
        r@ == leading_lanes(promote_lanes@, lane_keys(public_keys@), 8),
        r@.len() <= 8,
        forall|j: int| 0 <= j < r@.len() ==> (#[trigger] r@[j]) < 8 && promote_lanes@[r@[j] as int],
{
    let ghost flags = promote_lanes@;
    let ghost keys = lane_keys(public_keys@);
    let mut r: Vec<usize> = Vec::new();
    let mut lane: usize = 0;
    while lane < 8
        invariant
            lane <= 8,
            flags == promote_lanes@,
            keys == lane_keys(public_keys@),
            r@ == leading_lanes(flags, keys, lane as int),
        decreases 8 - lane,
    {
        proof {
            lemma_leading_lanes(flags, keys, lane as int);
        }
        if promote_lanes[lane] {
            let mut seen = false;
            let mut k: usize = 0;
            while k < r.len()
                invariant
                    lane < 8,
                    k <= r@.len(),
                    keys == lane_keys(public_keys@),
                    forall|j: int| 0 <= j < r@.len() ==> (#[trigger] r@[j]) < 8,
                    seen == exists|j: int|
                        0 <= j < k && keys[(#[trigger] r@[j]) as int] == keys[lane as int],
                decreases r@.len() - k,
            {
                let same = bytes_equal(&public_keys[r[k]], &public_keys[lane]);
                if same {
                    seen = true;
                    assert(keys[r@[k as int] as int] == keys[lane as int]);
                }
                k += 1;
            }
            proof {
                if seen {
                    let j = choose|j: int|
                        0 <= j < r@.len() && keys[(#[trigger] r@[j]) as int] == keys[lane as int];
                    assert(flags[r@[j] as int]);
                }
                assert(seen == !leads(flags, keys, lane as int));
            }
            if !seen {
                r.push(lane);
            }
        }
        lane += 1;
    }
    proof {
        lemma_leading_lanes(flags, keys, 8);
    }
    r
}

/// Whether a key is that of a request of a chunk.
pub open spec fn in_chunk(inputs: Seq<VerifyInput<'_>>, k: Seq<u8>) -> bool {
    exists|l: int| 0 <= l < inputs.len() && (#[trigger] inputs[l]).public_key@ == k
}

/// The entries of a cache for the keys of all lanes.
pub open spec fn entries_of<C: KeyCache>(
    cache: C,
    cached_keys: Seq<Option<&CachedPublicKey>>,
    public_keys: Seq<[u8; PUBLIC_KEY_LEN]>,
    lane: int,
) -> bool {
    match cached_keys[lane] {
        Some(e) => cache.lookup(public_keys[lane]@) == Some(*e) && e.key() == public_keys[lane]@,
        None => cache.lookup(public_keys[lane]@) is None,
    }
}

/// Whether the entries of all lanes are promoted.
pub fn all_promoted(cached_keys: &[Option<&CachedPublicKey>; SIMD_LANES]) -> (r: bool)
    ensures
        r == forall|l: int|
            0 <= l < 8 ==> (#[trigger] cached_keys@[l]) is Some && cached_keys@[l]->0.promoted(),
{
    let mut lane: usize = 0;
    while lane < 8
        invariant
            lane <= 8,
            forall|l: int|
                0 <= l < lane ==> (#[trigger] cached_keys@[l]) is Some
                    && cached_keys@[l]->0.promoted(),
        decreases 8 - lane,
    {
        let promoted = match cached_keys[lane] {
            Some(key) => key.table_hi().is_some(),
            None => false,
        };
        if !promoted {
            assert(!(cached_keys@[lane as int] is Some && cached_keys@[lane as int]->0.promoted()));
            return false;
        }
        lane += 1;
    }
    true
}

/// The lanes whose keys are hit for the second time at least, and not promoted.
pub fn promoting_lanes(cached_keys: &[Option<&CachedPublicKey>; SIMD_LANES]) -> (r: [bool;
    SIMD_LANES])
    ensures
        forall|l: int|
            0 <= l < 8 ==> #[trigger] r@[l] == (cached_keys@[l] is Some
                && !cached_keys@[l]->0.promoted() && cached_keys@[l]->0.hit_count() >= 2),
{
    let mut r: [bool; SIMD_LANES] = [false; 8];
    let mut lane: usize = 0;
    while lane < 8
        invariant
            lane <= 8,
            forall|l: int|
                0 <= l < lane ==> #[trigger] r@[l] == (cached_keys@[l] is Some
                    && !cached_keys@[l]->0.promoted() && cached_keys@[l]->0.hit_count() >= 2),
        decreases 8 - lane,
    {
        r[lane] = match cached_keys[lane] {
            Some(key) => key.table_hi().is_none() && key.hits() >= 2,
            None => false,
        };
        lane += 1;
    }
    r
}

/// The entries for the keys of all lanes.
pub fn lookup_lanes<'a, C: KeyCache>(
    cache: &'a C,
    public_keys: &[[u8; PUBLIC_KEY_LEN]; SIMD_LANES],
) -> (r: ([Option<&'a CachedPublicKey>; SIMD_LANES], [bool; SIMD_LANES]))
    ensures
        forall|l: int| 0 <= l < 8 ==> #[trigger] entries_of(*cache, r.0@, public_keys@, l),
        forall|l: int| 0 <= l < 8 ==> #[trigger] r.1@[l] == (r.0@[l] is None),
{
    let mut cached_keys: [Option<&'a CachedPublicKey>; SIMD_LANES] = [None; 8];
    let mut missing: [bool; SIMD_LANES] = [false; 8];
    let mut lane: usize = 0;
    while lane < 8
        invariant
            lane <= 8,
            forall|l: int|
                0 <= l < lane ==> #[trigger] entries_of(*cache, cached_keys@, public_keys@, l),
            forall|l: int| 0 <= l < lane ==> #[trigger] missing@[l] == (cached_keys@[l] is None),
        decreases 8 - lane,
    {
        let ghost before = cached_keys@;
        let entry = cache.peek(&public_keys[lane]);
        cached_keys[lane] = entry;
        missing[lane] = entry.is_none();
        proof {
            assert forall|l: int| 0 <= l < lane + 1 implies #[trigger] entries_of(
                *cache,
                cached_keys@,
                public_keys@,
                l,
            ) by {
                if l < lane {
                    assert(entries_of(*cache, before, public_keys@, l));
                }
            }
        }
        lane += 1;
    }
    (cached_keys, missing)
}

/// The point of an encoded key; the identity where it is none.
pub open spec fn point_or_identity(key: Seq<u8>) -> Affine {
    match decoded(key) {
        Some(a) => a,
        None => identity(),
    }
}

/// Tables and flags that belong to the encoded keys of all lanes.
pub open spec fn keys_decoded(
    tables: Seq<PointTable>,
    flags: Seq<bool>,
    public_keys: Seq<[u8; PUBLIC_KEY_LEN]>,
) -> bool {
    &&& forall|l: int|
        0 <= l < 8 ==> (#[trigger] tables[l]).is_projective_table_of(
            point_or_identity(public_keys[l]@),
        )
    &&& forall|l: int|
        0 <= l < 8 ==> #[trigger] flags[l] == (decoded(public_keys[l]@) is Some)
}

/// The tables for the keys of all lanes, from the cache or freshly decoded. A
/// lane whose key is no point is no longer valid, and gets the table of the
/// identity.
pub fn select_tables<'a>(
    cached_keys: &[Option<&'a CachedPublicKey>; SIMD_LANES],
    decoded_keys: &'a Option<([PointTable; SIMD_LANES], [bool; SIMD_LANES])>,
    identity_table: &'a PointTable,
    public_keys: &[[u8; PUBLIC_KEY_LEN]; SIMD_LANES],
    valid: &mut [bool; SIMD_LANES],
) -> (r: [&'a PointTable; SIMD_LANES])
    requires
        identity_table.is_table_of(identity()),
        forall|l: int|
            0 <= l < 8 && (#[trigger] cached_keys@[l]) is Some ==> cached_keys@[l]->0.key()
                == public_keys@[l]@,
        match decoded_keys {
            Some(d) => keys_decoded(d.0@, d.1@, public_keys@),
            None => forall|l: int| 0 <= l < 8 ==> (#[trigger] cached_keys@[l]) is Some,
        },
    ensures
        forall|l: int|
            0 <= l < 8 ==> (#[trigger] r@[l]).is_table_of(point_or_identity(public_keys@[l]@)),
        forall|l: int|
            0 <= l < 8 ==> #[trigger] final(valid)@[l] == (old(valid)@[l] && decoded(
                public_keys@[l]@,
            ) is Some),
        forall|l: int|
            0 <= l < 8 && (#[trigger] cached_keys@[l]) is Some ==> decoded(
                public_keys@[l]@,
            ) is Some,
        forall|l: int|
            0 <= l < 8 && (#[trigger] cached_keys@[l]) is Some ==> *r@[l] == cached_keys@[l]->0.low(),
        forall|l: int|
            0 <= l < 8 && (#[trigger] cached_keys@[l]) is None ==> match decoded_keys {
                Some(d) => *r@[l] == if d.1@[l] {
                    d.0@[l]
                } else {
                    *identity_table
                },
                None => true,
            },
{
    let ghost start = valid@;
    let mut r: [&'a PointTable; SIMD_LANES] = [identity_table; 8];
    let mut lane: usize = 0;
    while lane < 8
        invariant
            lane <= 8,
            identity_table.is_table_of(identity()),
            forall|l: int|
                0 <= l < 8 && (#[trigger] cached_keys@[l]) is Some ==> cached_keys@[l]->0.key()
                    == public_keys@[l]@,
            match decoded_keys {
                Some(d) => keys_decoded(d.0@, d.1@, public_keys@),
                None => forall|l: int| 0 <= l < 8 ==> (#[trigger] cached_keys@[l]) is Some,
            },
            forall|l: int|
                0 <= l < lane ==> (#[trigger] r@[l]).is_table_of(
                    point_or_identity(public_keys@[l]@),
                ),
            forall|l: int|
                0 <= l < lane ==> #[trigger] valid@[l] == (start[l] && decoded(
                    public_keys@[l]@,
                ) is Some),
            forall|l: int| lane <= l < 8 ==> #[trigger] valid@[l] == start[l],
            forall|l: int|
                0 <= l < lane && (#[trigger] cached_keys@[l]) is Some ==> decoded(
                    public_keys@[l]@,
                ) is Some,
            forall|l: int|
                0 <= l < lane && (#[trigger] cached_keys@[l]) is Some ==> *r@[l] == cached_keys@[l]->0.low(),
            forall|l: int|
                0 <= l < lane && (#[trigger] cached_keys@[l]) is None ==> match decoded_keys {
                    Some(d) => *r@[l] == if d.1@[l] {
                        d.0@[l]
                    } else {
                        *identity_table
                    },
                    None => true,
                },
        decreases 8 - lane,
    {
        let ghost l = lane as int;
        match cached_keys[lane] {
            Some(key) => {
                r[lane] = key.table();
            },
            None => {
                assert(cached_keys@[l] is None);
                match decoded_keys {
                    Some(d) => {
                        assert(d.1@[l] == (decoded(public_keys@[l]@) is Some));
                        assert(d.0@[l].is_projective_table_of(
                            point_or_identity(public_keys@[l]@),
                        ));
                        if d.1[lane] {
                            r[lane] = &d.0[lane];
                        } else {
                            valid[lane] = false;
                            r[lane] = identity_table;
                        }
                    },
                    None => {},
                }
            },
        }
        lane += 1;
    }
    r
}

/// The verdict of the full ladder on a lane under the cofactored policy.
pub open spec fn zip215_verdict(
    prepared: PreparedBatch<'_>,
    lane: int,
    valid: bool,
    r: Seq<u8>,
) -> bool {
    valid && decoded(r) is Some && cofactored(
        prepared.s_value(lane),
        prepared.k_value(lane),
        prepared.key(lane),
        decoded(r)->0,
    )
}

/// The verdict of the full ladder on a lane under the cofactorless policy.
pub open spec fn dalek_verdict(
    prepared: PreparedBatch<'_>,
    lane: int,
    valid: bool,
    public_key: Seq<u8>,
    r: Seq<u8>,
) -> bool {
    valid && le256(r) == encoded(
        recomputed(prepared.s_value(lane), prepared.k_value(lane), prepared.key(lane)),
    ) && !excluded_lane(public_key, r)
}

/// The verdict of the split ladder on a lane.
pub open spec fn split_verdict(
    policy: VerifyPolicy,
    valid: bool,
    public_key: Seq<u8>,
    r: Seq<u8>,
    s: int,
    k: int,
) -> bool {
    valid && equation_holds(policy, public_key, r, s, k)
}

/// The results of a chunk whose lanes are verified by the full ladder.
pub proof fn lemma_chunk_results(
    policy: VerifyPolicy,
    parts: ChunkParts<'_>,
    inputs: Seq<VerifyInput<'_>>,
    prepared: PreparedBatch<'_>,
    valid: bool,
    out: bool,
    l: int,
)
    requires
        0 <= l < 8,
        parts_of(parts, inputs, l),
        valid == (parts.valid@[l] && decoded(parts.public_keys@[l]@) is Some),
        prepared.s_value(l) == digits_from(parts.s_digits@[l]@, 0),
        prepared.k_value(l) == challenge(
            parts.r_bytes@[l]@,
            parts.public_keys@[l]@,
            parts.messages@[l]@,
        ),
        prepared.key(l) == point_or_identity(parts.public_keys@[l]@),
        match policy {
            VerifyPolicy::Zip215 => out == zip215_verdict(
                prepared,
                l,
                valid,
                parts.r_bytes@[l]@,
            ),
            VerifyPolicy::Dalek => out == dalek_verdict(
                prepared,
                l,
                valid,
                parts.public_keys@[l]@,
                parts.r_bytes@[l]@,
            ),
        },
    ensures
        out == inputs[l].valid(policy),
{
}

/// The buckets of requests.
pub fn buckets_of(inputs: &[VerifyInput<'_>]) -> (r: Vec<u64>)
    ensures
        r@.len() == inputs@.len(),
        forall|i: int| 0 <= i < inputs@.len() ==> #[trigger] r@[i] == bucket(inputs@[i].message@),
{
    let mut r: Vec<u64> = Vec::new();
    let mut i: usize = 0;
    while i < inputs.len()
        invariant
            i <= inputs@.len(),
            r@.len() == i,
            forall|j: int| 0 <= j < i ==> #[trigger] r@[j] == bucket(inputs@[j].message@),
        decreases inputs@.len() - i,
    {
        let n: u128 = inputs[i].message.len() as u128;
        r.push(((n + 208) / 128) as u64);
        i += 1;
    }
    r
}

/// The requests of a chunk: some that follow each other in an order, and
/// repeats of the first of them.
pub open spec fn chunk_of(
    chunk: Seq<VerifyInput<'_>>,
    inputs: Seq<VerifyInput<'_>>,
    order: Seq<usize>,
    start: int,
    lanes: int,
) -> bool {
    &&& chunk.len() == 8
    &&& forall|l: int| 0 <= l < lanes ==> #[trigger] chunk[l] == inputs[order[start + l] as int]
    &&& forall|l: int| lanes <= l < 8 ==> #[trigger] chunk[l] == inputs[order[start] as int]
}

/// Takes the requests of a chunk.
pub fn take_chunk<'a>(
    inputs: &[VerifyInput<'a>],
    order: &Vec<usize>,
    start: usize,
    lanes: usize,
) -> (chunk: [VerifyInput<'a>; SIMD_LANES])
    requires
        1 <= lanes <= 8,
        start + lanes <= order@.len(),
        forall|j: int| 0 <= j < order@.len() ==> (#[trigger] order@[j]) < inputs@.len(),
    ensures
        chunk_of(chunk@, inputs@, order@, start as int, lanes as int),
{
    let count = order.len();
    assert(order@[start as int] < inputs@.len());
    let mut chunk: [VerifyInput<'a>; SIMD_LANES] = [inputs[order[start]]; 8];
    let mut lane: usize = 0;
    while lane < lanes
        invariant
            lane <= lanes,
            1 <= lanes <= 8,
            count == order@.len(),
            start + lanes <= count,
            forall|j: int| 0 <= j < order@.len() ==> (#[trigger] order@[j]) < inputs@.len(),
            forall|l: int|
                0 <= l < lane ==> #[trigger] chunk@[l] == inputs@[order@[start + l] as int],
            forall|l: int| lane <= l < 8 ==> #[trigger] chunk@[l] == inputs@[order@[start as int] as int],
        decreases lanes - lane,
    {
        assert(order@[start + lane] < inputs@.len());
        chunk[lane] = inputs[order[start + lane]];
        lane += 1;
    }
    chunk
}

} // verus!
