//! Batches: the lanes of a chunk and what is prepared for them.
use crate::math::curve::{smul, Affine};
use crate::scalar::{digits_from, digits_small, Radix16, Radix16Half};
use crate::tables::PointTable;
use crate::sha512::block_count;
use vstd::prelude::*;

verus! {

/// The signatures that one chunk holds.
pub const SIMD_LANES: usize = 8;

/// Length of an encoded public key.
pub const PUBLIC_KEY_LEN: usize = 32;

/// Length of a signature: the encoded `R` and the scalar `s`.
pub const SIGNATURE_LEN: usize = 64;

/// Length of an encoded `R`.
pub const R_ENCODING_LEN: usize = 32;

/// What the full ladder works on.
pub struct PreparedBatch<'a> {
    pub public_key_tables: [&'a PointTable; SIMD_LANES],
    pub s_digits: &'a [Radix16; SIMD_LANES],
    pub k_digits: &'a [Radix16; SIMD_LANES],
}

/// What the split ladder works on: the tables of the keys and of their
/// multiples by `2^127`, and the digits of the halves of the scalars.
pub struct PreparedSplitBatch<'a> {
    pub a_tables: [&'a PointTable; SIMD_LANES],
    pub a_hi_tables: [&'a PointTable; SIMD_LANES],
    pub k0_digits: &'a [Radix16Half; SIMD_LANES],
    pub k1_digits: &'a [Radix16Half; SIMD_LANES],
    pub s0_digits: &'a [Radix16Half; SIMD_LANES],
    pub s1_digits: &'a [Radix16Half; SIMD_LANES],
}

/// `2^127`: the split ladder divides a scalar at bit 127.
pub open spec fn split_factor() -> int {
    0x8000_0000_0000_0000_0000_0000_0000_0000int
}

impl<'a> PreparedBatch<'a> {
    /// The scalar `s` of a lane.
    pub open spec fn s_value(self, lane: int) -> int {
        digits_from(self.s_digits@[lane]@, 0)
    }

    /// The challenge `k` of a lane.
    pub open spec fn k_value(self, lane: int) -> int {
        digits_from(self.k_digits@[lane]@, 0)
    }

    /// The public key of a lane.
    pub open spec fn key(self, lane: int) -> Affine {
        self.public_key_tables@[lane].point()
    }

    /// What is prepared for a lane is a table and small digits.
    pub open spec fn lane_wf(self, lane: int) -> bool {
        &&& self.public_key_tables@[lane].is_table_of(self.key(lane))
        &&& digits_small(self.s_digits@[lane]@)
        &&& digits_small(self.k_digits@[lane]@)
    }

    pub open spec fn wf(self) -> bool {
        forall|lane: int| 0 <= lane < 8 ==> #[trigger] self.lane_wf(lane)
    }
}

impl<'a> PreparedSplitBatch<'a> {
    /// The scalar `s` of a lane.
    pub open spec fn s_value(self, lane: int) -> int {
        digits_from(self.s0_digits@[lane]@, 0) + split_factor() * digits_from(
            self.s1_digits@[lane]@,
            0,
        )
    }

    /// The challenge `k` of a lane.
    pub open spec fn k_value(self, lane: int) -> int {
        digits_from(self.k0_digits@[lane]@, 0) + split_factor() * digits_from(
            self.k1_digits@[lane]@,
            0,
        )
    }

    /// The public key of a lane.
    pub open spec fn key(self, lane: int) -> Affine {
        self.a_tables@[lane].point()
    }

    /// What is prepared for a lane are the two tables of its key and small
    /// digits.
    pub open spec fn lane_wf(self, lane: int) -> bool {
        &&& self.a_tables@[lane].is_table_of(self.key(lane))
        &&& self.a_hi_tables@[lane].is_table_of(smul(split_factor(), self.key(lane)))
        &&& digits_small(self.s0_digits@[lane]@)
        &&& digits_small(self.s1_digits@[lane]@)
        &&& digits_small(self.k0_digits@[lane]@)
        &&& digits_small(self.k1_digits@[lane]@)
    }

    pub open spec fn wf(self) -> bool {
        forall|lane: int| 0 <= lane < 8 ==> #[trigger] self.lane_wf(lane)
    }
}

/// The blocks that the challenge of a message is hashed in.
pub open spec fn bucket(message: Seq<u8>) -> int {
    block_count(message.len() as int + 64)
}

/// One request comes before another: it is in an earlier bucket, or it came
/// first within the same.
pub open spec fn precedes(buckets: Seq<u64>, a: usize, b: usize) -> bool {
    ||| buckets[a as int] < buckets[b as int]
    ||| buckets[a as int] == buckets[b as int] && a < b
}

/// An order that holds exactly the requests whose bucket is below a bound, each
/// once: by bucket, and as they came within one.
pub open spec fn orders_below(buckets: Seq<u64>, order: Seq<usize>, bound: int) -> bool {
    &&& forall|j: int|
        0 <= j < order.len() ==> (#[trigger] order[j]) < buckets.len() && buckets[order[j] as int]
            < bound
    &&& forall|i: usize|
        i < buckets.len() && buckets[i as int] < bound ==> #[trigger] order.contains(i)
    &&& forall|j: int, l: int|
        0 <= j < l < order.len() ==> precedes(buckets, #[trigger] order[j], #[trigger] order[l])
}

/// An order of all requests.
pub open spec fn is_bucket_order(buckets: Seq<u64>, order: Seq<usize>) -> bool {
    orders_below(buckets, order, 0x1_0000_0000_0000_0000)
}

/// An order holds every request exactly once.
pub proof fn lemma_order_count(buckets: Seq<u64>, order: Seq<usize>)
    requires
        is_bucket_order(buckets, order),
        buckets.len() <= usize::MAX,
    ensures
        order.len() == buckets.len(),
        order.no_duplicates(),
{
    let n = buckets.len() as int;
    let s = order.map_values(|v: usize| v as int);
    assert forall|i: int, j: int| 0 <= i < s.len() && 0 <= j < s.len() && i != j implies s[i]
        != s[j] by {
        if i < j {
            assert(precedes(buckets, order[i], order[j]));
        } else {
            assert(precedes(buckets, order[j], order[i]));
        }
    }
    assert(s.no_duplicates());
    s.unique_seq_to_set();
    let all = vstd::set_lib::set_int_range(0, n);
    vstd::set_lib::lemma_int_range(0, n);
    assert forall|i: int| all.contains(i) implies s.to_set().contains(i) by {
        assert(order.contains(i as usize));
        let j = choose|j: int| 0 <= j < order.len() && order[j] == i as usize;
        assert(s[j] == i);
    }
    assert forall|i: int| s.to_set().contains(i) implies all.contains(i) by {
        let j = choose|j: int| 0 <= j < s.len() && s[j] == i;
        assert(order[j] < buckets.len());
    }
    assert(s.to_set() =~= all);
}

/// The smallest bucket that reaches a bound.
fn next_bucket(buckets: &Vec<u64>, bound: u128) -> (r: Option<u64>)
    ensures
        match r {
            Some(c) => c >= bound && forall|i: int|
                0 <= i < buckets@.len() && buckets@[i] >= bound ==> #[trigger] buckets@[i] >= c,
            None => forall|i: int| 0 <= i < buckets@.len() ==> #[trigger] buckets@[i] < bound,
        },
{
    let mut r: Option<u64> = None;
    let mut i: usize = 0;
    while i < buckets.len()
        invariant
            i <= buckets@.len(),
            match r {
                Some(c) => c >= bound && forall|j: int|
                    0 <= j < i && buckets@[j] >= bound ==> #[trigger] buckets@[j] >= c,
                None => forall|j: int| 0 <= j < i ==> #[trigger] buckets@[j] < bound,
            },
        decreases buckets@.len() - i,
    {
        let b = buckets[i];
        if b as u128 >= bound {
            r = match r {
                Some(c) => if b < c {
                    Some(b)
                } else {
                    Some(c)
                },
                None => Some(b),
            };
        }
        i += 1;
    }
    r
}

/// Adds the requests of one bucket to an order of those in earlier buckets.
fn append_bucket(buckets: &Vec<u64>, c: u64, order: &mut Vec<usize>)
    requires
        orders_below(buckets@, old(order)@, c as int),
    ensures
        orders_below(buckets@, final(order)@, c + 1),
{
    let mut i: usize = 0;
    while i < buckets.len()
        invariant
            i <= buckets@.len(),
            forall|j: int|
                0 <= j < order@.len() ==> (#[trigger] order@[j]) < buckets@.len() && (
                buckets@[order@[j] as int] < c || buckets@[order@[j] as int] == c && order@[j] < i),
            forall|k: usize|
                k < buckets@.len() && (buckets@[k as int] < c || buckets@[k as int] == c && k < i)
                    ==> #[trigger] order@.contains(k),
            forall|j: int, l: int|
                0 <= j < l < order@.len() ==> precedes(
                    buckets@,
                    #[trigger] order@[j],
                    #[trigger] order@[l],
                ),
        decreases buckets@.len() - i,
    {
        if buckets[i] == c {
            let ghost before = order@;
            order.push(i);
            proof {
                assert forall|k: usize|
                    k < buckets@.len() && (buckets@[k as int] < c || buckets@[k as int] == c && k < i
                        + 1) implies #[trigger] order@.contains(k) by {
                    if k == i {
                        assert(order@[before.len() as int] == i);
                    } else {
                        assert(before.contains(k));
                        let j = choose|j: int| 0 <= j < before.len() && before[j] == k;
                        assert(order@[j] == k);
                    }
                }
            }
        }
        i += 1;
    }
}

/// Puts the requests with given buckets in order.
pub fn fill_bucket_order(buckets: &Vec<u64>, order: &mut Vec<usize>)
    ensures
        is_bucket_order(buckets@, final(order)@),
{
    order.clear();
    let mut bound: u128 = 0;
    let mut next = next_bucket(buckets, 0);
    while next.is_some()
        invariant
            bound <= 0x1_0000_0000_0000_0000,
            orders_below(buckets@, order@, bound as int),
            match next {
                Some(c) => c >= bound && forall|i: int|
                    0 <= i < buckets@.len() && buckets@[i] >= bound ==> #[trigger] buckets@[i] >= c,
                None => forall|i: int| 0 <= i < buckets@.len() ==> #[trigger] buckets@[i] < bound,
            },
        decreases 0x1_0000_0000_0000_0000 - bound,
    {
        let c: u64 = next.unwrap();
        proof {
            assert forall|i: usize|
                i < buckets@.len() && buckets@[i as int] < c implies #[trigger] order@.contains(i) by {
                if buckets@[i as int] >= bound {
                    assert(buckets@[i as int] >= c);
                }
            }
            assert(orders_below(buckets@, order@, c as int));
        }
        append_bucket(buckets, c, order);
        bound = c as u128 + 1;
        next = next_bucket(buckets, bound);
    }
}

} // verus!
