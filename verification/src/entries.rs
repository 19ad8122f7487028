//! What a cache does with the entries of its keys: how they are found, counted,
//! inserted and promoted.
use crate::batch::is_bucket_order;
use crate::bytes::le256;
use crate::cache::{
    distinct, find, has_key, inserted, tables_of_key, CachedPublicKey, HotKeyCache, KeyCache,
};
use crate::chunk::leading_lanes;
use crate::edwards::decoded;
use crate::lanes::lemma_leading_lanes_are_first;
use crate::math::curve::{lemma_smul_small, smul};
use crate::steps::{
    any_canonical, any_usable, batch_transition, bucket_list, canonical, chunk_at, chunk_changes,
    chunk_transition, chunk_transitions, count_of, counted, fills_and_promotes, fresh_inserts,
    holds_promoted, is_fresh, is_promotion, keys_of, lemma_chunk_step, promotable, promoting_keys,
    promotion_inserts, touches_in_order, usable,
};
use crate::tables::PointTable;
use crate::verify::VerifyInput;
use vstd::prelude::*;

verus! {

/// The tables of a key: the multiples of its point from minus eight times to eight
/// times, and where there is a second table, those of the point times `2^127`.
pub proof fn lemma_tables_of_a_key(
    key: Seq<u8>,
    table: PointTable,
    table_hi: Option<PointTable>,
    digit: int,
)
    requires
        tables_of_key(key, table, table_hi),
        -8 <= digit <= 8,
    ensures
        decoded(key) is Some,
        table.entry(digit).affine() == smul(digit, decoded(key)->0),
        table_hi is Some ==> (table_hi->0).entry(digit).affine() == smul(
            digit,
            smul(0x8000_0000_0000_0000_0000_0000_0000_0000int, decoded(key)->0),
        ),
{
}

/// One more hit is counted, up to 255, and nothing else changes.
pub proof fn lemma_hit(entry: CachedPublicKey, other: CachedPublicKey)
    requires
        entry.hit_to(other),
    ensures
        other.key() == entry.key(),
        other.low() == entry.low(),
        other.high() == entry.high(),
        other.hit_count() == if entry.hit_count() + 1 <= 255 {
            entry.hit_count() + 1
        } else {
            255
        },
        0 <= entry.hit_count() <= 255,
{
    entry.lemma_hit_count();
}

/// Hits add up, to 255 at most.
pub proof fn lemma_hits_add_up(hits: int, first: int, second: int)
    requires
        0 <= hits <= 255,
        0 <= first,
        0 <= second,
    ensures
        counted(hits, 0) == hits,
        counted(counted(hits, first), second) == counted(hits, first + second),
        counted(hits, 1) == if hits == 255 {
            255
        } else {
            hits + 1
        },
{
}

/// A key is found exactly where an entry of it is held.
pub proof fn lemma_found_where_held(s: Seq<CachedPublicKey>, key: Seq<u8>, entry: CachedPublicKey)
    requires
        distinct(s),
    ensures
        find(s, key) == Some(entry) <==> s.contains(entry) && entry.key() == key,
        find(s, key) is None <==> forall|i: int| 0 <= i < s.len() ==> (#[trigger] s[i]).key() != key,
{
    if has_key(s, key) {
        let i = choose|i: int| 0 <= i < s.len() && (#[trigger] s[i]).key() == key;
        if s.contains(entry) && entry.key() == key {
            let j = choose|j: int| 0 <= j < s.len() && s[j] == entry;
            if i < j {
                assert(s[i].key() != s[j].key());
            }
            if j < i {
                assert(s[j].key() != s[i].key());
            }
        }
    } else if s.contains(entry) {
        let j = choose|j: int| 0 <= j < s.len() && s[j] == entry;
        assert(s[j].key() != key);
    }
}

/// An insert. An entry takes the place of one with the same key; else it comes
/// last, and where there is no room for it the first one leaves; a cache that may
/// hold none is unchanged.
pub proof fn lemma_insert_in_order(s: Seq<CachedPublicKey>, limit: int, entry: CachedPublicKey)
    requires
        distinct(s),
        s.len() <= limit,
    ensures
        forall|i: int|
            0 <= i < s.len() && (#[trigger] s[i]).key() == entry.key() ==> inserted(s, limit, entry)
                == s.update(i, entry),
        (forall|i: int| 0 <= i < s.len() ==> (#[trigger] s[i]).key() != entry.key()) ==> inserted(
            s,
            limit,
            entry,
        ) == if limit == 0 {
            s
        } else if s.len() < limit {
            s + seq![entry]
        } else {
            s.subrange(1, s.len() as int) + seq![entry]
        },
{
    let r = inserted(s, limit, entry);
    assert forall|i: int| 0 <= i < s.len() && (#[trigger] s[i]).key() == entry.key() implies r
        == s.update(i, entry) by {
        assert forall|j: int| 0 <= j < s.len() implies r[j] == #[trigger] s.update(i, entry)[j] by {
            if i < j {
                assert(s[i].key() != s[j].key());
            }
            if j < i {
                assert(s[j].key() != s[i].key());
            }
        }
        assert(r =~= s.update(i, entry));
    }
    if forall|i: int| 0 <= i < s.len() ==> (#[trigger] s[i]).key() != entry.key() {
        assert(!has_key(s, entry.key()));
        assert(s.push(entry) =~= s + seq![entry]);
        if limit != 0 && s.len() >= limit {
            assert(s.remove(0).push(entry) =~= s.subrange(1, s.len() as int) + seq![entry]);
        }
    }
}

/// What an insert does to a cache of hot keys.
pub proof fn lemma_hot_cache_insert(
    before: HotKeyCache,
    after: HotKeyCache,
    entry: CachedPublicKey,
)
    requires
        before.inserts_to(entry, &after),
        before.held().len() <= before.limit(),
    ensures
        after.limit() == before.limit(),
        forall|i: int|
            0 <= i < before.held().len() && (#[trigger] before.held()[i]).key() == entry.key()
                ==> after.held() == before.held().update(i, entry),
        (forall|i: int|
            0 <= i < before.held().len() ==> (#[trigger] before.held()[i]).key() != entry.key())
            ==> after.held() == if before.limit() == 0 {
            before.held()
        } else if before.held().len() < before.limit() {
            before.held() + seq![entry]
        } else {
            before.held().subrange(1, before.held().len() as int) + seq![entry]
        },
{
    lemma_insert_in_order(before.held(), before.limit(), entry);
}

/// What a hit does to a cache of hot keys: the entries stay in their places, and
/// that of the key counts one more, up to 255.
pub proof fn lemma_hot_cache_hit(before: HotKeyCache, after: HotKeyCache, key: Seq<u8>, i: int)
    requires
        before.touches_to(key, &after),
        0 <= i < before.held().len(),
    ensures
        after.limit() == before.limit(),
        after.held().len() == before.held().len(),
        before.held()[i].key() != key ==> after.held()[i] == before.held()[i],
        before.held()[i].key() == key ==> {
            &&& after.held()[i].key() == key
            &&& after.held()[i].low() == before.held()[i].low()
            &&& after.held()[i].high() == before.held()[i].high()
            &&& after.held()[i].hit_count() == if before.held()[i].hit_count() + 1 <= 255 {
                before.held()[i].hit_count() + 1
            } else {
                255
            }
        },
{
    let e = after.held()[i];
    before.held()[i].lemma_hit_count();
}

/// Occurrences add up: none in no keys, one in the key alone, and those of two
/// parts in the whole.
pub proof fn lemma_occurrences_add_up(first: Seq<Seq<u8>>, second: Seq<Seq<u8>>, k: Seq<u8>)
    ensures
        count_of(Seq::<Seq<u8>>::empty(), k, 0) == 0,
        count_of(seq![k], k, 1) == 1,
        forall|other: Seq<u8>| other != k ==> count_of(seq![other], k, 1) == 0,
        count_of(first + second, k, (first.len() + second.len()) as int) == count_of(
            first,
            k,
            first.len() as int,
        ) + count_of(second, k, second.len() as int),
{
    reveal_with_fuel(count_of, 2);
    lemma_occurrences_joined(first, second, k, second.len() as int);
}

proof fn lemma_occurrences_joined(
    first: Seq<Seq<u8>>,
    second: Seq<Seq<u8>>,
    k: Seq<u8>,
    n: int,
)
    requires
        0 <= n <= second.len(),
    ensures
        count_of(first + second, k, first.len() + n) == count_of(first, k, first.len() as int)
            + count_of(second, k, n),
    decreases n,
{
    if n == 0 {
        lemma_occurrences_in_first(first, second, k, first.len() as int);
    } else {
        lemma_occurrences_joined(first, second, k, n - 1);
        assert((first + second)[first.len() + n - 1] == second[n - 1]);
    }
}

proof fn lemma_occurrences_in_first(
    first: Seq<Seq<u8>>,
    second: Seq<Seq<u8>>,
    k: Seq<u8>,
    n: int,
)
    requires
        0 <= n <= first.len(),
    ensures
        count_of(first + second, k, n) == count_of(first, k, n),
    decreases n,
{
    if n > 0 {
        lemma_occurrences_in_first(first, second, k, n - 1);
    }
}

/// The lanes of a chunk that ask for a key, one by one.
proof fn lemma_eight_lanes(inputs: Seq<VerifyInput<'_>>, k: Seq<u8>)
    requires
        inputs.len() == 8,
    ensures
        count_of(keys_of(inputs), k, 8) == (if inputs[0].public_key@ == k { 1int } else { 0 }) + (
        if inputs[1].public_key@ == k { 1int } else { 0 }) + (if inputs[2].public_key@ == k {
            1int
        } else {
            0
        }) + (if inputs[3].public_key@ == k { 1int } else { 0 }) + (if inputs[4].public_key@ == k {
            1int
        } else {
            0
        }) + (if inputs[5].public_key@ == k { 1int } else { 0 }) + (if inputs[6].public_key@ == k {
            1int
        } else {
            0
        }) + (if inputs[7].public_key@ == k { 1int } else { 0 }),
{
    reveal_with_fuel(count_of, 9);
}

/// What a chunk does to the entry of a key. Let `lanes` be the number of its lanes
/// that ask for the key. Where the scalar of no lane is below the order nothing is
/// counted; else each of the lanes is a hit, up to 255 in all. Where some lane has
/// such a scalar and a key that is a point, a key that was missing may be held with
/// no hits and one table, and a key with one table and two hits or more is promoted,
/// which counts once more. Nothing else changes in an entry that stays.
pub proof fn lemma_entry_after_chunk<C: KeyCache>(
    before: C,
    after: C,
    inputs: Seq<VerifyInput<'_>>,
    k: Seq<u8>,
    lanes: int,
)
    requires
        inputs.len() == 8,
        chunk_transition(before, after, inputs),
        after.lookup(k) is Some,
        lanes == (if inputs[0].public_key@ == k { 1int } else { 0 }) + (if inputs[1].public_key@ == k {
            1int
        } else {
            0
        }) + (if inputs[2].public_key@ == k { 1int } else { 0 }) + (if inputs[3].public_key@ == k {
            1int
        } else {
            0
        }) + (if inputs[4].public_key@ == k { 1int } else { 0 }) + (if inputs[5].public_key@ == k {
            1int
        } else {
            0
        }) + (if inputs[6].public_key@ == k { 1int } else { 0 }) + (if inputs[7].public_key@ == k {
            1int
        } else {
            0
        }),
    ensures
        ({
            let bound = 0x1000000000000000000000000000000014def9dea2f79cd65812631a5cf5d3edint;
            let some_scalar = exists|l: int|
                0 <= l < 8 && le256((#[trigger] inputs[l]).signature@.subrange(32, 64)) < bound;
            let some_usable = exists|l: int|
                0 <= l < 8 && le256((#[trigger] inputs[l]).signature@.subrange(32, 64)) < bound
                    && decoded(inputs[l].public_key@) is Some;
            let e = after.lookup(k)->0;
            match before.lookup(k) {
                None => {
                    &&& lanes > 0
                    &&& some_usable
                    &&& decoded(k) is Some
                    &&& e.key() == k
                    &&& e.low().point() == decoded(k)->0
                    &&& e.high() is None
                    &&& e.hit_count() == 0
                },
                Some(o) => {
                    let hits = if !some_scalar {
                        o.hit_count()
                    } else if o.hit_count() + lanes <= 255 {
                        o.hit_count() + lanes
                    } else {
                        255
                    };
                    if o.high() is None && some_usable && lanes > 0 && hits >= 2 {
                        &&& e.key() == k
                        &&& e.low().point() == o.low().point()
                        &&& e.high() is Some
                        &&& e.hit_count() == if hits + 1 <= 255 {
                            hits + 1
                        } else {
                            255
                        }
                    } else {
                        &&& e.key() == o.key()
                        &&& e.low() == o.low()
                        &&& e.high() == o.high()
                        &&& e.hit_count() == hits
                    }
                },
            }
        }),
{
    lemma_chunk_step(before, after, inputs, k);
    lemma_eight_lanes(inputs, k);
    if before.lookup(k) is Some {
        (before.lookup(k)->0).lemma_hit_count();
    }
    assert(any_canonical(inputs) <==> exists|l: int|
        0 <= l < 8 && le256((#[trigger] inputs[l]).signature@.subrange(32, 64))
            < 0x1000000000000000000000000000000014def9dea2f79cd65812631a5cf5d3edint) by {
        assert forall|l: int| canonical(#[trigger] inputs[l]) == (le256(
            inputs[l].signature@.subrange(32, 64),
        ) < 0x1000000000000000000000000000000014def9dea2f79cd65812631a5cf5d3edint) by {}
    }
    assert(any_usable(inputs) <==> exists|l: int|
        0 <= l < 8 && le256((#[trigger] inputs[l]).signature@.subrange(32, 64))
            < 0x1000000000000000000000000000000014def9dea2f79cd65812631a5cf5d3edint && decoded(
            inputs[l].public_key@,
        ) is Some) by {
        assert forall|l: int| usable(#[trigger] inputs[l]) == (le256(
            inputs[l].signature@.subrange(32, 64),
        ) < 0x1000000000000000000000000000000014def9dea2f79cd65812631a5cf5d3edint && decoded(
            inputs[l].public_key@,
        ) is Some) by {}
    }
    if before.lookup(k) is None {
        lemma_smul_small(decoded(k)->0);
    }
}

/// A batch is a chain of chunks. In the order of its requests by the blocks of their
/// messages, each eight in turn are one chunk, the last of them filled up with its
/// first request, and each chunk takes the cache that the one before has left.
pub proof fn lemma_batch_is_chain<C: KeyCache>(
    before: C,
    after: C,
    inputs: Seq<VerifyInput<'_>>,
) -> (r: (Seq<usize>, Seq<C>))
    requires
        batch_transition(before, after, inputs),
    ensures
        is_bucket_order(bucket_list(inputs), r.0),
        r.1.len() == (inputs.len() + 7) / 8 + 1,
        r.1[0] == before,
        r.1.last() == after,
        forall|j: int|
            1 <= j < r.1.len() ==> chunk_transition(
                r.1[j - 1],
                #[trigger] r.1[j],
                Seq::new(
                    8,
                    |l: int|
                        inputs[r.0[if 8 * (j - 1) + l < r.0.len() {
                            8 * (j - 1) + l
                        } else {
                            8 * (j - 1)
                        }] as int],
                ),
            ),
{
    reveal(batch_transition);
    let n = (inputs.len() as int + 7) / 8;
    let order = choose|order: Seq<usize>| #[trigger]
        is_bucket_order(bucket_list(inputs), order) && chunk_transitions(
            before,
            after,
            inputs,
            order,
            n,
        );
    let caches = lemma_chain_of_chunks(before, after, inputs, order, n);
    (order, caches)
}

proof fn lemma_chain_of_chunks<C: KeyCache>(
    before: C,
    after: C,
    inputs: Seq<VerifyInput<'_>>,
    order: Seq<usize>,
    n: int,
) -> (r: Seq<C>)
    requires
        0 <= n,
        chunk_transitions(before, after, inputs, order, n),
    ensures
        r.len() == n + 1,
        r[0] == before,
        r.last() == after,
        forall|j: int|
            1 <= j < r.len() ==> chunk_transition(
                r[j - 1],
                #[trigger] r[j],
                Seq::new(
                    8,
                    |l: int|
                        inputs[order[if 8 * (j - 1) + l < order.len() {
                            8 * (j - 1) + l
                        } else {
                            8 * (j - 1)
                        }] as int],
                ),
            ),
    decreases n,
{
    if n == 0 {
        seq![before]
    } else {
        let middle = choose|middle: C|
            chunk_transitions(before, middle, inputs, order, n - 1) && #[trigger] chunk_transition(
                middle,
                after,
                chunk_at(inputs, order, 8 * (n - 1)),
            );
        let s = lemma_chain_of_chunks(before, middle, inputs, order, n - 1);
        let r = s.push(after);
        assert forall|j: int| 1 <= j < r.len() implies chunk_transition(
            r[j - 1],
            #[trigger] r[j],
            Seq::new(
                8,
                |l: int|
                    inputs[order[if 8 * (j - 1) + l < order.len() {
                        8 * (j - 1) + l
                    } else {
                        8 * (j - 1)
                    }] as int],
            ),
        ) by {
            if j == n {
                assert(r[j - 1] == middle);
                assert(chunk_at(inputs, order, 8 * (n - 1)) =~= Seq::new(
                    8,
                    |l: int|
                        inputs[order[if 8 * (j - 1) + l < order.len() {
                            8 * (j - 1) + l
                        } else {
                            8 * (j - 1)
                        }] as int],
                ));
            } else {
                assert(r[j] == s[j] && r[j - 1] == s[j - 1]);
            }
        }
        r
    }
}

/// Hits in turn: one for each key, in the order of the keys.
pub proof fn lemma_hits_in_turn<C: KeyCache>(
    before: C,
    after: C,
    keys: Seq<Seq<u8>>,
    n: int,
) -> (r: Seq<C>)
    requires
        0 <= n,
        touches_in_order(before, after, keys, n),
    ensures
        r.len() == n + 1,
        r[0] == before,
        r.last() == after,
        forall|j: int| 1 <= j <= n ==> r[j - 1].touches_to(keys[j - 1], #[trigger] &r[j]),
    decreases n,
{
    if n == 0 {
        seq![before]
    } else {
        let middle = choose|middle: C|
            touches_in_order(before, middle, keys, n - 1) && #[trigger] middle.touches_to(
                keys[n - 1],
                &after,
            );
        let s = lemma_hits_in_turn(before, middle, keys, n - 1);
        let r = s.push(after);
        assert forall|j: int| 1 <= j <= n implies r[j - 1].touches_to(
            keys[j - 1],
            #[trigger] &r[j],
        ) by {
            if j < n {
                assert(s[j - 1].touches_to(keys[j - 1], &s[j]));
            }
        }
        r
    }
}

/// A step of the inserts of new keys: a key that was missing at the start and is
/// that of a point is inserted with its table, without a second one and without
/// hits; any other changes nothing.
pub open spec fn is_new_key_step<C: KeyCache>(
    caches: Seq<C>,
    entries: Seq<CachedPublicKey>,
    keys: Seq<Seq<u8>>,
    tables: Seq<PointTable>,
    j: int,
) -> bool {
    if caches[0].lookup(keys[j]) is None && decoded(keys[j]) is Some {
        &&& caches[j].inserts_to(entries[j], &caches[j + 1])
        &&& entries[j].key() == keys[j]
        &&& entries[j].low() == tables[j]
        &&& entries[j].high() is None
        &&& entries[j].hit_count() == 0
    } else {
        caches[j + 1] == caches[j]
    }
}

/// New keys in turn, in the order of the lanes.
pub proof fn lemma_new_keys_in_turn<C: KeyCache>(
    before: C,
    after: C,
    keys: Seq<Seq<u8>>,
    tables: Seq<PointTable>,
    n: int,
) -> (r: (Seq<C>, Seq<CachedPublicKey>))
    requires
        0 <= n,
        fresh_inserts(before, after, keys, tables, n),
    ensures
        r.0.len() == n + 1,
        r.1.len() == n,
        r.0[0] == before,
        r.0.last() == after,
        forall|j: int| 0 <= j < n ==> #[trigger] is_new_key_step(r.0, r.1, keys, tables, j),
    decreases n,
{
    if n == 0 {
        (seq![before], seq![])
    } else {
        let (middle, entry) = lemma_last_new_key(before, after, keys, tables, n);
        let (s, e) = lemma_new_keys_in_turn(before, middle, keys, tables, n - 1);
        let (r, f) = (s.push(after), e.push(entry));
        assert(r[n] == after && r[n - 1] == middle && f[n - 1] == entry && r[0] == before);
        assert forall|j: int| 0 <= j < n implies #[trigger] is_new_key_step(
            r,
            f,
            keys,
            tables,
            j,
        ) by {
            if j < n - 1 {
                assert(is_new_key_step(s, e, keys, tables, j));
                assert(r[j] == s[j] && r[j + 1] == s[j + 1] && f[j] == e[j]);
            }
        }
        (r, f)
    }
}

/// The last of the new keys.
proof fn lemma_last_new_key<C: KeyCache>(
    before: C,
    after: C,
    keys: Seq<Seq<u8>>,
    tables: Seq<PointTable>,
    n: int,
) -> (r: (C, CachedPublicKey))
    requires
        0 < n,
        fresh_inserts(before, after, keys, tables, n),
    ensures
        fresh_inserts(before, r.0, keys, tables, n - 1),
        if before.lookup(keys[n - 1]) is None && decoded(keys[n - 1]) is Some {
            &&& r.0.inserts_to(r.1, &after)
            &&& r.1.key() == keys[n - 1]
            &&& r.1.low() == tables[n - 1]
            &&& r.1.high() is None
            &&& r.1.hit_count() == 0
        } else {
            r.0 == after
        },
{
    if before.lookup(keys[n - 1]) is None && decoded(keys[n - 1]) is Some {
        choose|middle: C, entry: CachedPublicKey|
            fresh_inserts(before, middle, keys, tables, n - 1) && is_fresh(
                entry,
                keys[n - 1],
                tables[n - 1],
            ) && #[trigger] middle.inserts_to(entry, &after)
    } else {
        (after, arbitrary())
    }
}

/// Promotions in turn: in the order of the keys, the entry of each key that is held
/// is replaced by one with the same count, the same points in a normalized table, and
/// a normalized table of the multiple by `2^127`.
pub proof fn lemma_promotions_in_turn<C: KeyCache>(
    before: C,
    after: C,
    keys: Seq<Seq<u8>>,
    n: int,
) -> (r: (Seq<C>, Seq<CachedPublicKey>))
    requires
        0 <= n,
        promotion_inserts(before, after, keys, n),
    ensures
        r.0.len() == n + 1,
        r.1.len() == n,
        r.0[0] == before,
        r.0.last() == after,
        forall|j: int|
            1 <= j <= n ==> match before.lookup(keys[j - 1]) {
                Some(o) => {
                    &&& r.0[j - 1].inserts_to(r.1[j - 1], #[trigger] &r.0[j])
                    &&& r.1[j - 1].key() == keys[j - 1]
                    &&& r.1[j - 1].hit_count() == o.hit_count()
                    &&& r.1[j - 1].high() is Some
                    &&& forall|digit: int|
                        -8 <= digit <= 8 ==> {
                            &&& (#[trigger] r.1[j - 1].low().entry(digit)).z2v() == 2
                            &&& r.1[j - 1].low().entry(digit).affine() == o.low().entry(digit).affine()
                            &&& (r.1[j - 1].high()->0).entry(digit).z2v() == 2
                            &&& (r.1[j - 1].high()->0).entry(digit).affine() == smul(
                                digit,
                                smul(
                                    0x8000_0000_0000_0000_0000_0000_0000_0000int,
                                    decoded(keys[j - 1])->0,
                                ),
                            )
                        }
                },
                None => r.0[j] == r.0[j - 1],
            },
    decreases n,
{
    if n == 0 {
        (seq![before], seq![])
    } else {
        let held = before.lookup(keys[n - 1]);
        let (middle, entry) = if held is Some {
            choose|middle: C, entry: CachedPublicKey|
                promotion_inserts(before, middle, keys, n - 1) && is_promotion(
                    entry,
                    keys[n - 1],
                    held->0,
                ) && #[trigger] middle.inserts_to(entry, &after)
        } else {
            (after, arbitrary())
        };
        let (s, e) = lemma_promotions_in_turn(before, middle, keys, n - 1);
        let (r, f) = (s.push(after), e.push(entry));
        assert forall|j: int| 1 <= j <= n implies match before.lookup(keys[j - 1]) {
            Some(o) => {
                &&& r[j - 1].inserts_to(f[j - 1], #[trigger] &r[j])
                &&& f[j - 1].key() == keys[j - 1]
                &&& f[j - 1].hit_count() == o.hit_count()
                &&& f[j - 1].high() is Some
                &&& forall|digit: int|
                    -8 <= digit <= 8 ==> {
                        &&& (#[trigger] f[j - 1].low().entry(digit)).z2v() == 2
                        &&& f[j - 1].low().entry(digit).affine() == o.low().entry(digit).affine()
                        &&& (f[j - 1].high()->0).entry(digit).z2v() == 2
                        &&& (f[j - 1].high()->0).entry(digit).affine() == smul(
                            digit,
                            smul(
                                0x8000_0000_0000_0000_0000_0000_0000_0000int,
                                decoded(keys[j - 1])->0,
                            ),
                        )
                    }
            },
            None => r[j] == r[j - 1],
        } by {
            if j < n {
                assert(r[j] == s[j] && r[j - 1] == s[j - 1] && f[j - 1] == e[j - 1]);
                let c = &s[j];
            } else if held is Some {
                assert(is_promotion(entry, keys[n - 1], held->0));
                let hi = entry.high()->0;
                assert forall|digit: int| -8 <= digit <= 8 implies {
                    &&& (#[trigger] entry.low().entry(digit)).z2v() == 2
                    &&& entry.low().entry(digit).affine() == (held->0).low().entry(digit).affine()
                    &&& hi.entry(digit).z2v() == 2
                    &&& hi.entry(digit).affine() == smul(
                        digit,
                        smul(
                            0x8000_0000_0000_0000_0000_0000_0000_0000int,
                            decoded(keys[n - 1])->0,
                        ),
                    )
                } by {
                    assert(hi.entry(digit).z2v() == 2);
                    lemma_tables_of_a_key(keys[n - 1], entry.low(), entry.high(), digit);
                }
            }
        }
        (r, f)
    }
}

/// The keys that a chunk promotes: those of the lanes whose entry has one table and
/// two hits or more, each key once, in the order of the lanes.
pub proof fn lemma_keys_to_promote<C: KeyCache>(cache: C, keys: Seq<Seq<u8>>, j: int)
    requires
        keys.len() == 8,
        0 <= j < promoting_keys(cache, keys).len(),
    ensures
        ({
            let list = promoting_keys(cache, keys);
            &&& exists|l: int| 0 <= l < 8 && #[trigger] keys[l] == list[j]
            &&& cache.lookup(list[j]) is Some
            &&& (cache.lookup(list[j])->0).high() is None
            &&& (cache.lookup(list[j])->0).hit_count() >= 2
            &&& forall|i: int| 0 <= i < j ==> #[trigger] list[i] != list[j]
        }),
{
    let flags = Seq::new(keys.len(), |l: int| promotable(cache.lookup(keys[l])));
    let lanes = leading_lanes(flags, keys, 8);
    let list = promoting_keys(cache, keys);
    lemma_leading_lanes_are_first(flags, keys, 8);
    assert(lanes.contains(lanes[j]));
    let l = lanes[j] as int;
    assert(flags[l] && keys[l] == list[j]);
    assert forall|i: int| 0 <= i < j implies #[trigger] list[i] != list[j] by {
        assert(lanes.contains(lanes[i]));
        let m = lanes[i] as int;
        assert(lanes[i] < lanes[j]);
        assert(flags[m]);
    }
}

/// No key that is to be promoted is left out.
pub proof fn lemma_all_are_promoted<C: KeyCache>(cache: C, keys: Seq<Seq<u8>>, l: int)
    requires
        keys.len() == 8,
        0 <= l < 8,
        cache.lookup(keys[l]) is Some,
        (cache.lookup(keys[l])->0).high() is None,
        (cache.lookup(keys[l])->0).hit_count() >= 2,
    ensures
        promoting_keys(cache, keys).contains(keys[l]),
    decreases l,
{
    let flags = Seq::new(keys.len(), |l: int| promotable(cache.lookup(keys[l])));
    let lanes = leading_lanes(flags, keys, 8);
    lemma_leading_lanes_are_first(flags, keys, 8);
    assert(flags[l]);
    if exists|j: int| 0 <= j < l && #[trigger] flags[j] && keys[j] == keys[l] {
        let j = choose|j: int| 0 <= j < l && #[trigger] flags[j] && keys[j] == keys[l];
        lemma_all_are_promoted(cache, keys, j);
    } else {
        assert(lanes.contains(l as usize));
        let i = choose|i: int| 0 <= i < lanes.len() && lanes[i] == l as usize;
        assert(promoting_keys(cache, keys)[i] == keys[l]);
    }
}

/// A chunk in its stages: hits for all lanes, then, where some lane is usable and not
/// all keys are promoted, the new keys, hits for the keys to promote, and their
/// promotions.
pub proof fn lemma_stages_of_a_chunk<C: KeyCache>(
    before: C,
    after: C,
    inputs: Seq<VerifyInput<'_>>,
) -> (r: (C, C, C, Seq<PointTable>))
    requires
        inputs.len() == 8,
        chunk_transition(before, after, inputs),
    ensures
        ({
            let (hit, filled, counted, tables) = r;
            let bound = 0x1000000000000000000000000000000014def9dea2f79cd65812631a5cf5d3edint;
            let keys = Seq::new(8, |l: int| inputs[l].public_key@);
            if forall|l: int|
                0 <= l < 8 ==> le256((#[trigger] inputs[l]).signature@.subrange(32, 64)) >= bound {
                after == before
            } else {
                &&& touches_in_order(before, hit, keys, 8)
                &&& if (forall|l: int|
                    0 <= l < 8 ==> le256((#[trigger] inputs[l]).signature@.subrange(32, 64)) >= bound
                        || decoded(inputs[l].public_key@) is None) || (forall|l: int|
                    0 <= l < 8 ==> hit.lookup(#[trigger] keys[l]) is Some && (hit.lookup(
                        keys[l],
                    )->0).high() is Some) {
                    after == hit
                } else {
                    let list = promoting_keys(hit, keys);
                    &&& fresh_inserts(hit, filled, keys, tables, 8)
                    &&& touches_in_order(filled, counted, list, list.len() as int)
                    &&& promotion_inserts(counted, after, list, list.len() as int)
                    &&& forall|l: int|
                        0 <= l < 8 && hit.lookup(keys[l]) is None && decoded(keys[l]) is Some
                            ==> (#[trigger] tables[l]).is_projective_table_of(decoded(keys[l])->0)
                }
            }
        }),
{
    let keys = keys_of(inputs);
    assert(keys =~= Seq::new(8, |l: int| inputs[l].public_key@));
    assert forall|l: int| canonical(#[trigger] inputs[l]) == (le256(
        inputs[l].signature@.subrange(32, 64),
    ) < 0x1000000000000000000000000000000014def9dea2f79cd65812631a5cf5d3edint) by {}
    assert forall|l: int| usable(#[trigger] inputs[l]) == (le256(
        inputs[l].signature@.subrange(32, 64),
    ) < 0x1000000000000000000000000000000014def9dea2f79cd65812631a5cf5d3edint && decoded(
        inputs[l].public_key@,
    ) is Some) by {}
    if !any_canonical(inputs) {
        assert forall|l: int| 0 <= l < 8 implies le256(
            (#[trigger] inputs[l]).signature@.subrange(32, 64),
        ) >= 0x1000000000000000000000000000000014def9dea2f79cd65812631a5cf5d3edint by {
            assert(!canonical(inputs[l]));
        }
        (before, before, before, Seq::empty())
    } else {
        let l = choose|l: int| 0 <= l < inputs.len() && canonical(#[trigger] inputs[l]);
        assert(canonical(inputs[l]));
        let hit = choose|touched: C| #[trigger]
            touches_in_order(before, touched, keys, 8) && chunk_changes(touched, after, inputs);
        if holds_promoted(hit, keys) || !any_usable(inputs) {
            if !any_usable(inputs) {
                assert forall|l: int| 0 <= l < 8 implies le256(
                    (#[trigger] inputs[l]).signature@.subrange(32, 64),
                ) >= 0x1000000000000000000000000000000014def9dea2f79cd65812631a5cf5d3edint || decoded(
                    inputs[l].public_key@,
                ) is None by {
                    assert(!usable(inputs[l]));
                }
            }
            (hit, hit, hit, Seq::empty())
        } else {
            let m = choose|l: int| 0 <= l < inputs.len() && usable(#[trigger] inputs[l]);
            assert(usable(inputs[m]));
            let (filled, tables) = choose|middle: C, tables: Seq<PointTable>| #[trigger]
                fills_and_promotes(hit, after, keys, tables, middle);
            let list = promoting_keys(hit, keys);
            let n = list.len() as int;
            let counted = choose|middle: C| #[trigger]
                touches_in_order(filled, middle, list, n) && promotion_inserts(
                    middle,
                    after,
                    list,
                    n,
                );
            (hit, filled, counted, tables)
        }
    }
}

} // verus!
