//! What becomes of a key cache in a chunk and in a batch.
//!
//! A chunk without a canonical scalar does not reach the cache. Any other
//! counts a hit for each of its lanes. Unless every key is promoted by then, or
//! no lane is usable, the missing keys that are points are inserted, lane by
//! lane, and the keys that are hit for the second time at least are promoted:
//! each is hit once more and, if the cache still holds it, inserted again with
//! both of its tables.
use crate::batch::{bucket, is_bucket_order};
use crate::cache::{tables_of_key, CachedPublicKey, KeyCache};
use crate::chunk::{flagged, in_chunk, leading_keys, lemma_leading_keys};
use crate::edwards::decoded;
use crate::scalar::order;
use crate::signature::signature_s;
use crate::tables::PointTable;
use crate::verify::VerifyInput;
use vstd::prelude::*;

verus! {

/// How often a key occurs among the first `n` of some.
pub open spec fn count_of(keys: Seq<Seq<u8>>, k: Seq<u8>, n: int) -> int
    decreases n,
{
    if n <= 0 {
        0
    } else if keys[n - 1] == k {
        count_of(keys, k, n - 1) + 1
    } else {
        count_of(keys, k, n - 1)
    }
}

/// A count of hits after some more: it stops at 255.
pub open spec fn counted(hits: int, more: int) -> int {
    if hits + more < 255 {
        hits + more
    } else {
        255
    }
}

/// A cache becomes another by a hit of each of the first `n` keys, one after
/// the other.
pub open spec fn touches_in_order<C: KeyCache>(
    before: C,
    after: C,
    keys: Seq<Seq<u8>>,
    n: int,
) -> bool
    decreases n,
{
    if n <= 0 {
        after == before
    } else {
        exists|middle: C|
            touches_in_order(before, middle, keys, n - 1) && #[trigger] middle.touches_to(
                keys[n - 1],
                &after,
            )
    }
}

/// The entry for a key before and after some hits of it.
pub open spec fn hit_by(
    before: Option<CachedPublicKey>,
    after: Option<CachedPublicKey>,
    hits: int,
) -> bool {
    match before {
        None => after is None,
        Some(o) => {
            &&& after is Some
            &&& (after->0).key() == o.key()
            &&& (after->0).low() == o.low()
            &&& (after->0).high() == o.high()
            &&& (after->0).hit_count() == counted(o.hit_count(), hits)
            &&& hits == 0 ==> after == before
        },
    }
}

/// An entry as it is first inserted: with the table of its key, not promoted,
/// and without hits.
pub open spec fn is_fresh(entry: CachedPublicKey, key: Seq<u8>, table: PointTable) -> bool {
    &&& entry.key() == key
    &&& entry.low() == table
    &&& !entry.promoted()
    &&& entry.hit_count() == 0
}

/// A cache becomes another by the insert of a fresh entry for each of the first
/// `n` keys that it misses and that is a point, one after the other, and by
/// nothing else.
pub open spec fn fresh_inserts<C: KeyCache>(
    before: C,
    after: C,
    keys: Seq<Seq<u8>>,
    tables: Seq<PointTable>,
    n: int,
) -> bool
    decreases n,
{
    if n <= 0 {
        after == before
    } else if before.lookup(keys[n - 1]) is None && decoded(keys[n - 1]) is Some {
        exists|middle: C, entry: CachedPublicKey|
            fresh_inserts(before, middle, keys, tables, n - 1) && is_fresh(
                entry,
                keys[n - 1],
                tables[n - 1],
            ) && #[trigger] middle.inserts_to(entry, &after)
    } else {
        fresh_inserts(before, after, keys, tables, n - 1)
    }
}

/// Tables of the keys that a cache misses and that are points, as they are built
/// from the decoded points: not normalized.
pub open spec fn tables_decoded<C: KeyCache>(
    cache: C,
    keys: Seq<Seq<u8>>,
    tables: Seq<PointTable>,
) -> bool {
    forall|l: int|
        0 <= l < keys.len() && cache.lookup(keys[l]) is None && decoded(keys[l]) is Some ==> (
        #[trigger] tables[l]).is_projective_table_of(decoded(keys[l])->0)
}

/// An entry that takes the place of one for the same key by promotion: both of
/// its tables are normalized, and the hits stay.
pub open spec fn is_promotion(
    entry: CachedPublicKey,
    key: Seq<u8>,
    existing: CachedPublicKey,
) -> bool {
    &&& entry.key() == key
    &&& entry.low().normalized()
    &&& entry.low().same_points(existing.low())
    &&& entry.promoted()
    &&& (entry.high()->0).normalized()
    &&& tables_of_key(key, entry.low(), entry.high())
    &&& entry.hit_count() == existing.hit_count()
}

/// A cache becomes another by the insert of a promoted entry for each of the
/// first `n` keys that it holds, one after the other, and by nothing else.
pub open spec fn promotion_inserts<C: KeyCache>(
    before: C,
    after: C,
    keys: Seq<Seq<u8>>,
    n: int,
) -> bool
    decreases n,
{
    if n <= 0 {
        after == before
    } else {
        match before.lookup(keys[n - 1]) {
            Some(existing) => exists|middle: C, entry: CachedPublicKey|
                promotion_inserts(before, middle, keys, n - 1) && is_promotion(
                    entry,
                    keys[n - 1],
                    existing,
                ) && #[trigger] middle.inserts_to(entry, &after),
            None => promotion_inserts(before, after, keys, n - 1),
        }
    }
}

/// An entry is ready for promotion: it is not promoted, and has two hits at
/// least.
pub open spec fn promotable(entry: Option<CachedPublicKey>) -> bool {
    entry is Some && !(entry->0).promoted() && (entry->0).hit_count() >= 2
}

/// The keys that are promoted, each once, in the order of their first lanes.
pub open spec fn promoting_keys<C: KeyCache>(cache: C, keys: Seq<Seq<u8>>) -> Seq<Seq<u8>> {
    leading_keys(Seq::new(keys.len(), |l: int| promotable(cache.lookup(keys[l]))), keys)
}

/// A cache becomes another by promotion: the keys are hit once more, and those
/// that are still held are inserted with both tables.
pub open spec fn promotions<C: KeyCache>(before: C, after: C, keys: Seq<Seq<u8>>) -> bool {
    exists|middle: C|
        #[trigger] touches_in_order(before, middle, keys, keys.len() as int) && promotion_inserts(
            middle,
            after,
            keys,
            keys.len() as int,
        )
}

/// The encoded keys of some requests.
pub open spec fn keys_of(inputs: Seq<VerifyInput<'_>>) -> Seq<Seq<u8>> {
    Seq::new(inputs.len(), |l: int| inputs[l].public_key@)
}

/// A request whose scalar is canonical.
pub open spec fn canonical(input: VerifyInput<'_>) -> bool {
    signature_s(input.signature@) < order()
}

/// A request whose scalar is canonical and whose key is a point.
pub open spec fn usable(input: VerifyInput<'_>) -> bool {
    canonical(input) && decoded(input.public_key@) is Some
}

/// Some request has a canonical scalar.
pub open spec fn any_canonical(inputs: Seq<VerifyInput<'_>>) -> bool {
    exists|l: int| 0 <= l < inputs.len() && canonical(#[trigger] inputs[l])
}

/// Some request is usable.
pub open spec fn any_usable(inputs: Seq<VerifyInput<'_>>) -> bool {
    exists|l: int| 0 <= l < inputs.len() && usable(#[trigger] inputs[l])
}

/// A cache holds promoted entries for all keys.
pub open spec fn holds_promoted<C: KeyCache>(cache: C, keys: Seq<Seq<u8>>) -> bool {
    forall|l: int|
        0 <= l < keys.len() ==> cache.lookup(#[trigger] keys[l]) is Some && (cache.lookup(
            keys[l],
        )->0).promoted()
}

/// A cache becomes another by the insert of the missing keys, and then by the
/// promotion of those that were ready for it before.
pub open spec fn fills_and_promotes<C: KeyCache>(
    before: C,
    after: C,
    keys: Seq<Seq<u8>>,
    tables: Seq<PointTable>,
    middle: C,
) -> bool {
    &&& tables_decoded(before, keys, tables)
    &&& fresh_inserts(before, middle, keys, tables, keys.len() as int)
    &&& promotions(middle, after, promoting_keys(before, keys))
}

/// What a chunk does to a cache once the hits of its lanes are counted.
pub open spec fn chunk_changes<C: KeyCache>(
    before: C,
    after: C,
    inputs: Seq<VerifyInput<'_>>,
) -> bool {
    if holds_promoted(before, keys_of(inputs)) || !any_usable(inputs) {
        after == before
    } else {
        exists|middle: C, tables: Seq<PointTable>| #[trigger]
            fills_and_promotes(before, after, keys_of(inputs), tables, middle)
    }
}

/// What a chunk does to a cache.
pub open spec fn chunk_transition<C: KeyCache>(
    before: C,
    after: C,
    inputs: Seq<VerifyInput<'_>>,
) -> bool {
    if !any_canonical(inputs) {
        after == before
    } else {
        exists|touched: C| #[trigger]
            touches_in_order(before, touched, keys_of(inputs), inputs.len() as int)
                && chunk_changes(touched, after, inputs)
    }
}

/// The chunk that starts at a place of an order: eight requests that follow
/// each other, filled up with repeats of the first.
pub open spec fn chunk_at<'a>(
    inputs: Seq<VerifyInput<'a>>,
    order: Seq<usize>,
    start: int,
) -> Seq<VerifyInput<'a>> {
    Seq::new(
        8,
        |l: int|
            if start + l < order.len() {
                inputs[order[start + l] as int]
            } else {
                inputs[order[start] as int]
            },
    )
}

/// What the first `n` chunks of an order do to a cache, one after the other.
pub open spec fn chunk_transitions<C: KeyCache>(
    before: C,
    after: C,
    inputs: Seq<VerifyInput<'_>>,
    order: Seq<usize>,
    n: int,
) -> bool
    decreases n,
{
    if n <= 0 {
        after == before
    } else {
        exists|middle: C|
            chunk_transitions(before, middle, inputs, order, n - 1) && #[trigger] chunk_transition(
                middle,
                after,
                chunk_at(inputs, order, 8 * (n - 1)),
            )
    }
}

/// The buckets of requests.
pub open spec fn bucket_list(inputs: Seq<VerifyInput<'_>>) -> Seq<u64> {
    Seq::new(inputs.len(), |i: int| bucket(inputs[i].message@) as u64)
}

/// What a batch does to a cache: what its chunks do, in the order of the
/// buckets.
#[verifier::opaque]
pub open spec fn batch_transition<C: KeyCache>(
    before: C,
    after: C,
    inputs: Seq<VerifyInput<'_>>,
) -> bool {
    exists|order: Seq<usize>| #[trigger]
        is_bucket_order(bucket_list(inputs), order) && chunk_transitions(
            before,
            after,
            inputs,
            order,
            (inputs.len() as int + 7) / 8,
        )
}

/// What becomes of the entry for a key in a chunk in which it has `lanes`
/// lanes that count. It may be evicted. A new entry is fresh, and there is one
/// only if some lane is usable. An old one is hit once for every lane; with two
/// hits it is promoted, if some lane is usable and it was not promoted before.
pub open spec fn chunk_step(
    before: Option<CachedPublicKey>,
    after: Option<CachedPublicKey>,
    key: Seq<u8>,
    lanes: int,
    usable: bool,
) -> bool {
    match after {
        None => true,
        Some(e) => match before {
            None => {
                &&& lanes > 0
                &&& usable
                &&& e.key() == key
                &&& decoded(key) is Some
                &&& e.low().is_projective_table_of(decoded(key)->0)
                &&& !e.promoted()
                &&& e.hit_count() == 0
            },
            Some(o) => {
                let hits = counted(o.hit_count(), lanes);
                &&& lanes == 0 ==> e == o
                &&& if !o.promoted() && usable && lanes > 0 && hits >= 2 {
                    &&& e.key() == key
                    &&& e.promoted()
                    &&& e.low().normalized()
                    &&& e.low().same_points(o.low())
                    &&& (e.high()->0).normalized()
                    &&& e.hit_count() == counted(hits, 1)
                } else {
                    &&& e.key() == o.key()
                    &&& e.low() == o.low()
                    &&& e.high() == o.high()
                    &&& e.hit_count() == hits
                }
            },
        },
    }
}

/// The lanes of a chunk that count for a key: all that hold it, or none where
/// no scalar is canonical.
pub open spec fn counting_lanes(inputs: Seq<VerifyInput<'_>>, k: Seq<u8>) -> int {
    if any_canonical(inputs) {
        count_of(keys_of(inputs), k, inputs.len() as int)
    } else {
        0
    }
}

/// What becomes of the entry for a key in a batch. It may be evicted, and a key
/// that is none of the batch's stays as it is otherwise. An entry is promoted
/// only with two hits, or if it was promoted before.
pub open spec fn batch_step(
    before: Option<CachedPublicKey>,
    after: Option<CachedPublicKey>,
    in_batch: bool,
) -> bool {
    match after {
        None => true,
        Some(e) => {
            &&& !in_batch ==> before == after
            &&& e.promoted() ==> e.hit_count() >= 2 || before is Some && (before->0).promoted()
                && e.hit_count() >= (before->0).hit_count()
        },
    }
}

/// A key occurs exactly where its count is positive.
pub proof fn lemma_count_positive(keys: Seq<Seq<u8>>, k: Seq<u8>, n: int)
    requires
        0 <= n <= keys.len(),
    ensures
        0 <= count_of(keys, k, n) <= n,
        count_of(keys, k, n) > 0 <==> exists|i: int| 0 <= i < n && #[trigger] keys[i] == k,
    decreases n,
{
    if n > 0 {
        lemma_count_positive(keys, k, n - 1);
        if keys[n - 1] == k {
            assert(keys[n - 1] == k);
        } else if count_of(keys, k, n) > 0 {
            let i = choose|i: int| 0 <= i < n - 1 && #[trigger] keys[i] == k;
            assert(keys[i] == k);
        }
    }
}

/// Among keys that all differ, one occurs once or not at all.
pub proof fn lemma_count_distinct(keys: Seq<Seq<u8>>, k: Seq<u8>, n: int)
    requires
        0 <= n <= keys.len(),
        forall|i: int, j: int| 0 <= i < j < keys.len() ==> #[trigger] keys[i] != #[trigger] keys[j],
    ensures
        0 <= count_of(keys, k, n) <= 1,
    decreases n,
{
    if n > 0 {
        lemma_count_distinct(keys, k, n - 1);
        lemma_count_positive(keys, k, n - 1);
        if keys[n - 1] == k && count_of(keys, k, n - 1) > 0 {
            let i = choose|i: int| 0 <= i < n - 1 && #[trigger] keys[i] == k;
            assert(keys[i] != keys[n - 1]);
        }
    }
}

/// One more hit.
pub proof fn lemma_touch<C: KeyCache>(
    before: C,
    middle: C,
    after: C,
    keys: Seq<Seq<u8>>,
    n: int,
)
    requires
        0 <= n,
        touches_in_order(before, middle, keys, n),
        middle.touches_to(keys[n], &after),
    ensures
        touches_in_order(before, after, keys, n + 1),
{
    let m = n + 1;
    assert(middle.touches_to(keys[m - 1], &after));
    assert(touches_in_order(before, after, keys, m));
}

/// One more chunk.
pub proof fn lemma_chunk<C: KeyCache>(
    before: C,
    middle: C,
    after: C,
    inputs: Seq<VerifyInput<'_>>,
    order: Seq<usize>,
    n: int,
)
    requires
        0 <= n,
        chunk_transitions(before, middle, inputs, order, n),
        chunk_transition(middle, after, chunk_at(inputs, order, 8 * n)),
    ensures
        chunk_transitions(before, after, inputs, order, n + 1),
{
    let m = n + 1;
    assert(chunk_transition(middle, after, chunk_at(inputs, order, 8 * (m - 1))));
    assert(chunk_transitions(before, after, inputs, order, m));
}

/// The entry for a key after hits of some keys.
pub proof fn lemma_touches_in_order<C: KeyCache>(
    before: C,
    after: C,
    keys: Seq<Seq<u8>>,
    n: int,
    k: Seq<u8>,
)
    requires
        0 <= n <= keys.len(),
        touches_in_order(before, after, keys, n),
    ensures
        hit_by(before.lookup(k), after.lookup(k), count_of(keys, k, n)),
    decreases n,
{
    if before.lookup(k) is Some {
        (before.lookup(k)->0).lemma_hit_count();
    }
    if n > 0 {
        let middle = choose|middle: C|
            touches_in_order(before, middle, keys, n - 1) && #[trigger] middle.touches_to(
                keys[n - 1],
                &after,
            );
        lemma_touches_in_order(before, middle, keys, n - 1, k);
        lemma_count_positive(keys, k, n - 1);
        middle.lemma_touches(keys[n - 1], &after);
        if k != keys[n - 1] {
            assert(after.lookup(k) == middle.lookup(k));
        }
    }
}

/// Entries that are promoted stay so when hits are counted.
pub proof fn lemma_promoted_stay<C: KeyCache>(
    before: C,
    after: C,
    keys: Seq<Seq<u8>>,
    n: int,
)
    requires
        0 <= n <= keys.len(),
        touches_in_order(before, after, keys, n),
        holds_promoted(before, keys),
    ensures
        holds_promoted(after, keys),
{
    assert forall|l: int| 0 <= l < keys.len() implies after.lookup(#[trigger] keys[l]) is Some && (
    after.lookup(keys[l])->0).promoted() by {
        lemma_touches_in_order(before, after, keys, n, keys[l]);
    }
}

/// The entry for a key after the missing keys were inserted.
pub proof fn lemma_fresh_inserts<C: KeyCache>(
    before: C,
    after: C,
    keys: Seq<Seq<u8>>,
    tables: Seq<PointTable>,
    n: int,
    k: Seq<u8>,
)
    requires
        0 <= n <= keys.len(),
        tables_decoded(before, keys, tables),
        fresh_inserts(before, after, keys, tables, n),
    ensures
        match after.lookup(k) {
            None => true,
            Some(e) => match before.lookup(k) {
                Some(o) => e == o,
                None => {
                    &&& count_of(keys, k, n) > 0
                    &&& e.key() == k
                    &&& decoded(k) is Some
                    &&& e.low().is_projective_table_of(decoded(k)->0)
                    &&& !e.promoted()
                    &&& e.hit_count() == 0
                },
            },
        },
    decreases n,
{
    if n > 0 {
        let key = keys[n - 1];
        lemma_count_positive(keys, k, n - 1);
        if before.lookup(key) is None && decoded(key) is Some {
            let (middle, entry) = choose|middle: C, entry: CachedPublicKey|
                fresh_inserts(before, middle, keys, tables, n - 1) && is_fresh(
                    entry,
                    keys[n - 1],
                    tables[n - 1],
                ) && #[trigger] middle.inserts_to(entry, &after);
            lemma_fresh_inserts(before, middle, keys, tables, n - 1, k);
            middle.lemma_inserts(entry, &after);
            assert(tables[n - 1].is_projective_table_of(decoded(key)->0));
            assert(after.lookup(k) is Some ==> after.lookup(k) == if k == entry.key() {
                Some(entry)
            } else {
                middle.lookup(k)
            });
        } else {
            lemma_fresh_inserts(before, after, keys, tables, n - 1, k);
        }
    }
}

/// The entry for a key after some were promoted.
pub proof fn lemma_promotion_inserts<C: KeyCache>(
    before: C,
    after: C,
    keys: Seq<Seq<u8>>,
    n: int,
    k: Seq<u8>,
)
    requires
        0 <= n <= keys.len(),
        promotion_inserts(before, after, keys, n),
    ensures
        after.lookup(k) is Some ==> before.lookup(k) is Some && if count_of(keys, k, n) > 0 {
            is_promotion(after.lookup(k)->0, k, before.lookup(k)->0)
        } else {
            after.lookup(k) == before.lookup(k)
        },
    decreases n,
{
    if n > 0 {
        let key = keys[n - 1];
        lemma_count_positive(keys, k, n - 1);
        match before.lookup(key) {
            Some(existing) => {
                let (middle, entry) = choose|middle: C, entry: CachedPublicKey|
                    promotion_inserts(before, middle, keys, n - 1) && is_promotion(
                        entry,
                        keys[n - 1],
                        existing,
                    ) && #[trigger] middle.inserts_to(entry, &after);
                lemma_promotion_inserts(before, middle, keys, n - 1, k);
                middle.lemma_inserts(entry, &after);
                assert(after.lookup(k) is Some ==> after.lookup(k) == if k == entry.key() {
                    Some(entry)
                } else {
                    middle.lookup(k)
                });
            },
            None => {
                lemma_promotion_inserts(before, after, keys, n - 1, k);
            },
        }
    }
}

/// Without keys there is nothing to promote.
pub proof fn lemma_no_promotions<C: KeyCache>(cache: C, keys: Seq<Seq<u8>>)
    requires
        keys.len() == 0,
    ensures
        promotions(cache, cache, keys),
{
    assert(touches_in_order(cache, cache, keys, 0));
    assert(promotion_inserts(cache, cache, keys, 0));
}

/// Without missing keys there is nothing to insert.
pub proof fn lemma_no_inserts<C: KeyCache>(
    cache: C,
    keys: Seq<Seq<u8>>,
    tables: Seq<PointTable>,
    n: int,
)
    requires
        0 <= n <= keys.len(),
        forall|l: int| 0 <= l < keys.len() ==> cache.lookup(#[trigger] keys[l]) is Some,
    ensures
        fresh_inserts(cache, cache, keys, tables, n),
    decreases n,
{
    if n > 0 {
        lemma_no_inserts(cache, keys, tables, n - 1);
        assert(cache.lookup(keys[n - 1]) is Some);
    }
}

/// The entry for a key after the missing keys were inserted, and some promoted.
proof fn lemma_fills_and_promotes<C: KeyCache>(
    before: C,
    after: C,
    keys: Seq<Seq<u8>>,
    tables: Seq<PointTable>,
    middle: C,
    k: Seq<u8>,
)
    requires
        keys.len() == 8,
        fills_and_promotes(before, after, keys, tables, middle),
    ensures
        match after.lookup(k) {
            None => true,
            Some(e) => match before.lookup(k) {
                Some(o) => if promotable(Some(o)) && count_of(keys, k, 8) > 0 {
                    &&& e.key() == k
                    &&& e.promoted()
                    &&& e.low().normalized()
                    &&& e.low().same_points(o.low())
                    &&& (e.high()->0).normalized()
                    &&& e.hit_count() == counted(o.hit_count(), 1)
                } else {
                    e == o
                },
                None => {
                    &&& count_of(keys, k, 8) > 0
                    &&& e.key() == k
                    &&& decoded(k) is Some
                    &&& e.low().is_projective_table_of(decoded(k)->0)
                    &&& !e.promoted()
                    &&& e.hit_count() == 0
                },
            },
        },
{
    let flags = Seq::new(keys.len(), |l: int| promotable(before.lookup(keys[l])));
    let list = promoting_keys(before, keys);
    let n = list.len() as int;
    let hit = choose|hit: C| #[trigger]
        touches_in_order(middle, hit, list, n) && promotion_inserts(hit, after, list, n);
    lemma_fresh_inserts(before, middle, keys, tables, 8, k);
    lemma_touches_in_order(middle, hit, list, n, k);
    lemma_promotion_inserts(hit, after, list, n, k);
    lemma_leading_keys(flags, keys);
    lemma_count_distinct(list, k, n);
    lemma_count_positive(list, k, n);
    lemma_count_positive(keys, k, 8);
    if count_of(list, k, n) > 0 {
        let j = choose|j: int| 0 <= j < n && #[trigger] list[j] == k;
        assert(flagged(flags, keys, list[j]));
        let l = choose|l: int| 0 <= l < keys.len() && #[trigger] flags[l] && keys[l] == list[j];
        assert(keys[l] == k);
        assert(promotable(before.lookup(k)));
    } else if promotable(before.lookup(k)) && count_of(keys, k, 8) > 0 {
        let l = choose|l: int| 0 <= l < 8 && #[trigger] keys[l] == k;
        assert(flags[l]);
        assert(list.contains(keys[l]));
    }
}

/// What a chunk does to a cache, key by key.
pub proof fn lemma_chunk_step<C: KeyCache>(
    before: C,
    after: C,
    inputs: Seq<VerifyInput<'_>>,
    k: Seq<u8>,
)
    requires
        inputs.len() == 8,
        chunk_transition(before, after, inputs),
    ensures
        chunk_step(
            before.lookup(k),
            after.lookup(k),
            k,
            counting_lanes(inputs, k),
            any_usable(inputs),
        ),
{
    let keys = keys_of(inputs);
    if before.lookup(k) is Some {
        (before.lookup(k)->0).lemma_hit_count();
    }
    if any_canonical(inputs) {
        let touched = choose|touched: C| #[trigger]
            touches_in_order(before, touched, keys, 8) && chunk_changes(touched, after, inputs);
        lemma_touches_in_order(before, touched, keys, 8, k);
        lemma_count_positive(keys, k, 8);
        if holds_promoted(touched, keys) || !any_usable(inputs) {
            if count_of(keys, k, 8) > 0 {
                let l = choose|l: int| 0 <= l < 8 && #[trigger] keys[l] == k;
                assert(holds_promoted(touched, keys) ==> touched.lookup(keys[l]) is Some && (
                touched.lookup(keys[l])->0).promoted());
            }
        } else {
            let (middle, tables) = choose|middle: C, tables: Seq<PointTable>| #[trigger]
                fills_and_promotes(touched, after, keys, tables, middle);
            lemma_fills_and_promotes(touched, after, keys, tables, middle, k);
        }
    }
}

/// A key of a chunk is one of its batch.
proof fn lemma_chunk_in_batch(
    inputs: Seq<VerifyInput<'_>>,
    order: Seq<usize>,
    start: int,
    k: Seq<u8>,
)
    requires
        0 <= start < order.len(),
        forall|j: int| 0 <= j < order.len() ==> (#[trigger] order[j]) < inputs.len(),
    ensures
        counting_lanes(chunk_at(inputs, order, start), k) > 0 ==> in_chunk(inputs, k),
        0 <= counting_lanes(chunk_at(inputs, order, start), k),
{
    let chunk = chunk_at(inputs, order, start);
    let keys = keys_of(chunk);
    lemma_count_positive(keys, k, 8);
    if counting_lanes(chunk, k) > 0 {
        let l = choose|l: int| 0 <= l < 8 && #[trigger] keys[l] == k;
        let i: int = if start + l < order.len() {
            order[start + l] as int
        } else {
            order[start] as int
        };
        assert(inputs[i].public_key@ == k);
    }
}

/// What some chunks of a batch do to a cache, key by key.
pub proof fn lemma_batch_step<C: KeyCache>(
    before: C,
    after: C,
    inputs: Seq<VerifyInput<'_>>,
    order: Seq<usize>,
    n: int,
    k: Seq<u8>,
)
    requires
        8 * (n - 1) < order.len(),
        forall|j: int| 0 <= j < order.len() ==> (#[trigger] order[j]) < inputs.len(),
        chunk_transitions(before, after, inputs, order, n),
    ensures
        batch_step(before.lookup(k), after.lookup(k), in_chunk(inputs, k)),
    decreases n,
{
    if n > 0 {
        let chunk = chunk_at(inputs, order, 8 * (n - 1));
        let middle = choose|middle: C|
            chunk_transitions(before, middle, inputs, order, n - 1) && #[trigger] chunk_transition(
                middle,
                after,
                chunk,
            );
        lemma_batch_step(before, middle, inputs, order, n - 1, k);
        lemma_chunk_step(middle, after, chunk, k);
        lemma_chunk_in_batch(inputs, order, 8 * (n - 1), k);
        if middle.lookup(k) is Some {
            (middle.lookup(k)->0).lemma_hit_count();
        }
    }
}

} // verus!
