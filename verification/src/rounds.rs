//! The life of a key in a cache with room: missing, held, hit, promoted.
use crate::batch::{is_bucket_order, lemma_order_count};
use crate::cache::{CachedPublicKey, HotKeyCache, KeyCache, NullKeyCache};
use crate::chunk::in_chunk;
use crate::edwards::decoded;
use crate::math::gf::eq;
use crate::steps::{
    any_canonical, any_usable, batch_transition, bucket_list, canonical, chunk_at, chunk_changes,
    chunk_transition, chunk_transitions, count_of, fills_and_promotes, fresh_inserts,
    holds_promoted, is_fresh, is_promotion, keys_of, lemma_chunk_step, lemma_count_distinct,
    lemma_count_positive, lemma_touches_in_order, promoting_keys, promotion_inserts,
    touches_in_order, usable,
};
use crate::tables::{lemma_projective_table, PointTable};
use crate::verify::VerifyInput;
use vstd::prelude::*;

verus! {

/// Hits change neither the size of a cache nor its limit.
proof fn lemma_hits_keep_size(
    before: HotKeyCache,
    after: HotKeyCache,
    keys: Seq<Seq<u8>>,
    n: int,
)
    requires
        touches_in_order(before, after, keys, n),
    ensures
        after.limit() == before.limit(),
        after.held().len() == before.held().len(),
    decreases n,
{
    if n > 0 {
        let middle = choose|middle: HotKeyCache|
            touches_in_order(before, middle, keys, n - 1) && #[trigger] middle.touches_to(
                keys[n - 1],
                &after,
            );
        lemma_hits_keep_size(before, middle, keys, n - 1);
    }
}

/// With room for all of them, the missing keys that are points are held after
/// they were inserted, and so are those that were held before.
proof fn lemma_inserts_are_held(
    before: HotKeyCache,
    after: HotKeyCache,
    keys: Seq<Seq<u8>>,
    tables: Seq<PointTable>,
    n: int,
    k: Seq<u8>,
)
    requires
        0 <= n <= keys.len(),
        fresh_inserts(before, after, keys, tables, n),
        before.held().len() + n <= before.limit(),
    ensures
        after.limit() == before.limit(),
        after.held().len() <= before.held().len() + n,
        before.lookup(k) is Some ==> after.lookup(k) is Some,
        count_of(keys, k, n) > 0 && decoded(k) is Some ==> after.lookup(k) is Some,
    decreases n,
{
    if n > 0 {
        let key = keys[n - 1];
        if before.lookup(key) is None && decoded(key) is Some {
            let (middle, entry) = choose|middle: HotKeyCache, entry: CachedPublicKey|
                fresh_inserts(before, middle, keys, tables, n - 1) && is_fresh(
                    entry,
                    keys[n - 1],
                    tables[n - 1],
                ) && #[trigger] middle.inserts_to(entry, &after);
            lemma_inserts_are_held(before, middle, keys, tables, n - 1, k);
            middle.lemma_room(entry, after);
            if k != key {
                assert(after.lookup(k) == middle.lookup(k));
            }
        } else {
            lemma_inserts_are_held(before, after, keys, tables, n - 1, k);
        }
    }
}

/// Promotion neither adds a key nor drops one.
proof fn lemma_promotions_are_held(
    before: HotKeyCache,
    after: HotKeyCache,
    keys: Seq<Seq<u8>>,
    n: int,
)
    requires
        0 <= n <= keys.len(),
        promotion_inserts(before, after, keys, n),
    ensures
        after.limit() == before.limit(),
        after.held().len() == before.held().len(),
        forall|k: Seq<u8>|
            before.lookup(k) is Some ==> (#[trigger] after.lookup(k)) is Some,
    decreases n,
{
    if n > 0 {
        match before.lookup(keys[n - 1]) {
            Some(existing) => {
                let (middle, entry) = choose|middle: HotKeyCache, entry: CachedPublicKey|
                    promotion_inserts(before, middle, keys, n - 1) && is_promotion(
                        entry,
                        keys[n - 1],
                        existing,
                    ) && #[trigger] middle.inserts_to(entry, &after);
                lemma_promotions_are_held(before, middle, keys, n - 1);
                assert(middle.lookup(keys[n - 1]) is Some);
                middle.lemma_room(entry, after);
                assert forall|k: Seq<u8>| before.lookup(k) is Some implies (#[trigger] after.lookup(
                    k,
                )) is Some by {
                    if k != entry.key() {
                        assert(after.lookup(k) == middle.lookup(k));
                        assert(middle.lookup(k) is Some);
                    }
                }
            },
            None => {
                lemma_promotions_are_held(before, after, keys, n - 1);
            },
        }
    }
}

/// A chunk drops no key from a cache with room for eight more; and where some
/// lane is usable, every key of the chunk that is a point is held afterwards.
pub proof fn lemma_chunk_is_held(
    before: HotKeyCache,
    after: HotKeyCache,
    inputs: Seq<VerifyInput<'_>>,
    k: Seq<u8>,
)
    requires
        inputs.len() == 8,
        chunk_transition(before, after, inputs),
        before.held().len() + 8 <= before.limit(),
    ensures
        after.limit() == before.limit(),
        after.held().len() <= before.held().len() + 8,
        before.lookup(k) is Some ==> after.lookup(k) is Some,
        any_usable(inputs) && in_chunk(inputs, k) && decoded(k) is Some ==> after.lookup(k) is Some,
{
    let keys = keys_of(inputs);
    if any_usable(inputs) {
        let l = choose|l: int| 0 <= l < inputs.len() && usable(#[trigger] inputs[l]);
        assert(canonical(inputs[l]));
    }
    if any_canonical(inputs) {
        let touched = choose|touched: HotKeyCache| #[trigger]
            touches_in_order(before, touched, keys, 8) && chunk_changes(touched, after, inputs);
        lemma_hits_keep_size(before, touched, keys, 8);
        lemma_touches_in_order(before, touched, keys, 8, k);
        lemma_count_positive(keys, k, 8);
        if in_chunk(inputs, k) {
            let l = choose|l: int| 0 <= l < inputs.len() && (#[trigger] inputs[l]).public_key@ == k;
            assert(keys[l] == k);
            assert(holds_promoted(touched, keys) ==> touched.lookup(keys[l]) is Some);
        }
        if !holds_promoted(touched, keys) && any_usable(inputs) {
            let (middle, tables) = choose|middle: HotKeyCache, tables: Seq<PointTable>| #[trigger]
                fills_and_promotes(touched, after, keys, tables, middle);
            let list = promoting_keys(touched, keys);
            let n = list.len() as int;
            let hit = choose|hit: HotKeyCache| #[trigger]
                touches_in_order(middle, hit, list, n) && promotion_inserts(hit, after, list, n);
            lemma_inserts_are_held(touched, middle, keys, tables, 8, k);
            lemma_hits_keep_size(middle, hit, list, n);
            lemma_touches_in_order(middle, hit, list, n, k);
            lemma_promotions_are_held(hit, after, list, n);
        }
    }
}

/// A batch of up to eight requests is one chunk: it holds each of them, and
/// repeats of them only.
pub proof fn lemma_small_batch<'a, C: KeyCache>(
    before: C,
    after: C,
    inputs: Seq<VerifyInput<'a>>,
) -> (chunk: Seq<VerifyInput<'a>>)
    requires
        1 <= inputs.len() <= 8,
        batch_transition(before, after, inputs),
    ensures
        chunk.len() == 8,
        chunk_transition(before, after, chunk),
        forall|i: int| 0 <= i < inputs.len() ==> chunk.contains(#[trigger] inputs[i]),
        forall|l: int| 0 <= l < 8 ==> inputs.contains(#[trigger] chunk[l]),
        inputs.len() == 8 && (forall|i: int, j: int|
            0 <= i < j < 8 ==> (#[trigger] inputs[i]).public_key@ != (#[trigger] inputs[j]).public_key@)
            ==> forall|i: int, j: int|
            0 <= i < j < 8 ==> #[trigger] keys_of(chunk)[i] != #[trigger] keys_of(chunk)[j],
{
    reveal(batch_transition);
    let order = choose|order: Seq<usize>| #[trigger]
        is_bucket_order(bucket_list(inputs), order) && chunk_transitions(
            before,
            after,
            inputs,
            order,
            (inputs.len() as int + 7) / 8,
        );
    let chunk = chunk_at(inputs, order, 0);
    lemma_order_count(bucket_list(inputs), order);
    let middle = choose|middle: C|
        chunk_transitions(before, middle, inputs, order, 0) && #[trigger] chunk_transition(
            middle,
            after,
            chunk_at(inputs, order, 8 * (1int - 1)),
        );
    assert(middle == before);
    assert forall|i: int| 0 <= i < inputs.len() implies chunk.contains(#[trigger] inputs[i]) by {
        assert(order.contains(i as usize));
        let l = choose|l: int| 0 <= l < order.len() && order[l] == i as usize;
        assert(chunk[l] == inputs[i]);
    }
    assert forall|l: int| 0 <= l < 8 implies inputs.contains(#[trigger] chunk[l]) by {
        let i = if l < order.len() {
            order[l] as int
        } else {
            order[0] as int
        };
        assert(order[l] < inputs.len() || l >= order.len());
        assert(order[0] < inputs.len());
        assert(chunk[l] == inputs[i]);
    }
    if inputs.len() == 8 && (forall|i: int, j: int|
        0 <= i < j < 8 ==> (#[trigger] inputs[i]).public_key@ != (
        #[trigger] inputs[j]).public_key@) {
        assert forall|i: int, j: int| 0 <= i < j < 8 implies #[trigger] keys_of(chunk)[i]
            != #[trigger] keys_of(chunk)[j] by {
            let (a, b) = (order[i] as int, order[j] as int);
            assert(order[i] < inputs.len() && order[j] < inputs.len());
            assert(a != b);
            if a < b {
                assert(inputs[a].public_key@ != inputs[b].public_key@);
            } else {
                assert(inputs[b].public_key@ != inputs[a].public_key@);
            }
        }
    }
    chunk
}

/// A key is promoted once while a cache holds it: its entry keeps both tables.
pub proof fn lemma_promoted_once<C: KeyCache>(
    before: C,
    after: C,
    inputs: Seq<VerifyInput<'_>>,
    k: Seq<u8>,
)
    requires
        inputs.len() == 8,
        chunk_transition(before, after, inputs),
        before.lookup(k) is Some,
        (before.lookup(k)->0).promoted(),
        after.lookup(k) is Some,
    ensures
        (after.lookup(k)->0).low() == (before.lookup(k)->0).low(),
        (after.lookup(k)->0).high() == (before.lookup(k)->0).high(),
{
    lemma_chunk_step(before, after, inputs, k);
}

/// The cache that holds nothing retains no key, whatever batch comes.
pub proof fn lemma_null_cache_retains_nothing(
    before: NullKeyCache,
    after: NullKeyCache,
    inputs: Seq<VerifyInput<'_>>,
    k: Seq<u8>,
)
    requires
        batch_transition(before, after, inputs),
    ensures
        after == before,
        after.lookup(k) is None,
{
}

/// An entry that is held, not promoted and not normalized.
pub open spec fn is_held(entry: Option<CachedPublicKey>) -> bool {
    &&& entry is Some
    &&& !(entry->0).promoted()
    &&& !eq((entry->0).low().entry(2).z2v(), 2)
}

/// An entry that is promoted, with normalized tables.
pub open spec fn is_promoted(entry: Option<CachedPublicKey>) -> bool {
    &&& entry is Some
    &&& (entry->0).promoted()
    &&& (entry->0).low().normalized()
    &&& ((entry->0).high()->0).normalized()
}

/// What a batch of up to eight requests does to a cache with room for eight
/// more, if one of the requests is usable. A key of the batch that is a point is
/// held afterwards: a new one as it was decoded and without hits, one that was
/// promoted with the same tables, and one that had a hit promoted by the next.
/// In a full batch without repeats the first hit does not promote yet.
pub proof fn lemma_round(
    before: HotKeyCache,
    after: HotKeyCache,
    inputs: Seq<VerifyInput<'_>>,
    k: Seq<u8>,
)
    requires
        1 <= inputs.len() <= 8,
        batch_transition(before, after, inputs),
        before.held().len() + 8 <= before.limit(),
        any_usable(inputs),
        in_chunk(inputs, k),
        decoded(k) is Some,
    ensures
        after.limit() == before.limit(),
        after.held().len() <= before.held().len() + 8,
        after.lookup(k) is Some,
        match before.lookup(k) {
            None => is_held(after.lookup(k)) && (after.lookup(k)->0).hit_count() == 0,
            Some(o) => if o.promoted() {
                &&& (after.lookup(k)->0).low() == o.low()
                &&& (after.lookup(k)->0).high() == o.high()
            } else {
                o.hit_count() >= 1 ==> is_promoted(after.lookup(k))
            },
        },
        inputs.len() == 8 && (forall|i: int, j: int|
            0 <= i < j < 8 ==> (#[trigger] inputs[i]).public_key@ != (#[trigger] inputs[j]).public_key@)
            && is_held(before.lookup(k)) && (before.lookup(k)->0).hit_count() == 0 ==> is_held(
            after.lookup(k),
        ) && (after.lookup(k)->0).hit_count() == 1,
{
    let chunk = lemma_small_batch(before, after, inputs);
    let keys = keys_of(chunk);
    let m = choose|m: int| 0 <= m < inputs.len() && usable(#[trigger] inputs[m]);
    assert(chunk.contains(inputs[m]));
    let u = choose|u: int| 0 <= u < chunk.len() && chunk[u] == inputs[m];
    assert(usable(chunk[u]) && canonical(chunk[u]));
    let i = choose|i: int| 0 <= i < inputs.len() && (#[trigger] inputs[i]).public_key@ == k;
    assert(chunk.contains(inputs[i]));
    let l = choose|l: int| 0 <= l < chunk.len() && chunk[l] == inputs[i];
    assert(chunk[l].public_key@ == k);
    assert(keys[l] == k);
    lemma_chunk_is_held(before, after, chunk, k);
    lemma_chunk_step(before, after, chunk, k);
    lemma_count_positive(keys, k, 8);
    if before.lookup(k) is None {
        lemma_projective_table((after.lookup(k)->0).low(), decoded(k)->0);
    } else {
        (before.lookup(k)->0).lemma_hit_count();
    }
    if inputs.len() == 8 && (forall|i: int, j: int|
        0 <= i < j < 8 ==> (#[trigger] inputs[i]).public_key@ != (
        #[trigger] inputs[j]).public_key@) {
        lemma_count_distinct(keys, k, 8);
    }
}

/// Three full batches of the same keys, none of them twice, on an empty cache:
/// the first leaves a key held, the second too, and the third promotes it.
pub proof fn lemma_three_rounds(
    empty: HotKeyCache,
    first: HotKeyCache,
    second: HotKeyCache,
    third: HotKeyCache,
    batches: Seq<Seq<VerifyInput<'_>>>,
    k: Seq<u8>,
)
    requires
        empty.held().len() == 0,
        empty.limit() >= 24,
        batches.len() == 3,
        forall|b: int| 0 <= b < 3 ==> (#[trigger] batches[b]).len() == 8,
        forall|b: int, i: int, j: int|
            0 <= b < 3 && 0 <= i < j < 8 ==> (#[trigger] batches[b][i]).public_key@ != (
            #[trigger] batches[b][j]).public_key@,
        forall|b: int| 0 <= b < 3 ==> any_usable(#[trigger] batches[b]) && in_chunk(batches[b], k),
        decoded(k) is Some,
        batch_transition(empty, first, batches[0]),
        batch_transition(first, second, batches[1]),
        batch_transition(second, third, batches[2]),
    ensures
        is_held(first.lookup(k)),
        is_held(second.lookup(k)),
        is_promoted(third.lookup(k)),
{
    assert forall|b: int| 0 <= b < 3 implies (#[trigger] batches[b]).len() == 8 && any_usable(
        batches[b],
    ) && in_chunk(batches[b], k) by {
    }
    lemma_round(empty, first, batches[0], k);
    lemma_round(first, second, batches[1], k);
    lemma_round(second, third, batches[2], k);
}

} // verus!
