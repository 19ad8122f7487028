//! Caches of decoded public keys.
use crate::batch::{split_factor, PUBLIC_KEY_LEN};
use crate::bytes::bytes_equal;
use crate::edwards::decoded;
use crate::math::curve::smul;
use crate::tables::PointTable;
use vstd::prelude::*;

verus! {

/// A decoded public key: the tables of its point and, once it is promoted, of
/// the point's multiple by `2^127`, and a count of the cache hits.
#[derive(Clone, Copy, Debug)]
pub struct CachedPublicKey {
    encoded: [u8; PUBLIC_KEY_LEN],
    table: PointTable,
    table_hi: Option<PointTable>,
    hits: u8,
}

/// The tables are those of the encoded key.
pub open spec fn tables_of_key(key: Seq<u8>, table: PointTable, table_hi: Option<PointTable>) -> bool {
    &&& decoded(key) is Some
    &&& table.is_table_of(decoded(key)->0)
    &&& match table_hi {
        Some(hi) => hi.is_table_of(smul(split_factor(), decoded(key)->0)),
        None => true,
    }
}

impl CachedPublicKey {
    #[verifier::type_invariant]
    spec fn inv(self) -> bool {
        tables_of_key(self.encoded@, self.table, self.table_hi)
    }

    /// The encoded key.
    pub closed spec fn key(self) -> Seq<u8> {
        self.encoded@
    }

    /// The table of the key.
    pub closed spec fn low(self) -> PointTable {
        self.table
    }

    /// The table of the key's multiple by `2^127`, once it is promoted.
    pub closed spec fn high(self) -> Option<PointTable> {
        self.table_hi
    }

    /// The hits since the key was inserted, up to 255.
    pub closed spec fn hit_count(self) -> int {
        self.hits as int
    }

    /// The entry is promoted: it carries the table for the split ladder.
    pub open spec fn promoted(self) -> bool {
        self.high() is Some
    }

    /// The other is the same entry after one more hit.
    pub open spec fn hit_to(self, other: CachedPublicKey) -> bool {
        &&& other.key() == self.key()
        &&& other.low() == self.low()
        &&& other.high() == self.high()
        &&& other.hit_count() == if self.hit_count() < 255 {
            self.hit_count() + 1
        } else {
            self.hit_count()
        }
    }

    /// The count of the hits is a byte.
    pub proof fn lemma_hit_count(self)
        ensures
            0 <= self.hit_count() <= 255,
    {
    }

    /// An entry with the tables of a key.
    pub fn new(
        encoded: [u8; PUBLIC_KEY_LEN],
        table: PointTable,
        table_hi: Option<PointTable>,
        hits: u8,
    ) -> (r: Self)
        requires
            tables_of_key(encoded@, table, table_hi),
        ensures
            r.key() == encoded@,
            r.low() == table,
            r.high() == table_hi,
            r.hit_count() == hits,
    {
        CachedPublicKey { encoded, table, table_hi, hits }
    }

    /// The encoded key.
    pub fn encoded(&self) -> (r: [u8; PUBLIC_KEY_LEN])
        ensures
            r@ == self.key(),
    {
        self.encoded
    }

    /// The table of the key.
    pub fn table(&self) -> (r: &PointTable)
        ensures
            *r == self.low(),
            tables_of_key(self.key(), self.low(), self.high()),
    {
        proof {
            use_type_invariant(self);
        }
        &self.table
    }

    /// The table of the key's multiple by `2^127`, once it is promoted.
    pub fn table_hi(&self) -> (r: Option<&PointTable>)
        ensures
            match r {
                Some(hi) => self.high() == Some(*hi),
                None => self.high() is None,
            },
            tables_of_key(self.key(), self.low(), self.high()),
    {
        proof {
            use_type_invariant(self);
        }
        match &self.table_hi {
            Some(hi) => Some(hi),
            None => None,
        }
    }

    /// The hits since the key was inserted, up to 255.
    pub fn hits(&self) -> (r: u8)
        ensures
            r == self.hit_count(),
    {
        self.hits
    }

    /// The same entry after one more hit.
    fn hit(&self) -> (r: Self)
        ensures
            self.hit_to(r),
    {
        proof {
            use_type_invariant(self);
        }
        let hits: u8 = if self.hits < 255 {
            self.hits + 1
        } else {
            255
        };
        CachedPublicKey { encoded: self.encoded, table: self.table, table_hi: self.table_hi, hits }
    }
}

/// A cache of decoded public keys.
pub trait KeyCache: Sized {
    /// The entry for an encoded key, if the cache holds one.
    spec fn lookup(&self, key: Seq<u8>) -> Option<CachedPublicKey>;

    /// Whether a cache is what this one becomes when a hit of a key is counted.
    spec fn touches_to(&self, key: Seq<u8>, after: &Self) -> bool;

    /// Whether a cache is what this one becomes by the insert of an entry.
    spec fn inserts_to(&self, entry: CachedPublicKey, after: &Self) -> bool;

    /// A hit is counted for the entry of its key, if there is one, and changes
    /// nothing else.
    proof fn lemma_touches(&self, key: Seq<u8>, after: &Self)
        requires
            self.touches_to(key, after),
        ensures
            forall|k: Seq<u8>| k != key ==> #[trigger] after.lookup(k) == self.lookup(k),
            match self.lookup(key) {
                Some(e) => after.lookup(key) is Some && e.hit_to(after.lookup(key)->0),
                None => after.lookup(key) is None,
            },
    ;

    /// A cache need not keep an entry that it is offered, nor what it held
    /// before, but it makes nothing up.
    proof fn lemma_inserts(&self, entry: CachedPublicKey, after: &Self)
        requires
            self.inserts_to(entry, after),
        ensures
            forall|k: Seq<u8>|
                (#[trigger] after.lookup(k)) is Some ==> after.lookup(k) == if k == entry.key() {
                    Some(entry)
                } else {
                    self.lookup(k)
                },
    ;

    /// The entry for a key. That the key was asked for counts as a hit.
    fn get(&mut self, key: &[u8; PUBLIC_KEY_LEN]) -> (r: Option<&CachedPublicKey>)
        ensures
            old(self).touches_to(key@, final(self)),
            match r {
                Some(e) => final(self).lookup(key@) == Some(*e) && e.key() == key@,
                None => final(self).lookup(key@) is None,
            },
    ;

    /// The entry for a key, as it stands: this counts no hit, and several
    /// entries can be held at a time.
    fn peek(&self, key: &[u8; PUBLIC_KEY_LEN]) -> (r: Option<&CachedPublicKey>)
        ensures
            match r {
                Some(e) => self.lookup(key@) == Some(*e) && e.key() == key@,
                None => self.lookup(key@) is None,
            },
    ;

    /// Offers an entry.
    fn insert(&mut self, entry: CachedPublicKey)
        ensures
            old(self).inserts_to(entry, final(self)),
    ;
}

/// The cache that holds nothing.
#[derive(Clone, Copy, Debug)]
pub struct NullKeyCache {}

impl NullKeyCache {
    pub fn new() -> (r: Self)
        ensures
            r == (NullKeyCache {  }),
            forall|k: Seq<u8>| (#[trigger] r.lookup(k)) is None,
    {
        NullKeyCache {  }
    }
}

impl KeyCache for NullKeyCache {
    open spec fn lookup(&self, key: Seq<u8>) -> Option<CachedPublicKey> {
        None
    }

    open spec fn touches_to(&self, key: Seq<u8>, after: &Self) -> bool {
        *after == *self
    }

    open spec fn inserts_to(&self, entry: CachedPublicKey, after: &Self) -> bool {
        *after == *self
    }

    proof fn lemma_touches(&self, key: Seq<u8>, after: &Self) {
    }

    proof fn lemma_inserts(&self, entry: CachedPublicKey, after: &Self) {
    }

    fn get(&mut self, key: &[u8; PUBLIC_KEY_LEN]) -> (r: Option<&CachedPublicKey>) {
        None
    }

    fn peek(&self, key: &[u8; PUBLIC_KEY_LEN]) -> (r: Option<&CachedPublicKey>) {
        None
    }

    fn insert(&mut self, entry: CachedPublicKey) {
    }
}

/// A cache of bounded size that drops its oldest entry for a new key.
#[derive(Debug)]
pub struct HotKeyCache {
    entries: Vec<CachedPublicKey>,
    capacity: usize,
}

/// The entries that a cache holds unless it is told otherwise.
pub const DEFAULT_CAPACITY: usize = 1024;

/// Whether one of some entries has a key.
pub open spec fn has_key(s: Seq<CachedPublicKey>, key: Seq<u8>) -> bool {
    exists|i: int| 0 <= i < s.len() && (#[trigger] s[i]).key() == key
}

/// The entries of a cache after one more was offered. It takes the place of
/// one with the same key, or comes last; then the first, which is the oldest,
/// leaves if there are too many.
pub open spec fn inserted(
    s: Seq<CachedPublicKey>,
    limit: int,
    entry: CachedPublicKey,
) -> Seq<CachedPublicKey> {
    if has_key(s, entry.key()) {
        Seq::new(
            s.len(),
            |i: int|
                if s[i].key() == entry.key() {
                    entry
                } else {
                    s[i]
                },
        )
    } else if limit == 0 {
        s
    } else if s.len() >= limit {
        s.remove(0).push(entry)
    } else {
        s.push(entry)
    }
}

/// No two entries have the same key.
pub open spec fn distinct(s: Seq<CachedPublicKey>) -> bool {
    forall|i: int, j: int|
        0 <= i < j < s.len() ==> (#[trigger] s[i]).key() != (#[trigger] s[j]).key()
}

/// The entry for a key among some.
pub open spec fn find(s: Seq<CachedPublicKey>, key: Seq<u8>) -> Option<CachedPublicKey> {
    if has_key(s, key) {
        Some(s[choose|i: int| 0 <= i < s.len() && (#[trigger] s[i]).key() == key])
    } else {
        None
    }
}

proof fn lemma_find(s: Seq<CachedPublicKey>, i: int)
    requires
        distinct(s),
        0 <= i < s.len(),
    ensures
        find(s, s[i].key()) == Some(s[i]),
{
    let key = s[i].key();
    let j = choose|j: int| 0 <= j < s.len() && (#[trigger] s[j]).key() == key;
    assert(s[i].key() == key);
    assert(s[j].key() == key);
    if i < j {
        assert(s[i].key() != s[j].key());
    } else if j < i {
        assert(s[j].key() != s[i].key());
    }
}

impl HotKeyCache {
    #[verifier::type_invariant]
    spec fn inv(self) -> bool {
        distinct(self.entries@) && self.entries@.len() <= self.capacity
    }

    /// The entries, the oldest first.
    pub closed spec fn held(self) -> Seq<CachedPublicKey> {
        self.entries@
    }

    /// How many entries the cache can hold.
    pub closed spec fn limit(self) -> int {
        self.capacity as int
    }

    /// An empty cache of the default size.
    pub fn new() -> (r: Self)
        ensures
            r.held().len() == 0,
            r.limit() == DEFAULT_CAPACITY,
            r.limit() == 1024,
    {
        HotKeyCache::with_capacity(DEFAULT_CAPACITY)
    }

    /// An empty cache that holds so many entries at most.
    pub fn with_capacity(capacity: usize) -> (r: Self)
        ensures
            r.held().len() == 0,
            r.limit() == capacity,
    {
        HotKeyCache { entries: Vec::new(), capacity }
    }

    /// The number of entries.
    pub fn len(&self) -> (r: usize)
        ensures
            r == self.held().len(),
            r <= self.limit(),
    {
        proof {
            use_type_invariant(self);
        }
        self.entries.len()
    }

    /// The position of a key.
    fn position(&self, key: &[u8; PUBLIC_KEY_LEN]) -> (r: Option<usize>)
        ensures
            match r {
                Some(i) => i < self.entries@.len() && self.entries@[i as int].key() == key@,
                None => forall|i: int|
                    0 <= i < self.entries@.len() ==> (#[trigger] self.entries@[i]).key() != key@,
            },
    {
        let mut i: usize = 0;
        while i < self.entries.len()
            invariant
                i <= self.entries@.len(),
                forall|j: int| 0 <= j < i ==> (#[trigger] self.entries@[j]).key() != key@,
            decreases self.entries@.len() - i,
        {
            if bytes_equal(&self.entries[i].encoded, key) {
                return Some(i);
            }
            i += 1;
        }
        None
    }
}

impl KeyCache for HotKeyCache {
    open spec fn lookup(&self, key: Seq<u8>) -> Option<CachedPublicKey> {
        find(self.held(), key)
    }

    /// The entry with the key has one more hit, in its place.
    open spec fn touches_to(&self, key: Seq<u8>, after: &Self) -> bool {
        &&& distinct(self.held())
        &&& after.limit() == self.limit()
        &&& after.held().len() == self.held().len()
        &&& forall|i: int|
            0 <= i < self.held().len() ==> if self.held()[i].key() == key {
                self.held()[i].hit_to(#[trigger] after.held()[i])
            } else {
                after.held()[i] == self.held()[i]
            }
    }

    open spec fn inserts_to(&self, entry: CachedPublicKey, after: &Self) -> bool {
        &&& distinct(self.held())
        &&& after.limit() == self.limit()
        &&& after.held() == inserted(self.held(), self.limit(), entry)
    }

    proof fn lemma_touches(&self, key: Seq<u8>, after: &Self) {
        let (s, t) = (self.held(), after.held());
        assert forall|i: int| 0 <= i < s.len() implies (#[trigger] t[i]).key() == s[i].key() by {
        }
        assert forall|i: int, j: int| 0 <= i < j < t.len() implies (#[trigger] t[i]).key() != (
        #[trigger] t[j]).key() by {
            assert(s[i].key() != s[j].key());
        }
        assert forall|k: Seq<u8>| k != key implies #[trigger] after.lookup(k) == self.lookup(k) by {
            assert forall|j: int| 0 <= j < s.len() && (#[trigger] s[j]).key() == k implies t.contains(
                s[j],
            ) by {
                assert(t[j] == s[j]);
            }
            assert forall|j: int| 0 <= j < t.len() && (#[trigger] t[j]).key() == k implies s.contains(
                t[j],
            ) by {
                assert(s[j] == t[j]);
            }
            lemma_same_find(s, t, k);
        }
        if has_key(s, key) {
            let i = choose|i: int| 0 <= i < s.len() && (#[trigger] s[i]).key() == key;
            lemma_find(s, i);
            lemma_find(t, i);
            assert(s[i].hit_to(t[i]));
        } else if has_key(t, key) {
            let i = choose|i: int| 0 <= i < t.len() && (#[trigger] t[i]).key() == key;
            assert(s[i].key() == key);
        }
    }

    proof fn lemma_inserts(&self, entry: CachedPublicKey, after: &Self) {
        let s = self.held();
        if has_key(s, entry.key()) {
            let i = lemma_replaced(s, self.limit(), entry);
            lemma_updated(s, i, entry);
        } else if self.limit() > 0 {
            assert forall|i: int| 0 <= i < s.len() implies (#[trigger] s[i]).key()
                != entry.key() by {
                assert(has_key(s, s[i].key()));
            }
            if s.len() >= self.limit() {
                lemma_dropped(s);
                assert forall|i: int| 0 <= i < s.remove(0).len() implies (
                #[trigger] s.remove(0)[i]).key() != entry.key() by {
                    assert(s.remove(0)[i] == s[i + 1]);
                }
                lemma_pushed(s.remove(0), entry);
            } else {
                lemma_pushed(s, entry);
            }
        }
    }

    fn get(&mut self, key: &[u8; PUBLIC_KEY_LEN]) -> (r: Option<&CachedPublicKey>) {
        proof {
            use_type_invariant(&*self);
        }
        match self.position(key) {
            None => None,
            Some(i) => {
                let entry = self.entries[i].hit();
                self.replace(i, entry);
                proof {
                    use_type_invariant(&*self);
                    lemma_find(self.entries@, i as int);
                }
                Some(&self.entries[i])
            },
        }
    }

    fn peek(&self, key: &[u8; PUBLIC_KEY_LEN]) -> (r: Option<&CachedPublicKey>) {
        proof {
            use_type_invariant(self);
        }
        match self.position(key) {
            None => None,
            Some(i) => {
                proof {
                    lemma_find(self.entries@, i as int);
                }
                Some(&self.entries[i])
            },
        }
    }

    fn insert(&mut self, entry: CachedPublicKey) {
        proof {
            use_type_invariant(&*self);
        }
        match self.position(&entry.encoded) {
            Some(i) => {
                self.replace(i, entry);
            },
            None => {
                self.append(entry);
            },
        }
    }
}

impl HotKeyCache {
    /// Puts another entry for the same key in the place of one.
    fn replace(&mut self, i: usize, entry: CachedPublicKey)
        requires
            i < old(self).entries@.len(),
            old(self).entries@[i as int].key() == entry.key(),
        ensures
            final(self).limit() == old(self).limit(),
            final(self).held() == old(self).held().update(i as int, entry),
            final(self).held() == inserted(old(self).held(), old(self).limit(), entry),
            forall|j: int|
                0 <= j < old(self).held().len() && j != i ==> (#[trigger] old(self).held()[j]).key() != entry.key(),
    {
        proof {
            use_type_invariant(&*self);
        }
        let ghost before = self.entries@;
        let mut entries: Vec<CachedPublicKey> = Vec::new();
        std::mem::swap(&mut entries, &mut self.entries);
        entries.set(i, entry);
        proof {
            lemma_updated(before, i as int, entry);
            assert(before[i as int].key() == entry.key());
            assert forall|j: int| 0 <= j < before.len() && j != i implies (
            #[trigger] before[j]).key() != entry.key() by {
                if j < i {
                    assert(before[j].key() != before[i as int].key());
                } else {
                    assert(before[i as int].key() != before[j].key());
                }
            }
            assert(entries@ =~= inserted(before, self.limit(), entry));
        }
        self.entries = entries;
    }

    /// Adds an entry for a new key, and drops the oldest where there is no
    /// room for it.
    fn append(&mut self, entry: CachedPublicKey)
        requires
            forall|i: int|
                0 <= i < old(self).entries@.len() ==> (#[trigger] old(self).entries@[i]).key()
                    != entry.key(),
        ensures
            final(self).limit() == old(self).limit(),
            final(self).held() == inserted(old(self).held(), old(self).limit(), entry),
    {
        proof {
            use_type_invariant(&*self);
        }
        if self.capacity == 0 {
            return ;
        }
        let ghost before = self.entries@;
        let mut entries: Vec<CachedPublicKey> = Vec::new();
        std::mem::swap(&mut entries, &mut self.entries);
        if entries.len() >= self.capacity {
            let _ = entries.remove(0);
            proof {
                lemma_dropped(before);
            }
        }
        let ghost middle = entries@;
        entries.push(entry);
        proof {
            lemma_pushed(middle, entry);
        }
        self.entries = entries;
    }
}

impl HotKeyCache {
    /// With room for one more entry, or an entry for the same key, the cache
    /// keeps what it is offered, and what it held for other keys.
    pub proof fn lemma_room(self, entry: CachedPublicKey, after: Self)
        requires
            self.inserts_to(entry, &after),
            self.held().len() < self.limit() || self.lookup(entry.key()) is Some,
        ensures
            after.lookup(entry.key()) == Some(entry),
            forall|k: Seq<u8>| k != entry.key() ==> #[trigger] after.lookup(k) == self.lookup(k),
            after.held().len() == self.held().len() + if self.lookup(entry.key()) is Some {
                0int
            } else {
                1
            },
            after.limit() == self.limit(),
    {
        let s = self.held();
        if has_key(s, entry.key()) {
            let i = lemma_replaced(s, self.limit(), entry);
            lemma_updated(s, i, entry);
        } else {
            assert forall|i: int| 0 <= i < s.len() implies (#[trigger] s[i]).key()
                != entry.key() by {
                assert(has_key(s, s[i].key()));
            }
            lemma_pushed(s, entry);
        }
    }
}

/// An entry takes the place of the one with its key.
proof fn lemma_replaced(s: Seq<CachedPublicKey>, limit: int, entry: CachedPublicKey) -> (i: int)
    requires
        distinct(s),
        has_key(s, entry.key()),
    ensures
        0 <= i < s.len(),
        s[i].key() == entry.key(),
        inserted(s, limit, entry) == s.update(i, entry),
{
    let i = choose|i: int| 0 <= i < s.len() && (#[trigger] s[i]).key() == entry.key();
    assert forall|j: int| 0 <= j < s.len() && j != i implies (#[trigger] s[j]).key()
        != entry.key() by {
        if j < i {
            assert(s[j].key() != s[i].key());
        } else {
            assert(s[i].key() != s[j].key());
        }
    }
    assert(inserted(s, limit, entry) =~= s.update(i, entry));
    i
}

/// The entries after one was put in the place of another for the same key.
proof fn lemma_updated(s: Seq<CachedPublicKey>, i: int, entry: CachedPublicKey)
    requires
        distinct(s),
        0 <= i < s.len(),
        s[i].key() == entry.key(),
    ensures
        distinct(s.update(i, entry)),
        find(s.update(i, entry), entry.key()) == Some(entry),
        forall|k: Seq<u8>|
            k != entry.key() ==> #[trigger] find(s.update(i, entry), k) == find(s, k),
{
    let t = s.update(i, entry);
    assert(forall|j: int| 0 <= j < s.len() ==> (#[trigger] t[j]).key() == s[j].key());
    assert forall|j: int, l: int| 0 <= j < l < t.len() implies (#[trigger] t[j]).key() != (
    #[trigger] t[l]).key() by {
        assert(s[j].key() != s[l].key());
    }
    lemma_find(t, i);
    assert forall|k: Seq<u8>| k != entry.key() implies #[trigger] find(t, k) == find(s, k) by {
        assert forall|j: int| 0 <= j < s.len() && (#[trigger] s[j]).key() == k implies t.contains(
            s[j],
        ) by {
            assert(t[j] == s[j]);
        }
        assert forall|j: int| 0 <= j < t.len() && (#[trigger] t[j]).key() == k implies s.contains(
            t[j],
        ) by {
            assert(s[j] == t[j]);
        }
        lemma_same_find(s, t, k);
    }
}

/// Entries that agree on a key.
proof fn lemma_same_find(s: Seq<CachedPublicKey>, t: Seq<CachedPublicKey>, k: Seq<u8>)
    requires
        distinct(s),
        distinct(t),
        forall|j: int| 0 <= j < s.len() && (#[trigger] s[j]).key() == k ==> t.contains(s[j]),
        forall|j: int| 0 <= j < t.len() && (#[trigger] t[j]).key() == k ==> s.contains(t[j]),
    ensures
        find(s, k) == find(t, k),
{
    if find(s, k) is Some {
        let j = choose|j: int| 0 <= j < s.len() && (#[trigger] s[j]).key() == k;
        let l = choose|l: int| 0 <= l < t.len() && t[l] == s[j];
        lemma_find(s, j);
        lemma_find(t, l);
    } else if find(t, k) is Some {
        let j = choose|j: int| 0 <= j < t.len() && (#[trigger] t[j]).key() == k;
        let l = choose|l: int| 0 <= l < s.len() && s[l] == t[j];
        lemma_find(s, l);
    }
}

/// The entries after the oldest was dropped.
proof fn lemma_dropped(s: Seq<CachedPublicKey>)
    requires
        distinct(s),
        s.len() > 0,
    ensures
        distinct(s.remove(0)),
        forall|k: Seq<u8>|
            (#[trigger] find(s.remove(0), k)) is Some ==> find(s.remove(0), k) == find(s, k),
{
    let t = s.remove(0);
    assert(forall|j: int| 0 <= j < t.len() ==> #[trigger] t[j] == s[j + 1]);
    assert forall|k: Seq<u8>| (#[trigger] find(t, k)) is Some implies find(t, k) == find(s, k) by {
        let j = choose|j: int| 0 <= j < t.len() && (#[trigger] t[j]).key() == k;
        lemma_find(t, j);
        lemma_find(s, j + 1);
    }
}

/// The entries after one for a new key was added.
proof fn lemma_pushed(s: Seq<CachedPublicKey>, entry: CachedPublicKey)
    requires
        distinct(s),
        forall|i: int| 0 <= i < s.len() ==> (#[trigger] s[i]).key() != entry.key(),
    ensures
        distinct(s.push(entry)),
        find(s.push(entry), entry.key()) == Some(entry),
        forall|k: Seq<u8>| k != entry.key() ==> #[trigger] find(s.push(entry), k) == find(s, k),
{
    let t = s.push(entry);
    lemma_find(t, s.len() as int);
    assert forall|k: Seq<u8>| k != entry.key() implies #[trigger] find(t, k) == find(s, k) by {
        assert forall|j: int| 0 <= j < s.len() && (#[trigger] s[j]).key() == k implies t.contains(
            s[j],
        ) by {
            assert(t[j] == s[j]);
        }
        assert forall|j: int| 0 <= j < t.len() && (#[trigger] t[j]).key() == k implies s.contains(
            t[j],
        ) by {
            assert(s[j] == t[j]);
        }
        lemma_same_find(s, t, k);
    }
}

} // verus!
