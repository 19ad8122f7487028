use ed25519_batch::batch::fill_bucket_order;
use ed25519_batch::cache::{CachedPublicKey, HotKeyCache, KeyCache, NullKeyCache};
use ed25519_batch::chunk::{distinct_lanes, recover_promote_points, split_digit_halves};
use ed25519_batch::edwards::EdwardsPoint;
use ed25519_batch::policy::{
    r_encoding_has_canonical_y, r_encoding_is_legacy_excluded, VerifyPolicy,
};
use ed25519_batch::scalar::Scalar;
use ed25519_batch::tables::PointTable;
use ed25519_batch::wide::{
    build_promoted_split_tables, decode_keys_and_decompress_r, decompress_r_points,
};

fn entry(n: usize) -> CachedPublicKey {
    let b = EdwardsPoint::basepoint();
    let mut q = b;
    for _ in 0..n {
        q = q.add(&b);
    }
    CachedPublicKey::new(q.compress(), PointTable::new(&q), None, 0)
}

#[test]
fn default_policy() {
    assert_eq!(VerifyPolicy::default(), VerifyPolicy::Zip215);
}

#[test]
fn excluded_encodings() {
    let excluded: [[u8; 32]; 11] = [
        [
            0x00, 0x00, 0x00, 0x00, 0x00, 0x00, 0x00, 0x00, 0x00, 0x00, 0x00, 0x00, 0x00, 0x00, 0x00, 0x00,
            0x00, 0x00, 0x00, 0x00, 0x00, 0x00, 0x00, 0x00, 0x00, 0x00, 0x00, 0x00, 0x00, 0x00, 0x00, 0x00,
        ],
        [
            0x01, 0x00, 0x00, 0x00, 0x00, 0x00, 0x00, 0x00, 0x00, 0x00, 0x00, 0x00, 0x00, 0x00, 0x00, 0x00,
            0x00, 0x00, 0x00, 0x00, 0x00, 0x00, 0x00, 0x00, 0x00, 0x00, 0x00, 0x00, 0x00, 0x00, 0x00, 0x00,
        ],
        [
            0x26, 0xe8, 0x95, 0x8f, 0xc2, 0xb2, 0x27, 0xb0, 0x45, 0xc3, 0xf4, 0x89, 0xf2, 0xef, 0x98, 0xf0,
            0xd5, 0xdf, 0xac, 0x05, 0xd3, 0xc6, 0x33, 0x39, 0xb1, 0x38, 0x02, 0x88, 0x6d, 0x53, 0xfc, 0x05,
        ],
        [
            0xc7, 0x17, 0x6a, 0x70, 0x3d, 0x4d, 0xd8, 0x4f, 0xba, 0x3c, 0x0b, 0x76, 0x0d, 0x10, 0x67, 0x0f,
            0x2a, 0x20, 0x53, 0xfa, 0x2c, 0x39, 0xcc, 0xc6, 0x4e, 0xc7, 0xfd, 0x77, 0x92, 0xac, 0x03, 0x7a,
        ],
        [
            0x13, 0xe8, 0x95, 0x8f, 0xc2, 0xb2, 0x27, 0xb0, 0x45, 0xc3, 0xf4, 0x89, 0xf2, 0xef, 0x98, 0xf0,
            0xd5, 0xdf, 0xac, 0x05, 0xd3, 0xc6, 0x33, 0x39, 0xb1, 0x38, 0x02, 0x88, 0x6d, 0x53, 0xfc, 0x85,
        ],
        [
            0xb4, 0x17, 0x6a, 0x70, 0x3d, 0x4d, 0xd8, 0x4f, 0xba, 0x3c, 0x0b, 0x76, 0x0d, 0x10, 0x67, 0x0f,
            0x2a, 0x20, 0x53, 0xfa, 0x2c, 0x39, 0xcc, 0xc6, 0x4e, 0xc7, 0xfd, 0x77, 0x92, 0xac, 0x03, 0xfa,
        ],
        [
            0xec, 0xff, 0xff, 0xff, 0xff, 0xff, 0xff, 0xff, 0xff, 0xff, 0xff, 0xff, 0xff, 0xff, 0xff, 0xff,
            0xff, 0xff, 0xff, 0xff, 0xff, 0xff, 0xff, 0xff, 0xff, 0xff, 0xff, 0xff, 0xff, 0xff, 0xff, 0x7f,
        ],
        [
            0xed, 0xff, 0xff, 0xff, 0xff, 0xff, 0xff, 0xff, 0xff, 0xff, 0xff, 0xff, 0xff, 0xff, 0xff, 0xff,
            0xff, 0xff, 0xff, 0xff, 0xff, 0xff, 0xff, 0xff, 0xff, 0xff, 0xff, 0xff, 0xff, 0xff, 0xff, 0x7f,
        ],
        [
            0xee, 0xff, 0xff, 0xff, 0xff, 0xff, 0xff, 0xff, 0xff, 0xff, 0xff, 0xff, 0xff, 0xff, 0xff, 0xff,
            0xff, 0xff, 0xff, 0xff, 0xff, 0xff, 0xff, 0xff, 0xff, 0xff, 0xff, 0xff, 0xff, 0xff, 0xff, 0x7f,
        ],
        [
            0xd9, 0xff, 0xff, 0xff, 0xff, 0xff, 0xff, 0xff, 0xff, 0xff, 0xff, 0xff, 0xff, 0xff, 0xff, 0xff,
            0xff, 0xff, 0xff, 0xff, 0xff, 0xff, 0xff, 0xff, 0xff, 0xff, 0xff, 0xff, 0xff, 0xff, 0xff, 0xff,
        ],
        [
            0xda, 0xff, 0xff, 0xff, 0xff, 0xff, 0xff, 0xff, 0xff, 0xff, 0xff, 0xff, 0xff, 0xff, 0xff, 0xff,
            0xff, 0xff, 0xff, 0xff, 0xff, 0xff, 0xff, 0xff, 0xff, 0xff, 0xff, 0xff, 0xff, 0xff, 0xff, 0xff,
        ],
    ];
    for bytes in excluded {
        assert!(r_encoding_is_legacy_excluded(&bytes));
        let mut other = bytes;
        other[17] ^= 4;
        assert!(!r_encoding_is_legacy_excluded(&other));
    }
    assert!(!r_encoding_is_legacy_excluded(&EdwardsPoint::basepoint().compress()));
    // The other sign of an excluded encoding need not be excluded.
    let mut two = [0u8; 32];
    two[0] = 2;
    assert!(!r_encoding_is_legacy_excluded(&two));
}

#[test]
fn canonical_y_coordinates() {
    let mut bytes = [0xffu8; 32];
    for top in [0x7fu8, 0xff] {
        bytes[31] = top;
        for low in 0..=255u8 {
            bytes[0] = low;
            assert_eq!(r_encoding_has_canonical_y(&bytes), low < 0xed);
        }
    }
    bytes[0] = 0xff;
    bytes[9] = 0xfe;
    assert!(r_encoding_has_canonical_y(&bytes));
    assert!(r_encoding_has_canonical_y(&[0; 32]));
}

#[test]
fn null_cache_holds_nothing() {
    let mut c = NullKeyCache::new();
    let e = entry(0);
    c.insert(e);
    assert!(c.get(&e.encoded()).is_none());
    assert!(c.peek(&e.encoded()).is_none());
}

#[test]
fn hot_cache_counts_and_replaces() {
    let mut c = HotKeyCache::new();
    let (a, b) = (entry(0), entry(1));
    assert_eq!(c.len(), 0);
    c.insert(a);
    c.insert(b);
    assert_eq!(c.len(), 2);
    // Every read of an entry counts, but for a peek.
    assert_eq!(c.get(&a.encoded()).unwrap().hits(), 1);
    assert_eq!(c.get(&a.encoded()).unwrap().hits(), 2);
    assert_eq!(c.peek(&a.encoded()).unwrap().hits(), 2);
    assert_eq!(c.peek(&a.encoded()).unwrap().hits(), 2);
    assert_eq!(c.peek(&b.encoded()).unwrap().hits(), 0);
    // The same key again takes the place of the old entry.
    c.insert(a);
    assert_eq!(c.len(), 2);
    assert_eq!(c.peek(&a.encoded()).unwrap().hits(), 0);
    assert!(c.get(&entry(2).encoded()).is_none());
    assert!(c.peek(&entry(2).encoded()).is_none());
    for _ in 0..300 {
        assert!(c.get(&b.encoded()).is_some());
    }
    assert_eq!(c.peek(&b.encoded()).unwrap().hits(), 255);
}

#[test]
fn hot_cache_drops_its_oldest_entry() {
    let mut c = HotKeyCache::with_capacity(2);
    let entries = [entry(0), entry(1), entry(2)];
    c.insert(entries[0]);
    c.insert(entries[1]);
    // An entry for a known key does not count as new.
    c.insert(entries[0]);
    c.insert(entries[2]);
    assert_eq!(c.len(), 2);
    assert!(c.peek(&entries[0].encoded()).is_none());
    assert!(c.peek(&entries[1].encoded()).is_some());
    assert!(c.peek(&entries[2].encoded()).is_some());
    let mut none = HotKeyCache::with_capacity(0);
    none.insert(entries[0]);
    assert_eq!(none.len(), 0);
    assert!(none.peek(&entries[0].encoded()).is_none());
}

#[test]
fn requests_are_ordered_by_bucket() {
    let mut order = vec![7, 7];
    fill_bucket_order(&vec![3, 1, 2, 1, u64::MAX, 3, 0], &mut order);
    assert_eq!(order, vec![6, 1, 3, 2, 0, 5, 4]);
    fill_bucket_order(&vec![], &mut order);
    assert!(order.is_empty());
}

#[test]
fn lanes_are_decoded_with_masks() {
    let b = EdwardsPoint::basepoint();
    let mut keys = [b.compress(); 8];
    let mut none = [0u8; 32];
    none[0] = 2;
    keys[2] = none;
    keys[7] = none;
    let mut r = [[0u8; 32]; 8];
    r[0] = none;
    r[3] = EdwardsPoint::identity().compress();
    let (tables, key_mask, points, r_mask) = decode_keys_and_decompress_r(&keys, &r);
    assert_eq!(key_mask, 0b0111_1011);
    assert_eq!(r_mask, 0b1111_1110);
    for lane in 0..8 {
        let expect = if lane == 2 || lane == 7 { EdwardsPoint::identity() } else { b };
        assert!(tables[lane].recover_base_point().same_point(&expect));
    }
    let zero = [true, false, false, true, false, false, false, false];
    assert_eq!(points.x_zero_lanes(), zero);
    let (points, mask) = decompress_r_points(&r);
    assert_eq!(mask, r_mask);
    assert_eq!(points.x_zero_lanes(), zero);
}

#[test]
fn promoted_tables_are_those_of_high_multiples() {
    let b = EdwardsPoint::basepoint();
    let mut points = [EdwardsPoint::identity(); 8];
    points[1] = b;
    points[6] = b.double();
    let tables = build_promoted_split_tables(&points);
    for lane in 0..8 {
        let expect = points[lane].mul_by_pow2_127();
        assert!(tables[lane].recover_base_point().same_point(&expect));
    }
}

#[test]
fn promoting_lanes_are_taken_once_for_each_key() {
    let (a, b, c) = (entry(0).encoded(), entry(1).encoded(), entry(2).encoded());
    let keys = [a, b, a, c, b, a, c, c];
    let flags = [false, true, true, false, true, true, true, true];
    assert_eq!(distinct_lanes(&flags, &keys), vec![1, 2, 6]);
    assert_eq!(distinct_lanes(&[true; 8], &keys), vec![0, 1, 3]);
    assert!(distinct_lanes(&[false; 8], &keys).is_empty());
}

#[test]
fn promoting_points_come_from_their_tables() {
    let (a, b) = (entry(0), entry(3));
    let cached = [Some(&a), None, Some(&b), None, Some(&a), None, None, None];
    let flags = [true, false, true, false, false, false, false, false];
    let points = recover_promote_points(&cached, &flags);
    for lane in 0..8 {
        let expect = match lane {
            0 => a.table().recover_base_point(),
            2 => b.table().recover_base_point(),
            _ => EdwardsPoint::identity(),
        };
        let (x, y, z, t) = points[lane].coords();
        let (ex, ey, ez, et) = expect.coords();
        assert!(x.equals(ex) && y.equals(ey) && z.equals(ez) && t.equals(et));
    }
}

#[test]
fn halves_of_scalars_are_split_at_bit_127() {
    // 2^127 + 5 has the halves 5 and 1.
    let mut bytes = [0u8; 32];
    bytes[0] = 5;
    bytes[15] = 0x80;
    let scalar = Scalar::from_canonical_bytes(bytes);
    let (lo, hi) = split_digit_halves(&[scalar; 8]);
    for lane in 0..8 {
        assert_eq!(lo[lane][0], 5);
        assert_eq!(hi[lane][0], 1);
        assert!(lo[lane][1..].iter().all(|&d| d == 0));
        assert!(hi[lane][1..].iter().all(|&d| d == 0));
    }
}
