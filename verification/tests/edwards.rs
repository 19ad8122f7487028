use ed25519_batch::edwards::EdwardsPoint;
use ed25519_batch::field::Fe51;
use ed25519_batch::tables::{
    to_affine_cached_batch, AffineCachedPoint, BasepointTable, CachedPoint, PointTable,
    BASEPOINT_TABLE_SIZE,
};

/// Building a table from a point and recovering it gives the point
/// back, for projective and affine-normalized tables, on ordinary
/// and small-order points.
#[test]
fn recover_base_point_roundtrips() {
    // An order-8 point (torsion recovery must work too).
    let ord8 = EdwardsPoint::decompress(&[
        0x26, 0xe8, 0x95, 0x8f, 0xc2, 0xb2, 0x27, 0xb0, 0x45, 0xc3, 0xf4, 0x89, 0xf2, 0xef, 0x98,
        0xf0, 0xd5, 0xdf, 0xac, 0x05, 0xd3, 0xc6, 0x33, 0x39, 0xb1, 0x38, 0x02, 0x88, 0x6d, 0x53,
        0xfc, 0x05,
    ])
    .expect("order-8 point decodes");
    for point in [
        EdwardsPoint::basepoint(),
        EdwardsPoint::basepoint().double(),
        EdwardsPoint::identity(),
        ord8,
    ] {
        let projective = PointTable::new(&point);
        assert_eq!(
            projective.recover_base_point().compress(),
            point.compress(),
            "projective-table recovery diverged"
        );
        assert_eq!(
            projective.normalized_affine().recover_base_point().compress(),
            point.compress(),
            "affine-table recovery diverged"
        );
    }
    // The recovered point is (2X : 2Y : 2Z : 2T), so its t must equal the
    // doubled t of the base point.
    let b = EdwardsPoint::basepoint();
    let recovered = PointTable::new(&b).recover_base_point();
    assert!(recovered.coords().3.equals(&b.coords().3.double()), "recovered t != 2T");
}

fn assert_table_holds_signed_multiples(base: &EdwardsPoint, table: &BasepointTable) {
    // Reference [1] base..[N] base by repeated addition, independent of the table.
    let mut multiples = vec![base.clone()];
    for _ in 1..BASEPOINT_TABLE_SIZE {
        multiples.push(multiples.last().unwrap().add(base));
    }

    let n = BASEPOINT_TABLE_SIZE as i16;
    for d in -n..=n {
        let reference = if d == 0 {
            EdwardsPoint::identity()
        } else {
            let m = multiples[(d.unsigned_abs() as usize) - 1].clone();
            if d < 0 { m.negate() } else { m }
        };
        // Expected affine cached fields of the reference.
        let (rx, ry, rz, _) = reference.coords();
        let zinv = rz.invert();
        let x = rx.multiply(&zinv);
        let y = ry.multiply(&zinv);
        let expect_ypx = y.add(&x);
        let expect_ymx = y.subtract(&x);
        let expect_t2d = x.multiply(&y).multiply(&Fe51::two_d());

        let (ypx, ymx, t2d) = table.select_signed_affine_cached_ref(d).coords();
        assert!(ypx.equals(&expect_ypx), "y+x mismatch at digit {d}");
        assert!(ymx.equals(&expect_ymx), "y-x mismatch at digit {d}");
        assert!(t2d.equals(&expect_t2d), "t2d mismatch at digit {d}");
    }
}

/// Every entry is `[d] base` for its signed digit `d`, for both the `B`
/// table and a `from_point` table, checked against references built by
/// repeated addition.
#[test]
fn basepoint_tables_hold_signed_multiples() {
    assert_table_holds_signed_multiples(&EdwardsPoint::basepoint(), &BasepointTable::new());

    let b_prime = EdwardsPoint::basepoint().mul_by_pow2_127();
    assert_table_holds_signed_multiples(&b_prime, &BasepointTable::from_point(&b_prime));
}

/// Normalizing a projective public-key table to affine preserves every
/// entry, checked by cross-multiplication, independent of `invert`.
/// The basepoint multiples [2..8]B have Z != 1, so the input is nontrivial.
#[test]
fn normalized_affine_pointtable_matches_projective() {
    let projective = PointTable::new(&EdwardsPoint::basepoint());
    let affine = projective.normalized_affine();
    assert!(affine.is_affine());
    assert!(!projective.is_affine());

    let two = Fe51::one().double();
    for d in -8..=8i8 {
        let (pypx, pymx, pz2, pt2d) = projective.select_signed_cached_ref(d).coords();
        let (aypx, aymx, az2, at2d) = affine.select_signed_cached_ref(d).coords();
        assert!(az2.equals(&two), "affine z2 != 2 at digit {d}");
        assert!(
            aypx.multiply(pz2).equals(&pypx.double()),
            "y+x mismatch at digit {d}"
        );
        assert!(
            aymx.multiply(pz2).equals(&pymx.double()),
            "y-x mismatch at digit {d}"
        );
        assert!(
            at2d.multiply(pz2).equals(&pt2d.double()),
            "t2d mismatch at digit {d}"
        );
    }
}

#[test]
fn known_multiples_of_the_basepoint() {
    let b = EdwardsPoint::basepoint();
    let b3: [u8; 32] = [
        0xd4, 0xb4, 0xf5, 0x78, 0x48, 0x68, 0xc3, 0x02, 0x04, 0x03, 0x24, 0x67, 0x17, 0xec, 0x16, 0x9f,
        0xf7, 0x9e, 0x26, 0x60, 0x8e, 0xa1, 0x26, 0xa1, 0xab, 0x69, 0xee, 0x77, 0xd1, 0xb1, 0x67, 0x12,
    ];
    let b5: [u8; 32] = [
        0xed, 0xc8, 0x76, 0xd6, 0x83, 0x1f, 0xd2, 0x10, 0x5d, 0x0b, 0x43, 0x89, 0xca, 0x2e, 0x28, 0x31,
        0x66, 0x46, 0x92, 0x89, 0x14, 0x6e, 0x2c, 0xe0, 0x6f, 0xae, 0xfe, 0x98, 0xb2, 0x25, 0x48, 0xdf,
    ];
    let high: [u8; 32] = [
        0x61, 0x2e, 0xc2, 0xdd, 0x95, 0x57, 0xd1, 0xab, 0x80, 0xe8, 0x63, 0x17, 0xb5, 0x48, 0xe4, 0x8a,
        0x11, 0x9e, 0x72, 0xbe, 0x85, 0x8d, 0x51, 0x0a, 0xf2, 0x9f, 0xe0, 0x1c, 0xa9, 0x07, 0x28, 0xfb,
    ];
    let minus: [u8; 32] = [
        0x58, 0x66, 0x66, 0x66, 0x66, 0x66, 0x66, 0x66, 0x66, 0x66, 0x66, 0x66, 0x66, 0x66, 0x66, 0x66,
        0x66, 0x66, 0x66, 0x66, 0x66, 0x66, 0x66, 0x66, 0x66, 0x66, 0x66, 0x66, 0x66, 0x66, 0x66, 0xe6,
    ];
    assert_eq!(b.double().add(&b).compress(), b3);
    assert_eq!(b.double().double().add(&b).compress(), b5);
    assert_eq!(b.mul_by_pow2_127().compress(), high);
    assert_eq!(b.negate().compress(), minus);
    assert_eq!(b.subtract(&b.double()).compress(), minus);
}

/// Closure, neutral element, inverses, commutativity and associativity.
#[test]
fn group_laws_on_points() {
    let b = EdwardsPoint::basepoint();
    let o = EdwardsPoint::identity();
    let q = b.double().double().add(&b);
    let r = b.mul_by_pow2_127();
    assert_eq!(b.add(&o).compress(), b.compress());
    assert!(q.subtract(&q).same_point(&o));
    assert!(q.add(&r).same_point(&r.add(&q)));
    assert!(b.add(&q).add(&r).same_point(&b.add(&q.add(&r))));
    assert!(q.double().same_point(&q.add(&q)));
    assert!(!q.same_point(&r));
    assert!(q.negate().negate().same_point(&q));
}

/// The multiple by the order of the scalars is the identity.
#[test]
fn order_of_the_basepoint() {
    let order: [u8; 32] = [
        0xed, 0xd3, 0xf5, 0x5c, 0x1a, 0x63, 0x12, 0x58, 0xd6, 0x9c, 0xf7, 0xa2, 0xde, 0xf9, 0xde, 0x14,
        0x00, 0x00, 0x00, 0x00, 0x00, 0x00, 0x00, 0x00, 0x00, 0x00, 0x00, 0x00, 0x00, 0x00, 0x00, 0x10,
    ];
    let b = EdwardsPoint::basepoint();
    let mut acc = EdwardsPoint::identity();
    for i in (0..256).rev() {
        acc = acc.double();
        if order[i / 8] >> (i % 8) & 1 == 1 {
            acc = acc.add(&b);
        }
    }
    assert!(acc.same_point(&EdwardsPoint::identity()));
    assert!(!b.same_point(&EdwardsPoint::identity()));
}

/// A cached point adds as the point does.
#[test]
fn cached_additions_agree() {
    let b = EdwardsPoint::basepoint();
    let q = b.double().add(&b).double();
    let sum = b.add(&q);
    assert!(b.add_cached(&CachedPoint::new(&q)).same_point(&sum));
    assert!(b.add_cached(&CachedPoint::new(&q).negate()).same_point(&b.subtract(&q)));
    assert!(b.add_cached(&CachedPoint::identity()).same_point(&b));
    let affine = to_affine_cached_batch(&vec![q, b, EdwardsPoint::identity()]);
    assert!(b.add_affine_cached(&affine[0]).same_point(&sum));
    assert!(b.add_affine_cached(&affine[0].negate()).same_point(&b.subtract(&q)));
    assert!(b.add_affine_cached(&affine[2]).same_point(&b));
    assert!(b.add_affine_cached(&AffineCachedPoint::identity()).same_point(&b));
}

/// Decoding gives back what was encoded.
#[test]
fn compressed_points_decompress() {
    let b = EdwardsPoint::basepoint();
    let mut q = EdwardsPoint::identity();
    for _ in 0..40 {
        let bytes = q.compress();
        let back = EdwardsPoint::decompress(&bytes).unwrap();
        assert!(back.same_point(&q));
        assert_eq!(back.compress(), bytes);
        q = q.add(&b);
    }
}

#[test]
fn decompression_of_odd_encodings() {
    // No point has this y.
    let mut none = [0u8; 32];
    none[0] = 2;
    assert!(EdwardsPoint::decompress(&none).is_none());
    none[31] = 0x80;
    assert!(EdwardsPoint::decompress(&none).is_none());

    // y = 1 with either sign, and y = p + 1, all stand for the identity.
    let mut one = [0u8; 32];
    one[0] = 1;
    let mut signed = one;
    signed[31] = 0x80;
    let mut unreduced = [0xffu8; 32];
    unreduced[0] = 0xee;
    unreduced[31] = 0x7f;
    for bytes in [one, signed, unreduced] {
        let point = EdwardsPoint::decompress(&bytes).unwrap();
        assert!(point.same_point(&EdwardsPoint::identity()));
        assert!(point.has_zero_x());
        assert_eq!(point.compress(), one);
    }

    // The two signs of the base point's y are inverse points.
    let mut minus = EdwardsPoint::basepoint().compress();
    minus[31] ^= 0x80;
    let point = EdwardsPoint::decompress(&minus).unwrap();
    assert!(point.same_point(&EdwardsPoint::basepoint().negate()));
    assert!(!point.has_zero_x());
}

/// Several tables with one inversion are each normalized as alone.
#[test]
fn tables_are_normalized_together() {
    let b = EdwardsPoint::basepoint();
    let tables = [
        PointTable::new(&b),
        PointTable::new(&b.double()),
        PointTable::new(&EdwardsPoint::identity()),
    ];
    let refs: Vec<&PointTable> = tables.iter().collect();
    let together = PointTable::normalized_affine_batch(&refs);
    assert_eq!(together.len(), 3);
    for (t, table) in tables.iter().enumerate() {
        let alone = table.normalized_affine();
        for d in -8..=8i8 {
            let (p1, m1, z1, t1) = alone.select_signed_cached_ref(d).coords();
            let (p2, m2, z2, t2) = together[t].select_signed_cached_ref(d).coords();
            assert!(p1.equals(p2) && m1.equals(m2) && z1.equals(z2) && t1.equals(t2));
        }
    }
    assert!(PointTable::normalized_affine_batch(&[]).is_empty());
}

#[test]
fn tables_are_laid_out_by_digit() {
    let b = EdwardsPoint::basepoint();
    let cached = [CachedPoint::new(&b); 8];
    let negative = [CachedPoint::new(&b).negate(); 8];
    let table = PointTable::from_cached(cached, negative, CachedPoint::identity());
    let o = EdwardsPoint::identity();
    for d in -8..=8i8 {
        let sum = o.add_cached(table.select_signed_cached_ref(d));
        let expect = if d > 0 {
            b
        } else if d < 0 {
            b.negate()
        } else {
            o
        };
        assert!(sum.same_point(&expect));
    }
}

#[test]
fn cached_coordinates_are_sums_and_products() {
    let b = EdwardsPoint::basepoint().double();
    let (x, y, z, t) = b.coords();
    let c = CachedPoint::new(&b);
    let (plus, minus, z2, t2d) = c.coords();
    assert!(plus.equals(&y.add(x)) && minus.equals(&y.subtract(x)));
    assert!(z2.equals(&z.double()) && t2d.equals(&t.multiply(&Fe51::two_d())));
    let f = CachedPoint::from_fields(*plus, *minus, *z2, *t2d);
    assert!(b.add_cached(&f).same_point(&b.double()));
    let again = EdwardsPoint::from_coords_unchecked(*x, *y, *z, *t);
    assert!(again.same_point(&b));
    let zinv = z.invert();
    let affine = AffineCachedPoint::from_affine(&x.multiply(&zinv), &y.multiply(&zinv));
    assert!(b.add_affine_cached(&affine).same_point(&b.double()));
}

#[test]
fn identity_has_plain_coordinates() {
    let (zero, one, two) = (Fe51::zero(), Fe51::one(), Fe51::two());
    let o = EdwardsPoint::identity();
    let (x, y, z, t) = o.coords();
    assert!(x.equals(&zero) && y.equals(&one) && z.equals(&one) && t.equals(&zero));
    let table = PointTable::new(&EdwardsPoint::basepoint().double());
    for cached in [&CachedPoint::identity(), table.select_signed_cached_ref(0)] {
        let (plus, minus, z2, t2d) = cached.coords();
        assert!(plus.equals(&one) && minus.equals(&one) && z2.equals(&two) && t2d.equals(&zero));
    }
}

/// The cached form of the inverse is the inverse of the cached form.
#[test]
fn inverses_of_cached_forms() {
    let b = EdwardsPoint::basepoint().double().double();
    let n = b.negate();
    let (x, y, z, t) = b.coords();
    let (nx, ny, nz, nt) = n.coords();
    assert!(nx.equals(&x.negate()) && ny.equals(y) && nz.equals(z) && nt.equals(&t.negate()));
    let (first, second) = (CachedPoint::new(&n), CachedPoint::new(&b).negate());
    let (p1, m1, z1, t1) = first.coords();
    let (p2, m2, z2, t2) = second.coords();
    assert!(p1.equals(p2) && m1.equals(m2) && z1.equals(z2) && t1.equals(t2));
}

/// The third coordinate of a doubled point is a product of differences.
#[test]
fn third_coordinate_of_a_doubled_point() {
    let mut q = EdwardsPoint::basepoint();
    for _ in 0..5 {
        let d = q.double();
        let (x, y, z, _t) = q.coords();
        let g = y.square().subtract(&x.square());
        let f = g.subtract(&z.square().double());
        assert!(d.coords().2.equals(&f.multiply(&g)));
        q = d;
    }
}

/// Tables of decompressed points are not normalized, until they are.
#[test]
fn tables_of_decoded_points_are_not_normalized() {
    let b = EdwardsPoint::basepoint();
    let mut q = b;
    for _ in 0..20 {
        let decoded = EdwardsPoint::decompress(&q.compress()).unwrap();
        let table = PointTable::new(&decoded);
        assert!(!table.is_affine());
        assert!(table.normalized_affine().is_affine());
        q = q.add(&b);
    }
    let o = EdwardsPoint::identity();
    assert!(!PointTable::new(&o).is_affine());
}

/// Coordinates off the curve are combined as well.
#[test]
fn affine_cached_form_of_any_coordinates() {
    let x = Fe51::two();
    let y = Fe51::two().square().add(&Fe51::one());
    let c = AffineCachedPoint::from_affine(&x, &y);
    let (plus, minus, t2d) = c.coords();
    let mut seven = [0u8; 32];
    seven[0] = 7;
    let mut three = [0u8; 32];
    three[0] = 3;
    assert_eq!(plus.to_bytes(), seven);
    assert_eq!(minus.to_bytes(), three);
    assert!(t2d.equals(&x.multiply(&y).multiply(&Fe51::two_d())));
}

/// The affine cached form of `(-x, y)` is the inverse of that of `(x, y)`, on the
/// curve and off it.
#[test]
fn affine_cached_inverses_of_any_coordinates() {
    let b = EdwardsPoint::basepoint();
    let (bx, by, _bz, _bt) = b.coords();
    let off = Fe51::two();
    for (x, y) in [(*bx, *by), (off, *by), (off, off.square()), (Fe51::zero(), Fe51::zero())] {
        let first = AffineCachedPoint::from_affine(&x.negate(), &y);
        let second = AffineCachedPoint::from_affine(&x, &y).negate();
        let (p1, m1, t1) = first.coords();
        let (p2, m2, t2) = second.coords();
        assert!(p1.equals(p2) && m1.equals(m2) && t1.equals(t2));
    }
    let one = AffineCachedPoint::from_affine(&Fe51::zero(), &Fe51::one());
    let identity = AffineCachedPoint::identity();
    let (p1, m1, t1) = one.coords();
    let (p2, m2, t2) = identity.coords();
    assert!(p1.equals(p2) && m1.equals(m2) && t1.equals(t2));
    assert!(p1.equals(&Fe51::one()) && m1.equals(&Fe51::one()) && t1.equals(&Fe51::zero()));
}

/// The formulas combine any coordinates.
#[test]
fn formulas_on_any_coordinates() {
    let (two, three) = (Fe51::two(), Fe51::two().add(&Fe51::one()));
    let q = EdwardsPoint::from_coords_unchecked(two, three, Fe51::one(), three);
    let d = q.double();
    // g = 9 - 4, f = g - 2, e = 25 - 4 - 9, h = -4 - 9
    let small = |n: u8| {
        let mut bytes = [0u8; 32];
        bytes[0] = n;
        Fe51::from_bytes_unchecked(&bytes)
    };
    let (e, f, g, h) = (small(12), small(3), small(5), small(13).negate());
    let (x, y, z, t) = d.coords();
    assert!(x.equals(&e.multiply(&f)) && y.equals(&g.multiply(&h)));
    assert!(z.equals(&f.multiply(&g)) && t.equals(&e.multiply(&h)));
    let sum = q.add(&q.negate());
    let difference = q.subtract(&q);
    let (x1, y1, z1, t1) = sum.coords();
    let (x2, y2, z2, t2) = difference.coords();
    assert!(x1.equals(x2) && y1.equals(y2) && z1.equals(z2) && t1.equals(t2));
    let cached = q.add_cached(&CachedPoint::new(&q));
    let plain = q.add(&q);
    let (x1, y1, z1, t1) = cached.coords();
    let (x2, y2, z2, t2) = plain.coords();
    assert!(x1.equals(x2) && y1.equals(y2) && z1.equals(z2) && t1.equals(t2));
}

/// Tables are normalized together as alone, whatever their order; a zero `Z`
/// among them makes all entries zero.
#[test]
fn one_inversion_for_any_tables() {
    let b = EdwardsPoint::basepoint();
    let off = EdwardsPoint::from_coords_unchecked(
        Fe51::two(),
        Fe51::two().square(),
        Fe51::two(),
        Fe51::one(),
    );
    let tables = [PointTable::new(&off), PointTable::new(&b.double()), PointTable::new(&off)];
    let refs: Vec<&PointTable> = tables.iter().rev().collect();
    let together = PointTable::normalized_affine_batch(&refs);
    for (t, table) in refs.iter().enumerate() {
        let alone = table.normalized_affine();
        for d in -8..=8i8 {
            let (p1, m1, z1, t1) = alone.select_signed_cached_ref(d).coords();
            let (p2, m2, z2, t2) = together[t].select_signed_cached_ref(d).coords();
            assert!(p1.equals(p2) && m1.equals(m2) && z1.equals(z2) && t1.equals(t2));
        }
    }
    let zero = EdwardsPoint::from_coords_unchecked(
        Fe51::one(),
        Fe51::one(),
        Fe51::zero(),
        Fe51::one(),
    );
    let none = PointTable::new(&zero);
    let together = PointTable::normalized_affine_batch(&[&tables[1], &none]);
    for table in &together {
        for d in -8..=8i8 {
            let (p, m, z, t) = table.select_signed_cached_ref(d).coords();
            assert!(p.equals(&Fe51::zero()) && m.equals(&Fe51::zero()));
            assert!(z.equals(&Fe51::two()) && t.equals(&Fe51::zero()));
        }
    }
}
