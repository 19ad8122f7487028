//! What the coordinates of points and of cached points are, in numbers modulo `p`.
use crate::edwards::EdwardsPoint;
use crate::field::is_root;
use crate::math::congruence::eqm;
use crate::math::curve::{lemma_smul_small, lemma_smul_step, on_curve, padd, Affine};
use crate::math::gf::{
    d, d_inverse, eq, finv, lemma_comb1, lemma_comb2, lemma_constants, lemma_eq_ops, lemma_eq_refl,
    lemma_eq_trans, lemma_finv, lemma_p, lemma_reduced, p,
};
use crate::tables::{
    all_finite, all_invertible, are_multiples, are_sums, half, shared_inverse, AffineCachedPoint,
    BasepointTable, CachedPoint, PointTable,
};
use vstd::arithmetic::div_mod::lemma_small_mod;
use vstd::prelude::*;

verus! {

/// Equality in the field, as divisibility.
proof fn lemma_divides(a: int, b: int)
    ensures
        eq(a, b) <==> (a - b) % p() == 0,
{
    reveal(eqm);
}

/// The inverse: a product of one with what is not zero, and zero for zero.
pub proof fn lemma_inverse(a: int)
    ensures
        0 <= finv(a) < p(),
        a % p() != 0 ==> (a * finv(a) - 1) % p() == 0,
        a % p() == 0 ==> finv(a) == 0,
{
    lemma_p();
    lemma_finv(a);
    lemma_divides(a, 0);
    lemma_divides(a * finv(a), 1);
}

/// The shared inverse: the inverse where none of the shared ones is zero, and zero
/// for all of them where one is.
pub proof fn lemma_shared_inverse(z: int)
    ensures
        z % p() != 0 ==> (z * shared_inverse(z, true) - 1) % p() == 0,
        shared_inverse(z, false) == 0,
{
    lemma_inverse(z);
}

/// A root of a ratio: `v w^2 = u`.
pub proof fn lemma_root_of_ratio(u: int, v: int, w: int)
    ensures
        is_root(u, v, w) <==> (v * (w * w) - u) % p() == 0,
{
    lemma_divides(v * (w * w), u);
}

/// The point that coordinates stand for: the quotients by `Z`, and zero where `Z`
/// is zero.
pub proof fn lemma_point_of_coordinates(point: EdwardsPoint)
    ensures
        0 <= point.affine().x < p(),
        0 <= point.affine().y < p(),
        point.zv() % p() != 0 ==> (point.affine().x * point.zv() - point.xv()) % p() == 0 && (
        point.affine().y * point.zv() - point.yv()) % p() == 0,
        point.zv() % p() == 0 ==> point.affine() == (Affine { x: 0, y: 0 }),
{
    let (x, y, z) = (point.xv(), point.yv(), point.zv());
    let w = finv(z);
    lemma_p();
    lemma_inverse(z);
    lemma_reduced(x * w);
    lemma_reduced(y * w);
    if z % p() != 0 {
        lemma_divides(z * w, 1);
        lemma_times_inverse(x, z, w, point.affine().x);
        lemma_times_inverse(y, z, w, point.affine().y);
        lemma_divides(point.affine().x * z, x);
        lemma_divides(point.affine().y * z, y);
    } else {
        assert(x * 0 == 0 && y * 0 == 0) by (nonlinear_arith);
        lemma_small_mod(0, p() as nat);
    }
}

proof fn lemma_times_inverse(x: int, z: int, w: int, a: int)
    requires
        eq(z * w, 1),
        eq(a, x * w),
    ensures
        eq(a * z, x),
{
    assert(a * z - x == z * (a - x * w) + x * (z * w - 1)) by (nonlinear_arith);
    lemma_comb2(a * z, x, z, a, x * w, x, z * w, 1);
}

/// The coordinates of a sum, for any coordinates:
/// `E = 2 (x1 y2 + y1 x2)`, `F = 2 z1 z2 - 2 d t1 t2`, `G = 2 z1 z2 + 2 d t1 t2` and
/// `H = 2 (y1 y2 + x1 x2)` give `X = E F`, `Y = G H`, `Z = F G` and `T = E H`.
pub proof fn lemma_coordinates_of_sum(r: EdwardsPoint, a: EdwardsPoint, b: EdwardsPoint)
    ensures
        r.sums(a, b) <==> {
            let e = 2 * (a.xv() * b.yv() + a.yv() * b.xv());
            let f = 2 * (a.zv() * b.zv()) - (2 * d()) * (a.tv() * b.tv());
            let g = 2 * (a.zv() * b.zv()) + (2 * d()) * (a.tv() * b.tv());
            let h = 2 * (a.yv() * b.yv() + a.xv() * b.xv());
            &&& (r.xv() - e * f) % p() == 0
            &&& (r.yv() - g * h) % p() == 0
            &&& (r.zv() - f * g) % p() == 0
            &&& (r.tv() - e * h) % p() == 0
        },
{
    let (x1, y1, x2, y2) = (a.xv(), a.yv(), b.xv(), b.yv());
    let u = (y1 - x1) * (y2 - x2);
    let v = (y1 + x1) * (y2 + x2);
    let e = 2 * (x1 * y2 + y1 * x2);
    let h = 2 * (y1 * y2 + x1 * x2);
    assert(v - u == e && v + u == h) by (nonlinear_arith)
        requires
            u == (y1 - x1) * (y2 - x2),
            v == (y1 + x1) * (y2 + x2),
            e == 2 * (x1 * y2 + y1 * x2),
            h == 2 * (y1 * y2 + x1 * x2),
    ;
    reveal(eqm);
}

/// The coordinates of a double, for any coordinates: `E = 2 x y`,
/// `F = y^2 - x^2 - 2 z^2`, `G = y^2 - x^2` and `H = -(x^2 + y^2)` give `X = E F`,
/// `Y = G H`, `Z = F G` and `T = E H`.
pub proof fn lemma_coordinates_of_double(r: EdwardsPoint, a: EdwardsPoint)
    ensures
        r.doubles(a) <==> {
            let e = 2 * (a.xv() * a.yv());
            let f = a.yv() * a.yv() - a.xv() * a.xv() - 2 * (a.zv() * a.zv());
            let g = a.yv() * a.yv() - a.xv() * a.xv();
            let h = -(a.xv() * a.xv() + a.yv() * a.yv());
            &&& (r.xv() - e * f) % p() == 0
            &&& (r.yv() - g * h) % p() == 0
            &&& (r.zv() - f * g) % p() == 0
            &&& (r.tv() - e * h) % p() == 0
        },
{
    let (x, y) = (a.xv(), a.yv());
    let e = (x + y) * (x + y) - x * x - y * y;
    assert(e == 2 * (x * y)) by (nonlinear_arith)
        requires
            e == (x + y) * (x + y) - x * x - y * y,
    ;
    reveal(eqm);
}

/// The coordinates of an inverse, for any coordinates.
pub proof fn lemma_coordinates_of_inverse(r: EdwardsPoint, a: EdwardsPoint)
    requires
        r.negates(a),
    ensures
        (r.xv() + a.xv()) % p() == 0,
        r.yv() == a.yv(),
        r.zv() == a.zv(),
        (r.tv() + a.tv()) % p() == 0,
{
    reveal(eqm);
    assert(r.xv() - (-a.xv()) == r.xv() + a.xv());
    assert(r.tv() - (-a.tv()) == r.tv() + a.tv());
}

/// The half of a number.
pub proof fn lemma_half(z: int)
    ensures
        (2 * half(z) - z) % p() == 0,
{
    lemma_constants();
    lemma_finv(2);
    let w = finv(2);
    assert(2 * (z * w) - z == z * (2 * w - 1)) by (nonlinear_arith);
    lemma_comb1(2 * half(z), z, z, 2 * w, 1);
    lemma_divides(2 * half(z), z);
}

/// What a cached point holds: `y + x` and `y - x` times half of the double of `Z`,
/// that double, and `2 d x y` times `Z`.
pub proof fn lemma_cached_coordinates(c: CachedPoint)
    requires
        c.wf(),
    ensures
        c.z2v() % p() != 0,
        (2 * c.plusv() - (c.affine().y + c.affine().x) * c.z2v()) % p() == 0,
        (2 * c.minusv() - (c.affine().y - c.affine().x) * c.z2v()) % p() == 0,
        (c.t2dv() - (d() * (c.affine().x * c.affine().y)) * c.z2v()) % p() == 0,
        on_curve(c.affine()),
{
    let z = c.z2v();
    lemma_p();
    lemma_small_mod(0, p() as nat);
    lemma_divides(z, 0);
    lemma_halved(c.plusv(), c.affine().y + c.affine().x, z);
    lemma_halved(c.minusv(), c.affine().y - c.affine().x, z);
    lemma_divides(c.t2dv(), (d() * (c.affine().x * c.affine().y)) * z);
}

proof fn lemma_halved(v: int, s: int, z: int)
    requires
        eq(v, s * half(z)),
    ensures
        (2 * v - s * z) % p() == 0,
{
    lemma_half(z);
    let h = half(z);
    lemma_divides(2 * h, z);
    assert(2 * v - s * z == 2 * (v - s * h) + s * (2 * h - z)) by (nonlinear_arith);
    lemma_comb2(2 * v, s * z, 2, v, s * h, s, 2 * h, z);
    lemma_divides(2 * v, s * z);
}

/// The same with a `Z` of one.
pub proof fn lemma_affine_cached_coordinates(c: AffineCachedPoint)
    requires
        c.wf(),
    ensures
        (c.plusv() - (c.affine().y + c.affine().x)) % p() == 0,
        (c.minusv() - (c.affine().y - c.affine().x)) % p() == 0,
        (c.t2dv() - 2 * (d() * (c.affine().x * c.affine().y))) % p() == 0,
        on_curve(c.affine()),
{
    lemma_half_of_two();
    let h = half(2);
    let (s, t) = (c.affine().y + c.affine().x, c.affine().y - c.affine().x);
    lemma_eq_refl(s);
    lemma_eq_refl(t);
    lemma_eq_ops(s, s, h, 1);
    lemma_eq_ops(t, t, h, 1);
    assert(s * 1 == s && t * 1 == t);
    lemma_eq_trans(c.plusv(), s * h, s);
    lemma_eq_trans(c.minusv(), t * h, t);
    lemma_divides(c.plusv(), s);
    lemma_divides(c.minusv(), t);
    lemma_divides(c.t2dv(), (d() * (c.affine().x * c.affine().y)) * 2);
}

proof fn lemma_half_of_two()
    ensures
        eq(half(2), 1),
{
    lemma_constants();
    lemma_finv(2);
}

/// A point as it is cached, for any coordinates: the sum and the difference of the
/// cached fields are the doubles of `Y` and `X`, and the others are `2 Z` and `2 d T`.
pub proof fn lemma_cached_point(c: CachedPoint, a: EdwardsPoint)
    requires
        c.caches(a),
    ensures
        (c.plusv() + c.minusv() - 2 * a.yv()) % p() == 0,
        (c.plusv() - c.minusv() - 2 * a.xv()) % p() == 0,
        (c.z2v() - 2 * a.zv()) % p() == 0,
        (c.t2dv() - (2 * d()) * a.tv()) % p() == 0,
{
    let (u, v) = (c.plusv(), c.minusv());
    let (x, y) = (a.xv(), a.yv());
    lemma_comb2(u + v, 2 * y, 1, u, y + x, 1, v, y - x);
    lemma_comb2(u - v, 2 * x, 1, u, y + x, -1, v, y - x);
    reveal(eqm);
}

/// The same of a pair of coordinates.
pub proof fn lemma_cached_pair(c: AffineCachedPoint, x: int, y: int)
    requires
        c.caches_affine(x, y),
    ensures
        (c.plusv() + c.minusv() - 2 * y) % p() == 0,
        (c.plusv() - c.minusv() - 2 * x) % p() == 0,
        (c.t2dv() - (2 * d()) * (x * y)) % p() == 0,
{
    let (u, v) = (c.plusv(), c.minusv());
    lemma_comb2(u + v, 2 * y, 1, u, y + x, 1, v, y - x);
    lemma_comb2(u - v, 2 * x, 1, u, y + x, -1, v, y - x);
    reveal(eqm);
}

/// The entries of a table: from the neutral element in steps of one point, which is
/// the first.
pub proof fn lemma_entries_of_table(table: PointTable, a: Affine, digit: int)
    requires
        table.is_table_of(a),
        -8 <= digit < 8,
    ensures
        table.entry(0).affine() == (Affine { x: 0, y: 1 }),
        table.entry(1).affine() == a,
        table.point() == a,
        table.entry(digit + 1).affine() == padd(table.entry(digit).affine(), a),
        table.entry(digit).wf(),
        table.entry(digit + 1).wf(),
{
    lemma_smul_small(a);
    lemma_smul_step(digit, a);
}

/// The entries of a wide table.
pub proof fn lemma_entries_of_wide_table(table: BasepointTable, a: Affine, digit: int)
    requires
        table.is_table_of(a),
        -136 <= digit < 136,
    ensures
        table.entry(0).affine() == (Affine { x: 0, y: 1 }),
        table.entry(1).affine() == a,
        table.entry(digit + 1).affine() == padd(table.entry(digit).affine(), a),
        table.entry(digit).wf(),
        table.entry(digit + 1).wf(),
{
    lemma_smul_small(a);
    lemma_smul_step(digit, a);
}

/// A table as it is decoded: the first entry has a `Z` of one, the second that of
/// the double.
pub proof fn lemma_decoded_table(table: PointTable, a: Affine)
    requires
        table.is_projective_table_of(a),
    ensures
        table.is_table_of(a),
        (table.entry(1).z2v() - 2) % p() == 0,
        (table.entry(2).z2v() - 2 * ((a.y * a.y - a.x * a.x - 2) * (a.y * a.y - a.x * a.x))) % p() == 0,
{
    reveal(eqm);
}

/// The point recovered from a table, for any entries: from the fields of the first
/// entry, with `d T` its last field.
pub proof fn lemma_recovered_coordinates(table: PointTable, a: EdwardsPoint)
    requires
        table.recovers_to(a),
    ensures
        (a.xv() - (table.entry(1).plusv() - table.entry(1).minusv())) % p() == 0,
        (a.yv() - (table.entry(1).plusv() + table.entry(1).minusv())) % p() == 0,
        a.zv() == table.entry(1).z2v(),
        (d() * a.tv() - table.entry(1).t2dv()) % p() == 0,
{
    lemma_constants();
    let (t, v, i) = (a.tv(), table.entry(1).t2dv(), d_inverse());
    let e = d();
    assert(e * t - v == e * (t - v * i) + v * (e * i - 1)) by (nonlinear_arith);
    lemma_comb2(e * t, v, e, t, v * i, v, e * i, 1);
    reveal(eqm);
}

/// An entry of a normalized table: over a `Z` of one, the fields are in the same
/// ratio; where some `Z` was zero, they are zero.
pub proof fn lemma_normalized_entry(table: PointTable, old_table: PointTable, digit: int)
    requires
        -8 <= digit <= 8,
    ensures
        table.normalizes(old_table, true) && old_table.entry(digit).z2v() % p() != 0 ==> {
            let (n, o) = (table.entry(digit), old_table.entry(digit));
            &&& n.z2v() == 2
            &&& (n.plusv() * o.z2v() - 2 * o.plusv()) % p() == 0
            &&& (n.minusv() * o.z2v() - 2 * o.minusv()) % p() == 0
            &&& (n.t2dv() * o.z2v() - 2 * o.t2dv()) % p() == 0
        },
        table.normalizes(old_table, false) ==> {
            let n = table.entry(digit);
            &&& n.z2v() == 2
            &&& n.plusv() % p() == 0
            &&& n.minusv() % p() == 0
            &&& n.t2dv() % p() == 0
        },
{
    let (n, o) = (table.entry(digit), old_table.entry(digit));
    let z = o.z2v();
    let w = finv(z);
    lemma_inverse(z);
    if table.normalizes(old_table, true) && z % p() != 0 {
        assert(n.rescales(o, 2 * w));
        lemma_divides(z * w, 1);
        lemma_rescaled(n.plusv(), o.plusv(), z, w);
        lemma_rescaled(n.minusv(), o.minusv(), z, w);
        lemma_rescaled(n.t2dv(), o.t2dv(), z, w);
    }
    if table.normalizes(old_table, false) {
        assert(n.rescales(o, 2 * 0int));
        let (u, v, t) = (o.plusv(), o.minusv(), o.t2dv());
        assert(u * (2 * 0int) == 0 && v * (2 * 0int) == 0 && t * (2 * 0int) == 0) by (nonlinear_arith);
        lemma_divides(n.plusv(), 0);
        lemma_divides(n.minusv(), 0);
        lemma_divides(n.t2dv(), 0);
    }
}

proof fn lemma_rescaled(n: int, o: int, z: int, w: int)
    requires
        eq(n, o * (2 * w)),
        eq(z * w, 1),
    ensures
        (n * z - 2 * o) % p() == 0,
{
    assert(n * z - 2 * o == z * (n - o * (2 * w)) + (2 * o) * (z * w - 1)) by (nonlinear_arith);
    lemma_comb2(n * z, 2 * o, z, n, o * (2 * w), 2 * o, z * w, 1);
    lemma_divides(n * z, 2 * o);
}

/// The neutral element as it is cached.
pub proof fn lemma_cached_identity(c: CachedPoint)
    requires
        c.caches_identity(),
    ensures
        (c.plusv() - 1) % p() == 0,
        (c.minusv() - 1) % p() == 0,
        (c.z2v() - 2) % p() == 0,
        c.t2dv() % p() == 0,
{
    reveal(eqm);
}

/// A cached inverse, for any fields: the sum and the difference change places, and
/// the last field changes its sign.
pub proof fn lemma_cached_negation(c: CachedPoint, other: CachedPoint)
    requires
        c.negates(other),
    ensures
        c.plusv() == other.minusv(),
        c.minusv() == other.plusv(),
        c.z2v() == other.z2v(),
        (c.t2dv() + other.t2dv()) % p() == 0,
{
    reveal(eqm);
    assert(c.t2dv() - (-other.t2dv()) == c.t2dv() + other.t2dv());
}

/// The multiples of a point that a table holds: each even one is the double of its
/// half, each odd one the sum of the one before and the point.
pub proof fn lemma_multiples_in_steps(points: Seq<EdwardsPoint>, point: EdwardsPoint, i: int)
    requires
        are_multiples(points, point),
        1 <= i < 8,
    ensures
        points.len() == 8,
        points[0] == point,
        i % 2 == 1 ==> points[i].doubles(points[i / 2]),
        i % 2 == 0 ==> points[i].sums(points[i - 1], point),
{
}

/// The multiples of a point that a wide table holds: each the sum of the one before
/// and the point.
pub proof fn lemma_sums_in_steps(points: Seq<EdwardsPoint>, point: EdwardsPoint, i: int)
    requires
        are_sums(points, point),
        1 <= i < 136,
    ensures
        points.len() == 136,
        points[0] == point,
        points[i].sums(points[i - 1], point),
{
}

/// The entries of a table of any coordinates: the neutral element, the cached
/// multiples, and their inverses.
pub proof fn lemma_cached_multiples(table: PointTable, points: Seq<EdwardsPoint>, i: int)
    requires
        table.caches_multiples(points),
        1 <= i <= 8,
    ensures
        table.entry(0).caches_identity(),
        table.entry(i).caches(points[i - 1]),
        table.entry(-i).negates(table.entry(i)),
{
}

/// The entries of a wide table of any coordinates, over a `Z` of one.
pub proof fn lemma_cached_sums(table: BasepointTable, points: Seq<EdwardsPoint>, i: int)
    requires
        table.caches_sums(points),
        1 <= i <= 136,
        forall|j: int| 0 <= j < points.len() ==> (#[trigger] points[j]).zv() % p() != 0,
        points.len() == 136,
    ensures
        table.entry(0).plusv() == 1,
        table.entry(0).minusv() == 1,
        table.entry(0).t2dv() == 0,
        ({
            let (e, a) = (table.entry(i), points[i - 1]);
            &&& ((e.plusv() + e.minusv()) * a.zv() - 2 * a.yv()) % p() == 0
            &&& ((e.plusv() - e.minusv()) * a.zv() - 2 * a.xv()) % p() == 0
        }),
        table.entry(-i).plusv() == table.entry(i).minusv(),
        table.entry(-i).minusv() == table.entry(i).plusv(),
        (table.entry(-i).t2dv() + table.entry(i).t2dv()) % p() == 0,
{
    lemma_p();
    lemma_small_mod(0, p() as nat);
    assert forall|j: int| 0 <= j < points.len() implies !eq((#[trigger] points[j]).zv(), 0) by {
        lemma_divides(points[j].zv(), 0);
    }
    assert(all_finite(points));
    let (e, a) = (table.entry(i), points[i - 1]);
    let z = a.zv();
    let w = finv(z);
    let (x, y) = (a.xv() * w, a.yv() * w);
    assert(e.caches_affine(x, y));
    lemma_cached_pair(e, x, y);
    lemma_inverse(z);
    lemma_divides(z * w, 1);
    lemma_divides(e.plusv() + e.minusv(), 2 * y);
    lemma_divides(e.plusv() - e.minusv(), 2 * x);
    lemma_scaled_pair(e.plusv() + e.minusv(), a.yv(), z, w);
    lemma_scaled_pair(e.plusv() - e.minusv(), a.xv(), z, w);
    let m = table.entry(-i);
    assert(m.negates(e));
    reveal(eqm);
    assert(m.t2dv() - (-e.t2dv()) == m.t2dv() + e.t2dv());
}

proof fn lemma_scaled_pair(s: int, y: int, z: int, w: int)
    requires
        eq(s, 2 * (y * w)),
        eq(z * w, 1),
    ensures
        (s * z - 2 * y) % p() == 0,
{
    assert(s * z - 2 * y == z * (s - 2 * (y * w)) + (2 * y) * (z * w - 1)) by (nonlinear_arith);
    lemma_comb2(s * z, 2 * y, z, s, 2 * (y * w), 2 * y, z * w, 1);
    lemma_divides(s * z, 2 * y);
}

/// Points that are all finite have no `Z` that is zero.
pub proof fn lemma_finite_points(points: Seq<EdwardsPoint>)
    ensures
        all_finite(points) <==> forall|i: int|
            0 <= i < points.len() ==> (#[trigger] points[i]).zv() % p() != 0,
{
    lemma_p();
    lemma_small_mod(0, p() as nat);
    assert forall|i: int| 0 <= i < points.len() implies eq((#[trigger] points[i]).zv(), 0) == (
    points[i].zv() % p() == 0) by {
        lemma_divides(points[i].zv(), 0);
    }
}

/// Tables that are all invertible have no entry with a `Z` that is zero.
pub proof fn lemma_invertible_tables(tables: Seq<&PointTable>)
    ensures
        all_invertible(tables) <==> forall|t: int, digit: int|
            0 <= t < tables.len() && -8 <= digit <= 8 ==> (#[trigger] tables[t].entry(digit)).z2v()
                % p() != 0,
{
    lemma_p();
    lemma_small_mod(0, p() as nat);
    assert forall|t: int, digit: int|
        0 <= t < tables.len() && -8 <= digit <= 8 implies eq(
        (#[trigger] tables[t].entry(digit)).z2v(),
        0,
    ) == (tables[t].entry(digit).z2v() % p() == 0) by {
        lemma_divides(tables[t].entry(digit).z2v(), 0);
    }
    if forall|t: int, digit: int|
        0 <= t < tables.len() && -8 <= digit <= 8 ==> (#[trigger] tables[t].entry(digit)).z2v() % p()
            != 0 {
        assert forall|t: int| 0 <= t < tables.len() implies (#[trigger] tables[t]).invertible() by {
            assert forall|digit: int| -8 <= digit <= 8 implies !eq(
                (#[trigger] tables[t].entry(digit)).z2v(),
                0,
            ) by {
                assert(tables[t].entry(digit).z2v() % p() != 0);
            }
        }
    }
    if all_invertible(tables) {
        assert forall|t: int, digit: int|
            0 <= t < tables.len() && -8 <= digit <= 8 implies (
        #[trigger] tables[t].entry(digit)).z2v() % p() != 0 by {
            assert(tables[t].invertible());
        }
    }
}

/// Normalized tables, and tables of the same points, entry by entry.
pub proof fn lemma_tables_by_entries(table: PointTable, other: PointTable)
    ensures
        table.normalized() <==> forall|digit: int|
            -8 <= digit <= 8 ==> (#[trigger] table.entry(digit)).z2v() == 2,
        table.same_points(other) <==> forall|digit: int|
            -8 <= digit <= 8 ==> (#[trigger] table.entry(digit)).affine() == other.entry(
                digit,
            ).affine(),
{
}

/// Doublings in turn, each of the point before it.
pub proof fn lemma_doublings_in_turn(a: EdwardsPoint, point: EdwardsPoint, n: int) -> (r: Seq<
    EdwardsPoint,
>)
    requires
        0 <= n,
        a.doubles_times(point, n),
    ensures
        r.len() == n + 1,
        r[0] == point,
        r.last() == a,
        forall|j: int| 1 <= j <= n ==> (#[trigger] r[j]).doubles(r[j - 1]),
    decreases n,
{
    if n == 0 {
        seq![point]
    } else {
        let half = choose|half: EdwardsPoint|
            half.doubles_times(point, n - 1) && #[trigger] a.doubles(half);
        let s = lemma_doublings_in_turn(half, point, n - 1);
        let r = s.push(a);
        assert forall|j: int| 1 <= j <= n implies (#[trigger] r[j]).doubles(r[j - 1]) by {
            if j < n {
                assert(s[j].doubles(s[j - 1]));
            }
        }
        r
    }
}

/// A cached inverse of a pair of coordinates, for any fields.
pub proof fn lemma_cached_pair_negation(c: AffineCachedPoint, other: AffineCachedPoint)
    requires
        c.negates(other),
    ensures
        c.plusv() == other.minusv(),
        c.minusv() == other.plusv(),
        (c.t2dv() + other.t2dv()) % p() == 0,
{
    reveal(eqm);
    assert(c.t2dv() - (-other.t2dv()) == c.t2dv() + other.t2dv());
}

} // verus!
