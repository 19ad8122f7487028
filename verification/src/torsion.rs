//! The points that the cofactor annihilates, the encodings that stand for their `y`
//! coordinates, and the signatures made with multiples of the base point.
use crate::base_order::{lemma_base_order, lemma_double};
use crate::bytes::le256;
use crate::digests::lemma_challenge;
use crate::edwards::{basepoint, encoded, lemma_basepoint, lemma_decoded_encoded, lemma_same_y};
use crate::encodings::lemma_thirty_two_bytes;
use crate::laws::{lemma_count_modulo_order, lemma_dalek_is_zip215, lemma_signed_is_valid};
use crate::math::congruence::{
    eqm, lemma_eqm_iff_mod, lemma_eqm_ops, lemma_eqm_refl, lemma_eqm_small,
};
use crate::math::curve::{
    add_t, identity, lemma_add, lemma_add_identity, lemma_add_on_curve, lemma_add_right_cancel, lemma_complete,
    lemma_identity_on_curve, lemma_neg_on_curve, lemma_neg_unique, lemma_smul_add, lemma_smul_mul,
    lemma_smul_on_curve, lemma_smul_small, neg, on_curve, padd, smul, Affine,
};
use crate::math::gf::{
    d, eq, finv, lemma_comb1, lemma_comb2, lemma_comb3, lemma_comb4, lemma_constants,
    lemma_d_not_square, lemma_eq_ops, lemma_eq_refl, lemma_eq_small, lemma_eq_sym, lemma_finv,
    lemma_nonzero_product, lemma_p, lemma_two_not_square, p, sqrt_m1,
};
use crate::math::identities::{nx, ny};
use crate::math::order_certificate::lemma_prime_253;
use crate::math::primes::{lemma_euclid, lemma_inverse_exists};
use crate::policy::{is_excluded, VerifyPolicy};
use crate::scalar::order;
use crate::signature::{challenge, signature_valid};
use crate::verdicts::lemma_zip215_means;
use crate::verify::{batch_results, VerifyInput};
use vstd::arithmetic::div_mod::{lemma_mod_sub_multiples_vanish, lemma_small_mod};
use vstd::prelude::*;

verus! {

/// The `y` of a point of order eight.
#[verifier::opaque]
spec fn y8() -> int {
    0x05fc536d880238b13933c6d305acdfd5f098eff289f4c345b027b2c28f95e826int
}

/// Zero is the only reduced number that is zero in the field.
proof fn lemma_is_zero(a: int)
    requires
        0 <= a < p(),
        eq(a, 0),
    ensures
        a == 0,
{
    lemma_p();
    lemma_eq_small(a, 0);
}

/// One of the factors of zero is zero.
proof fn lemma_zero_product(a: int, b: int)
    requires
        eq(a * b, 0),
    ensures
        eq(a, 0) || eq(b, 0),
{
    if !eq(a, 0) && !eq(b, 0) {
        lemma_nonzero_product(a, b);
    }
}

/// A square root of one, or of the square of a number, up to the sign.
proof fn lemma_roots(y: int, r: int)
    requires
        0 <= y < p(),
        0 < r < p(),
        eq(y * y, r * r),
    ensures
        y == r || y == p() - r,
{
    lemma_p();
    let (l, m) = (y - r, y + r);
    assert(l * m - 0 == 1 * (y * y - r * r)) by (nonlinear_arith)
        requires
            l == y - r,
            m == y + r,
    ;
    lemma_comb1(l * m, 0, 1, y * y, r * r);
    lemma_zero_product(l, m);
    if eq(l, 0) {
        lemma_comb1(y, r, 1, l, 0);
        lemma_eq_small(y, r);
    } else {
        reveal(eqm);
        let k = y + r - p();
        assert(eq(k, 0)) by {
            lemma_mod_sub_multiples_vanish(y + r, p());
            assert((y + r - p()) % p() == (y + r) % p());
        }
        if k >= 0 {
            lemma_is_zero(k);
        } else {
            lemma_is_zero(y + r);
        }
    }
}

/// Where the double of a point has a zero `x`, so has the point, or it has a zero
/// `y`.
proof fn lemma_half_of_zero_x(a: Affine)
    requires
        on_curve(a),
        padd(a, a).x == 0,
    ensures
        a.x == 0 || a.y == 0,
{
    lemma_constants();
    lemma_add(a, a);
    let t = add_t(a, a);
    let (x, y) = (a.x, a.y);
    let n = nx(x, y, x, y);
    assert(n == 2 * (x * y)) by (nonlinear_arith)
        requires
            n == x * y + y * x,
    ;
    assert(0 * (1 + t) == 0);
    lemma_eq_sym(0, n);
    lemma_zero_product(2, x * y);
    lemma_zero_product(x, y);
    if eq(x, 0) {
        lemma_is_zero(x);
    } else {
        lemma_is_zero(y);
    }
}

/// Where the double of a point has a zero `y`, the squares of the coordinates of
/// the point are opposite.
proof fn lemma_half_of_zero_y(a: Affine)
    requires
        on_curve(a),
        padd(a, a).y == 0,
    ensures
        eq(a.y * a.y + a.x * a.x, 0),
{
    lemma_add(a, a);
    let t = add_t(a, a);
    assert(0 * (1 - t) == 0);
    lemma_eq_sym(0, ny(a.x, a.y, a.x, a.y));
}

/// A point that is its own inverse.
proof fn lemma_double_vanishes(a: Affine)
    requires
        on_curve(a),
        padd(a, a) == identity(),
    ensures
        a.x == 0,
{
    lemma_constants();
    lemma_neg_unique(a, a);
    lemma_neg_on_curve(a);
    // x == -x
    let x = a.x;
    lemma_comb1(2 * x, 0, 1, x, -x);
    lemma_zero_product(2, x);
    lemma_is_zero(x);
}

/// The points with a zero `x`.
proof fn lemma_zero_x(a: Affine)
    requires
        on_curve(a),
        a.x == 0,
    ensures
        a.y == 1 || a.y == p() - 1,
{
    lemma_p();
    let y = a.y;
    let e = d();
    assert(y * y - 0int * 0int - 1 - e * ((0int * 0int) * (y * y)) == y * y - 1) by (nonlinear_arith);
    assert(a.x * a.x == 0int * 0int);
    lemma_comb1(y * y, 1int * 1int, 1, y * y - 1, 0);
    lemma_roots(y, 1);
}

/// A pair of coordinates solves the curve equation, in integers.
#[verifier::inline]
spec fn solves_curve(x: int, y: int) -> bool {
    (y * y - x * x - 1 - 0x52036cee2b6ffe738cc740797779e89800700a4d4141d8ab75eb4dca135978a3int * ((x * x)
        * (y * y))) % 0x7fffffffffffffffffffffffffffffffffffffffffffffffffffffffffffffedint == 0
}

proof fn lemma_point(x: int, y: int)
    requires
        0 <= x < 0x7fffffffffffffffffffffffffffffffffffffffffffffffffffffffffffffedint,
        0 <= y < 0x7fffffffffffffffffffffffffffffffffffffffffffffffffffffffffffffedint,
        solves_curve(x, y),
    ensures
        on_curve(Affine { x, y }),
{
    reveal(p);
    reveal(d);
    reveal(eqm);
}

/// An integer solves the equation of the points of order eight.
#[verifier::inline]
spec fn solves_quartic(y: int) -> bool {
    (0x52036cee2b6ffe738cc740797779e89800700a4d4141d8ab75eb4dca135978a3int * ((y * y) * (y * y)) + 2 * (y
        * y) - 1) % 0x7fffffffffffffffffffffffffffffffffffffffffffffffffffffffffffffedint == 0
}

proof fn lemma_quartic(y: int)
    requires
        solves_quartic(y),
    ensures
        eq(d() * ((y * y) * (y * y)) + 2 * (y * y) - 1, 0),
{
    reveal(p);
    reveal(d);
    reveal(eqm);
}

/// What the `y` of a point of order eight solves.
proof fn lemma_y8()
    ensures
        0 < y8() < p(),
        eq(d() * ((y8() * y8()) * (y8() * y8())) + 2 * (y8() * y8()) - 1, 0),
{
    reveal(y8);
    lemma_p();
    lemma_quartic(0x05fc536d880238b13933c6d305acdfd5f098eff289f4c345b027b2c28f95e826int);
}

/// Where the squares of the coordinates of a point are opposite, its `y` is that
/// of a point of order eight.
proof fn lemma_opposite_squares(a: Affine)
    requires
        on_curve(a),
        eq(a.y * a.y + a.x * a.x, 0),
    ensures
        a.y == y8() || a.y == p() - y8(),
{
    lemma_constants();
    lemma_y8();
    let e = d();
    let i = sqrt_m1();
    let yy = a.y * a.y;
    let xx = a.x * a.x;
    let ee = y8() * y8();
    // the curve equation, in `y` alone
    let c = yy - xx - 1 - e * (xx * yy);
    let f = e * (yy * yy) + 2 * yy - 1;
    let g = e * (ee * ee) + 2 * ee - 1;
    assert(f - 0 == 1 * (c - 0) + (1 + e * yy) * ((yy + xx) - 0)) by (nonlinear_arith)
        requires
            c == yy - xx - 1 - e * (xx * yy),
            f == e * (yy * yy) + 2 * yy - 1,
    ;
    lemma_comb2(f, 0, 1, c, 0, 1 + e * yy, yy + xx, 0);
    let (l, m) = (yy - ee, e * (yy + ee) + 2);
    assert(l * m - 0 == 1 * (f - 0) + (-1) * (g - 0)) by (nonlinear_arith)
        requires
            l == yy - ee,
            m == e * (yy + ee) + 2,
            f == e * (yy * yy) + 2 * yy - 1,
            g == e * (ee * ee) + 2 * ee - 1,
    ;
    lemma_comb2(l * m, 0, 1, f, 0, -1, g, 0);
    lemma_zero_product(l, m);
    if eq(l, 0) {
        lemma_comb1(yy, ee, 1, l, 0);
        lemma_roots(a.y, y8());
    } else {
        // d (y y8)^2 == -1 == i^2, and d would be a square
        let s = a.y * y8();
        let (u, v) = (a.y, y8());
        assert(s * s == yy * ee) by (nonlinear_arith)
            requires
                s == u * v,
                yy == u * u,
                ee == v * v,
        ;
        let k = e * (yy * ee) + 1;
        assert(k - 0 == yy * (m - 0) + (-1) * (f - 0)) by (nonlinear_arith)
            requires
                k == e * (yy * ee) + 1,
                m == e * (yy + ee) + 2,
                f == e * (yy * yy) + 2 * yy - 1,
        ;
        lemma_comb2(k, 0, yy, m, 0, -1, f, 0);
        if eq(s, 0) {
            lemma_eq_ops(s, 0, s, 0);
            lemma_eq_refl(e);
            lemma_eq_ops(e, e, s * s, 0);
            assert(e * 0 == 0);
            assert(0int * 0int == 0);
            lemma_comb2(1, 0, 1, k, 0, -1, e * (s * s), 0);
        }
        lemma_comb2(i * i, e * (s * s), 1, i * i, -1, -1, k, 0);
        lemma_d_not_square(i, s);
    }
}

/// The points that eight annihilates, by their `y`.
proof fn lemma_torsion(a: Affine)
    requires
        on_curve(a),
        smul(8, a) == identity(),
    ensures
        a.y == 0 || a.y == 1 || a.y == p() - 1 || a.y == y8() || a.y == p() - y8(),
{
    let b = smul(2, a);
    let c = smul(4, a);
    lemma_smul_on_curve(2, a);
    lemma_smul_on_curve(4, a);
    lemma_smul_mul(2, 2, a);
    lemma_smul_mul(2, 4, a);
    lemma_smul_small(a);
    lemma_smul_small(b);
    lemma_smul_small(c);
    lemma_double_vanishes(c);
    lemma_half_of_zero_x(b);
    if b.x == 0 {
        lemma_half_of_zero_x(a);
        if a.x == 0 {
            lemma_zero_x(a);
        }
    } else {
        lemma_half_of_zero_y(a);
        lemma_opposite_squares(a);
    }
}

/// A chain of three doublings to the neutral element.
proof fn lemma_eight_times(a: Affine, b: Affine, c: Affine)
    requires
        on_curve(a),
        padd(a, a) == b,
        padd(b, b) == c,
        padd(c, c) == identity(),
    ensures
        smul(8, a) == identity(),
{
    lemma_add_on_curve(a, a);
    lemma_add_on_curve(b, b);
    lemma_smul_mul(2, 2, a);
    lemma_smul_mul(2, 4, a);
    lemma_smul_small(a);
    lemma_smul_small(b);
    lemma_smul_small(c);
}

/// Points of each of the `y` coordinates.
proof fn lemma_torsion_points() -> (r: (Affine, Affine))
    ensures
        on_curve(r.0),
        on_curve(r.1),
        smul(8, r.0) == identity(),
        smul(8, r.1) == identity(),
        r.0.y == 0x05fc536d880238b13933c6d305acdfd5f098eff289f4c345b027b2c28f95e826int,
        r.1.y == 0x7a03ac9277fdc74ec6cc392cfa53202a0f67100d760b3cba4fd84d3d706a17c7int,
        on_curve(Affine { x: sqrt_m1(), y: 0 }),
        on_curve(Affine { x: 0, y: p() - 1 }),
        on_curve(identity()),
        smul(8, Affine { x: sqrt_m1(), y: 0 }) == identity(),
        smul(8, Affine { x: 0, y: p() - 1 }) == identity(),
        smul(8, identity()) == identity(),
{
    reveal(p);
    reveal(sqrt_m1);
    let a = Affine {
        x: 0x602a465ff9c6b5d716cc66cdc721b544a3e6c38fec1a1dc7215eb9b93aba2ea3int,
        y: 0x05fc536d880238b13933c6d305acdfd5f098eff289f4c345b027b2c28f95e826int,
    };
    let b = Affine {
        x: 0x602a465ff9c6b5d716cc66cdc721b544a3e6c38fec1a1dc7215eb9b93aba2ea3int,
        y: 0x7a03ac9277fdc74ec6cc392cfa53202a0f67100d760b3cba4fd84d3d706a17c7int,
    };
    let i = 0x2b8324804fc1df0b2b4d00993dfbd7a72f431806ad2fe478c4ee1b274a0ea0b0int;
    let j = 0x547cdb7fb03e20f4d4b2ff66c2042858d0bce7f952d01b873b11e4d8b5f15f3dint;
    let u = Affine { x: i, y: 0 };
    let v = Affine { x: j, y: 0 };
    let w = Affine {
        x: 0,
        y: 0x7fffffffffffffffffffffffffffffffffffffffffffffffffffffffffffffecint,
    };
    lemma_identity_on_curve();
    lemma_double(identity(), identity());
    lemma_point(0, w.y);
    lemma_point(i, 0);
    lemma_point(j, 0);
    lemma_point(a.x, a.y);
    lemma_point(b.x, b.y);
    lemma_double(w, identity());
    lemma_double(u, w);
    lemma_double(v, w);
    lemma_double(a, v);
    lemma_double(b, u);
    lemma_eight_times(a, v, w);
    lemma_eight_times(b, u, w);
    lemma_eight_times(u, w, identity());
    lemma_eight_times(w, identity(), identity());
    lemma_eight_times(identity(), identity(), identity());
    (a, b)
}

/// The encodings that legacy verifiers exclude are the integers of 256 bits that
/// are congruent to the `y` of a point that the cofactor annihilates, all of them
/// but one.
pub proof fn lemma_excluded_are_torsion(v: int)
    ensures
        is_excluded(v) <==> {
            &&& 0 <= v < 0x1_0000000000000000000000000000000000000000000000000000000000000000int
            &&& v != 2 * p() + 1
            &&& exists|a: Affine|
                on_curve(a) && #[trigger] smul(8, a) == identity() && (v - a.y) % p() == 0
        },
{
    let (a, b) = lemma_torsion_points();
    let u = Affine { x: sqrt_m1(), y: 0 };
    let w = Affine { x: 0, y: p() - 1 };
    let o = identity();
    reveal(p);
    if is_excluded(v) {
        assert(smul(8, a) == identity() && smul(8, b) == identity() && smul(8, u) == identity() && smul(
            8,
            w,
        ) == identity() && smul(8, o) == identity());
    }
    if 0 <= v < 0x1_0000000000000000000000000000000000000000000000000000000000000000int && v != 2
        * p() + 1 && exists|a: Affine|
        on_curve(a) && #[trigger] smul(8, a) == identity() && (v - a.y) % p() == 0 {
        let c = choose|a: Affine|
            on_curve(a) && #[trigger] smul(8, a) == identity() && (v - a.y) % p() == 0;
        lemma_torsion(c);
        reveal(y8);
        let q = (v - c.y) / p();
        assert(v == c.y + p() * q);
        assert(q == 0 || q == 1 || q == 2);
    }
}

/// Two is not the quotient of two squares.
proof fn lemma_two_squares(u: int, v: int)
    requires
        eq(u * u, 2 * (v * v)),
    ensures
        eq(v, 0),
{
    if !eq(v, 0) {
        let f = finv(v);
        lemma_finv(v);
        let w = u * f;
        let g = v * f;
        let (uu, vv, ff) = (u * u, v * v, f * f);
        assert(w * w == uu * ff) by (nonlinear_arith)
            requires
                w == u * f,
                uu == u * u,
                ff == f * f,
        ;
        assert(g * g == vv * ff) by (nonlinear_arith)
            requires
                g == v * f,
                vv == v * v,
                ff == f * f,
        ;
        lemma_eq_ops(g, 1, g, 1);
        assert(w * w - 2 == ff * (uu - 2 * vv) + 2 * (g * g - 1int * 1int)) by (nonlinear_arith)
            requires
                w * w == uu * ff,
                g * g == vv * ff,
        ;
        lemma_comb2(w * w, 2, ff, uu, 2 * vv, 2, g * g, 1int * 1int);
        lemma_two_not_square(w);
    }
}

/// A point of the curve has no `y` for which `y^2 - 1` is a square and `1 + d y^2`
/// is twice a square, both of them not zero.
proof fn lemma_no_such_point(a: Affine, m1: int, m2: int)
    requires
        on_curve(a),
        eq(a.y * a.y - 1, m1 * m1),
        eq(1 + d() * (a.y * a.y), 2 * (m2 * m2)),
        !eq(m2, 0),
    ensures
        eq(m1, 0),
{
    let e = d();
    let (x, y) = (a.x, a.y);
    let (xx, yy) = (x * x, y * y);
    let (k1, k2) = (m1 * m1, m2 * m2);
    let c = yy - xx - 1 - e * (xx * yy);
    // x^2 (1 + d y^2) == y^2 - 1
    let s = x * m2;
    assert(s * s == xx * k2) by (nonlinear_arith)
        requires
            s == x * m2,
            xx == x * x,
            k2 == m2 * m2,
    ;
    let (g, h) = (yy - 1, 1 + e * yy);
    assert(k1 - 2 * (s * s) == (-1) * (g - k1) + xx * (h - 2 * k2) + 1 * (c - 0)) by (nonlinear_arith)
        requires
            s * s == xx * k2,
            g == yy - 1,
            h == 1 + e * yy,
            c == yy - xx - 1 - e * (xx * yy),
    ;
    lemma_comb3(k1, 2 * (s * s), -1, g, k1, xx, h, 2 * k2, 1, c, 0);
    lemma_two_squares(m1, s);
    lemma_zero_product(x, m2);
    // x == 0, and y^2 == 1
    lemma_eq_ops(x, 0, x, 0);
    lemma_eq_ops(s, 0, s, 0);
    assert(0int * 0int == 0);
    lemma_comb2(k1, 0, 1, k1, 2 * (s * s), 2, s * s, 0);
    lemma_zero_product(m1, m1);
}

/// The double of a point has no `y` for which `1 - y^2` is twice a square that is
/// not zero.
proof fn lemma_no_such_double(a: Affine, m: int)
    requires
        on_curve(a),
        eq(1 - padd(a, a).y * padd(a, a).y, 2 * (m * m)),
    ensures
        eq(m, 0),
{
    lemma_add(a, a);
    lemma_complete(a, a);
    lemma_sum_root();
    let e = d();
    let (x, y) = (a.x, a.y);
    let (xx, yy) = (x * x, y * y);
    let t = add_t(a, a);
    let o = 1 - t;
    let z = padd(a, a).y;
    let n = ny(x, y, x, y);
    let zz = z * z;
    let (oo, k) = (o * o, m * m);
    // ((1 - t) z)^2 == (x^2 + y^2)^2
    lemma_eq_ops(z * o, n, z * o, n);
    let zo = z * o;
    assert(zo * zo == zz * oo) by (nonlinear_arith)
        requires
            zo == z * o,
            zz == z * z,
            oo == o * o,
    ;
    // (1 - t)^2 - (x^2 + y^2)^2 == -(1 + d) (2 x y)^2
    let c = yy - xx - 1 - e * (xx * yy);
    let r = -(1 + e);
    let f = 4 * (xx * yy);
    lemma_difference_of_squares(xx, yy, e, t, o, n, c, f);
    let j = sum_root();
    let q = x * y;
    let u = j * (2 * q);
    let jj = j * j;
    assert(u * u == jj * f) by (nonlinear_arith)
        requires
            u == j * (2 * q),
            q == x * y,
            f == 4 * (xx * yy),
            xx == x * x,
            yy == y * y,
            jj == j * j,
    ;
    let v = o * m;
    assert(v * v == oo * k) by (nonlinear_arith)
        requires
            v == o * m,
            oo == o * o,
            k == m * m,
    ;
    let g = 1 - zz;
    let nn = n * n;
    let h = oo - nn;
    assert(u * u - 2 * (v * v) == f * (jj - r) + (-1) * (h - r * f) + 1 * (zo * zo - nn) + oo * (g - 2
        * k)) by (nonlinear_arith)
        requires
            u * u == jj * f,
            v * v == oo * k,
            zo * zo == zz * oo,
            g == 1 - zz,
            h == oo - nn,
    ;
    lemma_comb4(
        u * u,
        2 * (v * v),
        f,
        jj,
        r,
        -1,
        h,
        r * f,
        1,
        zo * zo,
        nn,
        oo,
        g,
        2 * k,
    );
    lemma_two_squares(u, v);
    lemma_zero_product(o, m);
}

/// `(1 - t)^2 - (x^2 + y^2)^2 == -(1 + d) 4 x^2 y^2` on the curve.
proof fn lemma_difference_of_squares(
    xx: int,
    yy: int,
    e: int,
    t: int,
    o: int,
    n: int,
    c: int,
    f: int,
)
    requires
        t == e * (xx * yy),
        o == 1 - t,
        n == yy + xx,
        c == yy - xx - 1 - t,
        f == 4 * (xx * yy),
        eq(c, 0),
    ensures
        eq(o * o - n * n, (-(1 + e)) * f),
{
    let q = xx * yy;
    // o == 2 - y^2 + x^2 + c
    assert(o * o - n * n - (-(1 + e)) * f == (o + (2 - yy + xx) - 4) * (c - 0)) by (nonlinear_arith)
        requires
            t == e * q,
            q == xx * yy,
            o == 1 - t,
            n == yy + xx,
            c == yy - xx - 1 - t,
            f == 4 * q,
    ;
    lemma_comb1(o * o - n * n, (-(1 + e)) * f, o + (2 - yy + xx) - 4, c, 0);
}

/// A square root of `-(1 + d)`.
#[verifier::opaque]
spec fn sum_root() -> int {
    0x4896ce40d47cb753f0c30336ce0a2e02506271f3e487ab428168095fb684d1d2int
}

proof fn lemma_sum_root()
    ensures
        eq(sum_root() * sum_root(), -(1 + d())),
{
    reveal(sum_root);
    reveal(p);
    reveal(d);
    reveal(eqm);
}

/// A multiple of the base point is annihilated by the order, and is the double of
/// a multiple.
proof fn lemma_in_subgroup(n: int) -> (h: Affine)
    ensures
        on_curve(smul(n, basepoint())),
        on_curve(h),
        padd(h, h) == smul(n, basepoint()),
        smul(order(), smul(n, basepoint())) == identity(),
{
    let b = basepoint();
    let l = order();
    lemma_basepoint();
    lemma_base_order();
    lemma_smul_small(b);
    lemma_smul_on_curve(n, b);
    // [L n] B == [n L] B == [n] O == O
    assert(l * n == n * l) by (nonlinear_arith);
    lemma_smul_mul(l, n, b);
    lemma_smul_mul(n, l, b);
    lemma_smul_mul(n, 0, b);
    assert(n * 0 == 0) by (nonlinear_arith);
    // 2 (L + 1) / 2 == L + 1
    let k = (l + 1) / 2;
    let h = smul(k * n, b);
    lemma_smul_on_curve(k * n, b);
    lemma_smul_small(h);
    lemma_smul_mul(2, k * n, b);
    assert(2 * (k * n) == l * n + n) by (nonlinear_arith)
        requires
            2 * k == l + 1,
    ;
    lemma_smul_add(l * n, n, b);
    lemma_add_identity(smul(n, b));
    h
}

/// A multiple of the base point that the cofactor annihilates is the neutral
/// element.
proof fn lemma_subgroup_torsion(n: int)
    requires
        smul(8, smul(n, basepoint())) == identity(),
    ensures
        smul(n, basepoint()) == identity(),
{
    let h = lemma_in_subgroup(n);
    let a = smul(n, basepoint());
    let u = 2713877091499598330239944961141122840321418634767465352250731601857045344121int;
    // 8 u - 3 L == 1
    lemma_smul_mul(u, 8, a);
    lemma_smul_mul(-3, order(), a);
    lemma_smul_add(u * 8, -3 * order(), a);
    assert(u * 8 + -3 * order() == 1);
    lemma_smul_small(a);
    lemma_smul_mul(u, 0, a);
    lemma_smul_mul(-3, 0, a);
    lemma_identity_on_curve();
    lemma_add_identity(identity());
}

/// A point with the `y` of one that the cofactor annihilates is annihilated too.
proof fn lemma_torsion_by_y(a: Affine, b: Affine)
    requires
        on_curve(a),
        on_curve(b),
        a.y == b.y,
        smul(8, b) == identity(),
    ensures
        smul(8, a) == identity(),
{
    lemma_same_y(a, b);
    lemma_smul_small(b);
    lemma_smul_mul(8, -1, b);
    lemma_smul_mul(-1, 8, b);
    lemma_identity_on_curve();
    lemma_smul_small(identity());
    lemma_neg_identity();
}

/// The inverse of the neutral element.
proof fn lemma_neg_identity()
    ensures
        neg(identity()) == identity(),
{
    lemma_p();
    lemma_small_mod(0, p() as nat);
}

/// A multiple of the base point is the neutral element exactly where the order
/// divides the count.
pub proof fn lemma_order_of_base_point(n: int)
    ensures
        smul(n, basepoint()) == (Affine { x: 0, y: 1 }) <==> n % order() == 0,
{
    let b = basepoint();
    let l = order();
    lemma_basepoint();
    lemma_smul_small(b);
    lemma_count_modulo_order(n);
    if smul(n, b) == identity() && n % l != 0 {
        lemma_prime_253();
        lemma_small_mod(0, l as nat);
        lemma_eqm_iff_mod(l, n, 0);
        let w = lemma_inverse_exists(l, n);
        // [n w] B is B, and [w] O
        lemma_count_modulo_order(n * w);
        lemma_eqm_iff_mod(l, n * w, 1);
        lemma_small_mod(1, l as nat);
        assert(n * w == w * n) by (nonlinear_arith);
        lemma_smul_mul(w, n, b);
        lemma_smul_mul(w, 0, b);
        assert(w * 0 == 0) by (nonlinear_arith);
    }
}

/// Two multiples of the base point are the same exactly where the counts are
/// congruent modulo the order.
pub proof fn lemma_equal_multiples(m: int, n: int)
    ensures
        smul(m, basepoint()) == smul(n, basepoint()) <==> (m - n) % order() == 0,
{
    let b = basepoint();
    lemma_basepoint();
    lemma_order_of_base_point(m - n);
    lemma_smul_add(m - n, n, b);
    lemma_smul_on_curve(n, b);
    lemma_smul_on_curve(m - n, b);
    lemma_add_identity(smul(n, b));
    if smul(m, b) == smul(n, b) {
        lemma_identity_on_curve();
        lemma_add_right_cancel(smul(m - n, b), identity(), smul(n, b));
    }
}

/// The encoding of a multiple of the base point is one of the excluded ones exactly
/// where the order divides the count: that of the neutral element is, and no other.
pub proof fn lemma_excluded_multiple(n: int)
    ensures
        is_excluded(encoded(smul(n, basepoint()))) <==> n % order() == 0,
        encoded(smul(n, basepoint())) != 0,
{
    lemma_order_of_base_point(n);
    let v = encoded(smul(n, basepoint()));
    let a = smul(n, basepoint());
    let h = lemma_in_subgroup(n);
    let (e, f) = lemma_torsion_points();
    let u = Affine { x: sqrt_m1(), y: 0 };
    let w = Affine { x: 0, y: p() - 1 };
    lemma_p();
    reveal(p);
    if a != identity() {
        if a.y == e.y {
            lemma_torsion_by_y(a, e);
            lemma_subgroup_torsion(n);
        }
        if a.y == f.y {
            lemma_torsion_by_y(a, f);
            lemma_subgroup_torsion(n);
        }
        if a.y == 0 {
            lemma_torsion_by_y(a, u);
            lemma_subgroup_torsion(n);
        }
        if a.y == p() - 1 {
            lemma_torsion_by_y(a, w);
            lemma_subgroup_torsion(n);
        }
        if a.y == 1 {
            lemma_torsion_by_y(a, identity());
            lemma_subgroup_torsion(n);
        }
        lemma_high_encodings(a, h);
    }
}

/// The remaining `y` coordinates are those of no double of a point.
proof fn lemma_high_encodings(a: Affine, h: Affine)
    requires
        on_curve(a),
        on_curve(h),
        padd(h, h) == a,
    ensures
        a.y != 0x05fc536d880238b13933c6d305acdfd5f098eff289f4c345b027b2c28f95e813int,
        a.y != 0x7fffffffffffffffffffffffffffffffffffffffffffffffffffffffffffffdaint,
        a.y != 0x7a03ac9277fdc74ec6cc392cfa53202a0f67100d760b3cba4fd84d3d706a17b4int,
        a.y != 0x7fffffffffffffffffffffffffffffffffffffffffffffffffffffffffffffd9int,
{
    lemma_not_double(
        h,
        0x05fc536d880238b13933c6d305acdfd5f098eff289f4c345b027b2c28f95e813int,
        0x1d473c96d972acd3ae5784eecc279946a83f5d183de5c94de2f112896d679a50int,
    );
    lemma_not_double(
        h,
        0x7fffffffffffffffffffffffffffffffffffffffffffffffffffffffffffffdaint,
        0x5d7b4f8ff181d42bab88f9a3beee29680a202652295dcb69c637faf8e8d007d7int,
    );
    lemma_not_point(
        a,
        0x7a03ac9277fdc74ec6cc392cfa53202a0f67100d760b3cba4fd84d3d706a17b4int,
        0x1dbd8dfb9a0d1077a4167473cb9b0699850392e142fb9f1dcf9b1f64ca4c044fint,
        0x665241d404dee855ba5131d479e02ca05fcef87bd65befa0bc893ab2c3509c4fint,
    );
    lemma_not_point(
        a,
        0x7fffffffffffffffffffffffffffffffffffffffffffffffffffffffffffffd9int,
        0xf65301d135131cc5f37b2769c14bdcb4e1dc58d136ac9f2ec74f2b26b536d20int,
        0x434e0f605b22be728a5f8d24c57d24bab00f0978cdc0b0d292568b7200b25cb7int,
    );
}

/// `1 - y^2` is twice the square of a number, in integers.
#[verifier::inline]
spec fn twice_square(y: int, m: int) -> bool {
    &&& 0 < m < 0x7fffffffffffffffffffffffffffffffffffffffffffffffffffffffffffffedint
    &&& (1 - y * y - 2 * (m * m)) % 0x7fffffffffffffffffffffffffffffffffffffffffffffffffffffffffffffedint
        == 0
}

proof fn lemma_not_double(h: Affine, y: int, m: int)
    requires
        on_curve(h),
        twice_square(y, m),
    ensures
        padd(h, h).y != y,
{
    reveal(p);
    reveal(eqm);
    if padd(h, h).y == y {
        lemma_no_such_double(h, m);
        lemma_is_zero(m);
    }
}

/// `y^2 - 1` is the square of a number and `1 + d y^2` is twice one, in integers.
#[verifier::inline]
spec fn misses(y: int, m1: int, m2: int) -> bool {
    &&& 0 < m1 < 0x7fffffffffffffffffffffffffffffffffffffffffffffffffffffffffffffedint
    &&& 0 < m2 < 0x7fffffffffffffffffffffffffffffffffffffffffffffffffffffffffffffedint
    &&& (y * y - 1 - m1 * m1) % 0x7fffffffffffffffffffffffffffffffffffffffffffffffffffffffffffffedint == 0
    &&& (1 + 0x52036cee2b6ffe738cc740797779e89800700a4d4141d8ab75eb4dca135978a3int * (y * y) - 2 * (m2
        * m2)) % 0x7fffffffffffffffffffffffffffffffffffffffffffffffffffffffffffffedint == 0
}

proof fn lemma_not_point(a: Affine, y: int, m1: int, m2: int)
    requires
        on_curve(a),
        misses(y, m1, m2),
    ensures
        a.y != y,
{
    reveal(p);
    reveal(d);
    reveal(eqm);
    if a.y == y {
        if eq(m2, 0) {
            lemma_is_zero(m2);
        }
        lemma_no_such_point(a, m1, m2);
        lemma_is_zero(m1);
    }
}

/// A signature made with a secret scalar and a nonce, with the public key
/// `[a] B`, `R = [r] B` and `s = r + k a` modulo the order, is valid under the
/// cofactored policy, and under the cofactorless one exactly where the nonce is not a
/// multiple of the order.
pub proof fn lemma_honest_signature(
    secret: int,
    nonce: int,
    public_key: Seq<u8>,
    signature: Seq<u8>,
    message: Seq<u8>,
)
    requires
        public_key.len() == 32,
        signature.len() == 64,
        le256(public_key) == encoded(smul(secret, basepoint())),
        le256(signature.subrange(0, 32)) == encoded(smul(nonce, basepoint())),
        le256(signature.subrange(32, 64)) == (nonce + challenge(
            signature.subrange(0, 32),
            public_key,
            message,
        ) * secret) % order(),
    ensures
        signature_valid(VerifyPolicy::Zip215, public_key, signature, message),
        signature_valid(VerifyPolicy::Dalek, public_key, signature, message) <==> nonce % order() != 0,
{
    lemma_signed_is_valid(secret, nonce, public_key, signature, message);
    lemma_excluded_multiple(secret);
    lemma_excluded_multiple(nonce);
}

/// A request made by signing its own message gets true in its place of a batch under
/// the cofactored policy, and under the cofactorless one exactly where the nonce is
/// not a multiple of the order.
pub proof fn lemma_honest_request(
    secret: int,
    nonce: int,
    inputs: Seq<VerifyInput<'_>>,
    i: int,
)
    requires
        0 <= i < inputs.len(),
        le256(inputs[i].public_key@) == encoded(smul(secret, basepoint())),
        le256(inputs[i].signature@.subrange(0, 32)) == encoded(smul(nonce, basepoint())),
        le256(inputs[i].signature@.subrange(32, 64)) == (nonce + challenge(
            inputs[i].signature@.subrange(0, 32),
            inputs[i].public_key@,
            inputs[i].message@,
        ) * secret) % order(),
    ensures
        batch_results(VerifyPolicy::Zip215, inputs)[i],
        batch_results(VerifyPolicy::Dalek, inputs)[i] <==> nonce % order() != 0,
{
    lemma_honest_signature(
        secret,
        nonce,
        inputs[i].public_key@,
        inputs[i].signature@,
        inputs[i].message@,
    );
}

/// A factor of eight does not matter modulo the order.
proof fn lemma_eight_times_count(v: int)
    ensures
        (8 * v) % order() == 0 <==> v % order() == 0,
{
    let l = order();
    lemma_prime_253();
    lemma_small_mod(0, l as nat);
    lemma_small_mod(8, l as nat);
    lemma_eqm_iff_mod(l, 8 * v, 0);
    lemma_eqm_iff_mod(l, v, 0);
    lemma_eqm_iff_mod(l, 8, 0);
    if (8 * v) % l == 0 {
        lemma_euclid(l, 8, v);
    }
    if v % l == 0 {
        lemma_eqm_refl(l, 8);
        lemma_eqm_ops(l, 8, 8, v, 0);
    }
}

/// With the public key `[a] B` and `R = [r] B`, the scalar that is accepted is
/// `r + k a` modulo the order, and no other.
pub proof fn lemma_only_scalar(
    secret: int,
    nonce: int,
    public_key: Seq<u8>,
    signature: Seq<u8>,
    message: Seq<u8>,
)
    requires
        public_key.len() == 32,
        signature.len() == 64,
        le256(public_key) == encoded(smul(secret, basepoint())),
        le256(signature.subrange(0, 32)) == encoded(smul(nonce, basepoint())),
    ensures
        ({
            let k = challenge(signature.subrange(0, 32), public_key, message);
            let s = le256(signature.subrange(32, 64));
            &&& signature_valid(VerifyPolicy::Zip215, public_key, signature, message) <==> s == (nonce
                + k * secret) % order()
            &&& signature_valid(VerifyPolicy::Dalek, public_key, signature, message) <==> s == (nonce
                + k * secret) % order() && nonce % order() != 0
        }),
{
    let b = basepoint();
    let bytes = signature.subrange(0, 32);
    let s = le256(signature.subrange(32, 64));
    let k = challenge(bytes, public_key, message);
    let n = nonce + k * secret;
    lemma_basepoint();
    lemma_smul_on_curve(secret, b);
    lemma_smul_on_curve(nonce, b);
    lemma_decoded_encoded(public_key, smul(secret, b));
    lemma_decoded_encoded(bytes, smul(nonce, b));
    lemma_thirty_two_bytes(signature.subrange(32, 64));
    lemma_dalek_is_zip215(public_key, signature, message);
    if s == n % order() {
        lemma_honest_signature(secret, nonce, public_key, signature, message);
    }
    if signature_valid(VerifyPolicy::Zip215, public_key, signature, message) {
        lemma_zip215_means(public_key, signature, message);
        // [8 s] B == [8 r + 8 k a] B
        lemma_smul_mul(8, s, b);
        lemma_smul_mul(8, nonce, b);
        lemma_smul_mul(k, secret, b);
        lemma_smul_mul(8, k * secret, b);
        lemma_smul_add(8 * nonce, 8 * (k * secret), b);
        assert(smul(8 * s, b) == smul(8 * n, b));
        lemma_equal_multiples(8 * s, 8 * n);
        assert(8 * s - 8 * n == 8 * (s - n));
        lemma_eight_times_count(s - n);
        lemma_small_mod(0, order() as nat);
        lemma_eqm_intro_mod(s, n);
        lemma_small_mod(s as nat, order() as nat);
    }
}

proof fn lemma_eqm_intro_mod(s: int, n: int)
    requires
        (s - n) % order() == 0,
    ensures
        s % order() == n % order(),
{
    reveal(eqm);
    lemma_eqm_iff_mod(order(), s, n);
}

/// A signature on one message that is offered with another is accepted exactly where
/// the two challenges agree, for a secret scalar that is not a multiple of the order.
pub proof fn lemma_other_message(
    secret: int,
    nonce: int,
    public_key: Seq<u8>,
    signature: Seq<u8>,
    signed: Seq<u8>,
    offered: Seq<u8>,
)
    requires
        public_key.len() == 32,
        signature.len() == 64,
        secret % order() != 0,
        le256(public_key) == encoded(smul(secret, basepoint())),
        le256(signature.subrange(0, 32)) == encoded(smul(nonce, basepoint())),
        signature_valid(VerifyPolicy::Zip215, public_key, signature, signed),
    ensures
        signature_valid(VerifyPolicy::Zip215, public_key, signature, offered) <==> challenge(
            signature.subrange(0, 32),
            public_key,
            signed,
        ) == challenge(signature.subrange(0, 32), public_key, offered),
{
    let l = order();
    let bytes = signature.subrange(0, 32);
    let (j, k) = (challenge(bytes, public_key, signed), challenge(bytes, public_key, offered));
    lemma_only_scalar(secret, nonce, public_key, signature, signed);
    lemma_only_scalar(secret, nonce, public_key, signature, offered);
    if signature_valid(VerifyPolicy::Zip215, public_key, signature, offered) {
        let (m, n) = (nonce + j * secret, nonce + k * secret);
        lemma_prime_253();
        lemma_small_mod(0, l as nat);
        lemma_eqm_iff_mod(l, m, n);
        assert(m - n == (j - k) * secret) by (nonlinear_arith)
            requires
                m == nonce + j * secret,
                n == nonce + k * secret,
        ;
        assert(eqm(l, (j - k) * secret, 0)) by {
            reveal(eqm);
        }
        lemma_eqm_iff_mod(l, secret, 0);
        lemma_euclid(l, j - k, secret);
        assert(eqm(l, j, k)) by {
            reveal(eqm);
        }
        lemma_challenge(bytes, public_key, signed);
        lemma_challenge(bytes, public_key, offered);
        lemma_eqm_small(l, j, k);
    }
}

} // verus!
