//! The twisted Edwards curve `-x^2 + y^2 = 1 + d x^2 y^2` over the field of
//! `2^255 - 19`, and the group that its points form.
use crate::math::gf::{
    d, eq, finv, lemma_comb1, lemma_comb2, lemma_constants, lemma_d_not_square, lemma_eq_cancel,
    lemma_eq_ops, lemma_eq_refl, lemma_eq_small, lemma_eq_sym, lemma_eq_trans, lemma_finv,
    lemma_nonzero_product, lemma_p, lemma_reduced, lemma_swap, p, sqrt_m1,
};
use crate::math::identities::{
    left_x, left_xd, left_y, left_yd, lemma_closure, lemma_curves, lemma_left, lemma_right,
    lemma_x_cross, lemma_y_cross, nx, ny, right_x, right_xd, right_y, right_yd, tt,
};
use crate::math::poly::{val, Vars};
use vstd::prelude::*;

verus! {

/// A pair of field elements, both reduced where the pair is a point.
pub struct Affine {
    pub x: int,
    pub y: int,
}

/// The curve equation.
pub open spec fn curve_eq(x: int, y: int) -> bool {
    eq(y * y - x * x - 1 - d() * ((x * x) * (y * y)), 0)
}

/// A point of the curve, by its reduced coordinates.
pub open spec fn on_curve(a: Affine) -> bool {
    &&& 0 <= a.x < p()
    &&& 0 <= a.y < p()
    &&& curve_eq(a.x, a.y)
}

/// The neutral element.
pub open spec fn identity() -> Affine {
    Affine { x: 0, y: 1 }
}

/// The inverse of a point.
pub open spec fn neg(a: Affine) -> Affine {
    Affine { x: (-a.x) % p(), y: a.y }
}

/// What the denominators of the sum add to one and take from it.
pub open spec fn add_t(a: Affine, b: Affine) -> int {
    tt(d(), a.x, a.y, b.x, b.y)
}

/// The sum of two points.
#[verifier::opaque]
pub open spec fn padd(a: Affine, b: Affine) -> Affine {
    let t = add_t(a, b);
    Affine {
        x: (nx(a.x, a.y, b.x, b.y) * finv(1 + t)) % p(),
        y: (ny(a.x, a.y, b.x, b.y) * finv(1 - t)) % p(),
    }
}

/// `n` times a point: a sum of `n` copies, or of `-n` copies of the inverse.
#[verifier::opaque]
pub open spec fn smul(n: int, a: Affine) -> Affine
    decreases (if n >= 0 { n } else { -n }),
{
    if n == 0 {
        identity()
    } else if n > 0 {
        padd(smul(n - 1, a), a)
    } else {
        padd(smul(n + 1, a), neg(a))
    }
}

/// Half of the completeness argument: where the product term is a sign `s`,
/// the form `i x2 + g y2` vanishes for either sign `g`.
proof fn lemma_form_vanishes(a: Affine, b: Affine, s: int, g: int)
    requires
        on_curve(a),
        on_curve(b),
        s == 1 || s == -1,
        g == 1 || g == -1,
        eq(add_t(a, b), s),
    ensures
        eq(sqrt_m1() * b.x + g * b.y, 0),
{
    lemma_constants();
    let i = sqrt_m1();
    let e = d();
    let (x1, y1, x2, y2) = (a.x, a.y, b.x, b.y);
    let t = add_t(a, b);
    let c = x1 * y1;
    let q = x2 * y2;
    let cc = c * c;
    let m = e * cc;
    let n2 = y2 * y2 - x2 * x2;
    let n1 = y1 * y1 - x1 * x1;
    let h = g * s;
    lemma_swap(x1, x2, y1, y2);
    lemma_swap(x1, y1, x1, y1);
    lemma_swap(x2, y2, x2, y2);
    assert(t == e * (c * q));
    // m (y2^2 - x2^2) == m + t^2 == m + 1 == y1^2 - x1^2
    assert(eq(m * n2, n1)) by {
        let qq = q * q;
        lemma_comb1(n2, 1 + e * qq, 1, n2 - 1 - e * qq, 0);
        lemma_eq_refl(m);
        lemma_eq_ops(m, m, n2, 1 + e * qq);
        assert(m * (1 + e * qq) == m + m * (e * qq)) by (nonlinear_arith);
        lemma_swap(e, cc, e, qq);
        lemma_swap(c, c, q, q);
        lemma_swap(e, c * q, e, c * q);
        assert(m * (e * qq) == t * t);
        lemma_eq_ops(t, s, t, s);
        lemma_eq_ops(m, m, t * t, 1);
        lemma_eq_trans(m * n2, m + t * t, m + 1);
        assert(eq(n1 - 1 - e * cc, 0));
        lemma_comb1(m + 1, n1, -1, n1 - 1 - e * cc, 0);
        lemma_eq_trans(m * n2, m + 1, n1);
    }
    let w = i * x1 + h * y1;
    let z = i * x2 + g * y2;
    let ii = i * i;
    // w^2 == n1 + 2 h i c
    assert(eq(w * w, n1 + 2 * h * (i * c))) by {
        lemma_square_of_form(i, x1, h, y1);
        lemma_eq_refl(x1 * x1);
        lemma_eq_ops(ii, -1, x1 * x1, x1 * x1);
        lemma_comb1(w * w, n1 + 2 * h * (i * c), 1, ii * (x1 * x1), -1 * (x1 * x1));
    }
    // z^2 == n2 + 2 g i q
    assert(eq(z * z, n2 + 2 * g * (i * q))) by {
        lemma_square_of_form(i, x2, g, y2);
        lemma_eq_refl(x2 * x2);
        lemma_eq_ops(ii, -1, x2 * x2, x2 * x2);
        lemma_comb1(z * z, n2 + 2 * g * (i * q), 1, ii * (x2 * x2), -1 * (x2 * x2));
    }
    // m z^2 == w^2
    assert(eq(m * (z * z), w * w)) by {
        lemma_eq_refl(m);
        lemma_eq_ops(m, m, z * z, n2 + 2 * g * (i * q));
        let r = i * q;
        assert(m * (n2 + 2 * g * r) == m * n2 + 2 * g * (m * r)) by (nonlinear_arith)
            requires
                g == 1 || g == -1,
        ;
        // m i q == i c t
        assert(m * r == (i * c) * t) by {
            lemma_swap(e, cc, i, q);
            assert((e * i) * (cc * q) == (i * c) * (e * (c * q))) by {
                assert(cc * q == c * (c * q)) by (nonlinear_arith)
                    requires
                        cc == c * c,
                ;
                let k = c * q;
                lemma_swap(e, i, c, k);
                assert((e * c) * (i * k) == (i * c) * (e * k)) by (nonlinear_arith);
            }
        }
        lemma_eq_refl(i * c);
        lemma_eq_ops(i * c, i * c, t, s);
        let u = i * c;
        lemma_eq_refl(2 * g);
        lemma_eq_ops(2 * g, 2 * g, u * t, u * s);
        assert((2 * g) * (u * s) == 2 * h * u) by (nonlinear_arith)
            requires
                h == g * s,
        ;
        lemma_eq_ops(m * n2, n1, 2 * g * (u * t), 2 * h * u);
        lemma_eq_trans(m * (z * z), m * n2 + 2 * g * (u * t), n1 + 2 * h * u);
        lemma_eq_sym(w * w, n1 + 2 * h * u);
        lemma_eq_trans(m * (z * z), n1 + 2 * h * u, w * w);
    }
    // c is not zero, or the product term would vanish
    if eq(c, 0) {
        assert(e * (c * q) == (e * q) * c) by (nonlinear_arith);
        lemma_comb1(t, 0, e * q, c, 0);
        lemma_eq_sym(t, s);
        lemma_eq_trans(s, t, 0);
        if s == 1 {
        } else {
            lemma_comb1(1, 0, -1, -1, 0);
        }
    }
    if !eq(z, 0) {
        lemma_nonzero_product(c, z);
        lemma_swap(c, z, c, z);
        assert(e * ((c * z) * (c * z)) == m * (z * z)) by (nonlinear_arith)
            requires
                (c * c) * (z * z) == (c * z) * (c * z),
                m == e * cc,
                cc == c * c,
        ;
        lemma_eq_sym(m * (z * z), w * w);
        lemma_d_not_square(w, c * z);
    }
}

/// The square of `i x + h y` for a sign `h`.
proof fn lemma_square_of_form(i: int, x: int, h: int, y: int)
    requires
        h == 1 || h == -1,
    ensures
        (i * x + h * y) * (i * x + h * y) == (i * i) * (x * x) + 2 * h * (i * (x * y)) + y * y,
{
    let r = i * x;
    lemma_swap(i, x, i, x);
    assert(r * y == i * (x * y)) by (nonlinear_arith)
        requires
            r == i * x,
    ;
    let q = i * (x * y);
    if h == 1 {
        assert(h * y == y && 2 * h * q == 2 * q) by (nonlinear_arith)
            requires
                h == 1,
        ;
        assert((r + y) * (r + y) == r * r + 2 * (r * y) + y * y) by (nonlinear_arith);
    } else {
        assert(h * y == -y && 2 * h * q == -2 * q) by (nonlinear_arith)
            requires
                h == -1,
        ;
        assert((r - y) * (r - y) == r * r - 2 * (r * y) + y * y) by (nonlinear_arith);
    }
}

/// The addition law is complete: its denominators never vanish.
pub proof fn lemma_complete(a: Affine, b: Affine)
    requires
        on_curve(a),
        on_curve(b),
    ensures
        !eq(1 + add_t(a, b), 0),
        !eq(1 - add_t(a, b), 0),
{
    lemma_constants();
    let t = add_t(a, b);
    if eq(1 + t, 0) || eq(1 - t, 0) {
        let s: int = if eq(1 + t, 0) {
            -1
        } else {
            1
        };
        if s == -1 {
            lemma_comb1(t, -1, 1, 1 + t, 0);
        } else {
            lemma_comb1(t, 1, -1, 1 - t, 0);
        }
        lemma_form_vanishes(a, b, s, 1);
        lemma_form_vanishes(a, b, s, -1);
        let f = sqrt_m1() * b.x;
        lemma_comb2(2 * b.y, 0, 1, f + 1 * b.y, 0, -1, f + (-1) * b.y, 0);
        if !eq(b.y, 0) {
            lemma_nonzero_product(2, b.y);
        }
        let k = d() * (a.x * b.x) * a.y;
        assert(t == k * b.y) by (nonlinear_arith)
            requires
                t == d() * ((a.x * b.x) * (a.y * b.y)),
                k == d() * (a.x * b.x) * a.y,
        ;
        lemma_comb1(t, 0, k, b.y, 0);
        lemma_eq_sym(t, s);
        lemma_eq_trans(s, t, 0);
        if s == -1 {
            lemma_comb1(1, 0, -1, -1, 0);
        }
    }
}

/// The sum solves the two equations that its denominators give.
pub proof fn lemma_add(a: Affine, b: Affine)
    requires
        on_curve(a),
        on_curve(b),
    ensures
        0 <= padd(a, b).x < p(),
        0 <= padd(a, b).y < p(),
        eq(padd(a, b).x * (1 + add_t(a, b)), nx(a.x, a.y, b.x, b.y)),
        eq(padd(a, b).y * (1 - add_t(a, b)), ny(a.x, a.y, b.x, b.y)),
{
    reveal(padd);
    lemma_complete(a, b);
    let t = add_t(a, b);
    lemma_quotient(nx(a.x, a.y, b.x, b.y), 1 + t);
    lemma_quotient(ny(a.x, a.y, b.x, b.y), 1 - t);
}

proof fn lemma_quotient(n: int, m: int)
    requires
        !eq(m, 0),
    ensures
        0 <= (n * finv(m)) % p() < p(),
        eq((n * finv(m)) % p() * m, n),
{
    let w = finv(m);
    lemma_finv(m);
    lemma_reduced(n * w);
    let q = (n * w) % p();
    lemma_eq_refl(m);
    lemma_eq_ops(q, n * w, m, m);
    lemma_eq_refl(n);
    lemma_eq_ops(n, n, m * w, 1);
    assert((n * w) * m == n * (m * w)) by (nonlinear_arith);
    lemma_eq_trans(q * m, n * (m * w), n);
}

/// Nothing else solves them.
pub proof fn lemma_add_unique(a: Affine, b: Affine, x: int, y: int)
    requires
        on_curve(a),
        on_curve(b),
        eq(x * (1 + add_t(a, b)), nx(a.x, a.y, b.x, b.y)),
        eq(y * (1 - add_t(a, b)), ny(a.x, a.y, b.x, b.y)),
    ensures
        padd(a, b).x == x % p(),
        padd(a, b).y == y % p(),
{
    lemma_add(a, b);
    lemma_complete(a, b);
    let r = padd(a, b);
    let t = add_t(a, b);
    lemma_solution_unique(1 + t, r.x, x, nx(a.x, a.y, b.x, b.y));
    lemma_solution_unique(1 - t, r.y, y, ny(a.x, a.y, b.x, b.y));
}

proof fn lemma_solution_unique(m: int, r: int, x: int, n: int)
    requires
        !eq(m, 0),
        0 <= r < p(),
        eq(r * m, n),
        eq(x * m, n),
    ensures
        r == x % p(),
{
    lemma_eq_sym(x * m, n);
    lemma_eq_trans(r * m, n, x * m);
    assert(r * m == m * r && x * m == m * x) by (nonlinear_arith);
    lemma_eq_cancel(m, r, x);
    lemma_reduced(x);
    lemma_eq_trans(r, x, x % p());
    lemma_eq_small(r, x % p());
}

/// The curve is closed under addition.
pub proof fn lemma_add_on_curve(a: Affine, b: Affine)
    requires
        on_curve(a),
        on_curve(b),
    ensures
        on_curve(padd(a, b)),
{
    lemma_add(a, b);
    lemma_complete(a, b);
    let r = padd(a, b);
    let t = add_t(a, b);
    let v = Vars { a: a.x, b: a.y, c: b.x, d: b.y, e: 0, f: 0, g: d() };
    lemma_curves(v);
    lemma_closure(v);
    let na = nx(a.x, a.y, b.x, b.y);
    let nb = ny(a.x, a.y, b.x, b.y);
    let u = 1 + t;
    let w = 1 - t;
    let bu = nb * u;
    let aw = na * w;
    let uw = u * w;
    let ab = na * nb;
    // bu == r.y uw, aw == r.x uw, ab == r.x r.y uw
    lemma_eq_refl(u);
    lemma_eq_refl(w);
    lemma_eq_ops(r.y * w, nb, u, u);
    lemma_eq_ops(r.x * u, na, w, w);
    lemma_eq_ops(r.x * u, na, r.y * w, nb);
    assert((r.y * w) * u == r.y * uw) by (nonlinear_arith)
        requires
            uw == u * w,
    ;
    assert((r.x * u) * w == r.x * uw) by (nonlinear_arith)
        requires
            uw == u * w,
    ;
    lemma_swap(r.x, u, r.y, w);
    let rxy = r.x * r.y;
    lemma_eq_ops(r.y * uw, bu, r.y * uw, bu);
    lemma_eq_ops(r.x * uw, aw, r.x * uw, aw);
    lemma_eq_ops(rxy * uw, ab, rxy * uw, ab);
    lemma_swap(r.y, uw, r.y, uw);
    lemma_swap(r.x, uw, r.x, uw);
    lemma_swap(rxy, uw, rxy, uw);
    lemma_swap(r.x, r.y, r.x, r.y);
    let s = uw * uw;
    let yy = r.y * r.y;
    let xx = r.x * r.x;
    let e = d();
    lemma_eq_refl(e);
    lemma_eq_ops(e, e, (xx * yy) * s, ab * ab);
    lemma_eq_ops(yy * s, bu * bu, xx * s, aw * aw);
    lemma_eq_refl(s);
    lemma_eq_ops(yy * s - xx * s, bu * bu - aw * aw, s, s);
    lemma_eq_ops(
        yy * s - xx * s - s,
        bu * bu - aw * aw - s,
        e * ((xx * yy) * s),
        e * (ab * ab),
    );
    let f = yy - xx - 1 - e * (xx * yy);
    assert(s * f == yy * s - xx * s - s - e * ((xx * yy) * s)) by {
        let k = xx * yy;
        let ek = e * k;
        assert(e * (k * s) == ek * s) by (nonlinear_arith)
            requires
                ek == e * k,
        ;
        assert(s * (yy - xx - 1 - ek) == yy * s - xx * s - s - ek * s) by (nonlinear_arith);
    }
    lemma_eq_trans(s * f, bu * bu - aw * aw - s - e * (ab * ab), 0);
    lemma_nonzero_product(u, w);
    lemma_nonzero_product(uw, uw);
    assert(s * 0 == 0);
    lemma_eq_cancel(s, f, 0);
}

/// Addition is commutative.
pub proof fn lemma_add_comm(a: Affine, b: Affine)
    ensures
        padd(a, b) == padd(b, a),
{
    reveal(padd);
    assert(a.x * b.y == b.y * a.x && a.y * b.x == b.x * a.y && a.x * b.x == b.x * a.x && a.y * b.y
        == b.y * a.y) by (nonlinear_arith);
}

pub proof fn lemma_identity_on_curve()
    ensures
        on_curve(identity()),
{
    lemma_p();
    lemma_eq_refl(0);
    let e = d();
    assert(e * ((0int * 0int) * (1int * 1int)) == 0) by (nonlinear_arith);
}

/// The identity is neutral.
pub proof fn lemma_add_identity(a: Affine)
    requires
        on_curve(a),
    ensures
        padd(a, identity()) == a,
        padd(identity(), a) == a,
{
    lemma_identity_on_curve();
    let o = identity();
    let t = add_t(a, o);
    assert(t == 0) by {
        assert(a.x * 0 == 0);
        assert(d() * ((a.x * 0) * (a.y * 1)) == 0) by (nonlinear_arith);
    }
    lemma_eq_refl(a.x);
    lemma_eq_refl(a.y);
    lemma_add_unique(a, o, a.x, a.y);
    vstd::arithmetic::div_mod::lemma_small_mod(a.x as nat, p() as nat);
    vstd::arithmetic::div_mod::lemma_small_mod(a.y as nat, p() as nat);
    lemma_add_comm(a, o);
}

pub proof fn lemma_neg_on_curve(a: Affine)
    requires
        on_curve(a),
    ensures
        on_curve(neg(a)),
        eq(neg(a).x, -a.x),
        neg(neg(a)) == a,
{
    lemma_reduced(-a.x);
    let n = neg(a).x;
    lemma_eq_ops(n, -a.x, n, -a.x);
    assert((-a.x) * (-a.x) == a.x * a.x) by (nonlinear_arith);
    let e = d();
    let nn = n * n;
    let xx = a.x * a.x;
    let yy = a.y * a.y;
    assert(yy - nn - 1 - e * (nn * yy) - 0 == (-1 - e * yy) * (nn - xx) + 1 * ((yy - xx - 1 - e * (xx
        * yy)) - 0)) by {
        let ey = e * yy;
        assert(e * (nn * yy) == ey * nn && e * (xx * yy) == ey * xx) by (nonlinear_arith)
            requires
                ey == e * yy,
        ;
        assert((-1 - ey) * (nn - xx) == -nn + xx - ey * nn + ey * xx) by (nonlinear_arith);
    }
    lemma_comb2(
        yy - nn - 1 - e * (nn * yy),
        0,
        -1 - e * yy,
        nn,
        xx,
        1,
        yy - xx - 1 - e * (xx * yy),
        0,
    );
    // double negation
    lemma_reduced(-n);
    lemma_comb1(-n, a.x, -1, n, -a.x);
    lemma_eq_trans((-n) % p(), -n, a.x);
    lemma_eq_small((-n) % p(), a.x);
}

/// A point and its inverse add up to the identity.
pub proof fn lemma_add_neg(a: Affine)
    requires
        on_curve(a),
    ensures
        padd(a, neg(a)) == identity(),
        padd(neg(a), a) == identity(),
{
    lemma_neg_on_curve(a);
    lemma_p();
    let b = neg(a);
    let t = add_t(a, b);
    let e = d();
    let xx = a.x * a.x;
    let yy = a.y * a.y;
    // nx == x y + y b.x == 0
    let na = nx(a.x, a.y, b.x, b.y);
    assert(na == a.y * (b.x + a.x)) by (nonlinear_arith)
        requires
            na == a.x * a.y + a.y * b.x,
    ;
    lemma_comb1(b.x + a.x, 0, 1, b.x, -a.x);
    let sx = b.x + a.x;
    assert(0 * (1 + t) - na == (-a.y) * (sx - 0)) by (nonlinear_arith)
        requires
            na == a.y * sx,
    ;
    lemma_comb1(0 * (1 + t), na, -a.y, sx, 0);
    // 1 - t == 1 + d x^2 y^2 == y^2 - x^2 == ny
    let nb = ny(a.x, a.y, b.x, b.y);
    lemma_eq_refl(a.x);
    lemma_eq_ops(a.x, a.x, b.x, -a.x);
    let xb = a.x * b.x;
    assert(a.x * (-a.x) == -xx) by (nonlinear_arith)
        requires
            xx == a.x * a.x,
    ;
    let ey = e * yy;
    assert(t == ey * xb) by (nonlinear_arith)
        requires
            t == e * (xb * yy),
            ey == e * yy,
    ;
    let f = yy - xx - 1 - e * (xx * yy);
    assert(e * (xx * yy) == ey * xx) by (nonlinear_arith)
        requires
            ey == e * yy,
    ;
    assert(1 * (1 - t) - nb == (-ey - 1) * (xb - (-xx)) + (-1) * (f - 0)) by {
        assert((-ey - 1) * (xb + xx) == -(ey * xb) - ey * xx - xb - xx) by (nonlinear_arith);
    }
    lemma_comb2(1 * (1 - t), nb, -ey - 1, xb, -xx, -1, f, 0);
    lemma_add_unique(a, b, 0, 1);
    vstd::arithmetic::div_mod::lemma_small_mod(0, p() as nat);
    vstd::arithmetic::div_mod::lemma_small_mod(1, p() as nat);
    lemma_add_comm(a, b);
}

/// With the denominators of an inner sum cleared, the coordinates of an outer
/// sum are quotients of the numerators and denominators that the identities
/// speak of.
proof fn lemma_outer(a: Affine, b: Affine, c: Affine)
    requires
        on_curve(a),
        on_curve(b),
        on_curve(c),
    ensures
        ({
            let n = nx(a.x, a.y, b.x, b.y);
            let m = ny(a.x, a.y, b.x, b.y);
            let t = add_t(a, b);
            let r = padd(padd(a, b), c);
            let k = d() * ((n * m) * (c.x * c.y));
            let w = (1 + t) * (1 - t);
            &&& eq(r.x * (w + k), (n * (1 - t)) * c.y + (m * (1 + t)) * c.x)
            &&& eq(r.y * (w - k), (m * (1 + t)) * c.y + (n * (1 - t)) * c.x)
            &&& !eq(w + k, 0)
            &&& !eq(w - k, 0)
        }),
{
    let n = nx(a.x, a.y, b.x, b.y);
    let m = ny(a.x, a.y, b.x, b.y);
    let t = add_t(a, b);
    let s = padd(a, b);
    lemma_add(a, b);
    lemma_add_on_curve(a, b);
    lemma_complete(a, b);
    lemma_add(s, c);
    lemma_complete(s, c);
    let r = padd(s, c);
    let u = 1 + t;
    let v = 1 - t;
    let w = u * v;
    let k = d() * ((n * m) * (c.x * c.y));
    let h = add_t(s, c);
    // w h == k
    let cxy = c.x * c.y;
    lemma_swap(s.x, c.x, s.y, c.y);
    let sxy = s.x * s.y;
    assert(h == d() * (sxy * cxy));
    lemma_eq_ops(s.x * u, n, s.y * v, m);
    lemma_swap(s.x, u, s.y, v);
    lemma_eq_refl(cxy);
    lemma_eq_ops(sxy * w, n * m, cxy, cxy);
    lemma_eq_refl(d());
    lemma_eq_ops(d(), d(), (sxy * w) * cxy, (n * m) * cxy);
    assert(w * h == d() * ((sxy * w) * cxy)) by {
        let e = d();
        let g = sxy * cxy;
        assert((sxy * w) * cxy == g * w) by (nonlinear_arith)
            requires
                g == sxy * cxy,
        ;
        assert(w * (e * g) == e * (g * w)) by (nonlinear_arith);
    }
    assert(eq(w * h, k));
    lemma_eq_refl(w);
    lemma_eq_ops(w, w, w * h, k);
    assert(w * (1 + h) == w + w * h && w * (1 - h) == w - w * h) by (nonlinear_arith);
    lemma_nonzero_product(u, v);
    lemma_nonzero_product(w, 1 + h);
    lemma_nonzero_product(w, 1 - h);
    if eq(w + k, 0) {
        lemma_eq_trans(w * (1 + h), w + k, 0);
    }
    if eq(w - k, 0) {
        lemma_eq_trans(w * (1 - h), w - k, 0);
    }
    // numerators
    let nn = nx(s.x, s.y, c.x, c.y);
    let mm = ny(s.x, s.y, c.x, c.y);
    lemma_eq_refl(u);
    lemma_eq_refl(v);
    lemma_eq_ops(s.x * u, n, v, v);
    lemma_eq_ops(s.y * v, m, u, u);
    assert((s.x * u) * v == s.x * w && (s.y * v) * u == s.y * w) by (nonlinear_arith)
        requires
            w == u * v,
    ;
    let nv = n * v;
    let mu = m * u;
    lemma_eq_refl(c.x);
    lemma_eq_refl(c.y);
    lemma_eq_ops(s.x * w, nv, c.y, c.y);
    lemma_eq_ops(s.y * w, mu, c.x, c.x);
    lemma_eq_ops((s.x * w) * c.y, nv * c.y, (s.y * w) * c.x, mu * c.x);
    lemma_eq_ops(s.y * w, mu, c.y, c.y);
    lemma_eq_ops(s.x * w, nv, c.x, c.x);
    lemma_eq_ops((s.y * w) * c.y, mu * c.y, (s.x * w) * c.x, nv * c.x);
    let (p1, p2, p3, p4) = (s.x * c.y, s.y * c.x, s.y * c.y, s.x * c.x);
    assert(w * p1 == (s.x * w) * c.y && w * p2 == (s.y * w) * c.x && w * p3 == (s.y * w) * c.y && w
        * p4 == (s.x * w) * c.x) by (nonlinear_arith)
        requires
            p1 == s.x * c.y,
            p2 == s.y * c.x,
            p3 == s.y * c.y,
            p4 == s.x * c.x,
    ;
    assert(w * (p1 + p2) == w * p1 + w * p2 && w * (p3 + p4) == w * p3 + w * p4) by (nonlinear_arith);
    assert(eq(w * nn, nv * c.y + mu * c.x));
    assert(eq(w * mm, mu * c.y + nv * c.x));
    // r.x (w + k) == r.x w (1 + h) == w nn
    lemma_eq_refl(r.x);
    lemma_eq_sym(w * (1 + h), w + k);
    lemma_eq_ops(r.x, r.x, w + k, w * (1 + h));
    lemma_eq_ops(w, w, r.x * (1 + h), nn);
    let h1 = 1 + h;
    let h2 = 1 - h;
    assert(r.x * (w * h1) == w * (r.x * h1)) by (nonlinear_arith);
    lemma_eq_trans(r.x * (w + k), w * (r.x * h1), w * nn);
    lemma_eq_trans(r.x * (w + k), w * nn, nv * c.y + mu * c.x);
    lemma_eq_refl(r.y);
    lemma_eq_sym(w * (1 - h), w - k);
    lemma_eq_ops(r.y, r.y, w - k, w * (1 - h));
    lemma_eq_ops(w, w, r.y * (1 - h), mm);
    assert(r.y * (w * h2) == w * (r.y * h2)) by (nonlinear_arith);
    lemma_eq_trans(r.y * (w - k), w * (r.y * h2), w * mm);
    lemma_eq_trans(r.y * (w - k), w * mm, mu * c.y + nv * c.x);
}

/// Quotients with equal cross products are equal.
proof fn lemma_cross(l: int, r: int, ln: int, ld: int, rn: int, rd: int)
    requires
        0 <= l < p(),
        0 <= r < p(),
        eq(l * ld, ln),
        eq(r * rd, rn),
        !eq(ld, 0),
        !eq(rd, 0),
        eq(ln * rd, rn * ld),
    ensures
        l == r,
{
    lemma_eq_refl(rd);
    lemma_eq_refl(ld);
    lemma_eq_ops(l * ld, ln, rd, rd);
    lemma_eq_ops(r * rd, rn, ld, ld);
    let m = ld * rd;
    assert((l * ld) * rd == m * l && (r * rd) * ld == m * r) by (nonlinear_arith)
        requires
            m == ld * rd,
    ;
    lemma_eq_trans(m * l, ln * rd, rn * ld);
    lemma_eq_sym(m * r, rn * ld);
    lemma_eq_trans(m * l, rn * ld, m * r);
    lemma_nonzero_product(ld, rd);
    lemma_eq_cancel(m, l, r);
    lemma_eq_small(l, r);
}

/// Addition is associative.
pub proof fn lemma_add_assoc(a: Affine, b: Affine, c: Affine)
    requires
        on_curve(a),
        on_curve(b),
        on_curve(c),
    ensures
        padd(padd(a, b), c) == padd(a, padd(b, c)),
{
    let v = Vars { a: a.x, b: a.y, c: b.x, d: b.y, e: c.x, f: c.y, g: d() };
    lemma_curves(v);
    lemma_left(v);
    lemma_right(v);
    lemma_x_cross(v);
    lemma_y_cross(v);
    lemma_outer(a, b, c);
    lemma_outer(b, c, a);
    lemma_add_on_curve(a, b);
    lemma_add_on_curve(b, c);
    let l = padd(padd(a, b), c);
    let r = padd(padd(b, c), a);
    lemma_add(padd(a, b), c);
    lemma_add(padd(b, c), a);
    lemma_cross(
        l.x,
        r.x,
        val(v, left_x()),
        val(v, left_xd()),
        val(v, right_x()),
        val(v, right_xd()),
    );
    lemma_cross(
        l.y,
        r.y,
        val(v, left_y()),
        val(v, left_yd()),
        val(v, right_y()),
        val(v, right_yd()),
    );
    lemma_add_comm(padd(b, c), a);
}

/// The inverse is the only point that adds up to the identity.
pub proof fn lemma_neg_unique(a: Affine, b: Affine)
    requires
        on_curve(a),
        on_curve(b),
        padd(a, b) == identity(),
    ensures
        a == neg(b),
{
    lemma_neg_on_curve(b);
    lemma_add_assoc(a, b, neg(b));
    lemma_add_neg(b);
    lemma_add_identity(a);
    lemma_add_identity(neg(b));
}

/// The middle two of four summands change places.
pub proof fn lemma_add_shuffle(a: Affine, b: Affine, c: Affine, e: Affine)
    requires
        on_curve(a),
        on_curve(b),
        on_curve(c),
        on_curve(e),
    ensures
        padd(padd(a, b), padd(c, e)) == padd(padd(a, c), padd(b, e)),
{
    lemma_add_on_curve(a, b);
    lemma_add_on_curve(a, c);
    lemma_add_on_curve(b, e);
    lemma_add_on_curve(c, e);
    lemma_add_assoc(a, b, padd(c, e));
    lemma_add_assoc(b, c, e);
    lemma_add_comm(b, c);
    lemma_add_assoc(c, b, e);
    lemma_add_assoc(a, c, padd(b, e));
}

pub proof fn lemma_smul_on_curve(n: int, a: Affine)
    requires
        on_curve(a),
    ensures
        on_curve(smul(n, a)),
    decreases (if n >= 0 { n } else { -n }),
{
    reveal_with_fuel(smul, 2);
    if n == 0 {
        lemma_identity_on_curve();
    } else if n > 0 {
        lemma_smul_on_curve(n - 1, a);
        lemma_add_on_curve(smul(n - 1, a), a);
    } else {
        lemma_smul_on_curve(n + 1, a);
        lemma_neg_on_curve(a);
        lemma_add_on_curve(smul(n + 1, a), neg(a));
    }
}

/// The small multiples.
pub proof fn lemma_smul_small(a: Affine)
    requires
        on_curve(a),
    ensures
        smul(0, a) == identity(),
        smul(1, a) == a,
        smul(2, a) == padd(a, a),
        smul(-1, a) == neg(a),
{
    reveal_with_fuel(smul, 3);
    lemma_neg_on_curve(a);
    lemma_add_identity(a);
    lemma_add_identity(neg(a));
}

/// One more copy.
pub proof fn lemma_smul_step(n: int, a: Affine)
    requires
        on_curve(a),
    ensures
        smul(n + 1, a) == padd(smul(n, a), a),
{
    reveal_with_fuel(smul, 2);
    if n < 0 {
        let b = smul(n + 1, a);
        lemma_smul_on_curve(n + 1, a);
        lemma_neg_on_curve(a);
        lemma_add_assoc(b, neg(a), a);
        lemma_add_neg(a);
        lemma_add_identity(b);
    }
}

/// Multiples add up: `[m + n] a == [m] a + [n] a`.
pub proof fn lemma_smul_add(m: int, n: int, a: Affine)
    requires
        on_curve(a),
    ensures
        smul(m + n, a) == padd(smul(m, a), smul(n, a)),
    decreases (if n >= 0 { n } else { -n }),
{
    lemma_smul_on_curve(m, a);
    lemma_smul_on_curve(n, a);
    lemma_smul_small(a);
    if n == 0 {
        lemma_add_identity(smul(m, a));
    } else if n > 0 {
        lemma_smul_add(m, n - 1, a);
        lemma_smul_step(m + n - 1, a);
        lemma_smul_step(n - 1, a);
        lemma_smul_on_curve(n - 1, a);
        lemma_add_assoc(smul(m, a), smul(n - 1, a), a);
    } else {
        lemma_smul_add(m, n + 1, a);
        lemma_smul_step(n, a);
        lemma_smul_step(m + n, a);
        lemma_smul_on_curve(m + n, a);
        // [m + n] a + a == ([m] a + [n] a) + a
        lemma_add_assoc(smul(m, a), smul(n, a), a);
        lemma_add_on_curve(smul(m, a), smul(n, a));
        lemma_add_right_cancel(smul(m + n, a), padd(smul(m, a), smul(n, a)), a);
    }
}

/// A summand cancels.
pub proof fn lemma_add_right_cancel(a: Affine, b: Affine, c: Affine)
    requires
        on_curve(a),
        on_curve(b),
        on_curve(c),
        padd(a, c) == padd(b, c),
    ensures
        a == b,
{
    lemma_neg_on_curve(c);
    lemma_add_assoc(a, c, neg(c));
    lemma_add_assoc(b, c, neg(c));
    lemma_add_neg(c);
    lemma_add_identity(a);
    lemma_add_identity(b);
}

/// A multiple of the negated count is the inverse of the multiple.
pub proof fn lemma_smul_neg(n: int, a: Affine)
    requires
        on_curve(a),
    ensures
        smul(-n, a) == neg(smul(n, a)),
{
    lemma_smul_on_curve(n, a);
    lemma_smul_on_curve(-n, a);
    lemma_smul_add(-n, n, a);
    lemma_smul_small(a);
    lemma_neg_unique(smul(-n, a), smul(n, a));
}

/// Multiples of multiples: `[m n] a == [m] ([n] a)`.
pub proof fn lemma_smul_mul(m: int, n: int, a: Affine)
    requires
        on_curve(a),
    ensures
        smul(m * n, a) == smul(m, smul(n, a)),
    decreases (if m >= 0 { m } else { -m }),
{
    let b = smul(n, a);
    lemma_smul_on_curve(n, a);
    lemma_smul_small(b);
    lemma_smul_small(a);
    if m == 0 {
        assert(0 * n == 0) by (nonlinear_arith);
    } else if m > 0 {
        lemma_smul_mul(m - 1, n, a);
        lemma_smul_step(m - 1, b);
        assert(m * n == (m - 1) * n + n) by (nonlinear_arith);
        lemma_smul_add((m - 1) * n, n, a);
    } else {
        lemma_smul_mul(m + 1, n, a);
        lemma_smul_step(m, b);
        assert((m + 1) * n == m * n + n) by (nonlinear_arith);
        lemma_smul_add(m * n, n, a);
        lemma_smul_on_curve(m * n, a);
        lemma_smul_on_curve(m, b);
        lemma_add_right_cancel(smul(m * n, a), smul(m, b), b);
    }
}

/// A multiple of a sum: `[n] (a + b) == [n] a + [n] b`.
pub proof fn lemma_smul_of_add(n: int, a: Affine, b: Affine)
    requires
        on_curve(a),
        on_curve(b),
    ensures
        smul(n, padd(a, b)) == padd(smul(n, a), smul(n, b)),
    decreases (if n >= 0 { n } else { -n }),
{
    let c = padd(a, b);
    lemma_add_on_curve(a, b);
    lemma_smul_small(a);
    lemma_smul_small(b);
    lemma_smul_small(c);
    lemma_smul_on_curve(n, a);
    lemma_smul_on_curve(n, b);
    lemma_smul_on_curve(n, c);
    if n == 0 {
        lemma_identity_on_curve();
        lemma_add_identity(identity());
    } else if n > 0 {
        lemma_smul_of_add(n - 1, a, b);
        lemma_smul_step(n - 1, a);
        lemma_smul_step(n - 1, b);
        lemma_smul_step(n - 1, c);
        lemma_smul_on_curve(n - 1, a);
        lemma_smul_on_curve(n - 1, b);
        lemma_add_shuffle(smul(n - 1, a), smul(n - 1, b), a, b);
    } else {
        lemma_smul_of_add(n + 1, a, b);
        lemma_smul_step(n, a);
        lemma_smul_step(n, b);
        lemma_smul_step(n, c);
        lemma_add_shuffle(smul(n, a), smul(n, b), a, b);
        lemma_add_on_curve(smul(n, a), smul(n, b));
        lemma_add_right_cancel(smul(n, c), padd(smul(n, a), smul(n, b)), c);
    }
}

} // verus!
