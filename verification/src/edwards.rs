//! Points of the curve in extended coordinates, and their encodings.
use crate::bytes::{le256, lemma_le_bounds};
use crate::field::{is_root, Fe51};
use crate::math::congruence::lemma_eqm_intro;
use crate::math::curve::{
    add_t, curve_eq, identity, lemma_add, lemma_add_on_curve, lemma_complete,
    lemma_identity_on_curve, lemma_neg_on_curve, lemma_smul_add, lemma_smul_small, neg, on_curve,
    padd, smul, Affine,
};
use crate::math::gf;
use crate::math::gf::{
    eq, finv, lemma_comb1, lemma_comb2, lemma_comb3, lemma_constants, lemma_d_not_square,
    lemma_eq_cancel, lemma_eq_mod, lemma_eq_ops, lemma_eq_refl, lemma_eq_small, lemma_eq_sym,
    lemma_eq_trans, lemma_finv, lemma_nonzero_product, lemma_p, lemma_reduced, lemma_swap, p,
    sqrt_m1,
};
use crate::math::identities::{nx, ny};
use vstd::arithmetic::power2::{lemma2_to64, lemma_pow2_adds, lemma_pow2_unfold, pow2};
use vstd::prelude::*;

verus! {

/// Length of an encoded point.
pub const POINT_ENCODING_LEN: usize = 32;

/// The coordinate `Z` of a doubled point: `(G - 2 Z^2) G` with `G = Y^2 - X^2`.
pub open spec fn doubled_z(x: int, y: int, z: int) -> int {
    (y * y - x * x - 2 * (z * z)) * (y * y - x * x)
}

/// A point in extended coordinates: `x = X/Z`, `y = Y/Z`, `x y = T/Z`.
#[derive(Clone, Copy, Debug)]
pub struct EdwardsPoint {
    x: Fe51,
    y: Fe51,
    z: Fe51,
    t: Fe51,
}

/// Whether `(x : y : z : t)` are extended coordinates of a point.
pub open spec fn extended(x: int, y: int, z: int, t: int, a: Affine) -> bool {
    &&& on_curve(a)
    &&& !eq(z, 0)
    &&& eq(x, a.x * z)
    &&& eq(y, a.y * z)
    &&& eq(t, (a.x * a.y) * z)
}

/// The only point that has given extended coordinates.
pub open spec fn projected(x: int, y: int, z: int) -> Affine {
    Affine { x: (x * finv(z)) % p(), y: (y * finv(z)) % p() }
}

/// A quotient is what gives the dividend back.
pub proof fn lemma_divided(x: int, z: int, q: int)
    requires
        !eq(z, 0),
        0 <= q < p(),
        eq(x, q * z),
    ensures
        (x * finv(z)) % p() == q,
{
    let w = finv(z);
    lemma_finv(z);
    lemma_eq_refl(w);
    lemma_eq_refl(q);
    lemma_eq_ops(x, q * z, w, w);
    lemma_eq_ops(q, q, z * w, 1);
    assert((q * z) * w == q * (z * w)) by (nonlinear_arith);
    lemma_eq_trans(x * w, q * (z * w), q);
    lemma_reduced(x * w);
    lemma_eq_trans((x * w) % p(), x * w, q);
    lemma_eq_small((x * w) % p(), q);
}

/// Extended coordinates determine their point.
pub proof fn lemma_projected(x: int, y: int, z: int, t: int, a: Affine)
    requires
        extended(x, y, z, t, a),
    ensures
        projected(x, y, z) == a,
{
    lemma_divided(x, z, a.x);
    lemma_divided(y, z, a.y);
}

/// The sum of two points from the four intermediate values of the addition
/// formulas.
pub proof fn lemma_completed(a: Affine, b: Affine, m: int, n: int, e: int, f: int, g: int, h: int)
    requires
        on_curve(a),
        on_curve(b),
        !eq(m, 0),
        !eq(n, 0),
        eq(e, m * nx(a.x, a.y, b.x, b.y)),
        eq(f, n * (1 - add_t(a, b))),
        eq(g, m * (1 + add_t(a, b))),
        eq(h, n * ny(a.x, a.y, b.x, b.y)),
    ensures
        extended(e * f, g * h, f * g, e * h, padd(a, b)),
{
    lemma_add(a, b);
    lemma_add_on_curve(a, b);
    lemma_complete(a, b);
    let r = padd(a, b);
    let u = 1 + add_t(a, b);
    let v = 1 - add_t(a, b);
    let na = nx(a.x, a.y, b.x, b.y);
    let nb = ny(a.x, a.y, b.x, b.y);
    lemma_nonzero_product(m, u);
    lemma_nonzero_product(n, v);
    lemma_zero_of(g, m * u);
    lemma_zero_of(f, n * v);
    lemma_nonzero_product(f, g);
    // e == r.x g
    lemma_scaled(e, m, na, r.x, u, g);
    // h == r.y f
    lemma_scaled(h, n, nb, r.y, v, f);
    lemma_eq_refl(f);
    lemma_eq_refl(g);
    lemma_eq_ops(e, r.x * g, f, f);
    lemma_eq_ops(g, g, h, r.y * f);
    lemma_eq_ops(e, r.x * g, h, r.y * f);
    assert((r.x * g) * f == r.x * (f * g)) by (nonlinear_arith);
    assert(g * (r.y * f) == r.y * (f * g)) by (nonlinear_arith);
    lemma_swap(r.x, g, r.y, f);
    assert(g * f == f * g) by (nonlinear_arith);
}

pub proof fn lemma_zero_of(a: int, b: int)
    requires
        eq(a, b),
        !eq(b, 0),
    ensures
        !eq(a, 0),
{
    if eq(a, 0) {
        lemma_eq_sym(a, b);
        lemma_eq_trans(b, a, 0);
    }
}

/// From `e == m n`, `q u == n` and `g == m u`: `e == q g`.
proof fn lemma_scaled(e: int, m: int, n: int, q: int, u: int, g: int)
    requires
        eq(e, m * n),
        eq(q * u, n),
        eq(g, m * u),
    ensures
        eq(e, q * g),
{
    lemma_eq_refl(m);
    lemma_eq_refl(q);
    lemma_eq_ops(m, m, q * u, n);
    lemma_eq_ops(q, q, g, m * u);
    assert(m * (q * u) == q * (m * u)) by (nonlinear_arith);
    lemma_eq_sym(q * g, m * (q * u));
    lemma_eq_sym(m * (q * u), m * n);
    lemma_eq_trans(e, m * n, m * (q * u));
    lemma_eq_trans(e, m * (q * u), q * g);
}

/// The four intermediate values of the addition formulas, for coordinates that
/// are scaled by `s` in all.
pub proof fn lemma_addition(a: Affine, b: Affine, s: int, aa: int, bb: int, cc: int, dd: int)
    requires
        on_curve(a),
        on_curve(b),
        !eq(s, 0),
        eq(aa, ((a.y - a.x) * (b.y - b.x)) * s),
        eq(bb, ((a.y + a.x) * (b.y + b.x)) * s),
        eq(cc, add_t(a, b) * (2 * s)),
        eq(dd, 2 * s),
    ensures
        !eq(2 * s, 0),
        eq(bb - aa, (2 * s) * nx(a.x, a.y, b.x, b.y)),
        eq(dd - cc, (2 * s) * (1 - add_t(a, b))),
        eq(dd + cc, (2 * s) * (1 + add_t(a, b))),
        eq(bb + aa, (2 * s) * ny(a.x, a.y, b.x, b.y)),
{
    lemma_constants();
    lemma_nonzero_product(2, s);
    let t = add_t(a, b);
    let q1 = (a.y - a.x) * (b.y - b.x);
    let q2 = (a.y + a.x) * (b.y + b.x);
    let na = nx(a.x, a.y, b.x, b.y);
    let nb = ny(a.x, a.y, b.x, b.y);
    let (x1, y1, x2, y2) = (a.x, a.y, b.x, b.y);
    assert(q1 == y1 * y2 - y1 * x2 - x1 * y2 + x1 * x2) by (nonlinear_arith)
        requires
            q1 == (y1 - x1) * (y2 - x2),
    ;
    assert(q2 == y1 * y2 + y1 * x2 + x1 * y2 + x1 * x2) by (nonlinear_arith)
        requires
            q2 == (y1 + x1) * (y2 + x2),
    ;
    assert(q2 - q1 == 2 * na && q2 + q1 == 2 * nb);
    lemma_eq_ops(bb, q2 * s, aa, q1 * s);
    assert(q2 * s - q1 * s == (2 * s) * na) by (nonlinear_arith)
        requires
            q2 - q1 == 2 * na,
    ;
    assert(q2 * s + q1 * s == (2 * s) * nb) by (nonlinear_arith)
        requires
            q2 + q1 == 2 * nb,
    ;
    let k = 2 * s;
    lemma_eq_ops(dd, k, cc, t * k);
    assert(k - t * k == k * (1 - t) && k + t * k == k * (1 + t)) by (nonlinear_arith);
}

impl EdwardsPoint {
    pub closed spec fn xv(self) -> int {
        self.x.val()
    }

    pub closed spec fn yv(self) -> int {
        self.y.val()
    }

    pub closed spec fn zv(self) -> int {
        self.z.val()
    }

    pub closed spec fn tv(self) -> int {
        self.t.val()
    }

    pub closed spec fn limbs_wf(self) -> bool {
        self.x.wf() && self.y.wf() && self.z.wf() && self.t.wf()
    }

    /// The point that the coordinates stand for.
    pub open spec fn affine(self) -> Affine {
        projected(self.xv(), self.yv(), self.zv())
    }

    /// The coordinates stand for a point of the curve.
    pub open spec fn wf(self) -> bool {
        self.limbs_wf() && extended(self.xv(), self.yv(), self.zv(), self.tv(), self.affine())
    }

    /// The coordinates are those of another with the opposite `X` and `T`.
    pub open spec fn negates(self, other: EdwardsPoint) -> bool {
        &&& eq(self.xv(), -other.xv())
        &&& self.yv() == other.yv()
        &&& self.zv() == other.zv()
        &&& eq(self.tv(), -other.tv())
    }

    /// The coordinates are the products that end the addition formulas.
    pub open spec fn completes(self, e: int, f: int, g: int, h: int) -> bool {
        &&& eq(self.xv(), e * f)
        &&& eq(self.yv(), g * h)
        &&& eq(self.zv(), f * g)
        &&& eq(self.tv(), e * h)
    }

    /// The coordinates are those of a sum: `a` and `b` are the products of the
    /// `Y - X` and of the `Y + X` of the summands, `c` and `d` those of the `T`
    /// and of the `Z`, times `2 d` and `2`.
    pub open spec fn adds(self, a: int, b: int, c: int, d: int) -> bool {
        self.completes(b - a, d - c, d + c, b + a)
    }

    /// The coordinates are those of the sum of two points.
    pub open spec fn sums(self, first: EdwardsPoint, second: EdwardsPoint) -> bool {
        self.adds(
            (first.yv() - first.xv()) * (second.yv() - second.xv()),
            (first.yv() + first.xv()) * (second.yv() + second.xv()),
            (2 * gf::d()) * (first.tv() * second.tv()),
            2 * (first.zv() * second.zv()),
        )
    }

    /// The coordinates are those of a doubled point.
    pub open spec fn doubles(self, point: EdwardsPoint) -> bool {
        let (x, y, z) = (point.xv(), point.yv(), point.zv());
        self.completes(
            (x + y) * (x + y) - x * x - y * y,
            y * y - x * x - 2 * (z * z),
            y * y - x * x,
            -(x * x) - y * y,
        )
    }

    /// The products depend only on the field values of their factors.
    pub proof fn lemma_completes(
        self,
        e: int,
        f: int,
        g: int,
        h: int,
        e2: int,
        f2: int,
        g2: int,
        h2: int,
    )
        requires
            self.completes(e, f, g, h),
            eq(e, e2),
            eq(f, f2),
            eq(g, g2),
            eq(h, h2),
        ensures
            self.completes(e2, f2, g2, h2),
    {
        lemma_eq_ops(e, e2, f, f2);
        lemma_eq_ops(g, g2, h, h2);
        lemma_eq_ops(f, f2, g, g2);
        lemma_eq_ops(e, e2, h, h2);
        lemma_eq_trans(self.xv(), e * f, e2 * f2);
        lemma_eq_trans(self.yv(), g * h, g2 * h2);
        lemma_eq_trans(self.zv(), f * g, f2 * g2);
        lemma_eq_trans(self.tv(), e * h, e2 * h2);
    }

    /// The sum depends only on the field values of the four products.
    pub proof fn lemma_adds(
        self,
        a: int,
        b: int,
        c: int,
        d: int,
        a2: int,
        b2: int,
        c2: int,
        d2: int,
    )
        requires
            self.adds(a, b, c, d),
            eq(a, a2),
            eq(b, b2),
            eq(c, c2),
            eq(d, d2),
        ensures
            self.adds(a2, b2, c2, d2),
    {
        lemma_eq_ops(b, b2, a, a2);
        lemma_eq_ops(d, d2, c, c2);
        self.lemma_completes(
            b - a,
            d - c,
            d + c,
            b + a,
            b2 - a2,
            d2 - c2,
            d2 + c2,
            b2 + a2,
        );
    }

    /// The last step of the addition formulas.
    pub(crate) fn complete(e: &Fe51, f: &Fe51, g: &Fe51, h: &Fe51, Ghost(a): Ghost<Affine>) -> (r: Self)
        requires
            e.wf(),
            f.wf(),
            g.wf(),
            h.wf(),
        ensures
            r.limbs_wf(),
            r.completes(e.val(), f.val(), g.val(), h.val()),
            extended(
                e.val() * f.val(),
                g.val() * h.val(),
                f.val() * g.val(),
                e.val() * h.val(),
                a,
            ) ==> r.wf() && r.affine() == a,
    {
        let r = EdwardsPoint {
            x: e.multiply(f),
            y: g.multiply(h),
            t: e.multiply(h),
            z: f.multiply(g),
        };
        proof {
            if extended(
                e.val() * f.val(),
                g.val() * h.val(),
                f.val() * g.val(),
                e.val() * h.val(),
                a,
            ) {
                lemma_extended_eq(
                    e.val() * f.val(),
                    g.val() * h.val(),
                    f.val() * g.val(),
                    e.val() * h.val(),
                    r.xv(),
                    r.yv(),
                    r.zv(),
                    r.tv(),
                    a,
                );
                lemma_projected(r.xv(), r.yv(), r.zv(), r.tv(), a);
            }
        }
        r
    }

    /// The identity, with the coordinates `(0 : 1 : 1 : 0)`.
    pub fn identity() -> (r: Self)
        ensures
            r.wf(),
            r.affine() == identity(),
            r.xv() == 0,
            r.yv() == 1,
            r.zv() == 1,
            r.tv() == 0,
    {
        let r = EdwardsPoint { x: Fe51::zero(), y: Fe51::one(), z: Fe51::one(), t: Fe51::zero() };
        proof {
            lemma_identity_on_curve();
            lemma_constants();
            lemma_eq_refl(0);
            lemma_eq_refl(1);
            let o = identity();
            assert(o.x * 1 == 0 && o.y * 1 == 1 && (o.x * o.y) * 1 == 0) by (nonlinear_arith)
                requires
                    o.x == 0,
                    o.y == 1,
            ;
            lemma_projected(0, 1, 1, 0, o);
        }
        r
    }

    /// The sum of two points. The formulas take any coordinates.
    pub fn add(&self, rhs: &Self) -> (r: Self)
        requires
            self.limbs_wf(),
            rhs.limbs_wf(),
        ensures
            r.limbs_wf(),
            r.sums(*self, *rhs),
            self.wf() && rhs.wf() ==> r.wf() && r.affine() == padd(self.affine(), rhs.affine()),
    {
        let a1 = self.y.subtract(&self.x);
        let a2 = rhs.y.subtract(&rhs.x);
        let a = a1.multiply(&a2);
        let b1 = self.y.add(&self.x);
        let b2 = rhs.y.add(&rhs.x);
        let b = b1.multiply(&b2);
        let tt = self.t.multiply(&rhs.t);
        let two_d = Fe51::two_d();
        let c = tt.multiply(&two_d);
        let zz = self.z.multiply(&rhs.z);
        let d = zz.double();
        let e = b.subtract(&a);
        let f = d.subtract(&c);
        let g = d.add(&c);
        let h = b.add(&a);
        let ghost (u, v) = (self.affine(), rhs.affine());
        proof {
            if self.wf() && rhs.wf() {
                let (z1, z2) = (self.zv(), rhs.zv());
                let s = z1 * z2;
                lemma_nonzero_product(z1, z2);
                // a == (y1 - x1) (y2 - x2) s, b == (y1 + x1) (y2 + x2) s
                lemma_linear(self.xv(), self.yv(), z1, u, b1.val(), a1.val());
                lemma_linear(rhs.xv(), rhs.yv(), z2, v, b2.val(), a2.val());
                lemma_scaled_product(a1.val(), u.y - u.x, z1, a2.val(), v.y - v.x, z2, a.val());
                lemma_scaled_product(b1.val(), u.y + u.x, z1, b2.val(), v.y + v.x, z2, b.val());
                // c == t 2 s
                lemma_scaled_product(self.tv(), u.x * u.y, z1, rhs.tv(), v.x * v.y, z2, tt.val());
                lemma_times(
                    tt.val(),
                    ((u.x * u.y) * (v.x * v.y)) * s,
                    two_d.val(),
                    2 * gf::d(),
                    c.val(),
                );
                lemma_swap(u.x, u.y, v.x, v.y);
                let q = (u.x * v.x) * (u.y * v.y);
                let k = gf::d();
                assert((q * s) * (2 * k) == (k * q) * (2 * s)) by (nonlinear_arith);
                // d == 2 s
                lemma_eq_refl(2);
                lemma_eq_ops(2, 2, zz.val(), s);
                lemma_eq_trans(d.val(), 2 * zz.val(), 2 * s);
                lemma_addition(u, v, s, a.val(), b.val(), c.val(), d.val());
                lemma_eq_trans(e.val(), b.val() - a.val(), (2 * s) * nx(u.x, u.y, v.x, v.y));
                lemma_eq_trans(f.val(), d.val() - c.val(), (2 * s) * (1 - add_t(u, v)));
                lemma_eq_trans(g.val(), d.val() + c.val(), (2 * s) * (1 + add_t(u, v)));
                lemma_eq_trans(h.val(), b.val() + a.val(), (2 * s) * ny(u.x, u.y, v.x, v.y));
                lemma_completed(u, v, 2 * s, 2 * s, e.val(), f.val(), g.val(), h.val());
            }
        }
        let r = Self::complete(&e, &f, &g, &h, Ghost(padd(u, v)));
        proof {
            let (k, w) = (2 * gf::d(), self.tv() * rhs.tv());
            let (m1, m2) = (self.yv() - self.xv(), rhs.yv() - rhs.xv());
            let (p1, p2) = (self.yv() + self.xv(), rhs.yv() + rhs.xv());
            let s = self.zv() * rhs.zv();
            lemma_times(a1.val(), m1, a2.val(), m2, a.val());
            lemma_times(b1.val(), p1, b2.val(), p2, b.val());
            lemma_times(tt.val(), w, two_d.val(), k, c.val());
            assert(w * k == k * w) by (nonlinear_arith);
            lemma_comb2(d.val(), 2 * s, 1, d.val(), 2 * zz.val(), 2, zz.val(), s);
            r.lemma_completes(
                e.val(),
                f.val(),
                g.val(),
                h.val(),
                b.val() - a.val(),
                d.val() - c.val(),
                d.val() + c.val(),
                b.val() + a.val(),
            );
            r.lemma_adds(
                a.val(),
                b.val(),
                c.val(),
                d.val(),
                m1 * m2,
                p1 * p2,
                k * w,
                2 * s,
            );
        }
        r
    }

    /// The sum of a point and itself. The formulas take any coordinates.
    pub fn double(&self) -> (r: Self)
        requires
            self.limbs_wf(),
        ensures
            r.limbs_wf(),
            r.doubles(*self),
            self.wf() ==> r.wf() && r.affine() == padd(self.affine(), self.affine()),
    {
        let a = self.x.square();
        let b = self.y.square();
        let zz = self.z.square();
        let c = zz.double();
        let d = a.negate();
        let xy = self.x.add(&self.y);
        let q = xy.square();
        let qa = q.subtract(&a);
        let e = qa.subtract(&b);
        let g = d.add(&b);
        let f = g.subtract(&c);
        let h = d.subtract(&b);
        let ghost u = self.affine();
        proof {
            if self.wf() {
                let z = self.zv();
                lemma_scaled_product(self.xv(), u.x, z, self.xv(), u.x, z, a.val());
                lemma_scaled_product(self.yv(), u.y, z, self.yv(), u.y, z, b.val());
                assert(self.xv() + self.yv() == self.yv() + self.xv());
                let m = self.y.val() - self.x.val();
                lemma_eq_refl(m);
                lemma_linear(self.xv(), self.yv(), z, u, xy.val(), m);
                lemma_scaled_product(xy.val(), u.y + u.x, z, xy.val(), u.y + u.x, z, q.val());
                lemma_doubling(
                    u,
                    z * z,
                    a.val(),
                    b.val(),
                    zz.val(),
                    c.val(),
                    d.val(),
                    q.val(),
                    qa.val(),
                    e.val(),
                    f.val(),
                    g.val(),
                    h.val(),
                );
                lemma_nonzero_product(z, z);
                if eq(-(z * z), 0) {
                    lemma_comb1(z * z, 0, -1, -(z * z), 0);
                }
                lemma_completed(u, u, z * z, -(z * z), e.val(), f.val(), g.val(), h.val());
            }
        }
        let r = Self::complete(&e, &f, &g, &h, Ghost(padd(u, u)));
        proof {
            let (x, y, z) = (self.xv(), self.yv(), self.zv());
            let w = y * y - x * x;
            // d == -x^2, g == y^2 - x^2, h == -x^2 - y^2
            lemma_comb2(d.val(), -(x * x), 1, d.val(), -a.val(), -1, a.val(), x * x);
            lemma_eq_ops(d.val(), -(x * x), b.val(), y * y);
            lemma_eq_trans(g.val(), d.val() + b.val(), w);
            lemma_eq_trans(h.val(), d.val() - b.val(), -(x * x) - y * y);
            // f == g - 2 z^2
            lemma_comb2(c.val(), 2 * (z * z), 1, c.val(), 2 * zz.val(), 2, zz.val(), z * z);
            lemma_eq_ops(g.val(), w, c.val(), 2 * (z * z));
            lemma_eq_trans(f.val(), g.val() - c.val(), w - 2 * (z * z));
            // e == (x + y)^2 - x^2 - y^2
            lemma_times(xy.val(), x + y, xy.val(), x + y, q.val());
            lemma_eq_ops(q.val(), (x + y) * (x + y), a.val(), x * x);
            lemma_eq_trans(qa.val(), q.val() - a.val(), (x + y) * (x + y) - x * x);
            lemma_eq_ops(qa.val(), (x + y) * (x + y) - x * x, b.val(), y * y);
            lemma_eq_trans(e.val(), qa.val() - b.val(), (x + y) * (x + y) - x * x - y * y);
            r.lemma_completes(
                e.val(),
                f.val(),
                g.val(),
                h.val(),
                (x + y) * (x + y) - x * x - y * y,
                w - 2 * (z * z),
                w,
                -(x * x) - y * y,
            );
        }
        r
    }

    /// The coordinates `X`, `Y`, `Z` and `T`.
    pub fn coords(&self) -> (r: (&Fe51, &Fe51, &Fe51, &Fe51))
        ensures
            r.0.val() == self.xv(),
            r.1.val() == self.yv(),
            r.2.val() == self.zv(),
            r.3.val() == self.tv(),
            self.limbs_wf() ==> r.0.wf() && r.1.wf() && r.2.wf() && r.3.wf(),
    {
        (&self.x, &self.y, &self.z, &self.t)
    }

    /// A point with given coordinates, whether or not they belong together.
    pub fn from_coords_unchecked(x: Fe51, y: Fe51, z: Fe51, t: Fe51) -> (r: Self)
        ensures
            r.xv() == x.val(),
            r.yv() == y.val(),
            r.zv() == z.val(),
            r.tv() == t.val(),
            r.limbs_wf() == (x.wf() && y.wf() && z.wf() && t.wf()),
    {
        EdwardsPoint { x, y, z, t }
    }

    /// The inverse of a point. Any coordinates are negated.
    pub fn negate(&self) -> (r: Self)
        requires
            self.limbs_wf(),
        ensures
            r.limbs_wf(),
            r.negates(*self),
            self.wf() ==> r.wf() && r.affine() == neg(self.affine()),
    {
        let r = EdwardsPoint { x: self.x.negate(), y: self.y, z: self.z, t: self.t.negate() };
        proof {
            if self.wf() {
                let a = self.affine();
                let b = neg(a);
                lemma_neg_on_curve(a);
                let z = self.zv();
                lemma_negated(r.xv(), self.xv(), a.x, z, b.x);
                lemma_eq_refl(a.y);
                lemma_eq_ops(b.x, -a.x, a.y, a.y);
                let (ax, ay) = (a.x, a.y);
                assert((-ax) * ay == -(ax * ay)) by (nonlinear_arith);
                lemma_negated(r.tv(), self.tv(), a.x * a.y, z, b.x * b.y);
                lemma_projected(r.xv(), r.yv(), r.zv(), r.tv(), b);
            }
        }
        r
    }

    /// The difference of two points. The formulas take any coordinates.
    pub fn subtract(&self, rhs: &Self) -> (r: Self)
        requires
            self.limbs_wf(),
            rhs.limbs_wf(),
        ensures
            r.limbs_wf(),
            r.adds(
                (self.yv() - self.xv()) * (rhs.yv() + rhs.xv()),
                (self.yv() + self.xv()) * (rhs.yv() - rhs.xv()),
                -((2 * gf::d()) * (self.tv() * rhs.tv())),
                2 * (self.zv() * rhs.zv()),
            ),
            self.wf() && rhs.wf() ==> r.wf() && r.affine() == padd(
                self.affine(),
                neg(rhs.affine()),
            ),
    {
        let n = rhs.negate();
        let r = self.add(&n);
        proof {
            let (x1, y1, x2, y2, m) = (self.xv(), self.yv(), rhs.xv(), rhs.yv(), n.xv());
            let (k, t, s, o) = (2 * gf::d(), self.tv(), rhs.tv(), n.tv());
            let zz = 2 * (self.zv() * rhs.zv());
            assert((y1 - x1) * (y2 - m) - (y1 - x1) * (y2 + x2) == (x1 - y1) * (m - (-x2)))
                by (nonlinear_arith);
            lemma_comb1((y1 - x1) * (y2 - m), (y1 - x1) * (y2 + x2), x1 - y1, m, -x2);
            assert((y1 + x1) * (y2 + m) - (y1 + x1) * (y2 - x2) == (y1 + x1) * (m - (-x2)))
                by (nonlinear_arith);
            lemma_comb1((y1 + x1) * (y2 + m), (y1 + x1) * (y2 - x2), y1 + x1, m, -x2);
            assert(k * (t * o) - (-(k * (t * s))) == (k * t) * (o - (-s))) by (nonlinear_arith);
            lemma_comb1(k * (t * o), -(k * (t * s)), k * t, o, -s);
            lemma_eq_refl(zz);
            r.lemma_adds(
                (y1 - x1) * (y2 - m),
                (y1 + x1) * (y2 + m),
                k * (t * o),
                zz,
                (y1 - x1) * (y2 + x2),
                (y1 + x1) * (y2 - x2),
                -(k * (t * s)),
                zz,
            );
        }
        r
    }

    /// The coordinates are those of a point that is doubled `n` times.
    pub open spec fn doubles_times(self, point: EdwardsPoint, n: int) -> bool
        decreases n,
    {
        if n <= 0 {
            self == point
        } else {
            exists|half: EdwardsPoint|
                half.doubles_times(point, n - 1) && #[trigger] self.doubles(half)
        }
    }

    /// The multiple by `2^127`, by 127 doublings.
    pub fn mul_by_pow2_127(&self) -> (r: Self)
        requires
            self.limbs_wf(),
        ensures
            r.limbs_wf(),
            r.doubles_times(*self, 127),
            self.wf() ==> r.wf() && r.affine() == smul(
                0x8000_0000_0000_0000_0000_0000_0000_0000int,
                self.affine(),
            ),
    {
        let ghost a = self.affine();
        let ghost start = *self;
        let mut r = self.double();
        let mut i: u32 = 1;
        proof {
            if self.wf() {
                lemma_smul_small(a);
            }
            lemma2_to64();
            assert(start.doubles_times(start, 0));
            assert(r.doubles_times(start, 1));
        }
        while i < 127
            invariant
                1 <= i <= 127,
                a == start.affine(),
                r.limbs_wf(),
                r.doubles_times(start, i as int),
                start.wf() ==> r.wf() && r.affine() == smul(pow2(i as nat) as int, a),
            decreases 127 - i,
        {
            let ghost half = r;
            r = r.double();
            proof {
                assert(r.doubles(half));
                assert(r.doubles_times(start, i + 1));
                if start.wf() {
                    lemma_pow2_unfold((i + 1) as nat);
                    lemma_smul_add(pow2(i as nat) as int, pow2(i as nat) as int, a);
                }
            }
            i += 1;
        }
        proof {
            lemma_pow2_127();
        }
        r
    }
}

proof fn lemma_pow2_127()
    ensures
        pow2(127) == 0x8000_0000_0000_0000_0000_0000_0000_0000int,
{
    lemma2_to64();
    lemma_pow2_adds(32, 31);
    lemma_pow2_adds(64, 63);
    let a = pow2(32) as int;
    let b = pow2(31) as int;
    assert(a * b == 0x8000_0000_0000_0000int) by (nonlinear_arith)
        requires
            a == 0x1_0000_0000int,
            b == 0x8000_0000int,
    ;
    let c = pow2(64) as int;
    let e = pow2(63) as int;
    assert(c * e == 0x8000_0000_0000_0000_0000_0000_0000_0000int) by (nonlinear_arith)
        requires
            c == 0x1_0000_0000_0000_0000int,
            e == 0x8000_0000_0000_0000int,
    ;
}

/// A negated coordinate.
pub proof fn lemma_negated(r: int, x: int, q: int, z: int, n: int)
    requires
        eq(r, -x),
        eq(x, q * z),
        eq(n, -q),
    ensures
        eq(r, n * z),
{
    assert(-x - n * z == (-1) * (x - q * z) + (-z) * (n - (-q))) by (nonlinear_arith);
    lemma_comb2(-x, n * z, -1, x, q * z, -z, n, -q);
    lemma_eq_trans(r, -x, n * z);
}

/// The intermediate values of the doubling formulas, for coordinates whose
/// squares are scaled by `z`.
proof fn lemma_doubling(
    u: Affine,
    z: int,
    a: int,
    b: int,
    zz: int,
    c: int,
    m: int,
    q: int,
    qa: int,
    e: int,
    f: int,
    g: int,
    h: int,
)
    requires
        on_curve(u),
        eq(a, (u.x * u.x) * z),
        eq(b, (u.y * u.y) * z),
        eq(zz, z),
        eq(c, 2 * zz),
        eq(m, -a),
        eq(q, ((u.y + u.x) * (u.y + u.x)) * z),
        eq(qa, q - a),
        eq(e, qa - b),
        eq(g, m + b),
        eq(f, g - c),
        eq(h, m - b),
    ensures
        eq(e, z * nx(u.x, u.y, u.x, u.y)),
        eq(f, (-z) * (1 - add_t(u, u))),
        eq(g, z * (1 + add_t(u, u))),
        eq(h, (-z) * ny(u.x, u.y, u.x, u.y)),
{
    let (x, y) = (u.x, u.y);
    let xx = x * x;
    let yy = y * y;
    let t = add_t(u, u);
    let qq = (y + x) * (y + x);
    assert(qq == yy + 2 * (x * y) + xx) by (nonlinear_arith)
        requires
            qq == (y + x) * (y + x),
            xx == x * x,
            yy == y * y,
    ;
    assert(x * y == y * x) by (nonlinear_arith);
    // e == q - a - b
    lemma_comb2(e, q - a - b, 1, e, qa - b, 1, qa, q - a);
    lemma_comb3(q - a - b, qq * z - xx * z - yy * z, 1, q, qq * z, -1, a, xx * z, -1, b, yy * z);
    let n = nx(x, y, x, y);
    assert(qq * z - xx * z - yy * z == z * n) by (nonlinear_arith)
        requires
            qq == yy + n + xx,
    ;
    lemma_eq_trans(e, q - a - b, z * n);
    // g == b - a
    lemma_comb2(g, b - a, 1, g, m + b, 1, m, -a);
    lemma_comb2(b - a, yy * z - xx * z, 1, b, yy * z, -1, a, xx * z);
    lemma_eq_trans(g, b - a, yy * z - xx * z);
    let k = yy - xx - 1 - t;
    assert(eq(k, 0));
    assert(yy * z - xx * z - z * (1 + t) == z * (k - 0)) by (nonlinear_arith)
        requires
            k == yy - xx - 1 - t,
    ;
    lemma_comb1(yy * z - xx * z, z * (1 + t), z, k, 0);
    lemma_eq_trans(g, yy * z - xx * z, z * (1 + t));
    // f == g - 2 z
    lemma_comb2(c, 2 * z, 1, c, 2 * zz, 2, zz, z);
    lemma_comb2(g - c, z * (1 + t) - 2 * z, 1, g, z * (1 + t), -1, c, 2 * z);
    assert(z * (1 + t) - 2 * z == (-z) * (1 - t)) by (nonlinear_arith);
    lemma_eq_trans(f, g - c, (-z) * (1 - t));
    // h == -a - b
    lemma_comb2(h, -a - b, 1, h, m - b, 1, m, -a);
    lemma_comb2(-a - b, -(xx * z) - yy * z, -1, a, xx * z, -1, b, yy * z);
    assert(-(xx * z) - yy * z == (-z) * (yy + xx)) by (nonlinear_arith);
    lemma_eq_trans(h, -a - b, (-z) * (yy + xx));
}

/// Extended coordinates up to field equality.
proof fn lemma_extended_eq(
    x: int,
    y: int,
    z: int,
    t: int,
    x2: int,
    y2: int,
    z2: int,
    t2: int,
    a: Affine,
)
    requires
        extended(x, y, z, t, a),
        eq(x2, x),
        eq(y2, y),
        eq(z2, z),
        eq(t2, t),
    ensures
        extended(x2, y2, z2, t2, a),
{
    lemma_zero_of(z2, z);
    lemma_eq_sym(z2, z);
    lemma_rescale(x2, x, a.x, z, z2);
    lemma_rescale(y2, y, a.y, z, z2);
    lemma_rescale(t2, t, a.x * a.y, z, z2);
}

pub proof fn lemma_rescale(x2: int, x: int, q: int, z: int, z2: int)
    requires
        eq(x2, x),
        eq(x, q * z),
        eq(z, z2),
    ensures
        eq(x2, q * z2),
{
    lemma_eq_refl(q);
    lemma_eq_ops(q, q, z, z2);
    lemma_eq_trans(x2, x, q * z);
    lemma_eq_trans(x2, q * z, q * z2);
}

/// Products of equal elements, with a name for the result.
pub proof fn lemma_times(a: int, a2: int, b: int, b2: int, r: int)
    requires
        eq(a, a2),
        eq(b, b2),
        eq(r, a * b),
    ensures
        eq(r, a2 * b2),
{
    lemma_eq_ops(a, a2, b, b2);
    lemma_eq_trans(r, a * b, a2 * b2);
}

/// The sum and the difference of scaled coordinates.
pub proof fn lemma_linear(x: int, y: int, z: int, a: Affine, plus: int, minus: int)
    requires
        eq(x, a.x * z),
        eq(y, a.y * z),
        eq(plus, y + x),
        eq(minus, y - x),
    ensures
        eq(plus, (a.y + a.x) * z),
        eq(minus, (a.y - a.x) * z),
{
    lemma_eq_ops(y, a.y * z, x, a.x * z);
    let (p1, p2) = (a.x, a.y);
    assert(p2 * z + p1 * z == (p2 + p1) * z && p2 * z - p1 * z == (p2 - p1) * z)
        by (nonlinear_arith);
    lemma_eq_trans(plus, y + x, (a.y + a.x) * z);
    lemma_eq_trans(minus, y - x, (a.y - a.x) * z);
}

/// The product of two scaled values.
pub proof fn lemma_scaled_product(l: int, u: int, z1: int, m: int, v: int, z2: int, r: int)
    requires
        eq(l, u * z1),
        eq(m, v * z2),
        eq(r, l * m),
    ensures
        eq(r, (u * v) * (z1 * z2)),
{
    lemma_times(l, u * z1, m, v * z2, r);
    lemma_swap(u, z1, v, z2);
}

/// The `y` coordinate that an encoding holds: its low 255 bits, modulo `p`.
pub open spec fn encoded_y(bytes: Seq<u8>) -> int {
    (le256(bytes) % sign_weight()) % p()
}

/// The sign that an encoding holds: its top bit.
pub open spec fn encoded_sign(bytes: Seq<u8>) -> int {
    le256(bytes) / sign_weight()
}

/// `2^255`, the weight of the sign bit.
pub open spec fn sign_weight() -> int {
    0x8000000000000000000000000000000000000000000000000000000000000000int
}

/// Whether a point is what an encoding stands for: it has the encoded `y`, and
/// an `x` whose parity is the encoded sign. With `x` zero either sign will do.
pub open spec fn is_decoding(bytes: Seq<u8>, a: Affine) -> bool {
    &&& on_curve(a)
    &&& a.y == encoded_y(bytes)
    &&& a.x % 2 == encoded_sign(bytes) || a.x == 0
}

/// The point that an encoding stands for, if there is one.
pub open spec fn decoded(bytes: Seq<u8>) -> Option<Affine> {
    if exists|a: Affine| is_decoding(bytes, a) {
        Some(choose|a: Affine| is_decoding(bytes, a))
    } else {
        None
    }
}

/// The integer whose little-endian bytes encode a point: the `y` coordinate,
/// with the parity of `x` in the top bit.
pub open spec fn encoded(a: Affine) -> int {
    a.y + sign_weight() * (a.x % 2)
}

/// The denominator of `x^2` never vanishes.
proof fn lemma_denominator(y: int)
    ensures
        !eq(1 + gf::d() * (y * y), 0),
{
    lemma_constants();
    let e = gf::d();
    let yy = y * y;
    let i = sqrt_m1();
    if eq(1 + e * yy, 0) {
        if eq(y, 0) {
            let k = e * y;
            assert(1 - 0 == 1 * ((1 + e * yy) - 0) + (-k) * (y - 0)) by (nonlinear_arith)
                requires
                    yy == y * y,
                    k == e * y,
            ;
            lemma_comb2(1, 0, 1, 1 + e * yy, 0, -k, y, 0);
        } else {
            lemma_d_not_square(i, y);
            lemma_comb2(i * i, e * yy, 1, i * i, -1, -1, 1 + e * yy, 0);
        }
    }
}

/// The curve equation, solved for `x^2`.
proof fn lemma_curve_root(x: int, y: int)
    ensures
        curve_eq(x, y) <==> is_root(y * y - 1, 1 + gf::d() * (y * y), x),
{
    let e = gf::d();
    let (xx, yy) = (x * x, y * y);
    let v = 1 + e * yy;
    let u = yy - 1;
    let k = yy - xx - 1 - e * (xx * yy);
    assert(v * xx - u == (-1) * (k - 0)) by (nonlinear_arith)
        requires
            k == yy - xx - 1 - e * (xx * yy),
            v == 1 + e * yy,
            u == yy - 1,
    ;
    if eq(k, 0) {
        lemma_comb1(v * xx, u, -1, k, 0);
    }
    if eq(v * xx, u) {
        lemma_comb1(k, 0, -1, v * xx, u);
    }
}

/// Two points with one `y` are equal or inverse.
pub proof fn lemma_same_y(a: Affine, b: Affine)
    requires
        on_curve(a),
        on_curve(b),
        a.y == b.y,
    ensures
        a == b || a == neg(b),
{
    lemma_p();
    let e = gf::d();
    let y = a.y;
    let v = 1 + e * (y * y);
    lemma_denominator(y);
    lemma_curve_root(a.x, y);
    lemma_curve_root(b.x, y);
    let (s, t) = (a.x * a.x, b.x * b.x);
    lemma_eq_sym(v * t, y * y - 1);
    lemma_eq_trans(v * s, y * y - 1, v * t);
    lemma_eq_cancel(v, s, t);
    let (l, m) = (a.x - b.x, a.x + b.x);
    assert(l * m - 0 == 1 * (s - t)) by (nonlinear_arith)
        requires
            l == a.x - b.x,
            m == a.x + b.x,
            s == a.x * a.x,
            t == b.x * b.x,
    ;
    lemma_comb1(l * m, 0, 1, s, t);
    if eq(l, 0) {
        lemma_comb1(a.x, b.x, 1, l, 0);
        lemma_eq_small(a.x, b.x);
    } else if eq(m, 0) {
        lemma_comb1(a.x, -b.x, 1, m, 0);
        lemma_neg_on_curve(b);
        lemma_reduced(-b.x);
        lemma_eq_trans(a.x, -b.x, neg(b).x);
        lemma_eq_small(a.x, neg(b).x);
    } else {
        lemma_nonzero_product(l, m);
    }
}

/// The `x` of the inverse has the other parity, unless it is zero.
proof fn lemma_neg_parity(a: Affine)
    requires
        on_curve(a),
    ensures
        a.x == 0 ==> neg(a) == a,
        a.x != 0 ==> neg(a).x == p() - a.x && neg(a).x % 2 != a.x % 2 && neg(a).x != 0,
{
    lemma_p();
    if a.x == 0 {
        vstd::arithmetic::div_mod::lemma_small_mod(0, p() as nat);
    } else {
        lemma_neg_on_curve(a);
        lemma_eqm_intro(p(), p() - a.x, -a.x, 1);
        lemma_reduced(-a.x);
        lemma_eq_trans(p() - a.x, -a.x, neg(a).x);
        lemma_eq_small(p() - a.x, neg(a).x);
    }
}

/// An encoding stands for one point at most.
pub proof fn lemma_decoding_unique(bytes: Seq<u8>, a: Affine, b: Affine)
    requires
        bytes.len() == 32,
        is_decoding(bytes, a),
        is_decoding(bytes, b),
    ensures
        a == b,
{
    lemma_same_y(a, b);
    lemma_neg_parity(b);
}

/// What an encoding stands for, by its decoding.
pub proof fn lemma_decoded(bytes: Seq<u8>, a: Affine)
    requires
        bytes.len() == 32,
        is_decoding(bytes, a),
    ensures
        decoded(bytes) == Some(a),
{
    lemma_decoding_unique(bytes, a, choose|b: Affine| is_decoding(bytes, b));
}

/// What an encoding stands for is a point of the curve.
pub proof fn lemma_decoded_on_curve(bytes: Seq<u8>)
    requires
        decoded(bytes) is Some,
    ensures
        on_curve(decoded(bytes)->0),
        is_decoding(bytes, decoded(bytes)->0),
{
}

/// Decoding gives back what was encoded.
pub proof fn lemma_decoded_encoded(bytes: Seq<u8>, a: Affine)
    requires
        bytes.len() == 32,
        on_curve(a),
        le256(bytes) == encoded(a),
    ensures
        decoded(bytes) == Some(a),
{
    lemma_p();
    assert(encoded_sign(bytes) == a.x % 2 && le256(bytes) % sign_weight() == a.y);
    vstd::arithmetic::div_mod::lemma_small_mod(a.y as nat, p() as nat);
    lemma_decoded(bytes, a);
}

impl EdwardsPoint {
    /// Reads an encoded point. The encoded `y` need not be reduced, and a zero
    /// `x` may carry either sign.
    pub fn decompress(bytes: &[u8; POINT_ENCODING_LEN]) -> (r: Option<Self>)
        ensures
            match r {
                Some(a) => {
                    &&& a.wf()
                    &&& decoded(bytes@) == Some(a.affine())
                    &&& a.zv() == 1
                    &&& a.affine().x == 0 || a.affine().x % 2 == bytes@[31] / 128
                    &&& a.affine().y == (le256(bytes@) - sign_weight() * (bytes@[31] / 128)) % p()
                },
                None => decoded(bytes@) is None,
            },
    {
        let x_sign = bytes[31] / 128 != 0;
        let mut y_bytes = *bytes;
        y_bytes[31] = bytes[31] % 128;
        let y = Fe51::from_bytes_unchecked(&y_bytes);
        let one = Fe51::one();
        let yy = y.square();
        let u = yy.subtract(&one);
        let curve_d = Fe51::d();
        let dyy = curve_d.multiply(&yy);
        let v = one.add(&dyy);
        let ghost y0 = encoded_y(bytes@);
        proof {
            lemma_le_bounds(bytes@);
            lemma_le_bounds(y_bytes@);
            assert(le256(y_bytes@) == le256(bytes@) % sign_weight());
            assert(encoded_sign(bytes@) == bytes[31] / 128);
            lemma_reduced(y.val());
            lemma_decompress_ratio(y.val(), y0, yy.val(), u.val(), dyy.val(), v.val());
        }
        let root = Fe51::sqrt_ratio(&u, &v);
        match root {
            None => {
                proof {
                    assert forall|a: Affine| !is_decoding(bytes@, a) by {
                        if is_decoding(bytes@, a) {
                            lemma_curve_root(a.x, y0);
                            lemma_root_eq(y0 * y0 - 1, 1 + gf::d() * (y0 * y0), u.val(), v.val(), a.x);
                            assert(is_root(u.val(), v.val(), a.x));
                        }
                    }
                }
                None
            },
            Some(x0) => {
                let mut x = x0;
                if x0.is_odd() != x_sign {
                    x = x0.negate();
                }
                let t = x.multiply(&y);
                let r = EdwardsPoint { x, y, z: Fe51::one(), t };
                proof {
                    let a = Affine { x: x0.val() % p(), y: y0 };
                    lemma_reduced(x0.val());
                    lemma_eq_sym(u.val(), y0 * y0 - 1);
                    lemma_eq_sym(v.val(), 1 + gf::d() * (y0 * y0));
                    lemma_root_eq(u.val(), v.val(), y0 * y0 - 1, 1 + gf::d() * (y0 * y0), x0.val());
                    lemma_root_arg(y0 * y0 - 1, 1 + gf::d() * (y0 * y0), x0.val(), a.x);
                    lemma_curve_root(a.x, y0);
                    assert(on_curve(a));
                    lemma_neg_parity(a);
                    lemma_neg_on_curve(a);
                    let b = if x0.val() == x.val() && (a.x % 2 == 1) == x_sign { a } else { neg(a) };
                    if (a.x % 2 == 1) == x_sign {
                        assert(eq(x.val(), b.x));
                    } else {
                        lemma_comb2(x.val(), -a.x, 1, x.val(), -x0.val(), -1, x0.val(), a.x);
                        lemma_eq_sym(neg(a).x, -a.x);
                        lemma_eq_trans(x.val(), -a.x, neg(a).x);
                    }
                    lemma_constants();
                    lemma_times(x.val(), b.x, y.val(), y0, t.val());
                    assert(b.x * 1 == b.x && b.y * 1 == b.y && (b.x * b.y) * 1 == b.x * b.y);
                    lemma_projected(r.xv(), r.yv(), r.zv(), r.tv(), b);
                    lemma_decoded(bytes@, b);
                }
                Some(r)
            },
        }
    }

    /// Writes the encoding of a point.
    pub fn compress(&self) -> (bytes: [u8; POINT_ENCODING_LEN])
        requires
            self.limbs_wf(),
        ensures
            le256(bytes@) == encoded(self.affine()),
            bytes@[31] / 128 == self.affine().x % 2,
            le256(bytes@) - sign_weight() * (bytes@[31] / 128) == self.affine().y,
    {
        let zinv = self.z.invert();
        let x = self.x.multiply(&zinv);
        let y = self.y.multiply(&zinv);
        let low = y.to_bytes();
        let mut bytes = low;
        proof {
            let w = finv(self.zv());
            lemma_eq_refl(self.xv());
            lemma_eq_refl(self.yv());
            lemma_times(self.xv(), self.xv(), zinv.val(), w, x.val());
            lemma_times(self.yv(), self.yv(), zinv.val(), w, y.val());
            lemma_eq_mod(x.val(), self.xv() * w);
            lemma_eq_mod(y.val(), self.yv() * w);
            lemma_le_bounds(low@);
        }
        if x.is_odd() {
            bytes[31] = low[31] + 128;
        }
        bytes
    }
}

/// The numerator and the denominator of `x^2`, for an unreduced `y`.
proof fn lemma_decompress_ratio(y: int, y0: int, yy: int, u: int, dyy: int, v: int)
    requires
        eq(y0, y),
        eq(yy, y * y),
        eq(u, yy - 1),
        eq(dyy, gf::d() * yy),
        eq(v, 1 + dyy),
    ensures
        eq(u, y0 * y0 - 1),
        eq(v, 1 + gf::d() * (y0 * y0)),
{
    let e = gf::d();
    lemma_eq_sym(y0, y);
    lemma_times(y, y0, y, y0, yy);
    lemma_eq_refl(1);
    lemma_eq_refl(e);
    lemma_eq_ops(yy, y0 * y0, 1, 1);
    lemma_eq_trans(u, yy - 1, y0 * y0 - 1);
    lemma_times(e, e, yy, y0 * y0, dyy);
    lemma_eq_ops(1, 1, dyy, e * (y0 * y0));
    lemma_eq_trans(v, 1 + dyy, 1 + e * (y0 * y0));
}

/// Roots of equal ratios.
proof fn lemma_root_eq(u: int, v: int, u2: int, v2: int, w: int)
    requires
        is_root(u, v, w),
        eq(u2, u),
        eq(v2, v),
    ensures
        is_root(u2, v2, w),
{
    lemma_eq_refl(w * w);
    lemma_eq_ops(v2, v, w * w, w * w);
    lemma_eq_sym(u2, u);
    lemma_eq_trans(v2 * (w * w), v * (w * w), u);
    lemma_eq_trans(v2 * (w * w), u, u2);
}

/// Equal roots.
proof fn lemma_root_arg(u: int, v: int, w: int, w2: int)
    requires
        is_root(u, v, w),
        eq(w2, w),
    ensures
        is_root(u, v, w2),
{
    lemma_eq_refl(v);
    lemma_eq_ops(w2, w, w2, w);
    lemma_eq_ops(v, v, w2 * w2, w * w);
    lemma_eq_trans(v * (w2 * w2), v * (w * w), u);
}

/// The base point of the signature scheme.
pub open spec fn basepoint() -> Affine {
    Affine {
        x: 0x216936d3cd6e53fec0a4e231fdd6dc5c692cc7609525a7b2c9562d608f25d51aint,
        y: 0x6666666666666666666666666666666666666666666666666666666666666658int,
    }
}

pub proof fn lemma_basepoint()
    ensures
        on_curve(basepoint()),
{
    lemma_p();
    let x = 0x216936d3cd6e53fec0a4e231fdd6dc5c692cc7609525a7b2c9562d608f25d51aint;
    let y = 0x6666666666666666666666666666666666666666666666666666666666666658int;
    let xx = 0x39e5a76b6f33fadbc92a232fdb1c32f2ebe39c555ccb6a7d690b8a0f82e81c67int;
    let yy = 0x51eb851eb851eb851eb851eb851eb851eb851eb851eb851eb851eb851eb851e0int;
    let e = gf::d();
    let n = p();
    reveal(gf::d);
    reveal(p);
    assert((x * x) % n == xx) by (nonlinear_arith)
        requires
            x == 0x216936d3cd6e53fec0a4e231fdd6dc5c692cc7609525a7b2c9562d608f25d51aint,
            xx == 0x39e5a76b6f33fadbc92a232fdb1c32f2ebe39c555ccb6a7d690b8a0f82e81c67int,
            n == 0x7fffffffffffffffffffffffffffffffffffffffffffffffffffffffffffffedint,
    ;
    assert((y * y) % n == yy) by (nonlinear_arith)
        requires
            y == 0x6666666666666666666666666666666666666666666666666666666666666658int,
            yy == 0x51eb851eb851eb851eb851eb851eb851eb851eb851eb851eb851eb851eb851e0int,
            n == 0x7fffffffffffffffffffffffffffffffffffffffffffffffffffffffffffffedint,
    ;
    let xy = 0x43c62db565e3d3bfdce7c49981fd913f4f49fda745a0e7fe57b577142ad1fdaeint;
    assert((xx * yy) % n == xy) by (nonlinear_arith)
        requires
            xx == 0x39e5a76b6f33fadbc92a232fdb1c32f2ebe39c555ccb6a7d690b8a0f82e81c67int,
            yy == 0x51eb851eb851eb851eb851eb851eb851eb851eb851eb851eb851eb851eb851e0int,
            xy == 0x43c62db565e3d3bfdce7c49981fd913f4f49fda745a0e7fe57b577142ad1fdaeint,
            n == 0x7fffffffffffffffffffffffffffffffffffffffffffffffffffffffffffffedint,
    ;
    assert((yy - xx - 1 - e * xy) % n == 0) by (nonlinear_arith)
        requires
            xx == 0x39e5a76b6f33fadbc92a232fdb1c32f2ebe39c555ccb6a7d690b8a0f82e81c67int,
            yy == 0x51eb851eb851eb851eb851eb851eb851eb851eb851eb851eb851eb851eb851e0int,
            xy == 0x43c62db565e3d3bfdce7c49981fd913f4f49fda745a0e7fe57b577142ad1fdaeint,
            e == 0x52036cee2b6ffe738cc740797779e89800700a4d4141d8ab75eb4dca135978a3int,
            n == 0x7fffffffffffffffffffffffffffffffffffffffffffffffffffffffffffffedint,
    ;
    lemma_reduced(x * x);
    lemma_reduced(y * y);
    lemma_reduced(xx * yy);
    lemma_eq_mod(yy - xx - 1 - e * xy, 0);
    vstd::arithmetic::div_mod::lemma_small_mod(0, n as nat);
    lemma_eq_refl((x * x) * (y * y));
    lemma_times(x * x, xx, y * y, yy, (x * x) * (y * y));
    lemma_eq_trans((x * x) * (y * y), xx * yy, xy);
    let k = (x * x) * (y * y);
    let f = y * y - x * x - 1 - e * k;
    let f0 = yy - xx - 1 - e * xy;
    let (s, t) = (x * x, y * y);
    assert(f - f0 == 1 * (t - yy) + (-1) * (s - xx) + (-e) * (k - xy)) by (nonlinear_arith)
        requires
            f == t - s - 1 - e * k,
            f0 == yy - xx - 1 - e * xy,
    ;
    lemma_comb3(f, f0, 1, t, yy, -1, s, xx, -e, k, xy);
    lemma_eq_trans(f, f0, 0);
}

impl EdwardsPoint {
    /// The base point of the signature scheme.
    pub fn basepoint() -> (r: Self)
        ensures
            r.wf(),
            r.affine() == basepoint(),
            r.zv() == 1,
    {
        let bytes: [u8; POINT_ENCODING_LEN] = [
            0x58, 0x66, 0x66, 0x66, 0x66, 0x66, 0x66, 0x66, 0x66, 0x66, 0x66, 0x66, 0x66, 0x66, 0x66,
            0x66, 0x66, 0x66, 0x66, 0x66, 0x66, 0x66, 0x66, 0x66, 0x66, 0x66, 0x66, 0x66, 0x66, 0x66,
            0x66, 0x66,
        ];
        proof {
            lemma_basepoint();
            lemma_decoded_encoded(bytes@, basepoint());
        }
        EdwardsPoint::decompress(&bytes).unwrap()
    }
}

} // verus!
