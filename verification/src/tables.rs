//! Cached points, and tables of the small multiples of a point.
use crate::edwards::{
    basepoint, doubled_z, extended, lemma_addition, lemma_completed, lemma_divided, lemma_linear,
    lemma_negated, lemma_projected, lemma_rescale, lemma_scaled_product, lemma_times, lemma_zero_of,
    projected, EdwardsPoint,
};
use crate::field::Fe51;
use crate::math::curve::{
    add_t, identity, lemma_identity_on_curve, lemma_neg_on_curve, lemma_smul_add, lemma_smul_neg,
    lemma_smul_small, lemma_smul_step, neg, on_curve, padd, smul, Affine,
};
use crate::math::gf;
use crate::math::gf::{
    d_inverse, eq, finv, lemma_comb1, lemma_comb2, lemma_constants, lemma_eq_cancel, lemma_eq_ops, lemma_eq_mod,
    lemma_eq_refl, lemma_eq_sym, lemma_eq_trans, lemma_finv, lemma_finv_unique,
    lemma_nonzero_product, lemma_reduced, lemma_swap, lemma_two_not_square, p,
};
use crate::math::identities::{nx, ny};
use vstd::prelude::*;

verus! {

/// A point as the addition formulas read it: `Y + X`, `Y - X`, `2 Z` and
/// `2 d T`.
#[derive(Clone, Copy, Debug)]
pub struct CachedPoint {
    y_plus_x: Fe51,
    y_minus_x: Fe51,
    z2: Fe51,
    t2d: Fe51,
}

/// Half of a field element.
pub open spec fn half(z: int) -> int {
    z * finv(2)
}

/// Whether `Y + X`, `Y - X`, `2 Z` and `2 d T` are those of a point.
pub open spec fn cached(plus: int, minus: int, z2: int, t2d: int, a: Affine) -> bool {
    &&& on_curve(a)
    &&& !eq(z2, 0)
    &&& eq(plus, (a.y + a.x) * half(z2))
    &&& eq(minus, (a.y - a.x) * half(z2))
    &&& eq(t2d, (gf::d() * (a.x * a.y)) * z2)
}

pub proof fn lemma_half(z: int)
    ensures
        eq(2 * half(z), z),
        !eq(z, 0) ==> !eq(half(z), 0),
{
    lemma_constants();
    lemma_finv(2);
    let w = finv(2);
    lemma_eq_refl(z);
    lemma_eq_ops(z, z, 2 * w, 1);
    assert(2 * (z * w) == z * (2 * w)) by (nonlinear_arith);
    if !eq(z, 0) {
        lemma_nonzero_product(z, w);
    }
}

/// Half is what doubles to the whole.
proof fn lemma_half_of(z2: int, z: int)
    requires
        eq(z2, 2 * z),
    ensures
        eq(half(z2), z),
{
    lemma_constants();
    lemma_half(z2);
    lemma_eq_trans(2 * half(z2), z2, 2 * z);
    lemma_eq_cancel(2, half(z2), z);
}

/// The point that cached coordinates stand for is the only one.
pub proof fn lemma_cached_point(plus: int, minus: int, z2: int, t2d: int, a: Affine)
    requires
        cached(plus, minus, z2, t2d, a),
    ensures
        projected(plus - minus, plus + minus, z2) == a,
        eq(plus - minus, a.x * z2),
        eq(plus + minus, a.y * z2),
{
    let h = half(z2);
    lemma_half(z2);
    lemma_eq_ops(plus, (a.y + a.x) * h, minus, (a.y - a.x) * h);
    let (x, y) = (a.x, a.y);
    assert((y + x) * h - (y - x) * h == x * (2 * h) && (y + x) * h + (y - x) * h == y * (2 * h))
        by (nonlinear_arith);
    lemma_eq_refl(x * (2 * h));
    lemma_eq_refl(y * (2 * h));
    lemma_rescale(plus - minus, x * (2 * h), x, 2 * h, z2);
    lemma_rescale(plus + minus, y * (2 * h), y, 2 * h, z2);
    lemma_divided(plus - minus, z2, a.x);
    lemma_divided(plus + minus, z2, a.y);
}

/// The cached form of a point of the curve stands for that point.
proof fn lemma_cached_form(point: EdwardsPoint, r: CachedPoint)
    requires
        point.wf(),
        r.limbs_wf(),
        r.caches(point),
    ensures
        r.wf(),
        r.affine() == point.affine(),
{
    let a = point.affine();
    let (x, y, zv, tv) = (point.xv(), point.yv(), point.zv(), point.tv());
    let k = gf::d();
    lemma_linear(x, y, zv, a, r.plusv(), r.minusv());
    lemma_half_of(r.z2v(), zv);
    lemma_eq_sym(half(r.z2v()), zv);
    lemma_eq_refl(r.plusv());
    lemma_eq_refl(r.minusv());
    lemma_rescale(r.plusv(), r.plusv(), a.y + a.x, zv, half(r.z2v()));
    lemma_rescale(r.minusv(), r.minusv(), a.y - a.x, zv, half(r.z2v()));
    lemma_constants();
    lemma_nonzero_product(2, zv);
    lemma_zero_of(r.z2v(), 2 * zv);
    // t2d == 2 d x y z
    let q = a.x * a.y;
    lemma_eq_refl(2 * k);
    lemma_eq_ops(2 * k, 2 * k, tv, q * zv);
    assert((2 * k) * (q * zv) == (k * q) * (2 * zv)) by (nonlinear_arith);
    lemma_eq_trans(r.t2dv(), (2 * k) * tv, (k * q) * (2 * zv));
    lemma_eq_sym(r.z2v(), 2 * zv);
    lemma_eq_refl(r.t2dv());
    lemma_rescale(r.t2dv(), r.t2dv(), k * q, 2 * zv, r.z2v());
    lemma_cached_point(r.plusv(), r.minusv(), r.z2v(), r.t2dv(), a);
}

impl CachedPoint {
    pub closed spec fn plusv(self) -> int {
        self.y_plus_x.val()
    }

    pub closed spec fn minusv(self) -> int {
        self.y_minus_x.val()
    }

    pub closed spec fn z2v(self) -> int {
        self.z2.val()
    }

    pub closed spec fn t2dv(self) -> int {
        self.t2d.val()
    }

    pub closed spec fn limbs_wf(self) -> bool {
        self.y_plus_x.wf() && self.y_minus_x.wf() && self.z2.wf() && self.t2d.wf()
    }

    /// The point that the coordinates stand for.
    pub open spec fn affine(self) -> Affine {
        projected(self.plusv() - self.minusv(), self.plusv() + self.minusv(), self.z2v())
    }

    /// The coordinates stand for a point of the curve.
    pub open spec fn wf(self) -> bool {
        self.limbs_wf() && cached(
            self.plusv(),
            self.minusv(),
            self.z2v(),
            self.t2dv(),
            self.affine(),
        )
    }

    /// The coordinates are made from those of an extended point.
    pub open spec fn caches(self, point: EdwardsPoint) -> bool {
        &&& eq(self.plusv(), point.yv() + point.xv())
        &&& eq(self.minusv(), point.yv() - point.xv())
        &&& eq(self.z2v(), 2 * point.zv())
        &&& eq(self.t2dv(), (2 * gf::d()) * point.tv())
    }

    /// The coordinates are those of another with `Y + X` and `Y - X` swapped, and
    /// with the opposite `2 d T`.
    pub open spec fn negates(self, other: CachedPoint) -> bool {
        &&& self.plusv() == other.minusv()
        &&& self.minusv() == other.plusv()
        &&& self.z2v() == other.z2v()
        &&& eq(self.t2dv(), -other.t2dv())
    }

    /// The coordinates are those of the identity.
    pub open spec fn caches_identity(self) -> bool {
        &&& eq(self.plusv(), 1)
        &&& eq(self.minusv(), 1)
        &&& eq(self.z2v(), 2)
        &&& eq(self.t2dv(), 0)
    }

    /// The cached form of a point. Any coordinates are combined.
    pub fn new(point: &EdwardsPoint) -> (r: Self)
        requires
            point.limbs_wf(),
        ensures
            r.limbs_wf(),
            r.caches(*point),
            point.wf() ==> r.wf() && r.affine() == point.affine(),
    {
        let (x, y, z, t) = point.coords();
        let two_d = Fe51::two_d();
        let r = CachedPoint {
            y_plus_x: y.add(x),
            y_minus_x: y.subtract(x),
            z2: z.double(),
            t2d: t.multiply(&two_d),
        };
        proof {
            let k = gf::d();
            let tv = t.val();
            lemma_eq_refl(tv);
            lemma_times(tv, tv, two_d.val(), 2 * k, r.t2dv());
            assert(tv * (2 * k) == (2 * k) * tv) by (nonlinear_arith);
            if point.wf() {
                lemma_cached_form(*point, r);
            }
        }
        r
    }

    /// `Y + X`, `Y - X`, `2 Z` and `2 d T`.
    pub fn coords(&self) -> (r: (&Fe51, &Fe51, &Fe51, &Fe51))
        ensures
            r.0.val() == self.plusv(),
            r.1.val() == self.minusv(),
            r.2.val() == self.z2v(),
            r.3.val() == self.t2dv(),
            self.limbs_wf() ==> r.0.wf() && r.1.wf() && r.2.wf() && r.3.wf(),
    {
        (&self.y_plus_x, &self.y_minus_x, &self.z2, &self.t2d)
    }

    pub fn from_fields(y_plus_x: Fe51, y_minus_x: Fe51, z2: Fe51, t2d: Fe51) -> (r: Self)
        ensures
            r.plusv() == y_plus_x.val(),
            r.minusv() == y_minus_x.val(),
            r.z2v() == z2.val(),
            r.t2dv() == t2d.val(),
            r.limbs_wf() == (y_plus_x.wf() && y_minus_x.wf() && z2.wf() && t2d.wf()),
    {
        CachedPoint { y_plus_x, y_minus_x, z2, t2d }
    }

    /// The identity, with the coordinates `(1, 1, 2, 0)`.
    pub fn identity() -> (r: Self)
        ensures
            r.wf(),
            r.affine() == identity(),
            r.caches_identity(),
    {
        proof {
            let k = gf::d();
            assert((2 * k) * 0 == 0) by (nonlinear_arith);
        }
        CachedPoint::new(&EdwardsPoint::identity())
    }

    /// The inverse: `Y + X` and `Y - X` change places. Any coordinates do.
    pub fn negate(&self) -> (r: Self)
        requires
            self.limbs_wf(),
        ensures
            r.limbs_wf(),
            r.negates(*self),
            self.wf() ==> r.wf() && r.affine() == neg(self.affine()),
    {
        let r = CachedPoint {
            y_plus_x: self.y_minus_x,
            y_minus_x: self.y_plus_x,
            z2: self.z2,
            t2d: self.t2d.negate(),
        };
        proof {
            if self.wf() {
                let a = self.affine();
                lemma_negated_form(
                    self.plusv(),
                    self.minusv(),
                    self.z2v(),
                    self.t2dv(),
                    r.t2dv(),
                    a,
                );
                lemma_cached_point(r.plusv(), r.minusv(), r.z2v(), r.t2dv(), neg(a));
            }
        }
        r
    }
}

/// Cached coordinates of the inverse of a point.
proof fn lemma_negated_form(plus: int, minus: int, z2: int, t2d: int, n: int, a: Affine)
    requires
        cached(plus, minus, z2, t2d, a),
        eq(n, -t2d),
    ensures
        cached(minus, plus, z2, n, neg(a)),
{
    let b = neg(a);
    lemma_neg_on_curve(a);
    let h = half(z2);
    let k = gf::d();
    // b.x == -a.x
    let (ax, ay, bx) = (a.x, a.y, b.x);
    assert((ay - ax) * h - (ay + bx) * h == (-h) * (bx - (-ax))) by (nonlinear_arith);
    lemma_comb1((ay - ax) * h, (ay + bx) * h, -h, bx, -ax);
    lemma_eq_trans(minus, (ay - ax) * h, (b.y + b.x) * h);
    assert((ay + ax) * h - (ay - bx) * h == h * (bx - (-ax))) by (nonlinear_arith);
    lemma_comb1((ay + ax) * h, (ay - bx) * h, h, bx, -ax);
    lemma_eq_trans(plus, (ay + ax) * h, (b.y - b.x) * h);
    let kay = k * ay;
    assert(k * (bx * ay) - (-(k * (ax * ay))) == kay * (bx - (-ax))) by (nonlinear_arith)
        requires
            kay == k * ay,
    ;
    lemma_comb1(k * (bx * ay), -(k * (ax * ay)), kay, bx, -ax);
    lemma_negated(n, t2d, k * (ax * ay), z2, k * (bx * ay));
}

/// A cached point with `Z = 1`: `y + x`, `y - x` and `2 d x y`.
#[derive(Clone, Copy, Debug)]
pub struct AffineCachedPoint {
    y_plus_x: Fe51,
    y_minus_x: Fe51,
    t2d: Fe51,
}

proof fn lemma_half_two()
    ensures
        eq(half(2), 1),
{
    lemma_eq_refl(2);
    lemma_half_of(2, 1);
}

impl AffineCachedPoint {
    pub closed spec fn plusv(self) -> int {
        self.y_plus_x.val()
    }

    pub closed spec fn minusv(self) -> int {
        self.y_minus_x.val()
    }

    pub closed spec fn t2dv(self) -> int {
        self.t2d.val()
    }

    pub closed spec fn limbs_wf(self) -> bool {
        self.y_plus_x.wf() && self.y_minus_x.wf() && self.t2d.wf()
    }

    /// The point that the coordinates stand for.
    pub open spec fn affine(self) -> Affine {
        projected(self.plusv() - self.minusv(), self.plusv() + self.minusv(), 2)
    }

    /// The coordinates stand for a point of the curve.
    pub open spec fn wf(self) -> bool {
        self.limbs_wf() && cached(self.plusv(), self.minusv(), 2, self.t2dv(), self.affine())
    }

    /// The coordinates are made from affine ones.
    pub open spec fn caches_affine(self, x: int, y: int) -> bool {
        &&& eq(self.plusv(), y + x)
        &&& eq(self.minusv(), y - x)
        &&& eq(self.t2dv(), (2 * gf::d()) * (x * y))
    }

    /// The coordinates are those of another with `y + x` and `y - x` swapped, and
    /// with the opposite `2 d x y`.
    pub open spec fn negates(self, other: AffineCachedPoint) -> bool {
        &&& self.plusv() == other.minusv()
        &&& self.minusv() == other.plusv()
        &&& eq(self.t2dv(), -other.t2dv())
    }

    /// The cached form depends only on the field values of the coordinates.
    pub proof fn lemma_caches_affine(self, x: int, y: int, x2: int, y2: int)
        requires
            self.caches_affine(x, y),
            eq(x, x2),
            eq(y, y2),
        ensures
            self.caches_affine(x2, y2),
    {
        let k = 2 * gf::d();
        lemma_eq_ops(y, y2, x, x2);
        lemma_eq_ops(x, x2, y, y2);
        lemma_eq_refl(k);
        lemma_eq_ops(k, k, x * y, x2 * y2);
        lemma_eq_trans(self.plusv(), y + x, y2 + x2);
        lemma_eq_trans(self.minusv(), y - x, y2 - x2);
        lemma_eq_trans(self.t2dv(), k * (x * y), k * (x2 * y2));
    }

    /// From affine coordinates, which need not be reduced. Those of a point of
    /// the curve give the cached form of that point.
    pub fn from_affine(x: &Fe51, y: &Fe51) -> (r: Self)
        requires
            x.wf(),
            y.wf(),
        ensures
            r.limbs_wf(),
            r.caches_affine(x.val(), y.val()),
            on_curve(Affine { x: x.val() % p(), y: y.val() % p() }) ==> r.wf() && r.affine() == (
            Affine { x: x.val() % p(), y: y.val() % p() }),
    {
        let xy = x.multiply(y);
        let two_d = Fe51::two_d();
        let r = AffineCachedPoint {
            y_plus_x: y.add(x),
            y_minus_x: y.subtract(x),
            t2d: xy.multiply(&two_d),
        };
        proof {
            let a = Affine { x: x.val() % p(), y: y.val() % p() };
            let k = gf::d();
            lemma_reduced(x.val());
            lemma_reduced(y.val());
            lemma_half_two();
            lemma_constants();
            assert(a.x * 1 == a.x && a.y * 1 == a.y);
            lemma_linear(x.val(), y.val(), 1, a, r.plusv(), r.minusv());
            lemma_eq_sym(half(2), 1);
            lemma_eq_refl(r.plusv());
            lemma_eq_refl(r.minusv());
            lemma_rescale(r.plusv(), r.plusv(), a.y + a.x, 1, half(2));
            lemma_rescale(r.minusv(), r.minusv(), a.y - a.x, 1, half(2));
            lemma_times(x.val(), a.x, y.val(), a.y, xy.val());
            lemma_times(xy.val(), a.x * a.y, two_d.val(), 2 * k, r.t2dv());
            let q = a.x * a.y;
            assert(q * (2 * k) == (k * q) * 2) by (nonlinear_arith);
            if on_curve(a) {
                lemma_cached_point(r.plusv(), r.minusv(), 2, r.t2dv(), a);
            }
            let w = x.val() * y.val();
            lemma_times(xy.val(), w, two_d.val(), 2 * k, r.t2dv());
            assert(w * (2 * k) == (2 * k) * w) by (nonlinear_arith);
        }
        r
    }

    /// The identity, with the coordinates `(1, 1, 0)`.
    pub fn identity() -> (r: Self)
        ensures
            r.wf(),
            r.affine() == identity(),
            r.plusv() == 1,
            r.minusv() == 1,
            r.t2dv() == 0,
    {
        let r = AffineCachedPoint {
            y_plus_x: Fe51::one(),
            y_minus_x: Fe51::one(),
            t2d: Fe51::zero(),
        };
        proof {
            let o = identity();
            let k = gf::d();
            let h = half(2);
            lemma_identity_on_curve();
            lemma_constants();
            lemma_half_two();
            lemma_eq_sym(h, 1);
            lemma_eq_refl(0);
            assert((o.y + o.x) * h == h && (o.y - o.x) * h == h && (k * (o.x * o.y)) * 2 == 0)
                by (nonlinear_arith)
                requires
                    o.x == 0,
                    o.y == 1,
            ;
            lemma_cached_point(r.plusv(), r.minusv(), 2, r.t2dv(), o);
        }
        r
    }

    /// The inverse: `y + x` and `y - x` change places. Any coordinates do.
    pub fn negate(&self) -> (r: Self)
        requires
            self.limbs_wf(),
        ensures
            r.limbs_wf(),
            r.negates(*self),
            self.wf() ==> r.wf() && r.affine() == neg(self.affine()),
    {
        let r = AffineCachedPoint {
            y_plus_x: self.y_minus_x,
            y_minus_x: self.y_plus_x,
            t2d: self.t2d.negate(),
        };
        proof {
            if self.wf() {
                let a = self.affine();
                lemma_negated_form(self.plusv(), self.minusv(), 2, self.t2dv(), r.t2dv(), a);
                lemma_cached_point(r.plusv(), r.minusv(), 2, r.t2dv(), neg(a));
            }
        }
        r
    }

    /// `y + x`, `y - x` and `2 d x y`.
    pub fn coords(&self) -> (r: (&Fe51, &Fe51, &Fe51))
        ensures
            r.0.val() == self.plusv(),
            r.1.val() == self.minusv(),
            r.2.val() == self.t2dv(),
            self.limbs_wf() ==> r.0.wf() && r.1.wf() && r.2.wf(),
    {
        (&self.y_plus_x, &self.y_minus_x, &self.t2d)
    }
}

/// The intermediate values of the addition of a cached point.
proof fn lemma_cached_addition(
    x: int,
    y: int,
    z: int,
    t: int,
    u: Affine,
    plus: int,
    minus: int,
    z2: int,
    t2d: int,
    v: Affine,
    a1: int,
    b1: int,
    a: int,
    b: int,
    c: int,
    e: int,
)
    requires
        extended(x, y, z, t, u),
        cached(plus, minus, z2, t2d, v),
        eq(a1, y - x),
        eq(b1, y + x),
        eq(a, a1 * minus),
        eq(b, b1 * plus),
        eq(c, t * t2d),
        eq(e, z * z2),
    ensures
        !eq(z * half(z2), 0),
        eq(a, ((u.y - u.x) * (v.y - v.x)) * (z * half(z2))),
        eq(b, ((u.y + u.x) * (v.y + v.x)) * (z * half(z2))),
        eq(c, add_t(u, v) * (2 * (z * half(z2)))),
        eq(e, 2 * (z * half(z2))),
{
    let h = half(z2);
    let s = z * h;
    let k = gf::d();
    lemma_half(z2);
    lemma_nonzero_product(z, h);
    lemma_linear(x, y, z, u, b1, a1);
    lemma_scaled_product(a1, u.y - u.x, z, minus, v.y - v.x, h, a);
    lemma_scaled_product(b1, u.y + u.x, z, plus, v.y + v.x, h, b);
    // z z2 == 2 s
    lemma_eq_refl(z);
    lemma_eq_sym(2 * h, z2);
    lemma_eq_ops(z, z, z2, 2 * h);
    assert(z * (2 * h) == 2 * s) by (nonlinear_arith)
        requires
            s == z * h,
    ;
    lemma_eq_trans(e, z * z2, 2 * s);
    // t t2d == t 2 s
    let q1 = u.x * u.y;
    let q2 = v.x * v.y;
    lemma_scaled_product(t, q1, z, t2d, k * q2, z2, c);
    lemma_eq_refl(c);
    lemma_rescale(c, c, q1 * (k * q2), z * z2, 2 * s);
    assert(q1 * (k * q2) == k * (q1 * q2)) by (nonlinear_arith);
    lemma_swap(u.x, u.y, v.x, v.y);
}

impl EdwardsPoint {
    /// The sum of a point and a cached point.
    pub fn add_cached(&self, rhs: &CachedPoint) -> (r: Self)
        requires
            self.limbs_wf(),
            rhs.limbs_wf(),
        ensures
            r.limbs_wf(),
            r.adds(
                (self.yv() - self.xv()) * rhs.minusv(),
                (self.yv() + self.xv()) * rhs.plusv(),
                self.tv() * rhs.t2dv(),
                self.zv() * rhs.z2v(),
            ),
            self.wf() && rhs.wf() ==> r.wf() && r.affine() == padd(self.affine(), rhs.affine()),
    {
        let z2 = self.coords().2.multiply(&rhs.z2);
        self.add_fields(
            &rhs.y_plus_x,
            &rhs.y_minus_x,
            &rhs.t2d,
            &z2,
            Ghost(rhs.z2v()),
            Ghost(rhs.affine()),
        )
    }

    /// The sum of a point and an affine cached point. The formulas take any
    /// coordinates.
    pub fn add_affine_cached(&self, rhs: &AffineCachedPoint) -> (r: Self)
        requires
            self.limbs_wf(),
            rhs.limbs_wf(),
        ensures
            r.limbs_wf(),
            r.adds(
                (self.yv() - self.xv()) * rhs.minusv(),
                (self.yv() + self.xv()) * rhs.plusv(),
                self.tv() * rhs.t2dv(),
                self.zv() * 2,
            ),
            self.wf() && rhs.wf() ==> r.wf() && r.affine() == padd(self.affine(), rhs.affine()),
    {
        let z2 = self.coords().2.double();
        assert(2 * self.zv() == self.zv() * 2);
        self.add_fields(
            &rhs.y_plus_x,
            &rhs.y_minus_x,
            &rhs.t2d,
            &z2,
            Ghost(2),
            Ghost(rhs.affine()),
        )
    }

    /// The addition formulas, given the product of the denominators.
    fn add_fields(
        &self,
        plus: &Fe51,
        minus: &Fe51,
        t2d: &Fe51,
        d: &Fe51,
        Ghost(z2): Ghost<int>,
        Ghost(v): Ghost<Affine>,
    ) -> (r: Self)
        requires
            self.limbs_wf(),
            plus.wf(),
            minus.wf(),
            t2d.wf(),
            d.wf(),
            eq(d.val(), self.zv() * z2),
        ensures
            r.limbs_wf(),
            r.adds(
                (self.yv() - self.xv()) * minus.val(),
                (self.yv() + self.xv()) * plus.val(),
                self.tv() * t2d.val(),
                self.zv() * z2,
            ),
            self.wf() && cached(plus.val(), minus.val(), z2, t2d.val(), v) ==> r.wf() && r.affine()
                == padd(self.affine(), v),
    {
        let (x, y, z, t) = self.coords();
        let a1 = y.subtract(x);
        let a = a1.multiply(minus);
        let b1 = y.add(x);
        let b = b1.multiply(plus);
        let c = t.multiply(t2d);
        let e = b.subtract(&a);
        let f = d.subtract(&c);
        let g = d.add(&c);
        let h = b.add(&a);
        let ghost u = self.affine();
        proof {
            if self.wf() && cached(plus.val(), minus.val(), z2, t2d.val(), v) {
                lemma_cached_addition(
                    x.val(),
                    y.val(),
                    z.val(),
                    t.val(),
                    u,
                    plus.val(),
                    minus.val(),
                    z2,
                    t2d.val(),
                    v,
                    a1.val(),
                    b1.val(),
                    a.val(),
                    b.val(),
                    c.val(),
                    d.val(),
                );
                let s = z.val() * half(z2);
                lemma_addition(u, v, s, a.val(), b.val(), c.val(), d.val());
                lemma_eq_trans(e.val(), b.val() - a.val(), (2 * s) * nx(u.x, u.y, v.x, v.y));
                lemma_eq_trans(f.val(), d.val() - c.val(), (2 * s) * (1 - add_t(u, v)));
                lemma_eq_trans(g.val(), d.val() + c.val(), (2 * s) * (1 + add_t(u, v)));
                lemma_eq_trans(h.val(), b.val() + a.val(), (2 * s) * ny(u.x, u.y, v.x, v.y));
                lemma_completed(u, v, 2 * s, 2 * s, e.val(), f.val(), g.val(), h.val());
            }
        }
        let r = EdwardsPoint::complete(&e, &f, &g, &h, Ghost(padd(u, v)));
        proof {
            lemma_eq_refl(minus.val());
            lemma_eq_refl(plus.val());
            lemma_times(a1.val(), y.val() - x.val(), minus.val(), minus.val(), a.val());
            lemma_times(b1.val(), y.val() + x.val(), plus.val(), plus.val(), b.val());
            r.lemma_completes(
                e.val(),
                f.val(),
                g.val(),
                h.val(),
                b.val() - a.val(),
                d.val() - c.val(),
                d.val() + c.val(),
                b.val() + a.val(),
            );
            r.lemma_adds(
                a.val(),
                b.val(),
                c.val(),
                d.val(),
                (y.val() - x.val()) * minus.val(),
                (y.val() + x.val()) * plus.val(),
                t.val() * t2d.val(),
                z.val() * z2,
            );
        }
        r
    }
}

/// The product of the first `n` of a sequence of field elements.
spec fn product_of(z: Seq<Fe51>, n: int) -> int
    decreases n,
{
    if n <= 0 {
        1
    } else {
        product_of(z, n - 1) * z[n - 1].val()
    }
}

/// Some of the first `n` field elements are zero exactly where their product is.
proof fn lemma_zero_product(z: Seq<Fe51>, n: int)
    requires
        0 <= n <= z.len(),
    ensures
        eq(product_of(z, n), 0) <==> exists|i: int| 0 <= i < n && eq((#[trigger] z[i]).val(), 0),
    decreases n,
{
    lemma_constants();
    if n > 0 {
        lemma_zero_product(z, n - 1);
        let (q, v) = (product_of(z, n - 1), z[n - 1].val());
        if eq(v, 0) {
            assert(q * v - 0 == q * (v - 0)) by (nonlinear_arith);
            lemma_comb1(q * v, 0, q, v, 0);
        } else if eq(q, 0) {
            assert(q * v - 0 == v * (q - 0)) by (nonlinear_arith);
            lemma_comb1(q * v, 0, v, q, 0);
            let i = choose|i: int| 0 <= i < n - 1 && eq((#[trigger] z[i]).val(), 0);
            assert(eq(z[i].val(), 0));
        } else {
            lemma_nonzero_product(q, v);
        }
    }
}

/// What a shared inversion gives for an element: its inverse, or zero for all
/// where one of them is zero.
pub open spec fn shared_inverse(z: int, all_nonzero: bool) -> int {
    if all_nonzero {
        finv(z)
    } else {
        0
    }
}

/// The inverses of some elements, with a single inversion: the running products
/// are inverted together, and the inverse is taken apart again from the end.
/// One zero among them makes all results zero.
fn batch_invert(z: &Vec<Fe51>) -> (r: Vec<Fe51>)
    requires
        forall|i: int| 0 <= i < z@.len() ==> (#[trigger] z@[i]).wf(),
    ensures
        r@.len() == z@.len(),
        forall|i: int|
            0 <= i < z@.len() ==> (#[trigger] r@[i]).wf() && eq(
                r@[i].val(),
                shared_inverse(
                    z@[i].val(),
                    forall|j: int| 0 <= j < z@.len() ==> !eq((#[trigger] z@[j]).val(), 0),
                ),
            ),
{
    let n = z.len();
    let ghost ok = forall|j: int| 0 <= j < z@.len() ==> !eq((#[trigger] z@[j]).val(), 0);
    let mut inv: Vec<Fe51> = Vec::new();
    let mut acc = Fe51::one();
    let mut i: usize = 0;
    proof {
        lemma_constants();
        lemma_eq_refl(1);
        lemma_eq_refl(0);
    }
    while i < n
        invariant
            n == z@.len(),
            i <= n,
            inv@.len() == i,
            acc.wf(),
            eq(acc.val(), product_of(z@, i as int)),
            forall|j: int| 0 <= j < n ==> (#[trigger] z@[j]).wf(),
            forall|j: int|
                0 <= j < i ==> (#[trigger] inv@[j]).wf() && eq(inv@[j].val(), product_of(z@, j)),
        decreases n - i,
    {
        let ghost before = acc.val();
        inv.push(acc);
        acc = acc.multiply(&z[i]);
        proof {
            let zi = z@[i as int].val();
            lemma_eq_refl(zi);
            lemma_times(before, product_of(z@, i as int), zi, zi, acc.val());
        }
        i += 1;
    }
    let ghost total = acc.val();
    acc = acc.invert();
    proof {
        let q = product_of(z@, n as int);
        let w = finv(total);
        lemma_zero_product(z@, n as int);
        lemma_finv(total);
        if ok {
            lemma_zero_of(total, q);
            lemma_eq_refl(w);
            lemma_eq_sym(total, q);
            lemma_eq_ops(w, w, q, total);
            lemma_eq_refl(q);
            lemma_eq_ops(acc.val(), w, q, q);
            assert(w * total == total * w) by (nonlinear_arith);
            lemma_eq_trans(w * q, w * total, 1);
            lemma_eq_trans(acc.val() * q, w * q, 1);
        } else {
            let j = choose|j: int| 0 <= j < z@.len() && eq((#[trigger] z@[j]).val(), 0);
            assert(eq(z@[j].val(), 0));
            lemma_eq_trans(total, q, 0);
        }
    }
    let mut k: usize = n;
    while k > 0
        invariant
            n == z@.len(),
            k <= n,
            inv@.len() == n,
            acc.wf(),
            ok ==> eq(acc.val() * product_of(z@, k as int), 1),
            !ok ==> eq(acc.val(), 0),
            forall|j: int| 0 <= j < n ==> (#[trigger] z@[j]).wf(),
            forall|j: int|
                0 <= j < k ==> (#[trigger] inv@[j]).wf() && eq(inv@[j].val(), product_of(z@, j)),
            forall|j: int|
                k <= j < n ==> (#[trigger] inv@[j]).wf() && eq(
                    inv@[j].val(),
                    shared_inverse(z@[j].val(), ok),
                ),
        decreases k,
    {
        k -= 1;
        let ghost before = acc.val();
        let prefix = inv[k];
        let one = prefix.multiply(&acc);
        inv.set(k, one);
        acc = acc.multiply(&z[k]);
        proof {
            let zi = z@[k as int].val();
            let q = product_of(z@, k as int);
            lemma_eq_refl(before);
            lemma_eq_refl(zi);
            lemma_eq_refl(q);
            lemma_times(prefix.val(), q, before, before, one.val());
            if ok {
                // before (q zi) == 1
                lemma_eq_ops(zi, zi, one.val(), q * before);
                assert(zi * (q * before) == before * (q * zi)) by (nonlinear_arith);
                lemma_eq_trans(zi * one.val(), before * (q * zi), 1);
                lemma_finv_unique(zi, one.val());
                lemma_eq_ops(acc.val(), before * zi, q, q);
                assert((before * zi) * q == before * (q * zi)) by (nonlinear_arith);
                lemma_eq_trans(acc.val() * q, before * (q * zi), 1);
            } else {
                assert(q * before - 0 == q * (before - 0)) by (nonlinear_arith);
                lemma_comb1(q * before, 0, q, before, 0);
                lemma_eq_trans(one.val(), q * before, 0);
                assert(before * zi - 0 == zi * (before - 0)) by (nonlinear_arith);
                lemma_comb1(before * zi, 0, zi, before, 0);
                lemma_eq_trans(acc.val(), before * zi, 0);
            }
        }
    }
    inv
}

/// Every point has a nonzero `Z`.
pub open spec fn all_finite(points: Seq<EdwardsPoint>) -> bool {
    forall|i: int| 0 <= i < points.len() ==> !eq((#[trigger] points[i]).zv(), 0)
}

/// Brings points to affine cached form, with a single inversion.
pub fn to_affine_cached_batch(points: &Vec<EdwardsPoint>) -> (r: Vec<AffineCachedPoint>)
    requires
        forall|i: int| 0 <= i < points@.len() ==> (#[trigger] points@[i]).limbs_wf(),
    ensures
        r@.len() == points@.len(),
        forall|i: int|
            0 <= i < points@.len() ==> (#[trigger] r@[i]).limbs_wf() && r@[i].caches_affine(
                points@[i].xv() * shared_inverse(points@[i].zv(), all_finite(points@)),
                points@[i].yv() * shared_inverse(points@[i].zv(), all_finite(points@)),
            ),
        all_finite(points@) ==> forall|i: int|
            0 <= i < points@.len() && points@[i].wf() ==> (#[trigger] r@[i]).wf() && r@[i].affine()
                == points@[i].affine(),
{
    let n = points.len();
    let ghost ok = all_finite(points@);
    let mut z: Vec<Fe51> = Vec::new();
    let mut i: usize = 0;
    while i < n
        invariant
            n == points@.len(),
            i <= n,
            z@.len() == i,
            forall|j: int| 0 <= j < n ==> (#[trigger] points@[j]).limbs_wf(),
            forall|j: int|
                0 <= j < i ==> (#[trigger] z@[j]).wf() && z@[j].val() == points@[j].zv(),
        decreases n - i,
    {
        let c = points[i].coords();
        z.push(*c.2);
        i += 1;
    }
    proof {
        if ok {
            assert forall|j: int| 0 <= j < z@.len() implies !eq((#[trigger] z@[j]).val(), 0) by {
                assert(!eq(points@[j].zv(), 0));
            }
        } else {
            let j = choose|j: int| 0 <= j < points@.len() && eq((#[trigger] points@[j]).zv(), 0);
            assert(eq(z@[j].val(), 0));
        }
    }
    let zinv = batch_invert(&z);
    let mut r: Vec<AffineCachedPoint> = Vec::new();
    let mut k: usize = 0;
    while k < n
        invariant
            n == points@.len(),
            n == z@.len(),
            n == zinv@.len(),
            k <= n,
            r@.len() == k,
            forall|j: int| 0 <= j < n ==> (#[trigger] points@[j]).limbs_wf(),
            forall|j: int| 0 <= j < n ==> (#[trigger] z@[j]).val() == points@[j].zv(),
            forall|j: int|
                0 <= j < n ==> (#[trigger] zinv@[j]).wf() && eq(
                    zinv@[j].val(),
                    shared_inverse(z@[j].val(), ok),
                ),
            forall|j: int|
                0 <= j < k ==> (#[trigger] r@[j]).limbs_wf() && r@[j].caches_affine(
                    points@[j].xv() * shared_inverse(points@[j].zv(), ok),
                    points@[j].yv() * shared_inverse(points@[j].zv(), ok),
                ),
            ok ==> forall|j: int|
                0 <= j < k && points@[j].wf() ==> (#[trigger] r@[j]).wf() && r@[j].affine()
                    == points@[j].affine(),
        decreases n - k,
    {
        let (px, py, _pz, _pt) = points[k].coords();
        let w = zinv[k];
        let x = px.multiply(&w);
        let y = py.multiply(&w);
        let affine = AffineCachedPoint::from_affine(&x, &y);
        proof {
            let q = points@[k as int];
            let v = shared_inverse(q.zv(), ok);
            assert(z@[k as int].val() == q.zv());
            lemma_eq_refl(px.val());
            lemma_eq_refl(py.val());
            lemma_times(px.val(), px.val(), w.val(), v, x.val());
            lemma_times(py.val(), py.val(), w.val(), v, y.val());
            lemma_eq_mod(x.val(), px.val() * v);
            lemma_eq_mod(y.val(), py.val() * v);
            affine.lemma_caches_affine(x.val(), y.val(), px.val() * v, py.val() * v);
        }
        r.push(affine);
        k += 1;
    }
    r
}

/// The multiples that a point table holds on either side.
pub const POINT_TABLE_SIZE: usize = 8;

/// Entries of a point table.
pub const SIGNED_POINT_TABLE_SIZE: usize = 17;

/// The multiples that a base-point table holds on either side: two digits in
/// radix 16, folded into one, are at most `8 + 8 * 16` in magnitude.
pub const BASEPOINT_TABLE_SIZE: usize = 136;

/// Entries of a base-point table.
pub const SIGNED_BASEPOINT_TABLE_SIZE: usize = 273;

/// Lays out a table in the order of its signed digits: the entry for the digit
/// `d` stands at `d + n`.
fn signed_cached_entries<T: Copy>(cached: &[T], negative: &[T], identity: T) -> (r: Vec<T>)
    requires
        cached@.len() == negative@.len(),
        2 * cached@.len() + 1 <= usize::MAX,
    ensures
        r@.len() == 2 * cached@.len() + 1,
        forall|i: int|
            0 <= i < cached@.len() ==> r@[i] == #[trigger] negative@[cached@.len() - 1 - i],
        r@[cached@.len() as int] == identity,
        forall|i: int|
            0 <= i < cached@.len() ==> r@[cached@.len() + 1 + i] == #[trigger] cached@[i],
{
    let n = cached.len();
    let mut r: Vec<T> = Vec::new();
    let mut i: usize = 0;
    while i < 2 * n + 1
        invariant
            n == cached@.len(),
            n == negative@.len(),
            2 * n + 1 <= usize::MAX,
            i <= 2 * n + 1,
            r@.len() == i,
            forall|j: int|
                0 <= j < i ==> #[trigger] r@[j] == if j < n {
                    negative@[n - 1 - j]
                } else if j == n {
                    identity
                } else {
                    cached@[j - n - 1]
                },
        decreases 2 * n + 1 - i,
    {
        if i < n {
            r.push(negative[n - 1 - i]);
        } else if i == n {
            r.push(identity);
        } else {
            r.push(cached[i - n - 1]);
        }
        i += 1;
    }
    r
}

/// The multiples of a point from `-8` to `8`.
#[derive(Clone, Copy, Debug)]
pub struct PointTable {
    entries: [CachedPoint; SIGNED_POINT_TABLE_SIZE],
}

impl PointTable {
    /// The entry for a digit.
    pub closed spec fn entry(self, digit: int) -> CachedPoint {
        self.entries@[digit + 8]
    }

    /// The entries all stand for points.
    pub open spec fn wf(self) -> bool {
        forall|digit: int| -8 <= digit <= 8 ==> (#[trigger] self.entry(digit)).wf()
    }

    /// The entry for every digit `d` is `[d] a`.
    pub open spec fn is_table_of(self, a: Affine) -> bool {
        &&& on_curve(a)
        &&& self.wf()
        &&& forall|digit: int|
            -8 <= digit <= 8 ==> (#[trigger] self.entry(digit)).affine() == smul(digit, a)
    }

    /// The point that the table is made of.
    pub open spec fn point(self) -> Affine {
        self.entry(1).affine()
    }

    /// Every entry has `Z = 1`.
    pub open spec fn normalized(self) -> bool {
        forall|digit: int| -8 <= digit <= 8 ==> (#[trigger] self.entry(digit)).z2v() == 2
    }

    /// The table of a point, built from affine coordinates and not normalized:
    /// the entry for one has `Z = 1`, that for two has the `Z` of a doubling.
    pub open spec fn is_projective_table_of(self, a: Affine) -> bool {
        &&& self.is_table_of(a)
        &&& eq(self.entry(1).z2v(), 2)
        &&& eq(self.entry(2).z2v(), 2 * doubled_z(a.x, a.y, 1))
    }

    /// The coordinates of a point are those that the entry for one gives:
    /// `(2X : 2Y : 2Z : 2T)`.
    pub open spec fn recovers_to(self, point: EdwardsPoint) -> bool {
        &&& eq(point.xv(), self.entry(1).plusv() - self.entry(1).minusv())
        &&& eq(point.yv(), self.entry(1).plusv() + self.entry(1).minusv())
        &&& point.zv() == self.entry(1).z2v()
        &&& eq(point.tv(), self.entry(1).t2dv() * d_inverse())
    }

    /// The entries stand for the same points as those of another table.
    pub open spec fn same_points(self, other: PointTable) -> bool {
        forall|digit: int|
            -8 <= digit <= 8 ==> (#[trigger] self.entry(digit)).affine() == other.entry(
                digit,
            ).affine()
    }

    pub fn from_cached(
        cached_points: [CachedPoint; POINT_TABLE_SIZE],
        negative_cached_points: [CachedPoint; POINT_TABLE_SIZE],
        identity_cached: CachedPoint,
    ) -> (r: Self)
        ensures
            r.entry(0) == identity_cached,
            forall|i: int| 1 <= i <= 8 ==> #[trigger] r.entry(i) == cached_points@[i - 1],
            forall|i: int| -8 <= i <= -1 ==> #[trigger] r.entry(i) == negative_cached_points@[-i - 1],
    {
        let laid = signed_cached_entries(
            cached_points.as_slice(),
            negative_cached_points.as_slice(),
            identity_cached,
        );
        let mut entries: [CachedPoint; SIGNED_POINT_TABLE_SIZE] = [identity_cached; 17];
        let mut k: usize = 0;
        while k < 17
            invariant
                k <= 17,
                laid@.len() == 17,
                forall|j: int| 0 <= j < k ==> #[trigger] entries@[j] == laid@[j],
            decreases 17 - k,
        {
            entries[k] = laid[k];
            k += 1;
        }
        let r = PointTable { entries };
        assert forall|i: int| 1 <= i <= 8 implies #[trigger] r.entry(i) == cached_points@[i - 1] by {
            assert(laid@[8 + 1 + (i - 1)] == cached_points@[i - 1]);
        }
        assert forall|i: int| -8 <= i <= -1 implies #[trigger] r.entry(i)
            == negative_cached_points@[-i - 1] by {
            assert(8 - 1 - (i + 8) == -i - 1);
            assert(negative_cached_points@[8 - 1 - (i + 8)] == laid@[i + 8]);
        }
        r
    }

    /// Whether the table is normalized, by one of its entries.
    pub fn is_affine(&self) -> (r: bool)
        requires
            self.entry(2).limbs_wf(),
        ensures
            r == eq(self.entry(2).z2v(), 2),
            self.normalized() ==> r,
            forall|a: Affine| #[trigger] self.is_projective_table_of(a) ==> !r,
    {
        proof {
            lemma_eq_refl(2);
            assert forall|a: Affine| #[trigger] self.is_projective_table_of(a) implies !eq(
                self.entry(2).z2v(),
                2,
            ) by {
                lemma_projective_table(*self, a);
            }
        }
        let e = self.select_signed_cached_ref(2);
        e.coords().2.equals(&Fe51::two())
    }

    /// The entry for a signed digit.
    pub fn select_signed_cached_ref(&self, digit: i8) -> (r: &CachedPoint)
        requires
            -8 <= digit <= 8,
        ensures
            *r == self.entry(digit as int),
    {
        &self.entries[(digit + 8) as usize]
    }

    /// The entries cache some points, their inverses and the identity.
    pub open spec fn caches_multiples(self, points: Seq<EdwardsPoint>) -> bool {
        &&& self.entry(0).caches_identity()
        &&& forall|i: int| 1 <= i <= 8 ==> (#[trigger] self.entry(i)).caches(points[i - 1])
        &&& forall|i: int| 1 <= i <= 8 ==> (#[trigger] self.entry(-i)).negates(self.entry(i))
    }

    /// The table of a point. Any coordinates are taken.
    pub fn new(point: &EdwardsPoint) -> (r: Self)
        requires
            point.limbs_wf(),
        ensures
            r.limbs_wf(),
            exists|points: Seq<EdwardsPoint>| #[trigger]
                are_multiples(points, *point) && r.caches_multiples(points),
            r.entry(0).caches_identity(),
            r.entry(1).caches(*point),
            eq(r.entry(2).z2v(), 2 * doubled_z(point.xv(), point.yv(), point.zv())),
            point.wf() ==> r.is_table_of(point.affine()),
            point.wf() && point.zv() == 1 ==> r.is_projective_table_of(point.affine()),
    {
        let points = multiples_of(point);
        let c: [CachedPoint; POINT_TABLE_SIZE] = [
            CachedPoint::new(&points[0]),
            CachedPoint::new(&points[1]),
            CachedPoint::new(&points[2]),
            CachedPoint::new(&points[3]),
            CachedPoint::new(&points[4]),
            CachedPoint::new(&points[5]),
            CachedPoint::new(&points[6]),
            CachedPoint::new(&points[7]),
        ];
        let n: [CachedPoint; POINT_TABLE_SIZE] = [
            c[0].negate(),
            c[1].negate(),
            c[2].negate(),
            c[3].negate(),
            c[4].negate(),
            c[5].negate(),
            c[6].negate(),
            c[7].negate(),
        ];
        let identity_cached = CachedPoint::identity();
        let r = PointTable::from_cached(c, n, identity_cached);
        proof {
            let a = point.affine();
            assert forall|digit: int| -8 <= digit <= 8 implies (#[trigger] r.entry(
                digit,
            )).limbs_wf() by {
                if digit > 0 {
                    assert(r.entry(digit) == c@[digit - 1]);
                    lemma_eight(digit);
                } else if digit < 0 {
                    assert(r.entry(digit) == n@[-digit - 1]);
                    lemma_eight(-digit);
                }
            }
            if point.wf() {
                lemma_smul_small(a);
                assert forall|digit: int| -8 <= digit <= 8 implies (#[trigger] r.entry(digit)).wf()
                    && r.entry(digit).affine() == smul(digit, a) by {
                    if digit > 0 {
                        assert(r.entry(digit) == c@[digit - 1]);
                        lemma_eight(digit);
                    } else if digit < 0 {
                        assert(r.entry(digit) == n@[-digit - 1]);
                        lemma_eight(-digit);
                        lemma_smul_neg(-digit, a);
                    }
                }
            }
            assert forall|i: int| 1 <= i <= 8 implies (#[trigger] r.entry(-i)).negates(
                r.entry(i),
            ) by {
                assert(r.entry(-i) == n@[i - 1]);
                assert(r.entry(i) == c@[i - 1]);
                lemma_eight(i);
            }
            assert forall|i: int| 1 <= i <= 8 implies (#[trigger] r.entry(i)).caches(
                points@[i - 1],
            ) by {
                assert(r.entry(i) == c@[i - 1]);
                lemma_eight(i);
            }
            assert(are_multiples(points@, *point) && r.caches_multiples(points@));
            let z2 = doubled_z(point.xv(), point.yv(), point.zv());
            assert(r.entry(2) == c@[1]);
            lemma_comb2(
                r.entry(2).z2v(),
                2 * z2,
                1,
                r.entry(2).z2v(),
                2 * points@[1].zv(),
                2,
                points@[1].zv(),
                z2,
            );
            if point.wf() && point.zv() == 1 {
                lemma_doubled_z(point.xv(), point.yv(), a.x, a.y);
                lemma_comb2(
                    r.entry(2).z2v(),
                    2 * doubled_z(a.x, a.y, 1),
                    1,
                    r.entry(2).z2v(),
                    2 * z2,
                    2,
                    z2,
                    doubled_z(a.x, a.y, 1),
                );
            }
        }
        r
    }

    /// The point that the table was made of, in the scaled coordinates
    /// `(2X : 2Y : 2Z : 2T)`.
    pub fn recover_base_point(&self) -> (r: EdwardsPoint)
        requires
            self.entry(1).limbs_wf(),
        ensures
            r.limbs_wf(),
            self.recovers_to(r),
            self.entry(1).wf() ==> r.wf() && r.affine() == self.entry(1).affine(),
    {
        let one = self.select_signed_cached_ref(1);
        let (plus, minus, z2, t2d) = one.coords();
        let r = EdwardsPoint::from_coords_unchecked(
            plus.subtract(minus),
            plus.add(minus),
            *z2,
            t2d.multiply(&Fe51::d_inv()),
        );
        proof {
            if one.wf() {
                let a = one.affine();
                lemma_cached_point(plus.val(), minus.val(), z2.val(), t2d.val(), a);
                lemma_eq_trans(r.xv(), plus.val() - minus.val(), a.x * z2.val());
                lemma_eq_trans(r.yv(), plus.val() + minus.val(), a.y * z2.val());
                lemma_constants();
                let (k, w, q, z) = (gf::d(), d_inverse(), a.x * a.y, z2.val());
                lemma_eq_refl(w);
                lemma_times(t2d.val(), (k * q) * z, w, w, r.tv());
                lemma_eq_refl(q * z);
                lemma_eq_ops(q * z, q * z, k * w, 1);
                assert(((k * q) * z) * w == (q * z) * (k * w)) by (nonlinear_arith);
                lemma_eq_trans(r.tv(), (q * z) * (k * w), q * z);
                lemma_projected(r.xv(), r.yv(), r.zv(), r.tv(), a);
            }
        }
        r
    }
}

/// The `Z` of a doubling depends only on the field values of the coordinates.
proof fn lemma_doubled_z(x: int, y: int, ax: int, ay: int)
    requires
        eq(x, ax * 1),
        eq(y, ay * 1),
    ensures
        eq(doubled_z(x, y, 1), doubled_z(ax, ay, 1)),
{
    lemma_eq_ops(x, ax, x, ax);
    lemma_eq_ops(y, ay, y, ay);
    lemma_eq_ops(y * y, ay * ay, x * x, ax * ax);
    lemma_eq_refl(2 * (1int * 1));
    lemma_eq_ops(y * y - x * x, ay * ay - ax * ax, 2 * (1int * 1), 2 * (1int * 1));
    lemma_eq_ops(
        y * y - x * x - 2 * (1int * 1),
        ay * ay - ax * ax - 2 * (1int * 1),
        y * y - x * x,
        ay * ay - ax * ax,
    );
}

/// A table built from affine coordinates is never normalized: the `Z` of a
/// doubling is one only where a square is two, and two is not a square.
pub proof fn lemma_projective_table(table: PointTable, a: Affine)
    requires
        table.is_projective_table_of(a),
    ensures
        !eq(table.entry(2).z2v(), 2),
        !table.normalized(),
{
    let g = a.y * a.y - a.x * a.x;
    let z = doubled_z(a.x, a.y, 1);
    let z2 = table.entry(2).z2v();
    lemma_constants();
    if eq(z2, 2) {
        lemma_eq_sym(z2, 2 * z);
        lemma_eq_trans(2 * z, z2, 2int * 1);
        lemma_eq_cancel(2, z, 1);
        assert((g - 1) * (g - 1) - 2 == 1 * ((g - 2 * (1int * 1)) * g - 1)) by (nonlinear_arith);
        lemma_comb1((g - 1) * (g - 1), 2, 1, z, 1);
        lemma_two_not_square(g - 1);
    }
    lemma_eq_refl(2);
}

/// The numbers from one to eight.
proof fn lemma_eight(i: int)
    requires
        1 <= i <= 8,
    ensures
        i == 1 || i == 2 || i == 3 || i == 4 || i == 5 || i == 6 || i == 7 || i == 8,
{
}

/// Eight points are the multiples of one, each doubled from its half or added
/// to from the one before.
pub open spec fn are_multiples(points: Seq<EdwardsPoint>, point: EdwardsPoint) -> bool {
    &&& points.len() == 8
    &&& points[0] == point
    &&& points[1].doubles(points[0])
    &&& points[2].sums(points[1], points[0])
    &&& points[3].doubles(points[1])
    &&& points[4].sums(points[3], points[0])
    &&& points[5].doubles(points[2])
    &&& points[6].sums(points[5], points[0])
    &&& points[7].doubles(points[3])
}

/// The multiples of a point from one to eight.
fn multiples_of(point: &EdwardsPoint) -> (r: [EdwardsPoint; POINT_TABLE_SIZE])
    requires
        point.limbs_wf(),
    ensures
        are_multiples(r@, *point),
        forall|i: int| 0 <= i < 8 ==> (#[trigger] r@[i]).limbs_wf(),
        point.wf() ==> forall|i: int|
            0 <= i < 8 ==> (#[trigger] r@[i]).wf() && r@[i].affine() == smul(i + 1, point.affine()),
{
    let p2 = point.double();
    let p3 = p2.add(point);
    let p4 = p2.double();
    let p5 = p4.add(point);
    let p6 = p3.double();
    let p7 = p6.add(point);
    let p8 = p4.double();
    proof {
        if point.wf() {
            let a = point.affine();
            lemma_smul_small(a);
            lemma_smul_step(2, a);
            lemma_smul_add(2, 2, a);
            lemma_smul_step(4, a);
            lemma_smul_add(3, 3, a);
            lemma_smul_step(6, a);
            lemma_smul_add(4, 4, a);
        }
    }
    [*point, p2, p3, p4, p5, p6, p7, p8]
}

/// Each of some points is the sum of the one before and the first.
pub open spec fn are_sums(points: Seq<EdwardsPoint>, base: EdwardsPoint) -> bool {
    &&& points.len() == BASEPOINT_TABLE_SIZE
    &&& points[0] == base
    &&& forall|j: int|
        1 <= j < points.len() ==> (#[trigger] points[j]).sums(points[j - 1], base)
}

/// The multiples of a fixed point from `-136` to `136`, with `Z = 1`.
#[derive(Clone, Debug)]
pub struct BasepointTable {
    entries: Vec<AffineCachedPoint>,
}

impl BasepointTable {
    /// The table has all its entries.
    pub closed spec fn sized(self) -> bool {
        self.entries@.len() == SIGNED_BASEPOINT_TABLE_SIZE
    }

    /// The entry for a digit.
    pub closed spec fn entry(self, digit: int) -> AffineCachedPoint {
        self.entries@[digit + BASEPOINT_TABLE_SIZE]
    }

    /// The entry for every digit `d` is `[d] a`.
    pub open spec fn is_table_of(self, a: Affine) -> bool {
        &&& on_curve(a)
        &&& self.sized()
        &&& forall|digit: int|
            -136 <= digit <= 136 ==> (#[trigger] self.entry(digit)).wf() && self.entry(
                digit,
            ).affine() == smul(digit, a)
    }

    /// The table of the base point.
    pub fn new() -> (r: Self)
        ensures
            r.is_table_of(basepoint()),
    {
        BasepointTable::from_point(&EdwardsPoint::basepoint())
    }

    /// The entries cache some points, divided by their `Z` together, their
    /// inverses and the identity.
    pub open spec fn caches_sums(self, points: Seq<EdwardsPoint>) -> bool {
        &&& self.sized()
        &&& self.entry(0).plusv() == 1
        &&& self.entry(0).minusv() == 1
        &&& self.entry(0).t2dv() == 0
        &&& forall|i: int|
            1 <= i <= 136 ==> (#[trigger] self.entry(i)).caches_affine(
                points[i - 1].xv() * shared_inverse(points[i - 1].zv(), all_finite(points)),
                points[i - 1].yv() * shared_inverse(points[i - 1].zv(), all_finite(points)),
            )
        &&& forall|i: int| 1 <= i <= 136 ==> (#[trigger] self.entry(-i)).negates(self.entry(i))
    }

    /// The table of a fixed point. Any coordinates are taken.
    pub fn from_point(base: &EdwardsPoint) -> (r: Self)
        requires
            base.limbs_wf(),
        ensures
            exists|points: Seq<EdwardsPoint>| #[trigger]
                are_sums(points, *base) && r.caches_sums(points),
            base.wf() ==> r.is_table_of(base.affine()),
    {
        let ghost a = base.affine();
        let mut points: Vec<EdwardsPoint> = Vec::new();
        points.push(*base);
        let mut i: usize = 1;
        proof {
            if base.wf() {
                lemma_smul_small(a);
            }
        }
        while i < BASEPOINT_TABLE_SIZE
            invariant
                1 <= i <= BASEPOINT_TABLE_SIZE,
                base.limbs_wf(),
                a == base.affine(),
                points@.len() == i,
                points@[0] == *base,
                forall|j: int| 0 <= j < i ==> (#[trigger] points@[j]).limbs_wf(),
                forall|j: int| 1 <= j < i ==> (#[trigger] points@[j]).sums(points@[j - 1], *base),
                base.wf() ==> forall|j: int|
                    0 <= j < i ==> (#[trigger] points@[j]).wf() && points@[j].affine() == smul(
                        j + 1,
                        a,
                    ),
            decreases BASEPOINT_TABLE_SIZE - i,
        {
            let next = points[i - 1].add(base);
            proof {
                if base.wf() {
                    lemma_smul_step(i as int, a);
                    assert(points@[i - 1].wf());
                }
            }
            points.push(next);
            i += 1;
        }
        assert(base.wf() ==> all_finite(points@)) by {
            if base.wf() {
                assert forall|j: int| 0 <= j < points@.len() implies !eq(
                    (#[trigger] points@[j]).zv(),
                    0,
                ) by {
                    assert(points@[j].wf());
                }
            }
        }
        let cached_points = to_affine_cached_batch(&points);
        let mut negative: Vec<AffineCachedPoint> = Vec::new();
        let mut k: usize = 0;
        while k < BASEPOINT_TABLE_SIZE
            invariant
                k <= BASEPOINT_TABLE_SIZE,
                cached_points@.len() == BASEPOINT_TABLE_SIZE,
                negative@.len() == k,
                forall|j: int|
                    0 <= j < BASEPOINT_TABLE_SIZE ==> (#[trigger] cached_points@[j]).limbs_wf(),
                forall|j: int|
                    0 <= j < k ==> (#[trigger] negative@[j]).negates(cached_points@[j]),
                forall|j: int|
                    0 <= j < k && cached_points@[j].wf() ==> (#[trigger] negative@[j]).wf()
                        && negative@[j].affine() == neg(cached_points@[j].affine()),
            decreases BASEPOINT_TABLE_SIZE - k,
        {
            negative.push(cached_points[k].negate());
            k += 1;
        }
        let identity_cached = AffineCachedPoint::identity();
        let entries = signed_cached_entries(
            cached_points.as_slice(),
            negative.as_slice(),
            identity_cached,
        );
        let r = BasepointTable { entries };
        proof {
            assert forall|i: int| 1 <= i <= 136 implies #[trigger] r.entry(i) == cached_points@[i
                - 1] by {
                assert(r.entries@[136 + 1 + (i - 1)] == cached_points@[i - 1]);
            }
            assert forall|i: int| 1 <= i <= 136 implies #[trigger] r.entry(-i) == negative@[i
                - 1] by {
                assert(136 - 1 - (136 - i) == i - 1);
                assert(negative@[136 - 1 - (136 - i)] == r.entries@[136 - i]);
            }
            assert forall|i: int| 1 <= i <= 136 implies (#[trigger] r.entry(-i)).negates(
                r.entry(i),
            ) by {
                assert(r.entry(-i) == negative@[i - 1]);
                assert(r.entry(i) == cached_points@[i - 1]);
            }
            assert(are_sums(points@, *base) && r.caches_sums(points@));
            if base.wf() {
                assert forall|digit: int| -136 <= digit <= 136 implies (#[trigger] r.entry(
                    digit,
                )).wf() && r.entry(digit).affine() == smul(digit, a) by {
                    if digit > 0 {
                        assert(r.entry(digit) == cached_points@[digit - 1]);
                        assert(points@[digit - 1].affine() == smul(digit, a));
                    } else if digit < 0 {
                        assert(r.entry(-(-digit)) == negative@[-digit - 1]);
                        assert(points@[-digit - 1].wf());
                        assert(cached_points@[-digit - 1].affine() == points@[-digit - 1].affine());
                        lemma_smul_neg(-digit, a);
                    } else {
                        lemma_smul_small(a);
                    }
                }
            }
        }
        r
    }

    /// The entry for a signed digit.
    pub fn select_signed_affine_cached_ref(&self, digit: i16) -> (r: &AffineCachedPoint)
        requires
            self.sized(),
            -136 <= digit <= 136,
        ensures
            *r == self.entry(digit as int),
    {
        &self.entries[(digit + 136) as usize]
    }
}

/// Removes a scale: from `v == q s` and `s w == k`, `v w == q k`.
proof fn lemma_unscale(v: int, q: int, s: int, w: int, k: int, r: int)
    requires
        eq(v, q * s),
        eq(s * w, k),
        eq(r, v * w),
    ensures
        eq(r, q * k),
{
    lemma_eq_refl(w);
    lemma_eq_refl(q);
    lemma_times(v, q * s, w, w, r);
    lemma_eq_ops(q, q, s * w, k);
    assert((q * s) * w == q * (s * w)) by (nonlinear_arith);
    lemma_eq_trans(r, q * (s * w), q * k);
}

impl CachedPoint {
    /// The coordinates are those of another times a factor, with `2 Z = 2`.
    pub open spec fn rescales(self, other: CachedPoint, w: int) -> bool {
        &&& self.z2v() == 2
        &&& eq(self.plusv(), other.plusv() * w)
        &&& eq(self.minusv(), other.minusv() * w)
        &&& eq(self.t2dv(), other.t2dv() * w)
    }

    /// The same point with `Z = 1`, given the inverse of `2 Z`. Any coordinates
    /// are multiplied by twice the given factor.
    fn normalize(&self, z2_inv: &Fe51, Ghost(i): Ghost<int>) -> (r: Self)
        requires
            self.limbs_wf(),
            z2_inv.wf(),
            eq(z2_inv.val(), i),
        ensures
            r.limbs_wf(),
            r.rescales(*self, 2 * i),
            self.wf() && i == finv(self.z2v()) ==> r.wf() && r.affine() == self.affine(),
    {
        let z_inv = z2_inv.double();
        let r = CachedPoint::from_fields(
            self.y_plus_x.multiply(&z_inv),
            self.y_minus_x.multiply(&z_inv),
            Fe51::two(),
            self.t2d.multiply(&z_inv),
        );
        proof {
            let (v, w) = (z2_inv.val(), z_inv.val());
            lemma_comb2(w, 2 * i, 1, w, 2 * v, 2, v, i);
            lemma_eq_refl(self.plusv());
            lemma_eq_refl(self.minusv());
            lemma_eq_refl(self.t2dv());
            lemma_times(self.plusv(), self.plusv(), w, 2 * i, r.plusv());
            lemma_times(self.minusv(), self.minusv(), w, 2 * i, r.minusv());
            lemma_times(self.t2dv(), self.t2dv(), w, 2 * i, r.t2dv());
            if self.wf() && i == finv(self.z2v()) {
                lemma_normalized_point(*self, r);
            }
        }
        r
    }
}

/// A point of the curve stays the same when its `Z` is divided out.
proof fn lemma_normalized_point(e: CachedPoint, r: CachedPoint)
    requires
        e.wf(),
        r.limbs_wf(),
        r.rescales(e, 2 * finv(e.z2v())),
    ensures
        r.wf(),
        r.affine() == e.affine(),
{
    let a = e.affine();
    let z2 = e.z2v();
    let h = half(z2);
    let v = finv(z2);
    let w = 2 * v;
    lemma_constants();
    lemma_half(z2);
    lemma_half_two();
    lemma_finv(z2);
    // z2 v == 1, z2 w == 2, h w == 1 == half(2)
    lemma_eq_refl(2);
    lemma_eq_ops(2, 2, z2 * v, 1);
    assert(z2 * (2 * v) == 2 * (z2 * v)) by (nonlinear_arith);
    lemma_eq_refl(v);
    lemma_eq_ops(2 * h, z2, v, v);
    assert(h * (2 * v) == (2 * h) * v) by (nonlinear_arith);
    lemma_eq_trans(h * w, z2 * v, 1);
    lemma_eq_sym(half(2), 1);
    lemma_eq_trans(h * w, 1, half(2));
    lemma_unscale(e.plusv(), a.y + a.x, h, w, half(2), r.plusv());
    lemma_unscale(e.minusv(), a.y - a.x, h, w, half(2), r.minusv());
    lemma_unscale(e.t2dv(), gf::d() * (a.x * a.y), z2, w, 2, r.t2dv());
    lemma_cached_point(r.plusv(), r.minusv(), r.z2v(), r.t2dv(), a);
}

/// No entry of some tables has a zero `2 Z`.
pub open spec fn all_invertible(tables: Seq<&PointTable>) -> bool {
    forall|t: int| 0 <= t < tables.len() ==> (#[trigger] tables[t]).invertible()
}

/// Tables of points have no zero `2 Z`.
pub proof fn lemma_invertible(tables: Seq<&PointTable>)
    requires
        forall|t: int| 0 <= t < tables.len() ==> (#[trigger] tables[t]).wf(),
    ensures
        all_invertible(tables),
        forall|t: int| 0 <= t < tables.len() ==> (#[trigger] tables[t]).limbs_wf(),
{
    assert forall|t: int| 0 <= t < tables.len() implies (#[trigger] tables[t]).invertible()
        && tables[t].limbs_wf() by {
        assert forall|digit: int| -8 <= digit <= 8 implies !eq(
            (#[trigger] tables[t].entry(digit)).z2v(),
            0,
        ) && tables[t].entry(digit).limbs_wf() by {
            assert(tables[t].entry(digit).wf());
        }
    }
}

impl PointTable {
    /// The limbs of all entries are within their bounds.
    pub open spec fn limbs_wf(self) -> bool {
        forall|digit: int| -8 <= digit <= 8 ==> (#[trigger] self.entry(digit)).limbs_wf()
    }

    /// No entry has a zero `2 Z`.
    pub open spec fn invertible(self) -> bool {
        forall|digit: int| -8 <= digit <= 8 ==> !eq((#[trigger] self.entry(digit)).z2v(), 0)
    }

    /// Every entry is that of another table divided by its `Z`; where one `Z`
    /// among those that are inverted together is zero, every entry is zero.
    pub open spec fn normalizes(self, other: PointTable, all_nonzero: bool) -> bool {
        forall|digit: int|
            -8 <= digit <= 8 ==> (#[trigger] self.entry(digit)).rescales(
                other.entry(digit),
                2 * shared_inverse(other.entry(digit).z2v(), all_nonzero),
            )
    }

    /// The same table with `Z = 1` in every entry.
    pub fn normalized_affine(&self) -> (r: Self)
        requires
            self.limbs_wf(),
        ensures
            r.limbs_wf(),
            r.normalized(),
            r.normalizes(*self, self.invertible()),
            self.wf() ==> r.wf() && r.same_points(*self),
    {
        let mut one: Vec<&PointTable> = Vec::new();
        one.push(self);
        let mut r = PointTable::normalized_affine_batch(one.as_slice());
        proof {
            assert(one@[0] == self);
            assert(all_invertible(one@) == self.invertible());
            if self.wf() {
                lemma_invertible(one@);
            }
        }
        r.pop().unwrap()
    }

    /// Several tables at once, with a single inversion for all their entries.
    pub fn normalized_affine_batch(tables: &[&Self]) -> (r: Vec<Self>)
        requires
            forall|t: int| 0 <= t < tables@.len() ==> (#[trigger] tables@[t]).limbs_wf(),
            tables@.len() * SIGNED_POINT_TABLE_SIZE <= usize::MAX,
        ensures
            r@.len() == tables@.len(),
            forall|t: int|
                0 <= t < tables@.len() ==> (#[trigger] r@[t]).limbs_wf() && r@[t].normalized()
                    && r@[t].normalizes(*tables@[t], all_invertible(tables@)),
            all_invertible(tables@) ==> forall|t: int|
                0 <= t < tables@.len() && tables@[t].wf() ==> (#[trigger] r@[t]).wf()
                    && r@[t].same_points(*tables@[t]),
    {
        let count = tables.len();
        let n: usize = count * SIGNED_POINT_TABLE_SIZE;
        let ghost ok = all_invertible(tables@);
        let mut z2: Vec<Fe51> = Vec::new();
        let mut i: usize = 0;
        while i < n
            invariant
                count == tables@.len(),
                n == count * 17,
                i <= n,
                z2@.len() == i,
                forall|t: int| 0 <= t < count ==> (#[trigger] tables@[t]).limbs_wf(),
                forall|j: int|
                    0 <= j < i ==> (#[trigger] z2@[j]).wf() && z2@[j].val() == tables@[j
                        / 17].entry(j % 17 - 8).z2v(),
            decreases n - i,
        {
            let table = tables[i / 17];
            proof {
                assert(tables@[i as int / 17].limbs_wf());
                assert(table.entry(i as int % 17 - 8).limbs_wf());
            }
            z2.push(table.entries[i % 17].z2);
            i += 1;
        }
        proof {
            if ok {
                assert forall|j: int| 0 <= j < z2@.len() implies !eq(
                    (#[trigger] z2@[j]).val(),
                    0,
                ) by {
                    assert(tables@[j / 17].invertible());
                    assert(!eq(tables@[j / 17].entry(j % 17 - 8).z2v(), 0));
                }
            } else {
                let t = choose|t: int|
                    0 <= t < tables@.len() && !(#[trigger] tables@[t]).invertible();
                let digit = choose|digit: int|
                    -8 <= digit <= 8 && eq((#[trigger] tables@[t].entry(digit)).z2v(), 0);
                let j = t * 17 + digit + 8;
                assert(j / 17 == t && j % 17 - 8 == digit);
                assert(eq(z2@[j].val(), 0));
            }
        }
        let z2_inv = batch_invert(&z2);
        let mut r: Vec<PointTable> = Vec::new();
        let mut t: usize = 0;
        while t < count
            invariant
                count == tables@.len(),
                n == count * 17,
                t <= count,
                z2@.len() == n,
                z2_inv@.len() == n,
                r@.len() == t,
                forall|k: int| 0 <= k < count ==> (#[trigger] tables@[k]).limbs_wf(),
                forall|j: int|
                    0 <= j < n ==> (#[trigger] z2@[j]).val() == tables@[j / 17].entry(
                        j % 17 - 8,
                    ).z2v(),
                forall|j: int|
                    0 <= j < n ==> (#[trigger] z2_inv@[j]).wf() && eq(
                        z2_inv@[j].val(),
                        shared_inverse(z2@[j].val(), ok),
                    ),
                forall|k: int|
                    0 <= k < t ==> (#[trigger] r@[k]).limbs_wf() && r@[k].normalized()
                        && r@[k].normalizes(*tables@[k], ok),
                ok ==> forall|k: int|
                    0 <= k < t && tables@[k].wf() ==> (#[trigger] r@[k]).wf()
                        && r@[k].same_points(*tables@[k]),
            decreases count - t,
        {
            let table = tables[t];
            let mut entries: [CachedPoint; SIGNED_POINT_TABLE_SIZE] = table.entries;
            let mut k: usize = 0;
            assert(table.limbs_wf());
            while k < 17
                invariant
                    count == tables@.len(),
                    n == count * 17,
                    t < count,
                    k <= 17,
                    z2@.len() == n,
                    z2_inv@.len() == n,
                    table == tables@[t as int],
                    table.limbs_wf(),
                    forall|j: int|
                        0 <= j < n ==> (#[trigger] z2@[j]).val() == tables@[j / 17].entry(
                            j % 17 - 8,
                        ).z2v(),
                    forall|j: int|
                        0 <= j < n ==> (#[trigger] z2_inv@[j]).wf() && eq(
                            z2_inv@[j].val(),
                            shared_inverse(z2@[j].val(), ok),
                        ),
                    forall|j: int|
                        0 <= j < k ==> (#[trigger] entries@[j]).limbs_wf() && entries@[j].rescales(
                            table.entry(j - 8),
                            2 * shared_inverse(table.entry(j - 8).z2v(), ok),
                        ),
                    forall|j: int|
                        0 <= j < k && ok && table.entry(j - 8).wf() ==> (
                        #[trigger] entries@[j]).wf() && entries@[j].affine() == table.entry(
                            j - 8,
                        ).affine(),
                decreases 17 - k,
            {
                let at: usize = t * 17 + k;
                let ghost e = table.entry(k - 8);
                proof {
                    assert(at as int / 17 == t && at as int % 17 == k);
                    assert(z2@[at as int].val() == tables@[t as int].entry(k - 8).z2v());
                    assert(e.limbs_wf());
                }
                entries[k] = table.entries[k].normalize(
                    &z2_inv[at],
                    Ghost(shared_inverse(e.z2v(), ok)),
                );
                k += 1;
            }
            let done = PointTable { entries };
            proof {
                assert forall|digit: int| -8 <= digit <= 8 implies (#[trigger] done.entry(
                    digit,
                )).limbs_wf() && done.entry(digit).rescales(
                    table.entry(digit),
                    2 * shared_inverse(table.entry(digit).z2v(), ok),
                ) by {
                    assert(done.entry(digit) == entries@[digit + 8]);
                    assert(digit + 8 - 8 == digit);
                }
                if ok && table.wf() {
                    assert forall|digit: int| -8 <= digit <= 8 implies (#[trigger] done.entry(
                        digit,
                    )).wf() && done.entry(digit).affine() == table.entry(digit).affine() by {
                        assert(done.entry(digit) == entries@[digit + 8]);
                        assert(table.entry(digit + 8 - 8).wf());
                    }
                }
            }
            r.push(done);
            t += 1;
        }
        r
    }
}

/// A table is made of one point only.
pub proof fn lemma_table_point(table: PointTable, a: Affine)
    requires
        table.is_table_of(a),
    ensures
        table.point() == a,
{
    lemma_smul_small(a);
}

/// Tables with the same points are tables of the same point.
pub proof fn lemma_same_table(a: PointTable, b: PointTable, at: Affine)
    requires
        a.wf(),
        a.same_points(b),
        b.is_table_of(at),
    ensures
        a.is_table_of(at),
{
    assert forall|digit: int| -8 <= digit <= 8 implies (#[trigger] a.entry(digit)).affine() == smul(
        digit,
        at,
    ) by {
        assert(b.entry(digit).affine() == smul(digit, at));
    }
}

/// A point recovered from a table that was made of a point is that point, with
/// every coordinate doubled.
pub proof fn lemma_recovered_doubles(table: PointTable, point: EdwardsPoint, r: EdwardsPoint)
    requires
        table.entry(1).caches(point),
        table.recovers_to(r),
    ensures
        eq(r.xv(), 2 * point.xv()),
        eq(r.yv(), 2 * point.yv()),
        eq(r.zv(), 2 * point.zv()),
        eq(r.tv(), 2 * point.tv()),
{
    let e = table.entry(1);
    lemma_eq_ops(e.plusv(), point.yv() + point.xv(), e.minusv(), point.yv() - point.xv());
    lemma_eq_trans(r.xv(), e.plusv() - e.minusv(), 2 * point.xv());
    lemma_eq_trans(r.yv(), e.plusv() + e.minusv(), 2 * point.yv());
    lemma_constants();
    let (k, w, t) = (gf::d(), d_inverse(), point.tv());
    lemma_eq_refl(w);
    lemma_times(e.t2dv(), (2 * k) * t, w, w, r.tv());
    lemma_eq_refl(2 * t);
    lemma_eq_ops(2 * t, 2 * t, k * w, 1);
    assert(((2 * k) * t) * w == (2 * t) * (k * w)) by (nonlinear_arith);
    lemma_eq_trans(r.tv(), (2 * t) * (k * w), 2 * t);
}

} // verus!
