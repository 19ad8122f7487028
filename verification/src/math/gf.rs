//! The prime field of `2^255 - 19`: its modulus, its inverse, and the curve
//! constant `d`, which is not a square in it; nor is two.
use crate::math::certificate::{lemma_euler_255, lemma_prime_255};
use crate::math::congruence::{
    eqm, lemma_eqm_elim, lemma_eqm_iff_mod, lemma_eqm_intro, lemma_eqm_mod, lemma_eqm_ops,
    lemma_eqm_pow, lemma_eqm_refl, lemma_eqm_small, lemma_eqm_sym, lemma_eqm_trans,
};
use crate::math::primes::{is_prime, lemma_cancel, lemma_euclid, lemma_fermat};
use vstd::arithmetic::power::{lemma1_pow, lemma_pow1, lemma_pow_adds, lemma_pow_multiplies, pow};
use vstd::prelude::*;

verus! {

/// The field's modulus.
#[verifier::opaque]
pub open spec fn p() -> int {
    0x7fffffffffffffffffffffffffffffffffffffffffffffffffffffffffffffedint
}

/// The curve constant, `-121665 / 121666`.
#[verifier::opaque]
pub open spec fn d() -> int {
    0x52036cee2b6ffe738cc740797779e89800700a4d4141d8ab75eb4dca135978a3int
}

/// The inverse of the curve constant.
#[verifier::opaque]
pub open spec fn d_inverse() -> int {
    0x40907ed214d5ce432b162114cdb9cf660b5dd6984279542e25e0f276cdc9f843int
}

/// A square root of minus one.
#[verifier::opaque]
pub open spec fn sqrt_m1() -> int {
    0x2b8324804fc1df0b2b4d00993dfbd7a72f431806ad2fe478c4ee1b274a0ea0b0int
}

/// Equality in the field.
pub open spec fn eq(a: int, b: int) -> bool {
    eqm(p(), a, b)
}

/// The inverse in the field; zero for zero.
#[verifier::opaque]
pub open spec fn finv(a: int) -> int {
    pow(a, (p() - 2) as nat) % p()
}

pub proof fn lemma_p()
    ensures
        is_prime(p()),
        p() > 0x7000000000000000000000000000000000000000000000000000000000000000int,
        p() == 0x8000000000000000000000000000000000000000000000000000000000000000int - 19,
        p() % 2 == 1,
{
    reveal(p);
    lemma_prime_255();
}

/// A congruence follows from congruences of which it is a combination.
pub proof fn lemma_comb1(a: int, b: int, k1: int, l1: int, r1: int)
    requires
        a - b == k1 * (l1 - r1),
        eq(l1, r1),
    ensures
        eq(a, b),
{
    lemma_p();
    let m1 = lemma_eqm_elim(p(), l1, r1);
    let n = p();
    assert(a - b == n * (k1 * m1)) by (nonlinear_arith)
        requires
            a - b == k1 * (l1 - r1),
            l1 - r1 == n * m1,
    ;
    lemma_eqm_intro(n, a, b, k1 * m1);
}

pub proof fn lemma_comb2(a: int, b: int, k1: int, l1: int, r1: int, k2: int, l2: int, r2: int)
    requires
        a - b == k1 * (l1 - r1) + k2 * (l2 - r2),
        eq(l1, r1),
        eq(l2, r2),
    ensures
        eq(a, b),
{
    lemma_p();
    let m1 = lemma_eqm_elim(p(), l1, r1);
    let m2 = lemma_eqm_elim(p(), l2, r2);
    let n = p();
    assert(a - b == n * (k1 * m1 + k2 * m2)) by (nonlinear_arith)
        requires
            a - b == k1 * (l1 - r1) + k2 * (l2 - r2),
            l1 - r1 == n * m1,
            l2 - r2 == n * m2,
    ;
    lemma_eqm_intro(n, a, b, k1 * m1 + k2 * m2);
}

pub proof fn lemma_comb3(
    a: int,
    b: int,
    k1: int,
    l1: int,
    r1: int,
    k2: int,
    l2: int,
    r2: int,
    k3: int,
    l3: int,
    r3: int,
)
    requires
        a - b == k1 * (l1 - r1) + k2 * (l2 - r2) + k3 * (l3 - r3),
        eq(l1, r1),
        eq(l2, r2),
        eq(l3, r3),
    ensures
        eq(a, b),
{
    lemma_comb2(
        k1 * (l1 - r1) + k2 * (l2 - r2),
        0,
        k1,
        l1,
        r1,
        k2,
        l2,
        r2,
    );
    assert(a - b == 1 * (k1 * (l1 - r1) + k2 * (l2 - r2) - 0) + k3 * (l3 - r3));
    lemma_comb2(a, b, 1, k1 * (l1 - r1) + k2 * (l2 - r2), 0, k3, l3, r3);
}

pub proof fn lemma_comb4(
    a: int,
    b: int,
    k1: int,
    l1: int,
    r1: int,
    k2: int,
    l2: int,
    r2: int,
    k3: int,
    l3: int,
    r3: int,
    k4: int,
    l4: int,
    r4: int,
)
    requires
        a - b == k1 * (l1 - r1) + k2 * (l2 - r2) + k3 * (l3 - r3) + k4 * (l4 - r4),
        eq(l1, r1),
        eq(l2, r2),
        eq(l3, r3),
        eq(l4, r4),
    ensures
        eq(a, b),
{
    let s = k1 * (l1 - r1) + k2 * (l2 - r2);
    lemma_comb2(s, 0, k1, l1, r1, k2, l2, r2);
    assert(a - b == 1 * (s - 0) + k3 * (l3 - r3) + k4 * (l4 - r4));
    lemma_comb3(a, b, 1, s, 0, k3, l3, r3, k4, l4, r4);
}

pub proof fn lemma_swap(a: int, b: int, x: int, y: int)
    ensures
        (a * b) * (x * y) == (a * x) * (b * y),
{
    assert((a * b) * (x * y) == (a * x) * (b * y)) by (nonlinear_arith);
}

/// The reduced representative.
pub proof fn lemma_reduced(a: int)
    ensures
        0 <= a % p() < p(),
        eq(a % p(), a),
        eq(a, a % p()),
{
    lemma_p();
    lemma_eqm_mod(p(), a);
}

pub proof fn lemma_eq_mod(a: int, b: int)
    ensures
        eq(a, b) <==> a % p() == b % p(),
{
    lemma_p();
    lemma_eqm_iff_mod(p(), a, b);
}

pub proof fn lemma_eq_small(a: int, b: int)
    requires
        0 <= a < p(),
        0 <= b < p(),
        eq(a, b),
    ensures
        a == b,
{
    lemma_eqm_small(p(), a, b);
}

pub proof fn lemma_eq_refl(a: int)
    ensures
        eq(a, a),
{
    lemma_p();
    lemma_eqm_refl(p(), a);
}

pub proof fn lemma_eq_sym(a: int, b: int)
    requires
        eq(a, b),
    ensures
        eq(b, a),
{
    lemma_p();
    lemma_eqm_sym(p(), a, b);
}

pub proof fn lemma_eq_trans(a: int, b: int, c: int)
    requires
        eq(a, b),
        eq(b, c),
    ensures
        eq(a, c),
{
    lemma_p();
    lemma_eqm_trans(p(), a, b, c);
}

/// Sums, differences and products of field-equal integers are field-equal.
pub proof fn lemma_eq_ops(a: int, a2: int, b: int, b2: int)
    requires
        eq(a, a2),
        eq(b, b2),
    ensures
        eq(a + b, a2 + b2),
        eq(a - b, a2 - b2),
        eq(a * b, a2 * b2),
{
    lemma_p();
    lemma_eqm_ops(p(), a, a2, b, b2);
}

/// A product vanishes only where a factor does.
pub proof fn lemma_nonzero_product(a: int, b: int)
    requires
        !eq(a, 0),
        !eq(b, 0),
    ensures
        !eq(a * b, 0),
{
    lemma_p();
    if eq(a * b, 0) {
        lemma_euclid(p(), a, b);
    }
}

pub proof fn lemma_eq_cancel(c: int, a: int, b: int)
    requires
        !eq(c, 0),
        eq(c * a, c * b),
    ensures
        eq(a, b),
{
    lemma_p();
    lemma_cancel(p(), c, a, b);
}

/// `finv` inverts everything but zero.
pub proof fn lemma_finv(a: int)
    ensures
        0 <= finv(a) < p(),
        !eq(a, 0) ==> eq(a * finv(a), 1),
        !eq(a, 0) ==> !eq(finv(a), 0),
        eq(a, 0) ==> finv(a) == 0,
{
    reveal(finv);
    lemma_p();
    let e = (p() - 2) as nat;
    let q = pow(a, e);
    lemma_reduced(q);
    if !eq(a, 0) {
        lemma_fermat(p(), a);
        reveal(pow);
        assert(pow(a, (p() - 1) as nat) == a * q);
        assert(a * finv(a) - a * q == a * (finv(a) - q)) by (nonlinear_arith);
        lemma_comb1(a * finv(a), a * q, a, finv(a), q);
        lemma_eq_trans(a * finv(a), a * q, 1);
        if eq(finv(a), 0) {
            assert(a * finv(a) - 0 == a * (finv(a) - 0));
            lemma_comb1(a * finv(a), 0, a, finv(a), 0);
            lemma_eq_sym(a * finv(a), 1);
            lemma_eq_trans(1, a * finv(a), 0);
            lemma_eq_small(1, 0);
        }
    } else {
        lemma_eqm_pow(p(), a, 0, e);
        vstd::arithmetic::power::lemma0_pow(e);
        lemma_eq_trans(finv(a), q, 0);
        lemma_eq_small(finv(a), 0);
    }
}

/// The only inverse is `finv`.
pub proof fn lemma_finv_unique(a: int, w: int)
    requires
        eq(a * w, 1),
    ensures
        !eq(a, 0),
        eq(w, finv(a)),
{
    lemma_p();
    if eq(a, 0) {
        assert(a * w - 0 == w * (a - 0)) by (nonlinear_arith);
        lemma_comb1(a * w, 0, w, a, 0);
        lemma_eq_sym(a * w, 1);
        lemma_eq_trans(1, a * w, 0);
        lemma_eq_small(1, 0);
    }
    lemma_finv(a);
    lemma_eq_sym(a * finv(a), 1);
    lemma_eq_trans(a * w, 1, a * finv(a));
    lemma_eq_cancel(a, w, finv(a));
}

/// Two and the other constants of the curve.
pub proof fn lemma_constants()
    ensures
        0 < d() < p(),
        0 < d_inverse() < p(),
        0 < sqrt_m1() < p(),
        eq(d() * d_inverse(), 1),
        eq(sqrt_m1() * sqrt_m1(), -1),
        eq(d() * 121666, -121665),
        !eq(d(), 0),
        !eq(2, 0),
        !eq(1, 0),
{
    reveal(p);
    reveal(d);
    reveal(d_inverse);
    reveal(sqrt_m1);
    lemma_p();
    assert(d() * d_inverse() % p() == 1) by (nonlinear_arith) {
        reveal(p);
        reveal(d);
        reveal(d_inverse);
    }
    lemma_eq_mod(d() * d_inverse(), 1);
    assert((sqrt_m1() * sqrt_m1() + 1) % p() == 0) by (nonlinear_arith) {
        reveal(p);
        reveal(sqrt_m1);
    }
    lemma_eq_mod(sqrt_m1() * sqrt_m1() + 1, 0);
    assert(sqrt_m1() * sqrt_m1() - (-1) == 1 * ((sqrt_m1() * sqrt_m1() + 1) - 0));
    lemma_comb1(sqrt_m1() * sqrt_m1(), -1, 1, sqrt_m1() * sqrt_m1() + 1, 0);
    assert((d() * 121666 + 121665) % p() == 0);
    lemma_eq_mod(d() * 121666 + 121665, 0);
    assert(d() * 121666 - (-121665) == 1 * ((d() * 121666 + 121665) - 0));
    lemma_comb1(d() * 121666, -121665, 1, d() * 121666 + 121665, 0);
    if eq(d(), 0) {
        lemma_eq_small(d(), 0);
    }
    if eq(2, 0) {
        lemma_eq_small(2, 0);
    }
    if eq(1, 0) {
        lemma_eq_small(1, 0);
    }
}

/// The half power of a nonzero square is one.
pub proof fn lemma_square_half_power(a: int, w: int)
    requires
        !eq(w, 0),
        eq(a, w * w),
    ensures
        eq(pow(a, ((p() - 1) / 2) as nat), 1),
{
    lemma_p();
    let h = ((p() - 1) / 2) as nat;
    lemma_eqm_pow(p(), a, w * w, h);
    lemma_pow1(w);
    lemma_pow_adds(w, 1, 1);
    lemma_pow_multiplies(w, 2, h);
    lemma_fermat(p(), w);
    assert(pow(w * w, h) == pow(w, (p() - 1) as nat));
    lemma_eq_trans(pow(a, h), pow(w * w, h), 1);
}

/// `d` times a nonzero square is not a square.
pub proof fn lemma_d_not_square(w: int, s: int)
    requires
        !eq(s, 0),
    ensures
        !eq(w * w, d() * (s * s)),
{
    lemma_constants();
    lemma_p();
    let c: int = 121665int * 121666;
    let i = sqrt_m1();
    if eq(w * w, d() * (s * s)) {
        // c is the square of 121666 i w / s.
        let z = finv(s);
        lemma_finv(s);
        let g = i * 121666;
        let h = w * z;
        let r = g * h;
        lemma_swap(i, 121666, i, 121666);
        lemma_swap(w, z, w, z);
        lemma_swap(s, z, s, z);
        lemma_swap(g, h, g, h);
        // g^2 = -121666^2
        lemma_eq_refl(121666int * 121666);
        lemma_eq_ops(i * i, -1, 121666int * 121666, 121666int * 121666);
        // h^2 = d s^2 z^2 = d
        lemma_eq_refl(z * z);
        lemma_eq_ops(w * w, d() * (s * s), z * z, z * z);
        lemma_eq_ops(s * z, 1, s * z, 1);
        lemma_eq_refl(d());
        lemma_eq_ops(d(), d(), (s * s) * (z * z), 1);
        assert(d() * (s * s) * (z * z) == d() * ((s * s) * (z * z))) by (nonlinear_arith);
        lemma_eq_trans(h * h, d() * ((s * s) * (z * z)), d());
        lemma_eq_ops(g * g, -1 * (121666int * 121666), h * h, d());
        lemma_eq_refl(-121666);
        lemma_eq_ops(-121666, -121666, d() * 121666, -121665);
        assert(-1 * (121666int * 121666) * d() == -121666 * (d() * 121666));
        lemma_eq_trans(r * r, -121666 * (d() * 121666), c);
        if eq(r, 0) {
            assert(r * r - 0 == r * (r - 0));
            lemma_comb1(r * r, 0, r, r, 0);
            lemma_eq_sym(r * r, c);
            lemma_eq_trans(c, r * r, 0);
            lemma_eq_small(c, 0);
        }
        lemma_eq_sym(r * r, c);
        lemma_square_half_power(c, r);
        lemma_euler_255();
        reveal(p);
        let v = pow(c, ((p() - 1) / 2) as nat);
        assert(eq(v, -1));
        lemma_eq_sym(v, 1);
        lemma_eq_trans(1, v, -1);
        assert(2 - 0 == 1 * (1 - (-1)));
        lemma_comb1(2, 0, 1, 1, -1);
    }
}

/// Minus one to an odd power.
proof fn lemma_odd_power(n: nat)
    requires
        n % 2 == 1,
    ensures
        pow(-1, n) == -1,
{
    let m = (n / 2) as nat;
    lemma_pow1(-1);
    lemma_pow_adds(-1, 1, 1);
    assert(pow(-1, 2) == 1) by (nonlinear_arith)
        requires
            pow(-1, 2) == pow(-1, 1) * pow(-1, 1),
            pow(-1, 1) == -1,
    ;
    lemma_pow_multiplies(-1, 2, m);
    lemma1_pow(m);
    lemma_pow_adds(-1, 2 * m, 1);
    assert(2 * m + 1 == n);
}

/// Two is not a square.
pub proof fn lemma_two_not_square(w: int)
    ensures
        !eq(w * w, 2),
{
    lemma_constants();
    lemma_p();
    let i = sqrt_m1();
    if eq(w * w, 2) {
        // i is the square of (1 + i) w / 2.
        let h = finv(2);
        lemma_finv(2);
        let u = (1 + i) * w;
        let v = u * h;
        assert((1 + i) * (1 + i) - 2 * i == 1 * (i * i - (-1))) by (nonlinear_arith);
        lemma_comb1((1 + i) * (1 + i), 2 * i, 1, i * i, -1);
        lemma_eq_ops((1 + i) * (1 + i), 2 * i, w * w, 2);
        lemma_swap(1 + i, w, 1 + i, w);
        lemma_eq_ops(2 * h, 1, 2 * h, 1);
        lemma_eq_refl(h * h);
        lemma_eq_ops(u * u, 2 * i * 2, h * h, h * h);
        lemma_swap(u, h, u, h);
        lemma_eq_refl(i);
        lemma_eq_ops(i, i, (2 * h) * (2 * h), 1);
        assert((2 * i * 2) * (h * h) == i * ((2 * h) * (2 * h))) by (nonlinear_arith);
        lemma_eq_trans(v * v, i * ((2 * h) * (2 * h)), i);
        if eq(v, 0) {
            assert(v * v - 0 == v * (v - 0));
            lemma_comb1(v * v, 0, v, v, 0);
            lemma_eq_sym(v * v, i);
            lemma_eq_trans(i, v * v, 0);
            lemma_eq_small(i, 0);
        }
        lemma_eq_sym(v * v, i);
        lemma_square_half_power(i, v);
        // i^((p - 1) / 2) == (-1)^((p - 1) / 4) == -1
        let q = ((p() - 1) / 4) as nat;
        let half = ((p() - 1) / 2) as nat;
        assert(half == 2 * q);
        lemma_pow1(i);
        lemma_pow_adds(i, 1, 1);
        lemma_pow_multiplies(i, 2, q);
        lemma_eqm_pow(p(), i * i, -1, q);
        lemma_odd_power(q);
        assert(pow(i, half) == pow(i * i, q));
        lemma_eq_sym(pow(i, half), 1);
        lemma_eq_trans(1, pow(i, half), -1);
        assert(2 - 0 == 1 * (1 - (-1)));
        lemma_comb1(2, 0, 1, 1, -1);
    }
}

} // verus!
