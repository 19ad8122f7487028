//! Polynomials with integer coefficients in seven variables, as lists of
//! terms, and their products. An identity between products of polynomials
//! follows from unfolding both sides into terms.
use vstd::arithmetic::power::{lemma_pow0, lemma_pow1, lemma_pow_adds, pow};
use vstd::prelude::*;

verus! {

/// The values of the seven variables.
pub struct Vars {
    pub a: int,
    pub b: int,
    pub c: int,
    pub d: int,
    pub e: int,
    pub f: int,
    pub g: int,
}

/// A list of monomials to add or to subtract. A monomial is a number with one
/// hexadecimal digit for the exponent of each variable, the first variable in
/// the highest digit.
pub enum Poly {
    Zero,
    Plus(int, Box<Poly>),
    Minus(int, Box<Poly>),
}

pub open spec fn zero() -> Poly {
    Poly::Zero
}

/// `rest` plus the monomial `m`.
pub open spec fn plus(m: int, rest: Poly) -> Poly {
    Poly::Plus(m, Box::new(rest))
}

/// `rest` less the monomial `m`.
pub open spec fn minus(m: int, rest: Poly) -> Poly {
    Poly::Minus(m, Box::new(rest))
}

/// The value of a monomial.
#[verifier::opaque]
pub open spec fn mon(v: Vars, m: int) -> int {
    pow(v.a, (m / 0x1000000 % 16) as nat) * (pow(v.b, (m / 0x100000 % 16) as nat) * (pow(
        v.c,
        (m / 0x10000 % 16) as nat,
    ) * (pow(v.d, (m / 0x1000 % 16) as nat) * (pow(v.e, (m / 0x100 % 16) as nat) * (pow(
        v.f,
        (m / 0x10 % 16) as nat,
    ) * pow(v.g, (m % 16) as nat))))))
}

/// The value of a polynomial.
pub open spec fn val(v: Vars, p: Poly) -> int
    decreases p,
{
    match p {
        Poly::Zero => 0,
        Poly::Plus(m, rest) => val(v, *rest) + mon(v, m),
        Poly::Minus(m, rest) => val(v, *rest) - mon(v, m),
    }
}

/// No exponent of the monomial exceeds seven.
pub open spec fn small(m: int) -> bool {
    &&& 0 <= m < 0x10000000
    &&& m / 0x1000000 % 16 < 8
    &&& m / 0x100000 % 16 < 8
    &&& m / 0x10000 % 16 < 8
    &&& m / 0x1000 % 16 < 8
    &&& m / 0x100 % 16 < 8
    &&& m / 0x10 % 16 < 8
    &&& m % 16 < 8
}

pub open spec fn small_poly(p: Poly) -> bool
    decreases p,
{
    match p {
        Poly::Zero => true,
        Poly::Plus(m, rest) => small(m) && small_poly(*rest),
        Poly::Minus(m, rest) => small(m) && small_poly(*rest),
    }
}

/// The value of the monomial `m` times `p`, monomial by monomial.
pub open spec fn scaled(v: Vars, m: int, p: Poly) -> int
    decreases p,
{
    match p {
        Poly::Zero => 0,
        Poly::Plus(n, rest) => scaled(v, m, *rest) + mon(v, m + n),
        Poly::Minus(n, rest) => scaled(v, m, *rest) - mon(v, m + n),
    }
}

/// The value of the product of `p` and `q`, monomial by monomial.
pub open spec fn product(v: Vars, p: Poly, q: Poly) -> int
    decreases p,
{
    match p {
        Poly::Zero => 0,
        Poly::Plus(m, rest) => product(v, *rest, q) + scaled(v, m, q),
        Poly::Minus(m, rest) => product(v, *rest, q) - scaled(v, m, q),
    }
}

proof fn lemma_digits(m: int, n: int)
    requires
        small(m),
        small(n),
    ensures
        (m + n) / 0x1000000 % 16 == m / 0x1000000 % 16 + n / 0x1000000 % 16,
        (m + n) / 0x100000 % 16 == m / 0x100000 % 16 + n / 0x100000 % 16,
        (m + n) / 0x10000 % 16 == m / 0x10000 % 16 + n / 0x10000 % 16,
        (m + n) / 0x1000 % 16 == m / 0x1000 % 16 + n / 0x1000 % 16,
        (m + n) / 0x100 % 16 == m / 0x100 % 16 + n / 0x100 % 16,
        (m + n) / 0x10 % 16 == m / 0x10 % 16 + n / 0x10 % 16,
        (m + n) % 16 == m % 16 + n % 16,
{
    lemma_digit(m, n);
    lemma_digit(m / 0x10, n / 0x10);
    assert(m / 0x100 == m / 0x10 / 16 && n / 0x100 == n / 0x10 / 16);
    assert((m + n) / 0x100 == (m + n) / 0x10 / 16);
    lemma_digit(m / 0x100, n / 0x100);
    assert(m / 0x1000 == m / 0x100 / 16 && n / 0x1000 == n / 0x100 / 16);
    assert((m + n) / 0x1000 == (m + n) / 0x100 / 16);
    lemma_digit(m / 0x1000, n / 0x1000);
    assert(m / 0x10000 == m / 0x1000 / 16 && n / 0x10000 == n / 0x1000 / 16);
    assert((m + n) / 0x10000 == (m + n) / 0x1000 / 16);
    lemma_digit(m / 0x10000, n / 0x10000);
    assert(m / 0x100000 == m / 0x10000 / 16 && n / 0x100000 == n / 0x10000 / 16);
    assert((m + n) / 0x100000 == (m + n) / 0x10000 / 16);
    lemma_digit(m / 0x100000, n / 0x100000);
    assert(m / 0x1000000 == m / 0x100000 / 16 && n / 0x1000000 == n / 0x100000 / 16);
    assert((m + n) / 0x1000000 == (m + n) / 0x100000 / 16);
    lemma_digit(m / 0x1000000, n / 0x1000000);
    assert(m / 0x10000000 == m / 0x1000000 / 16 && n / 0x10000000 == n / 0x1000000 / 16);
    assert((m + n) / 0x10000000 == (m + n) / 0x1000000 / 16);
}

proof fn lemma_digit(m: int, n: int)
    requires
        m % 16 < 8,
        n % 16 < 8,
    ensures
        (m + n) % 16 == m % 16 + n % 16,
        (m + n) / 16 == m / 16 + n / 16,
{
}

/// The product of monomials adds their exponents.
pub proof fn lemma_mon(v: Vars, m: int, n: int)
    requires
        small(m),
        small(n),
    ensures
        mon(v, m + n) == mon(v, m) * mon(v, n),
{
    reveal(mon);
    lemma_digits(m, n);
    let (ma, mb, mc, md, me, mf, mg) = (
        (m / 0x1000000 % 16) as nat,
        (m / 0x100000 % 16) as nat,
        (m / 0x10000 % 16) as nat,
        (m / 0x1000 % 16) as nat,
        (m / 0x100 % 16) as nat,
        (m / 0x10 % 16) as nat,
        (m % 16) as nat,
    );
    let (na, nb, nc, nd, ne, nf, ng) = (
        (n / 0x1000000 % 16) as nat,
        (n / 0x100000 % 16) as nat,
        (n / 0x10000 % 16) as nat,
        (n / 0x1000 % 16) as nat,
        (n / 0x100 % 16) as nat,
        (n / 0x10 % 16) as nat,
        (n % 16) as nat,
    );
    lemma_pow_adds(v.a, ma, na);
    lemma_pow_adds(v.b, mb, nb);
    lemma_pow_adds(v.c, mc, nc);
    lemma_pow_adds(v.d, md, nd);
    lemma_pow_adds(v.e, me, ne);
    lemma_pow_adds(v.f, mf, nf);
    lemma_pow_adds(v.g, mg, ng);
    let m6 = pow(v.g, mg);
    let n6 = pow(v.g, ng);
    let m5 = pow(v.f, mf) * m6;
    let n5 = pow(v.f, nf) * n6;
    let m4 = pow(v.e, me) * m5;
    let n4 = pow(v.e, ne) * n5;
    let m3 = pow(v.d, md) * m4;
    let n3 = pow(v.d, nd) * n4;
    let m2 = pow(v.c, mc) * m3;
    let n2 = pow(v.c, nc) * n3;
    let m1 = pow(v.b, mb) * m2;
    let n1 = pow(v.b, nb) * n2;
    lemma_swap(pow(v.f, mf), pow(v.f, nf), m6, n6);
    lemma_swap(pow(v.e, me), pow(v.e, ne), m5, n5);
    lemma_swap(pow(v.d, md), pow(v.d, nd), m4, n4);
    lemma_swap(pow(v.c, mc), pow(v.c, nc), m3, n3);
    lemma_swap(pow(v.b, mb), pow(v.b, nb), m2, n2);
    lemma_swap(pow(v.a, ma), pow(v.a, na), m1, n1);
}

proof fn lemma_swap(a: int, b: int, x: int, y: int)
    ensures
        (a * b) * (x * y) == (a * x) * (b * y),
{
    assert((a * b) * (x * y) == (a * x) * (b * y)) by (nonlinear_arith);
}

proof fn lemma_scaled(v: Vars, m: int, p: Poly)
    requires
        small(m),
        small_poly(p),
    ensures
        scaled(v, m, p) == mon(v, m) * val(v, p),
    decreases p,
{
    let s = mon(v, m);
    match p {
        Poly::Zero => {},
        Poly::Plus(n, rest) => {
            lemma_scaled(v, m, *rest);
            lemma_mon(v, m, n);
            let t = mon(v, n);
            let r = val(v, *rest);
            assert(s * (r + t) == s * r + s * t) by (nonlinear_arith);
        },
        Poly::Minus(n, rest) => {
            lemma_scaled(v, m, *rest);
            lemma_mon(v, m, n);
            let t = mon(v, n);
            let r = val(v, *rest);
            assert(s * (r - t) == s * r - s * t) by (nonlinear_arith);
        },
    }
}

/// The product of values is the value of the product.
pub proof fn lemma_product(v: Vars, p: Poly, q: Poly)
    requires
        small_poly(p),
        small_poly(q),
    ensures
        product(v, p, q) == val(v, p) * val(v, q),
    decreases p,
{
    let s = val(v, q);
    match p {
        Poly::Zero => {},
        Poly::Plus(m, rest) => {
            lemma_product(v, *rest, q);
            lemma_scaled(v, m, q);
            let t = mon(v, m);
            let r = val(v, *rest);
            assert((r + t) * s == r * s + t * s) by (nonlinear_arith);
        },
        Poly::Minus(m, rest) => {
            lemma_product(v, *rest, q);
            lemma_scaled(v, m, q);
            let t = mon(v, m);
            let r = val(v, *rest);
            assert((r - t) * s == r * s - t * s) by (nonlinear_arith);
        },
    }
}

/// The monomials of a single variable, and of none.
pub proof fn lemma_variables(v: Vars)
    ensures
        mon(v, 0) == 1,
        mon(v, 0x1000000) == v.a,
        mon(v, 0x100000) == v.b,
        mon(v, 0x10000) == v.c,
        mon(v, 0x1000) == v.d,
        mon(v, 0x100) == v.e,
        mon(v, 0x10) == v.f,
        mon(v, 1) == v.g,
{
    reveal(mon);
    lemma_pow0(v.a);
    lemma_pow0(v.b);
    lemma_pow0(v.c);
    lemma_pow0(v.d);
    lemma_pow0(v.e);
    lemma_pow0(v.f);
    lemma_pow0(v.g);
    lemma_pow1(v.a);
    lemma_pow1(v.b);
    lemma_pow1(v.c);
    lemma_pow1(v.d);
    lemma_pow1(v.e);
    lemma_pow1(v.f);
    lemma_pow1(v.g);
    lemma_ones(v.a, 1, 1, 1, 1, 1, 1);
    lemma_ones(1, v.b, 1, 1, 1, 1, 1);
    lemma_ones(1, 1, v.c, 1, 1, 1, 1);
    lemma_ones(1, 1, 1, v.d, 1, 1, 1);
    lemma_ones(1, 1, 1, 1, v.e, 1, 1);
    lemma_ones(1, 1, 1, 1, 1, v.f, 1);
    lemma_ones(1, 1, 1, 1, 1, 1, v.g);
    lemma_ones(1, 1, 1, 1, 1, 1, 1);
}

/// A product in which all factors but one are one.
proof fn lemma_ones(a: int, b: int, c: int, d: int, e: int, f: int, g: int)
    requires
        a == 1 || (b == 1 && c == 1 && d == 1 && e == 1 && f == 1 && g == 1),
        b == 1 || (c == 1 && d == 1 && e == 1 && f == 1 && g == 1),
        c == 1 || (d == 1 && e == 1 && f == 1 && g == 1),
        d == 1 || (e == 1 && f == 1 && g == 1),
        e == 1 || (f == 1 && g == 1),
        f == 1 || g == 1,
    ensures
        a * (b * (c * (d * (e * (f * g))))) == a + b + c + d + e + f + g - 6,
{
    lemma_one(f, g);
    lemma_one(e, f * g);
    lemma_one(d, e * (f * g));
    lemma_one(c, d * (e * (f * g)));
    lemma_one(b, c * (d * (e * (f * g))));
    lemma_one(a, b * (c * (d * (e * (f * g)))));
}

proof fn lemma_one(a: int, b: int)
    requires
        a == 1 || b == 1,
    ensures
        a * b == a + b - 1,
{
    assert(a * b == a + b - 1) by (nonlinear_arith)
        requires
            a == 1 || b == 1,
    ;
}

} // verus!
