//! Primes: inverses, Euclid's lemma, Fermat's little theorem and
//! Pocklington's criterion.
use crate::math::congruence::{
    eqm, lemma_eqm_divisor, lemma_eqm_elim, lemma_eqm_iff_mod, lemma_eqm_intro, lemma_eqm_mod,
    lemma_eqm_ops, lemma_eqm_pow, lemma_eqm_pow_one, lemma_eqm_refl, lemma_eqm_small, lemma_eqm_sym,
    lemma_eqm_trans,
};
use vstd::arithmetic::div_mod::{lemma_fundamental_div_mod, lemma_mod_bound};
use vstd::arithmetic::power::{lemma_pow0, lemma_pow1, lemma_pow_adds, lemma_pow_multiplies, pow};
use vstd::prelude::*;
use vstd::set_lib::{lemma_int_range, lemma_map_size, lemma_subset_equality, set_int_range};

verus! {

/// `d` divides `n`.
pub open spec fn divides(d: int, n: int) -> bool {
    exists|k: int| n == #[trigger] (d * k)
}

pub open spec fn is_prime(n: int) -> bool {
    &&& n >= 2
    &&& forall|d: int| 1 < d < n ==> !#[trigger] divides(d, n)
}

/// Every integer from two on has a prime divisor, and one that is not itself
/// prime has one whose square does not exceed it.
pub proof fn lemma_prime_divisor(n: int) -> (r: int)
    requires
        n >= 2,
    ensures
        is_prime(r),
        divides(r, n),
        !is_prime(n) ==> r * r <= n,
    decreases n,
{
    if is_prime(n) {
        assert(n == n * 1);
        n
    } else {
        let d = choose|d: int| 1 < d < n && #[trigger] divides(d, n);
        let k = choose|k: int| n == #[trigger] (d * k);
        assert(1 < k < n) by (nonlinear_arith)
            requires
                1 < d < n,
                n == d * k,
        ;
        let m = if d <= k {
            d
        } else {
            k
        };
        let o = if d <= k {
            k
        } else {
            d
        };
        assert(n == m * o) by (nonlinear_arith)
            requires
                n == d * k,
                (m == d && o == k) || (m == k && o == d),
        ;
        let r = lemma_prime_divisor(m);
        let c = choose|c: int| m == #[trigger] (r * c);
        assert(n == r * (c * o)) by (nonlinear_arith)
            requires
                n == m * o,
                m == r * c,
        ;
        assert(r * r <= n) by (nonlinear_arith)
            requires
                n == m * o,
                m == r * c,
                1 < m <= o,
                r >= 2,
        {
            assert(c >= 1) by (nonlinear_arith)
                requires
                    m == r * c,
                    m > 1,
                    r >= 2,
            ;
            assert(r <= m) by (nonlinear_arith)
                requires
                    m == r * c,
                    c >= 1,
                    r >= 2,
            ;
            assert(r * r <= m * o) by (nonlinear_arith)
                requires
                    2 <= r <= m <= o,
            ;
        }
        r
    }
}

/// Bezout coefficients `(x, y)` and the greatest common divisor `g` of
/// `(a, b)`, by Euclid's algorithm.
proof fn lemma_bezout(a: int, b: int) -> (r: (int, int, int))
    requires
        a > 0,
        b >= 0,
    ensures
        r.0 > 0,
        divides(r.0, a),
        divides(r.0, b),
        r.1 * a + r.2 * b == r.0,
    decreases b,
{
    if b == 0 {
        assert(a == a * 1);
        assert(0 == a * 0);
        (a, 1, 0)
    } else {
        let q = a / b;
        let m = a % b;
        lemma_fundamental_div_mod(a, b);
        lemma_mod_bound(a, b);
        let (g, x, y) = lemma_bezout(b, m);
        let u = choose|u: int| b == #[trigger] (g * u);
        let v = choose|v: int| m == #[trigger] (g * v);
        assert(a == g * (u * q + v)) by (nonlinear_arith)
            requires
                a == b * q + m,
                b == g * u,
                m == g * v,
        ;
        assert(y * a + (x - y * q) * b == g) by (nonlinear_arith)
            requires
                a == b * q + m,
                x * b + y * m == g,
        ;
        (g, y, x - y * q)
    }
}

/// What is not a multiple of the prime `n` has an inverse modulo `n`.
pub proof fn lemma_inverse_exists(n: int, a: int) -> (w: int)
    requires
        is_prime(n),
        !eqm(n, a, 0),
    ensures
        0 <= w < n,
        eqm(n, a * w, 1),
{
    let m = a % n;
    lemma_eqm_mod(n, a);
    if m == 0 {
        lemma_eqm_trans(n, a, m, 0);
    }
    let (g, x, y) = lemma_bezout(n, m);
    let u = choose|u: int| n == #[trigger] (g * u);
    let v = choose|v: int| m == #[trigger] (g * v);
    assert(g == 1) by {
        assert(v >= 1) by (nonlinear_arith)
            requires
                m == g * v,
                m > 0,
                g > 0,
        ;
        assert(g <= m) by (nonlinear_arith)
            requires
                m == g * v,
                v >= 1,
                g > 0,
        ;
        if g > 1 {
            assert(divides(g, n));
        }
    }
    assert(y * m - 1 == n * (-x)) by (nonlinear_arith)
        requires
            x * n + y * m == 1,
    ;
    lemma_eqm_intro(n, y * m, 1, -x);
    let w = y % n;
    lemma_eqm_mod(n, y);
    lemma_eqm_ops(n, a, m, w, y);
    assert(m * y == y * m) by (nonlinear_arith);
    lemma_eqm_trans(n, a * w, m * y, 1);
    w
}

/// Euclid's lemma.
pub proof fn lemma_euclid(n: int, a: int, b: int)
    requires
        is_prime(n),
        eqm(n, a * b, 0),
    ensures
        eqm(n, a, 0) || eqm(n, b, 0),
{
    if !eqm(n, a, 0) {
        let w = lemma_inverse_exists(n, a);
        lemma_eqm_refl(n, w);
        lemma_eqm_ops(n, w, w, a * b, 0);
        lemma_eqm_refl(n, b);
        lemma_eqm_ops(n, a * w, 1, b, b);
        assert(w * (a * b) == (a * w) * b) by (nonlinear_arith);
        lemma_eqm_sym(n, (a * w) * b, 1 * b);
        lemma_eqm_trans(n, b, (a * w) * b, 0);
    }
}

/// A common factor that is not a multiple of the prime `n` can be cancelled.
pub proof fn lemma_cancel(n: int, c: int, a: int, b: int)
    requires
        is_prime(n),
        !eqm(n, c, 0),
        eqm(n, c * a, c * b),
    ensures
        eqm(n, a, b),
{
    let k = lemma_eqm_elim(n, c * a, c * b);
    assert(c * (a - b) - 0 == n * k) by (nonlinear_arith)
        requires
            c * a - c * b == n * k,
    ;
    lemma_eqm_intro(n, c * (a - b), 0, k);
    lemma_euclid(n, c, a - b);
    let j = lemma_eqm_elim(n, a - b, 0);
    lemma_eqm_intro(n, a, b, j);
}

/// The product of the members of a finite set.
spec fn set_product(s: Set<int>) -> int
    decreases s.len(),
    when s.finite()
{
    if s.len() == 0 {
        1
    } else {
        let x = s.choose();
        x * set_product(s.remove(x))
    }
}

/// Any member can be split off the product.
proof fn lemma_set_product_split(s: Set<int>, x: int)
    requires
        s.finite(),
        s.contains(x),
    ensures
        set_product(s) == x * set_product(s.remove(x)),
    decreases s.len(),
{
    let c = s.choose();
    assert(s.contains(c));
    assert(s.len() > 0);
    if c != x {
        lemma_set_product_split(s.remove(c), x);
        lemma_set_product_split(s.remove(x), c);
        assert(s.remove(c).remove(x) =~= s.remove(x).remove(c));
        let t = set_product(s.remove(c).remove(x));
        assert(c * (x * t) == x * (c * t)) by (nonlinear_arith);
    }
}

/// Scaling every member of a set of residues by `a` scales their product by
/// a power of `a`; no product of nonzero residues vanishes.
proof fn lemma_scaled_product(n: int, a: int, s: Set<int>)
    requires
        is_prime(n),
        !eqm(n, a, 0),
        s.finite(),
        forall|x: int| s.contains(x) ==> 0 < x < n,
    ensures
        s.map(|x: int| (a * x) % n).finite(),
        eqm(
            n,
            set_product(s.map(|x: int| (a * x) % n)),
            pow(a, s.len()) * set_product(s),
        ),
        !eqm(n, set_product(s), 0),
    decreases s.len(),
{
    let f = |x: int| (a * x) % n;
    if s.len() == 0 {
        assert(s =~= Set::empty());
        assert(s.map(f) =~= Set::empty());
        lemma_pow0(a);
        lemma_eqm_refl(n, 1);
        if eqm(n, 1, 0) {
            lemma_eqm_small(n, 1, 0);
        }
    } else {
        let x = s.choose();
        let s1 = s.remove(x);
        lemma_scaled_product(n, a, s1);
        let m = s.map(f);
        let m1 = s1.map(f);
        assert(m =~= m1.insert(f(x))) by {
            assert forall|y: int| m.contains(y) implies m1.insert(f(x)).contains(y) by {
                let z = choose|z: int| s.contains(z) && y == f(z);
                if z != x {
                    assert(s1.contains(z));
                }
            }
            assert forall|y: int| m1.insert(f(x)).contains(y) implies m.contains(y) by {
                if y == f(x) {
                    assert(s.contains(x));
                } else {
                    let z = choose|z: int| s1.contains(z) && y == f(z);
                    assert(s.contains(z));
                }
            }
        }
        if m1.contains(f(x)) {
            let z = choose|z: int| s1.contains(z) && f(x) == f(z);
            lemma_eqm_iff_mod(n, a * x, a * z);
            lemma_cancel(n, a, x, z);
            lemma_eqm_small(n, x, z);
        }
        assert(m.remove(f(x)) =~= m1);
        lemma_set_product_split(m, f(x));
        lemma_set_product_split(s, x);
        let k = s1.len();
        lemma_eqm_mod(n, a * x);
        lemma_eqm_ops(n, f(x), a * x, set_product(m1), pow(a, k) * set_product(s1));
        reveal(pow);
        assert(pow(a, s.len()) == a * pow(a, k));
        assert((a * x) * (pow(a, k) * set_product(s1)) == (a * pow(a, k)) * (x * set_product(s1)))
            by (nonlinear_arith);
        if eqm(n, set_product(s), 0) {
            lemma_euclid(n, x, set_product(s1));
            if eqm(n, x, 0) {
                lemma_eqm_small(n, x, 0);
            }
        }
    }
}

/// Fermat's little theorem.
pub proof fn lemma_fermat(n: int, a: int)
    requires
        is_prime(n),
        !eqm(n, a, 0),
    ensures
        eqm(n, pow(a, (n - 1) as nat), 1),
{
    let s = set_int_range(1, n);
    lemma_int_range(1, n);
    let f = |x: int| (a * x) % n;
    lemma_scaled_product(n, a, s);
    let m = s.map(f);
    assert forall|y: int| m.contains(y) implies s.contains(y) by {
        let z = choose|z: int| s.contains(z) && y == f(z);
        lemma_eqm_mod(n, a * z);
        if y == 0 {
            lemma_euclid(n, a, z);
            lemma_eqm_small(n, z, 0);
        }
    }
    assert forall|x: int, z: int|
        s.contains(x) && s.contains(z) && #[trigger] f(x) == #[trigger] f(z) implies x == z by {
        lemma_eqm_iff_mod(n, a * x, a * z);
        lemma_cancel(n, a, x, z);
        lemma_eqm_small(n, x, z);
    }
    assert forall|x: int| #[trigger] s.contains(x) implies m.contains(f(x)) by {}
    assert forall|y: int| #[trigger] m.contains(y) implies exists|x: int|
        s.contains(x) && y == f(x) by {
        let z = choose|z: int| s.contains(z) && y == f(z);
        assert(s.contains(z) && y == f(z));
    }
    lemma_map_size(s, m, f);
    lemma_subset_equality(m, s);
    let q = set_product(s);
    assert(s.len() == n - 1);
    lemma_eqm_sym(n, q, pow(a, (n - 1) as nat) * q);
    assert(pow(a, (n - 1) as nat) * q == q * pow(a, (n - 1) as nat)) by (nonlinear_arith);
    lemma_cancel(n, q, pow(a, (n - 1) as nat), 1);
}

/// Pocklington: where `q` is a prime divisor of `n - 1`, `a` to the power
/// `n - 1` is one modulo `n`, and `a` to the power `(n - 1) / q` less one is
/// invertible, every prime divisor of `n` is one more than a multiple of `q`.
pub proof fn lemma_pocklington(n: int, q: int, e: nat, a: int, u: int, r: int)
    requires
        n >= 2,
        is_prime(q),
        n - 1 == e * q,
        eqm(n, pow(a, (n - 1) as nat), 1),
        eqm(n, u * (pow(a, e) - 1), 1),
        is_prime(r),
        divides(r, n),
    ensures
        eqm(q, r - 1, 0),
{
    if !eqm(q, r - 1, 0) {
        let c = choose|c: int| n == #[trigger] (r * c);
        let b = pow(a, e);
        lemma_eqm_divisor(n, r, c, pow(a, (n - 1) as nat), 1);
        lemma_eqm_divisor(n, r, c, u * (b - 1), 1);
        lemma_pow_multiplies(a, e, q as nat);
        assert(eqm(r, pow(b, q as nat), 1));
        // `b` is not a multiple of `r`, or its powers would vanish.
        if eqm(r, b, 0) {
            lemma_eqm_pow(r, b, 0, q as nat);
            vstd::arithmetic::power::lemma0_pow(q as nat);
            lemma_eqm_sym(r, pow(b, q as nat), 1);
            lemma_eqm_trans(r, 1, pow(b, q as nat), 0);
            lemma_eqm_small(r, 1, 0);
        }
        lemma_fermat(r, b);
        let y = lemma_inverse_exists(q, r - 1);
        let x = lemma_eqm_elim(q, (r - 1) * y, 1);
        assert((r - 1) * y == q * x + 1);
        assert(x >= 0) by (nonlinear_arith)
            requires
                (r - 1) * y == q * x + 1,
                r >= 2,
                y >= 0,
                q >= 2,
        ;
        assert((r - 1) * y >= 0 && q * x >= 0) by (nonlinear_arith)
            requires
                r >= 2,
                y >= 0,
                q >= 2,
                x >= 0,
        ;
        // b^((r-1) y) == 1 and b^(q x + 1) == b.
        lemma_pow_multiplies(b, (r - 1) as nat, y as nat);
        lemma_eqm_pow_one(r, pow(b, (r - 1) as nat), y as nat);
        lemma_pow_multiplies(b, q as nat, x as nat);
        lemma_eqm_pow_one(r, pow(b, q as nat), x as nat);
        lemma_pow_adds(b, (q * x) as nat, 1);
        lemma_pow1(b);
        lemma_eqm_refl(r, b);
        lemma_eqm_ops(r, pow(b, (q * x) as nat), 1, b, b);
        let z = pow(b, ((r - 1) * y) as nat);
        assert(eqm(r, z, 1));
        assert(eqm(r, z, b));
        lemma_eqm_sym(r, z, b);
        lemma_eqm_trans(r, b, z, 1);
        lemma_eqm_refl(r, 1);
        lemma_eqm_ops(r, b, 1, 1, 1);
        lemma_eqm_refl(r, u);
        lemma_eqm_ops(r, u, u, b - 1, 0);
        lemma_eqm_sym(r, u * (b - 1), 1);
        lemma_eqm_trans(r, 1, u * (b - 1), 0);
        lemma_eqm_small(r, 1, 0);
    }
}

/// A number all of whose prime divisors exceed a bound whose square exceeds
/// the number is prime.
pub proof fn lemma_prime_by_bound(n: int, f: int)
    requires
        n >= 2,
        f >= 1,
        f * f > n,
        forall|r: int| is_prime(r) && #[trigger] divides(r, n) ==> r > f,
    ensures
        is_prime(n),
{
    if !is_prime(n) {
        let r = lemma_prime_divisor(n);
        assert(r * r > n) by (nonlinear_arith)
            requires
                r > f,
                f >= 1,
                f * f > n,
        ;
    }
}

} // verus!
