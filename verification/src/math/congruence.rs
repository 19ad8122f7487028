//! Congruence of integers modulo `n`, as an equivalence that the ring
//! operations respect.
use vstd::arithmetic::div_mod::{
    lemma_fundamental_div_mod, lemma_fundamental_div_mod_converse, lemma_mod_multiples_basic,
    lemma_small_mod,
};
use vstd::arithmetic::power::{lemma_pow0, pow};
use vstd::prelude::*;

verus! {

/// `a` and `b` leave the same remainder modulo `n`.
#[verifier::opaque]
pub open spec fn eqm(n: int, a: int, b: int) -> bool {
    (a - b) % n == 0
}

/// A multiple of `n` as difference gives a congruence.
pub proof fn lemma_eqm_intro(n: int, a: int, b: int, k: int)
    requires
        n > 0,
        a - b == n * k,
    ensures
        eqm(n, a, b),
{
    reveal(eqm);
    lemma_mod_multiples_basic(k, n);
    assert(n * k == k * n) by (nonlinear_arith);
}

/// Congruent integers differ by a multiple of `n`.
pub proof fn lemma_eqm_elim(n: int, a: int, b: int) -> (k: int)
    requires
        n > 0,
        eqm(n, a, b),
    ensures
        a - b == n * k,
{
    reveal(eqm);
    lemma_fundamental_div_mod(a - b, n);
    (a - b) / n
}

pub proof fn lemma_eqm_refl(n: int, a: int)
    requires
        n > 0,
    ensures
        eqm(n, a, a),
{
    lemma_eqm_intro(n, a, a, 0);
}

pub proof fn lemma_eqm_sym(n: int, a: int, b: int)
    requires
        n > 0,
        eqm(n, a, b),
    ensures
        eqm(n, b, a),
{
    let k = lemma_eqm_elim(n, a, b);
    assert(b - a == n * (-k)) by (nonlinear_arith)
        requires
            a - b == n * k,
    ;
    lemma_eqm_intro(n, b, a, -k);
}

pub proof fn lemma_eqm_trans(n: int, a: int, b: int, c: int)
    requires
        n > 0,
        eqm(n, a, b),
        eqm(n, b, c),
    ensures
        eqm(n, a, c),
{
    let k = lemma_eqm_elim(n, a, b);
    let l = lemma_eqm_elim(n, b, c);
    assert(a - c == n * (k + l)) by (nonlinear_arith)
        requires
            a - b == n * k,
            b - c == n * l,
    ;
    lemma_eqm_intro(n, a, c, k + l);
}

/// Sums, differences and products of congruent integers are congruent.
pub proof fn lemma_eqm_ops(n: int, a: int, a2: int, b: int, b2: int)
    requires
        n > 0,
        eqm(n, a, a2),
        eqm(n, b, b2),
    ensures
        eqm(n, a + b, a2 + b2),
        eqm(n, a - b, a2 - b2),
        eqm(n, a * b, a2 * b2),
{
    let k = lemma_eqm_elim(n, a, a2);
    let l = lemma_eqm_elim(n, b, b2);
    assert((a + b) - (a2 + b2) == n * (k + l)) by (nonlinear_arith)
        requires
            a - a2 == n * k,
            b - b2 == n * l,
    ;
    lemma_eqm_intro(n, a + b, a2 + b2, k + l);
    assert((a - b) - (a2 - b2) == n * (k - l)) by (nonlinear_arith)
        requires
            a - a2 == n * k,
            b - b2 == n * l,
    ;
    lemma_eqm_intro(n, a - b, a2 - b2, k - l);
    assert(a * b - a2 * b2 == n * (k * b + a2 * l)) by (nonlinear_arith)
        requires
            a - a2 == n * k,
            b - b2 == n * l,
    ;
    lemma_eqm_intro(n, a * b, a2 * b2, k * b + a2 * l);
}

/// An integer is congruent to its remainder.
pub proof fn lemma_eqm_mod(n: int, a: int)
    requires
        n > 0,
    ensures
        eqm(n, a % n, a),
        eqm(n, a, a % n),
        0 <= a % n < n,
{
    lemma_fundamental_div_mod(a, n);
    assert(a % n - a == n * (-(a / n))) by (nonlinear_arith)
        requires
            a == n * (a / n) + a % n,
    ;
    lemma_eqm_intro(n, a % n, a, -(a / n));
    lemma_eqm_sym(n, a % n, a);
}

/// Congruence is equality of remainders.
pub proof fn lemma_eqm_iff_mod(n: int, a: int, b: int)
    requires
        n > 0,
    ensures
        eqm(n, a, b) <==> a % n == b % n,
{
    lemma_eqm_mod(n, a);
    lemma_eqm_mod(n, b);
    if a % n == b % n {
        lemma_eqm_trans(n, a, a % n, b);
    }
    if eqm(n, a, b) {
        let k = lemma_eqm_elim(n, a, b);
        lemma_fundamental_div_mod(b, n);
        assert(a == (b / n + k) * n + b % n) by (nonlinear_arith)
            requires
                a - b == n * k,
                b == n * (b / n) + b % n,
        ;
        lemma_fundamental_div_mod_converse(a, n, b / n + k, b % n);
    }
}

/// Congruent integers that are both reduced are equal.
pub proof fn lemma_eqm_small(n: int, a: int, b: int)
    requires
        0 <= a < n,
        0 <= b < n,
        eqm(n, a, b),
    ensures
        a == b,
{
    lemma_eqm_iff_mod(n, a, b);
    lemma_small_mod(a as nat, n as nat);
    lemma_small_mod(b as nat, n as nat);
}

/// Congruence modulo a multiple gives congruence modulo a divisor.
pub proof fn lemma_eqm_divisor(n: int, r: int, c: int, a: int, b: int)
    requires
        r > 0,
        n > 0,
        n == r * c,
        eqm(n, a, b),
    ensures
        eqm(r, a, b),
{
    let k = lemma_eqm_elim(n, a, b);
    assert(a - b == r * (c * k)) by (nonlinear_arith)
        requires
            n == r * c,
            a - b == n * k,
    ;
    lemma_eqm_intro(r, a, b, c * k);
}

/// Powers of congruent integers are congruent.
pub proof fn lemma_eqm_pow(n: int, a: int, b: int, e: nat)
    requires
        n > 0,
        eqm(n, a, b),
    ensures
        eqm(n, pow(a, e), pow(b, e)),
    decreases e,
{
    reveal(pow);
    if e == 0 {
        lemma_pow0(a);
        lemma_pow0(b);
        lemma_eqm_refl(n, 1);
    } else {
        lemma_eqm_pow(n, a, b, (e - 1) as nat);
        lemma_eqm_ops(n, a, b, pow(a, (e - 1) as nat), pow(b, (e - 1) as nat));
    }
}

/// A power of something congruent to one is congruent to one.
pub proof fn lemma_eqm_pow_one(n: int, a: int, e: nat)
    requires
        n > 0,
        eqm(n, a, 1),
    ensures
        eqm(n, pow(a, e), 1),
{
    lemma_eqm_pow(n, a, 1, e);
    vstd::arithmetic::power::lemma1_pow(e);
}

} // verus!
