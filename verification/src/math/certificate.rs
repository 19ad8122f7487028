//! A certificate that `2^255 - 19` is prime, and the Euler criterion for the
//! curve constant, as chains of modular powers.
use crate::math::congruence::{
    eqm, lemma_eqm_iff_mod, lemma_eqm_intro, lemma_eqm_ops, lemma_eqm_pow, lemma_eqm_refl,
    lemma_eqm_trans,
};
use crate::math::primes::{
    divides, is_prime, lemma_pocklington, lemma_prime_by_bound, lemma_prime_divisor,
};
use vstd::arithmetic::div_mod::{lemma_small_mod};
use vstd::arithmetic::power::{lemma_pow0, lemma_pow1, lemma_pow_adds, lemma_pow_multiplies, pow};
use vstd::prelude::*;

verus! {

#[verifier::inline]
spec fn prime10() -> int {
    0x3dfint
}

#[verifier::inline]
spec fn prime24() -> int {
    0x82d4b5int
}

#[verifier::inline]
spec fn prime51() -> int {
    0x6d1cafa129d0bint
}

#[verifier::inline]
spec fn prime14() -> int {
    0x24f7int
}

#[verifier::inline]
spec fn prime16() -> int {
    0x93ddint
}

#[verifier::inline]
spec fn prime17() -> int {
    0x127bbint
}

#[verifier::inline]
spec fn prime116() -> int {
    0xe87c2a477b815a1793787395b23e1int
}

#[verifier::inline]
spec fn prime236() -> int {
    0xabaf8c6b094fd0f32c2ccabab864dbecd99144679c1adf804898fb2042bint
}

#[verifier::inline]
pub open spec fn prime255() -> int {
    0x7fffffffffffffffffffffffffffffffffffffffffffffffffffffffffffffedint
}

/// The sixteenth power.
#[verifier::inline]
pub open spec fn pow16(v: int) -> int {
    v * v * v * v * v * v * v * v * v * v * v * v * v * v * v * v
}

/// A power with an exponent below sixteen.
#[verifier::inline]
pub open spec fn small_pow(a: int, k: int) -> int {
    if k == 0 {
        1
    } else if k == 1 {
        a
    } else if k == 2 {
        a * a
    } else if k == 3 {
        a * a * a
    } else if k == 4 {
        a * a * a * a
    } else if k == 5 {
        a * a * a * a * a
    } else if k == 6 {
        a * a * a * a * a * a
    } else if k == 7 {
        a * a * a * a * a * a * a
    } else if k == 8 {
        a * a * a * a * a * a * a * a
    } else if k == 9 {
        a * a * a * a * a * a * a * a * a
    } else if k == 10 {
        a * a * a * a * a * a * a * a * a * a
    } else if k == 11 {
        a * a * a * a * a * a * a * a * a * a * a
    } else if k == 12 {
        a * a * a * a * a * a * a * a * a * a * a * a
    } else if k == 13 {
        a * a * a * a * a * a * a * a * a * a * a * a * a
    } else if k == 14 {
        a * a * a * a * a * a * a * a * a * a * a * a * a * a
    } else {
        a * a * a * a * a * a * a * a * a * a * a * a * a * a * a
    }
}

proof fn lemma_pow_succ(a: int, k: nat)
    ensures
        pow(a, k + 1) == pow(a, k) * a,
{
    reveal(pow);
    assert(a * pow(a, k) == pow(a, k) * a) by (nonlinear_arith);
}

proof fn lemma_small_pow(a: int)
    ensures
        pow(a, 16) == pow16(a),
        forall|k: int| 0 <= k < 16 ==> #[trigger] pow(a, k as nat) == small_pow(a, k),
{
    lemma_pow0(a);
    lemma_pow1(a);
    lemma_pow_succ(a, 1);
    lemma_pow_succ(a, 2);
    lemma_pow_succ(a, 3);
    lemma_pow_succ(a, 4);
    lemma_pow_succ(a, 5);
    lemma_pow_succ(a, 6);
    lemma_pow_succ(a, 7);
    lemma_pow_succ(a, 8);
    lemma_pow_succ(a, 9);
    lemma_pow_succ(a, 10);
    lemma_pow_succ(a, 11);
    lemma_pow_succ(a, 12);
    lemma_pow_succ(a, 13);
    lemma_pow_succ(a, 14);
    lemma_pow_succ(a, 15);
}

/// One step of exponentiation by hexadecimal digits: from the exponent `e` to
/// the exponent `16 e + k`.
pub proof fn lemma_step(n: int, a: int, e: nat, v: int, k: int, w: int)
    requires
        n > 0,
        0 <= k < 16,
        eqm(n, pow(a, e), v),
        0 <= w < n,
        pow16(v) * small_pow(a, k) % n == w,
    ensures
        eqm(n, pow(a, (16 * e + k) as nat), w),
{
    lemma_small_pow(v);
    lemma_small_pow(a);
    lemma_pow_multiplies(a, e, 16);
    lemma_eqm_pow(n, pow(a, e), v, 16);
    lemma_pow_adds(a, 16 * e, k as nat);
    lemma_eqm_refl(n, pow(a, k as nat));
    lemma_eqm_ops(n, pow(a, 16 * e), pow(v, 16), pow(a, k as nat), pow(a, k as nat));
    lemma_eqm_remainder(n, pow16(v) * small_pow(a, k), w);
    lemma_eqm_trans(n, pow(a, (16 * e + k) as nat), pow16(v) * small_pow(a, k), w);
}

proof fn lemma_eqm_remainder(n: int, v: int, w: int)
    requires
        n > 0,
        0 <= w < n,
        v % n == w,
    ensures
        eqm(n, v, w),
{
    lemma_eqm_iff_mod(n, v, w);
    lemma_small_mod(w as nat, n as nat);
}

pub proof fn lemma_pow_zero(n: int, a: int)
    requires
        n > 0,
    ensures
        eqm(n, pow(a, 0), 1),
{
    lemma_pow0(a);
    lemma_eqm_refl(n, 1);
}

proof fn lemma_square_of_power(n: int, a: int, e: nat, v: int)
    requires
        n > 0,
        eqm(n, pow(a, e), v),
    ensures
        eqm(n, pow(a, 2 * e), v * v),
{
    lemma_pow_adds(a, e, e);
    lemma_eqm_ops(n, pow(a, e), v, pow(a, e), v);
}

pub proof fn lemma_unit_witness(n: int, u: int, v: int, x: int)
    requires
        n > 1,
        eqm(n, x, v),
        u * (v - 1) % n == 1,
    ensures
        eqm(n, u * (x - 1), 1),
{
    lemma_eqm_remainder(n, u * (v - 1), 1);
    lemma_eqm_refl(n, 1);
    lemma_eqm_ops(n, x, v, 1, 1);
    lemma_eqm_refl(n, u);
    lemma_eqm_ops(n, u, u, x - 1, v - 1);
    lemma_eqm_trans(n, u * (x - 1), u * (v - 1), 1);
}

/// A positive multiple of `f` is at least `f`.
pub proof fn lemma_above(f: int, r: int)
    requires
        f > 0,
        r > 1,
        eqm(f, r - 1, 0),
    ensures
        r > f,
{
    let k = crate::math::congruence::lemma_eqm_elim(f, r - 1, 0);
    assert(r > f) by (nonlinear_arith)
        requires
            f > 0,
            r > 1,
            r - 1 == f * k,
    ;
}

/// What two different primes divide, their product divides.
pub proof fn lemma_two_divisors(q: int, s: int, m: int)
    requires
        is_prime(q),
        is_prime(s),
        q > s,
        eqm(q, m, 0),
        eqm(s, m, 0),
    ensures
        eqm(q * s, m, 0),
{
    let k = crate::math::congruence::lemma_eqm_elim(q, m, 0);
    assert(eqm(s, q * k, 0));
    crate::math::primes::lemma_euclid(s, q, k);
    if eqm(s, q, 0) {
        let j = crate::math::congruence::lemma_eqm_elim(s, q, 0);
        assert(divides(s, q));
    }
    let j = crate::math::congruence::lemma_eqm_elim(s, k, 0);
    assert(m - 0 == (q * s) * j) by (nonlinear_arith)
        requires
            m == q * k,
            k == s * j,
    ;
    assert(q * s > 0) by (nonlinear_arith)
        requires
            q > 0,
            s > 0,
    ;
    lemma_eqm_intro(q * s, m, 0, j);
}

/// Below 529 a number is prime if no prime below 23 divides it.
pub proof fn lemma_small_prime(n: int)
    requires
        19 < n < 529 || n == 2 || n == 3 || n == 5 || n == 7 || n == 11 || n == 13 || n == 17 || n == 19,
        n > 19 ==> n % 2 != 0 && n % 3 != 0 && n % 5 != 0 && n % 7 != 0 && n % 11 != 0 && n % 13
            != 0 && n % 17 != 0 && n % 19 != 0,
    ensures
        is_prime(n),
{
    if !is_prime(n) {
        let r = lemma_prime_divisor(n);
        let k = choose|k: int| n == #[trigger] (r * k);
        assert(r < 23) by (nonlinear_arith)
            requires
                r * r <= n,
                n < 529,
                r > 0,
        ;
        assert(n <= 19 ==> r < 5) by (nonlinear_arith)
            requires
                r * r <= n,
                r > 0,
        ;
        assert(r * k == n);
        assert(divides(2, 4) && divides(2, 6) && divides(2, 8) && divides(2, 10) && divides(2, 12)
            && divides(2, 14) && divides(2, 16) && divides(2, 18) && divides(2, 20) && divides(
            2,
            22,
        ) && divides(3, 9) && divides(3, 15) && divides(3, 21)) by {
            assert(4 == 2 * 2 && 6 == 2 * 3 && 8 == 2 * 4 && 10 == 2 * 5 && 12 == 2 * 6 && 14 == 2
                * 7 && 16 == 2 * 8 && 18 == 2 * 9 && 20 == 2 * 10 && 22 == 2 * 11 && 9 == 3 * 3
                && 15 == 3 * 5 && 21 == 3 * 7);
        }
        if r == 2 {
            assert(n == 2 * k);
        } else if r == 3 {
            assert(n == 3 * k);
        } else if r == 5 {
            assert(n == 5 * k);
        } else if r == 7 {
            assert(n == 7 * k);
        } else if r == 11 {
            assert(n == 11 * k);
        } else if r == 13 {
            assert(n == 13 * k);
        } else if r == 17 {
            assert(n == 17 * k);
        } else if r == 19 {
            assert(n == 19 * k);
        } else {
            assert(false);
        }
    }
}

proof fn lemma_unit_10()
    ensures
        eqm(prime10(), pow(2, 990), 1),
{
    lemma_pow_zero(prime10(), 2);
    assert(pow16(1) * small_pow(2, 3) % prime10() == 8) by (nonlinear_arith);
    lemma_step(prime10(), 2, 0, 1, 3, 8);
    assert(pow16(8) * small_pow(2, 13) % prime10() == 475) by (nonlinear_arith);
    lemma_step(prime10(), 2, 3, 8, 13, 475);
    assert(pow16(475) * small_pow(2, 14) % prime10() == 1) by (nonlinear_arith);
    lemma_step(prime10(), 2, 61, 475, 14, 1);
}

proof fn lemma_power_10_0()
    ensures
        eqm(prime10(), pow(2, 90), 50),
{
    lemma_pow_zero(prime10(), 2);
    assert(pow16(1) * small_pow(2, 5) % prime10() == 32) by (nonlinear_arith);
    lemma_step(prime10(), 2, 0, 1, 5, 32);
    assert(pow16(32) * small_pow(2, 10) % prime10() == 50) by (nonlinear_arith);
    lemma_step(prime10(), 2, 5, 32, 10, 50);
}

proof fn lemma_power_10_1()
    ensures
        eqm(prime10(), pow(2, 198), 799),
{
    lemma_pow_zero(prime10(), 2);
    assert(pow16(1) * small_pow(2, 12) % prime10() == 132) by (nonlinear_arith);
    lemma_step(prime10(), 2, 0, 1, 12, 132);
    assert(pow16(132) * small_pow(2, 6) % prime10() == 799) by (nonlinear_arith);
    lemma_step(prime10(), 2, 12, 132, 6, 799);
}

/// 991 is prime.
proof fn lemma_prime_10()
    ensures
        is_prime(prime10()),
{
    lemma_unit_10();
    lemma_power_10_0();
    assert(809 * (50 - 1) % prime10() == 1) by (nonlinear_arith);
    lemma_unit_witness(prime10(), 809, 50, pow(2, 90));
    lemma_small_prime(11);
    lemma_power_10_1();
    assert(267 * (799 - 1) % prime10() == 1) by (nonlinear_arith);
    lemma_unit_witness(prime10(), 267, 799, pow(2, 198));
    lemma_small_prime(5);
    assert forall|r: int| is_prime(r) && #[trigger] divides(r, prime10()) implies r > 55 by {
        lemma_pocklington(prime10(), 11, 90, 2, 809, r);
        lemma_pocklington(prime10(), 5, 198, 2, 267, r);
        lemma_two_divisors(11, 5, r - 1);
        lemma_above(55, r);
    }
    assert(55 * 55 > prime10()) by (nonlinear_arith);
    lemma_prime_by_bound(prime10(), 55);
}

proof fn lemma_unit_24()
    ensures
        eqm(prime24(), pow(2, 0x82d4b4), 1),
{
    lemma_pow_zero(prime24(), 2);
    assert(pow16(1) * small_pow(2, 8) % prime24() == 256) by (nonlinear_arith);
    lemma_step(prime24(), 2, 0, 1, 8, 256);
    assert(pow16(256) * small_pow(2, 2) % prime24() == 0x3d883d) by (nonlinear_arith);
    lemma_step(prime24(), 2, 8, 256, 2, 0x3d883d);
    assert(pow16(0x3d883d) * small_pow(2, 13) % prime24() == 0x52cdb8) by (nonlinear_arith);
    lemma_step(prime24(), 2, 130, 0x3d883d, 13, 0x52cdb8);
    assert(pow16(0x52cdb8) * small_pow(2, 4) % prime24() == 795954) by (nonlinear_arith);
    lemma_step(prime24(), 2, 2093, 0x52cdb8, 4, 795954);
    assert(pow16(795954) * small_pow(2, 11) % prime24() == 0x16a553) by (nonlinear_arith);
    lemma_step(prime24(), 2, 33492, 795954, 11, 0x16a553);
    assert(pow16(0x16a553) * small_pow(2, 4) % prime24() == 1) by (nonlinear_arith);
    lemma_step(prime24(), 2, 535883, 0x16a553, 4, 1);
}

proof fn lemma_power_24_0()
    ensures
        eqm(prime24(), pow(2, 8652), 0x346cd1),
{
    lemma_pow_zero(prime24(), 2);
    assert(pow16(1) * small_pow(2, 2) % prime24() == 4) by (nonlinear_arith);
    lemma_step(prime24(), 2, 0, 1, 2, 4);
    assert(pow16(4) * small_pow(2, 1) % prime24() == 0x6e4843) by (nonlinear_arith);
    lemma_step(prime24(), 2, 2, 4, 1, 0x6e4843);
    assert(pow16(0x6e4843) * small_pow(2, 12) % prime24() == 0x6ff309) by (nonlinear_arith);
    lemma_step(prime24(), 2, 33, 0x6e4843, 12, 0x6ff309);
    assert(pow16(0x6ff309) * small_pow(2, 12) % prime24() == 0x346cd1) by (nonlinear_arith);
    lemma_step(prime24(), 2, 540, 0x6ff309, 12, 0x346cd1);
}

proof fn lemma_power_24_1()
    ensures
        eqm(prime24(), pow(2, 83244), 0x41f04d),
{
    lemma_pow_zero(prime24(), 2);
    assert(pow16(1) * small_pow(2, 1) % prime24() == 2) by (nonlinear_arith);
    lemma_step(prime24(), 2, 0, 1, 1, 2);
    assert(pow16(2) * small_pow(2, 4) % prime24() == 0x100000) by (nonlinear_arith);
    lemma_step(prime24(), 2, 1, 2, 4, 0x100000);
    assert(pow16(0x100000) * small_pow(2, 5) % prime24() == 0x6bdd27) by (nonlinear_arith);
    lemma_step(prime24(), 2, 20, 0x100000, 5, 0x6bdd27);
    assert(pow16(0x6bdd27) * small_pow(2, 2) % prime24() == 0x621515) by (nonlinear_arith);
    lemma_step(prime24(), 2, 325, 0x6bdd27, 2, 0x621515);
    assert(pow16(0x621515) * small_pow(2, 12) % prime24() == 0x41f04d) by (nonlinear_arith);
    lemma_step(prime24(), 2, 5202, 0x621515, 12, 0x41f04d);
}

/// 8574133 is prime.
proof fn lemma_prime_24()
    ensures
        is_prime(prime24()),
{
    lemma_unit_24();
    lemma_power_24_0();
    assert(0xf79eb * (0x346cd1 - 1) % prime24() == 1) by (nonlinear_arith);
    lemma_unit_witness(prime24(), 0xf79eb, 0x346cd1, pow(2, 8652));
    lemma_prime_10();
    lemma_power_24_1();
    assert(0x35e15b * (0x41f04d - 1) % prime24() == 1) by (nonlinear_arith);
    lemma_unit_witness(prime24(), 0x35e15b, 0x41f04d, pow(2, 83244));
    lemma_small_prime(103);
    assert forall|r: int| is_prime(r) && #[trigger] divides(r, prime24()) implies r > 102073 by {
        lemma_pocklington(prime24(), prime10(), 8652, 2, 0xf79eb, r);
        lemma_pocklington(prime24(), 103, 83244, 2, 0x35e15b, r);
        lemma_two_divisors(prime10(), 103, r - 1);
        lemma_above(102073, r);
    }
    assert(102073 * 102073 > prime24()) by (nonlinear_arith);
    lemma_prime_by_bound(prime24(), 102073);
}

proof fn lemma_unit_51()
    ensures
        eqm(prime51(), pow(2, 0x6d1cafa129d0a), 1),
{
    lemma_pow_zero(prime51(), 2);
    assert(pow16(1) * small_pow(2, 6) % prime51() == 64) by (nonlinear_arith);
    lemma_step(prime51(), 2, 0, 1, 6, 64);
    assert(pow16(64) * small_pow(2, 13) % prime51() == 0x295b2fbcd42f4) by (nonlinear_arith);
    lemma_step(prime51(), 2, 6, 64, 13, 0x295b2fbcd42f4);
    assert(pow16(0x295b2fbcd42f4) * small_pow(2, 1) % prime51() == 0x3b98a4bf53795) by (nonlinear_arith);
    lemma_step(prime51(), 2, 109, 0x295b2fbcd42f4, 1, 0x3b98a4bf53795);
    assert(pow16(0x3b98a4bf53795) * small_pow(2, 12) % prime51() == 0x8d138ebee13d) by (nonlinear_arith);
    lemma_step(prime51(), 2, 1745, 0x3b98a4bf53795, 12, 0x8d138ebee13d);
    assert(pow16(0x8d138ebee13d) * small_pow(2, 10) % prime51() == 0x5b3ea75e30cf3) by (nonlinear_arith);
    lemma_step(prime51(), 2, 27932, 0x8d138ebee13d, 10, 0x5b3ea75e30cf3);
    assert(pow16(0x5b3ea75e30cf3) * small_pow(2, 15) % prime51() == 0x25bb03d69c925) by (nonlinear_arith);
    lemma_step(prime51(), 2, 446922, 0x5b3ea75e30cf3, 15, 0x25bb03d69c925);
    assert(pow16(0x25bb03d69c925) * small_pow(2, 10) % prime51() == 0x4938d0da891e2) by (nonlinear_arith);
    lemma_step(prime51(), 2, 0x6d1caf, 0x25bb03d69c925, 10, 0x4938d0da891e2);
    assert(pow16(0x4938d0da891e2) * small_pow(2, 1) % prime51() == 0x1b30a8554d7c5) by (nonlinear_arith);
    lemma_step(prime51(), 2, 0x6d1cafa, 0x4938d0da891e2, 1, 0x1b30a8554d7c5);
    assert(pow16(0x1b30a8554d7c5) * small_pow(2, 2) % prime51() == 0x47ad71b73d6a2) by (nonlinear_arith);
    lemma_step(prime51(), 2, 0x6d1cafa1, 0x1b30a8554d7c5, 2, 0x47ad71b73d6a2);
    assert(pow16(0x47ad71b73d6a2) * small_pow(2, 9) % prime51() == 0x52dd302e14596) by (nonlinear_arith);
    lemma_step(prime51(), 2, 0x6d1cafa12, 0x47ad71b73d6a2, 9, 0x52dd302e14596);
    assert(pow16(0x52dd302e14596) * small_pow(2, 13) % prime51() == 0x5dfefa9462cb3) by (nonlinear_arith);
    lemma_step(prime51(), 2, 0x6d1cafa129, 0x52dd302e14596, 13, 0x5dfefa9462cb3);
    assert(pow16(0x5dfefa9462cb3) * small_pow(2, 0) % prime51() == 0x553615ee67494) by (nonlinear_arith);
    lemma_step(prime51(), 2, 0x6d1cafa129d, 0x5dfefa9462cb3, 0, 0x553615ee67494);
    assert(pow16(0x553615ee67494) * small_pow(2, 10) % prime51() == 1) by (nonlinear_arith);
    lemma_step(prime51(), 2, 0x6d1cafa129d0, 0x553615ee67494, 10, 1);
}

proof fn lemma_power_51_0()
    ensures
        eqm(prime51(), pow(2, 0xd580922), 0x3c3ffdef7c0b1),
{
    lemma_pow_zero(prime51(), 2);
    assert(pow16(1) * small_pow(2, 13) % prime51() == 8192) by (nonlinear_arith);
    lemma_step(prime51(), 2, 0, 1, 13, 8192);
    assert(pow16(8192) * small_pow(2, 5) % prime51() == 0x5f18e786eab62) by (nonlinear_arith);
    lemma_step(prime51(), 2, 13, 8192, 5, 0x5f18e786eab62);
    assert(pow16(0x5f18e786eab62) * small_pow(2, 8) % prime51() == 0x19004c5c350df) by (nonlinear_arith);
    lemma_step(prime51(), 2, 213, 0x5f18e786eab62, 8, 0x19004c5c350df);
    assert(pow16(0x19004c5c350df) * small_pow(2, 0) % prime51() == 0x4eb4d9d00b27c) by (nonlinear_arith);
    lemma_step(prime51(), 2, 3416, 0x19004c5c350df, 0, 0x4eb4d9d00b27c);
    assert(pow16(0x4eb4d9d00b27c) * small_pow(2, 9) % prime51() == 0x5d322c8ac0852) by (nonlinear_arith);
    lemma_step(prime51(), 2, 54656, 0x4eb4d9d00b27c, 9, 0x5d322c8ac0852);
    assert(pow16(0x5d322c8ac0852) * small_pow(2, 2) % prime51() == 0x259cb28ce652d) by (nonlinear_arith);
    lemma_step(prime51(), 2, 874505, 0x5d322c8ac0852, 2, 0x259cb28ce652d);
    assert(pow16(0x259cb28ce652d) * small_pow(2, 2) % prime51() == 0x3c3ffdef7c0b1) by (nonlinear_arith);
    lemma_step(prime51(), 2, 0xd58092, 0x259cb28ce652d, 2, 0x3c3ffdef7c0b1);
}

proof fn lemma_power_51_1()
    ensures
        eqm(prime51(), pow(2, 0xdbf141c5df6), 0x20c92d89f364e),
{
    lemma_pow_zero(prime51(), 2);
    assert(pow16(1) * small_pow(2, 13) % prime51() == 8192) by (nonlinear_arith);
    lemma_step(prime51(), 2, 0, 1, 13, 8192);
    assert(pow16(8192) * small_pow(2, 11) % prime51() == 0x5510261ab1b23) by (nonlinear_arith);
    lemma_step(prime51(), 2, 13, 8192, 11, 0x5510261ab1b23);
    assert(pow16(0x5510261ab1b23) * small_pow(2, 15) % prime51() == 0x4b180bcec765f) by (nonlinear_arith);
    lemma_step(prime51(), 2, 219, 0x5510261ab1b23, 15, 0x4b180bcec765f);
    assert(pow16(0x4b180bcec765f) * small_pow(2, 1) % prime51() == 0x67ae1e5b38fae) by (nonlinear_arith);
    lemma_step(prime51(), 2, 3519, 0x4b180bcec765f, 1, 0x67ae1e5b38fae);
    assert(pow16(0x67ae1e5b38fae) * small_pow(2, 4) % prime51() == 0x20b1710b225fe) by (nonlinear_arith);
    lemma_step(prime51(), 2, 56305, 0x67ae1e5b38fae, 4, 0x20b1710b225fe);
    assert(pow16(0x20b1710b225fe) * small_pow(2, 1) % prime51() == 0x4f9080dd9d27d) by (nonlinear_arith);
    lemma_step(prime51(), 2, 900884, 0x20b1710b225fe, 1, 0x4f9080dd9d27d);
    assert(pow16(0x4f9080dd9d27d) * small_pow(2, 12) % prime51() == 0x415981a1234ad) by (nonlinear_arith);
    lemma_step(prime51(), 2, 0xdbf141, 0x4f9080dd9d27d, 12, 0x415981a1234ad);
    assert(pow16(0x415981a1234ad) * small_pow(2, 5) % prime51() == 0x20534fa8fd523) by (nonlinear_arith);
    lemma_step(prime51(), 2, 0xdbf141c, 0x415981a1234ad, 5, 0x20534fa8fd523);
    assert(pow16(0x20534fa8fd523) * small_pow(2, 13) % prime51() == 0x4b163bc24ea95) by (nonlinear_arith);
    lemma_step(prime51(), 2, 0xdbf141c5, 0x20534fa8fd523, 13, 0x4b163bc24ea95);
    assert(pow16(0x4b163bc24ea95) * small_pow(2, 15) % prime51() == 0x6027da76fb833) by (nonlinear_arith);
    lemma_step(prime51(), 2, 0xdbf141c5d, 0x4b163bc24ea95, 15, 0x6027da76fb833);
    assert(pow16(0x6027da76fb833) * small_pow(2, 6) % prime51() == 0x20c92d89f364e) by (nonlinear_arith);
    lemma_step(prime51(), 2, 0xdbf141c5df, 0x6027da76fb833, 6, 0x20c92d89f364e);
}

/// 1919519569386763 is prime.
proof fn lemma_prime_51()
    ensures
        is_prime(prime51()),
{
    lemma_unit_51();
    lemma_power_51_0();
    assert(0x495bef080ea35 * (0x3c3ffdef7c0b1 - 1) % prime51() == 1) by (nonlinear_arith);
    lemma_unit_witness(prime51(), 0x495bef080ea35, 0x3c3ffdef7c0b1, pow(2, 0xd580922));
    lemma_prime_24();
    lemma_power_51_1();
    assert(0x6a4e3f18a99bc * (0x20c92d89f364e - 1) % prime51() == 1) by (nonlinear_arith);
    lemma_unit_witness(prime51(), 0x6a4e3f18a99bc, 0x20c92d89f364e, pow(2, 0xdbf141c5df6));
    lemma_small_prime(127);
    assert forall|r: int| is_prime(r) && #[trigger] divides(r, prime51()) implies r > 0x40e785cb by {
        lemma_pocklington(prime51(), prime24(), 0xd580922, 2, 0x495bef080ea35, r);
        lemma_pocklington(prime51(), 127, 0xdbf141c5df6, 2, 0x6a4e3f18a99bc, r);
        lemma_two_divisors(prime24(), 127, r - 1);
        lemma_above(0x40e785cb, r);
    }
    assert(0x40e785cb * 0x40e785cb > prime51()) by (nonlinear_arith);
    lemma_prime_by_bound(prime51(), 0x40e785cb);
}

proof fn lemma_unit_14()
    ensures
        eqm(prime14(), pow(2, 9462), 1),
{
    lemma_pow_zero(prime14(), 2);
    assert(pow16(1) * small_pow(2, 2) % prime14() == 4) by (nonlinear_arith);
    lemma_step(prime14(), 2, 0, 1, 2, 4);
    assert(pow16(4) * small_pow(2, 4) % prime14() == 3480) by (nonlinear_arith);
    lemma_step(prime14(), 2, 2, 4, 4, 3480);
    assert(pow16(3480) * small_pow(2, 15) % prime14() == 3104) by (nonlinear_arith);
    lemma_step(prime14(), 2, 36, 3480, 15, 3104);
    assert(pow16(3104) * small_pow(2, 6) % prime14() == 1) by (nonlinear_arith);
    lemma_step(prime14(), 2, 591, 3104, 6, 1);
}

proof fn lemma_power_14_0()
    ensures
        eqm(prime14(), pow(2, 114), 6023),
{
    lemma_pow_zero(prime14(), 2);
    assert(pow16(1) * small_pow(2, 7) % prime14() == 128) by (nonlinear_arith);
    lemma_step(prime14(), 2, 0, 1, 7, 128);
    assert(pow16(128) * small_pow(2, 2) % prime14() == 6023) by (nonlinear_arith);
    lemma_step(prime14(), 2, 7, 128, 2, 6023);
}

proof fn lemma_power_14_1()
    ensures
        eqm(prime14(), pow(2, 498), 6272),
{
    lemma_pow_zero(prime14(), 2);
    assert(pow16(1) * small_pow(2, 1) % prime14() == 2) by (nonlinear_arith);
    lemma_step(prime14(), 2, 0, 1, 1, 2);
    assert(pow16(2) * small_pow(2, 15) % prime14() == 7206) by (nonlinear_arith);
    lemma_step(prime14(), 2, 1, 2, 15, 7206);
    assert(pow16(7206) * small_pow(2, 2) % prime14() == 6272) by (nonlinear_arith);
    lemma_step(prime14(), 2, 31, 7206, 2, 6272);
}

/// 9463 is prime.
proof fn lemma_prime_14()
    ensures
        is_prime(prime14()),
{
    lemma_unit_14();
    lemma_power_14_0();
    assert(11 * (6023 - 1) % prime14() == 1) by (nonlinear_arith);
    lemma_unit_witness(prime14(), 11, 6023, pow(2, 114));
    lemma_small_prime(83);
    lemma_power_14_1();
    assert(9128 * (6272 - 1) % prime14() == 1) by (nonlinear_arith);
    lemma_unit_witness(prime14(), 9128, 6272, pow(2, 498));
    lemma_small_prime(19);
    assert forall|r: int| is_prime(r) && #[trigger] divides(r, prime14()) implies r > 1577 by {
        lemma_pocklington(prime14(), 83, 114, 2, 11, r);
        lemma_pocklington(prime14(), 19, 498, 2, 9128, r);
        lemma_two_divisors(83, 19, r - 1);
        lemma_above(1577, r);
    }
    assert(1577 * 1577 > prime14()) by (nonlinear_arith);
    lemma_prime_by_bound(prime14(), 1577);
}

proof fn lemma_unit_16()
    ensures
        eqm(prime16(), pow(2, 37852), 1),
{
    lemma_pow_zero(prime16(), 2);
    assert(pow16(1) * small_pow(2, 9) % prime16() == 512) by (nonlinear_arith);
    lemma_step(prime16(), 2, 0, 1, 9, 512);
    assert(pow16(512) * small_pow(2, 3) % prime16() == 32359) by (nonlinear_arith);
    lemma_step(prime16(), 2, 9, 512, 3, 32359);
    assert(pow16(32359) * small_pow(2, 13) % prime16() == 3404) by (nonlinear_arith);
    lemma_step(prime16(), 2, 147, 32359, 13, 3404);
    assert(pow16(3404) * small_pow(2, 12) % prime16() == 1) by (nonlinear_arith);
    lemma_step(prime16(), 2, 2365, 3404, 12, 1);
}

proof fn lemma_power_16_0()
    ensures
        eqm(prime16(), pow(2, 4), 16),
{
    lemma_pow_zero(prime16(), 2);
    assert(pow16(1) * small_pow(2, 4) % prime16() == 16) by (nonlinear_arith);
    lemma_step(prime16(), 2, 0, 1, 4, 16);
}

/// 37853 is prime.
proof fn lemma_prime_16()
    ensures
        is_prime(prime16()),
{
    lemma_unit_16();
    lemma_power_16_0();
    assert(32806 * (16 - 1) % prime16() == 1) by (nonlinear_arith);
    lemma_unit_witness(prime16(), 32806, 16, pow(2, 4));
    lemma_prime_14();
    assert forall|r: int| is_prime(r) && #[trigger] divides(r, prime16()) implies r > prime14() by {
        lemma_pocklington(prime16(), prime14(), 4, 2, 32806, r);
        lemma_above(prime14(), r);
    }
    assert(prime14() * prime14() > prime16()) by (nonlinear_arith);
    lemma_prime_by_bound(prime16(), prime14());
}

proof fn lemma_unit_17()
    ensures
        eqm(prime17(), pow(2, 75706), 1),
{
    lemma_pow_zero(prime17(), 2);
    assert(pow16(1) * small_pow(2, 1) % prime17() == 2) by (nonlinear_arith);
    lemma_step(prime17(), 2, 0, 1, 1, 2);
    assert(pow16(2) * small_pow(2, 2) % prime17() == 35023) by (nonlinear_arith);
    lemma_step(prime17(), 2, 1, 2, 2, 35023);
    assert(pow16(35023) * small_pow(2, 7) % prime17() == 13453) by (nonlinear_arith);
    lemma_step(prime17(), 2, 18, 35023, 7, 13453);
    assert(pow16(13453) * small_pow(2, 11) % prime17() == 8325) by (nonlinear_arith);
    lemma_step(prime17(), 2, 295, 13453, 11, 8325);
    assert(pow16(8325) * small_pow(2, 10) % prime17() == 1) by (nonlinear_arith);
    lemma_step(prime17(), 2, 4731, 8325, 10, 1);
}

proof fn lemma_power_17_0()
    ensures
        eqm(prime17(), pow(2, 2), 4),
{
    lemma_pow_zero(prime17(), 2);
    assert(pow16(1) * small_pow(2, 2) % prime17() == 4) by (nonlinear_arith);
    lemma_step(prime17(), 2, 0, 1, 2, 4);
}

/// 75707 is prime.
proof fn lemma_prime_17()
    ensures
        is_prime(prime17()),
{
    lemma_unit_17();
    lemma_power_17_0();
    assert(25236 * (4 - 1) % prime17() == 1) by (nonlinear_arith);
    lemma_unit_witness(prime17(), 25236, 4, pow(2, 2));
    lemma_prime_16();
    assert forall|r: int| is_prime(r) && #[trigger] divides(r, prime17()) implies r > prime16() by {
        lemma_pocklington(prime17(), prime16(), 2, 2, 25236, r);
        lemma_above(prime16(), r);
    }
    assert(prime16() * prime16() > prime17()) by (nonlinear_arith);
    lemma_prime_by_bound(prime17(), prime16());
}

proof fn lemma_unit_116()
    ensures
        eqm(prime116(), pow(2, 0xe87c2a477b815a1793787395b23e0nat), 1),
{
    lemma_pow_zero(prime116(), 2);
    assert(pow16(1) * small_pow(2, 14) % prime116() == 16384) by (nonlinear_arith);
    lemma_step(prime116(), 2, 0, 1, 14, 16384);
    assert(pow16(16384) * small_pow(2, 8) % prime116() == 0x43d23144337fac8e78ce6b5d7963eint) by (nonlinear_arith);
    lemma_step(prime116(), 2, 14, 16384, 8, 0x43d23144337fac8e78ce6b5d7963eint);
    assert(pow16(0x43d23144337fac8e78ce6b5d7963eint) * small_pow(2, 7) % prime116() == 0x4e465d1398f8ac98fb97a7db9c86cint) by (nonlinear_arith);
    lemma_step(prime116(), 2, 232, 0x43d23144337fac8e78ce6b5d7963eint, 7, 0x4e465d1398f8ac98fb97a7db9c86cint);
    assert(pow16(0x4e465d1398f8ac98fb97a7db9c86cint) * small_pow(2, 12) % prime116() == 0x29d6007e421d38f42431d03a1c6dint) by (nonlinear_arith);
    lemma_step(prime116(), 2, 3719, 0x4e465d1398f8ac98fb97a7db9c86cint, 12, 0x29d6007e421d38f42431d03a1c6dint);
    assert(pow16(0x29d6007e421d38f42431d03a1c6dint) * small_pow(2, 2) % prime116() == 0x32155c7583c4648a4dc37fac6d68fint) by (nonlinear_arith);
    lemma_step(prime116(), 2, 59516, 0x29d6007e421d38f42431d03a1c6dint, 2, 0x32155c7583c4648a4dc37fac6d68fint);
    assert(pow16(0x32155c7583c4648a4dc37fac6d68fint) * small_pow(2, 10) % prime116() == 0x2f88732a7b070e053bddc2d908e49int) by (nonlinear_arith);
    lemma_step(prime116(), 2, 952258, 0x32155c7583c4648a4dc37fac6d68fint, 10, 0x2f88732a7b070e053bddc2d908e49int);
    assert(pow16(0x2f88732a7b070e053bddc2d908e49int) * small_pow(2, 4) % prime116() == 0x82d8cc0fe0415379eed770e1eec2int) by (nonlinear_arith);
    lemma_step(prime116(), 2, 0xe87c2a, 0x2f88732a7b070e053bddc2d908e49int, 4, 0x82d8cc0fe0415379eed770e1eec2int);
    assert(pow16(0x82d8cc0fe0415379eed770e1eec2int) * small_pow(2, 7) % prime116() == 0x8d9f235dd765a4c762be121a67129int) by (nonlinear_arith);
    lemma_step(prime116(), 2, 0xe87c2a4, 0x82d8cc0fe0415379eed770e1eec2int, 7, 0x8d9f235dd765a4c762be121a67129int);
    assert(pow16(0x8d9f235dd765a4c762be121a67129int) * small_pow(2, 7) % prime116() == 0x5b2aadd581ea00b4120643522a923int) by (nonlinear_arith);
    lemma_step(prime116(), 2, 0xe87c2a47, 0x8d9f235dd765a4c762be121a67129int, 7, 0x5b2aadd581ea00b4120643522a923int);
    assert(pow16(0x5b2aadd581ea00b4120643522a923int) * small_pow(2, 11) % prime116() == 0x7c25ff24c5f58f4a4a868c6448ebbint) by (nonlinear_arith);
    lemma_step(prime116(), 2, 0xe87c2a477, 0x5b2aadd581ea00b4120643522a923int, 11, 0x7c25ff24c5f58f4a4a868c6448ebbint);
    assert(pow16(0x7c25ff24c5f58f4a4a868c6448ebbint) * small_pow(2, 8) % prime116() == 0x3820cf908b1e082ce9669bb0d9269int) by (nonlinear_arith);
    lemma_step(prime116(), 2, 0xe87c2a477b, 0x7c25ff24c5f58f4a4a868c6448ebbint, 8, 0x3820cf908b1e082ce9669bb0d9269int);
    assert(pow16(0x3820cf908b1e082ce9669bb0d9269int) * small_pow(2, 1) % prime116() == 0x12675193b8e3aa67ca606079b5b9int) by (nonlinear_arith);
    lemma_step(prime116(), 2, 0xe87c2a477b8, 0x3820cf908b1e082ce9669bb0d9269int, 1, 0x12675193b8e3aa67ca606079b5b9int);
    assert(pow16(0x12675193b8e3aa67ca606079b5b9int) * small_pow(2, 5) % prime116() == 0x8360361021940b1a18fed6e934accint) by (nonlinear_arith);
    lemma_step(prime116(), 2, 0xe87c2a477b81, 0x12675193b8e3aa67ca606079b5b9int, 5, 0x8360361021940b1a18fed6e934accint);
    assert(pow16(0x8360361021940b1a18fed6e934accint) * small_pow(2, 10) % prime116() == 0x9fe38170fcfcf1a4bc61787c310b3int) by (nonlinear_arith);
    lemma_step(prime116(), 2, 0xe87c2a477b815, 0x8360361021940b1a18fed6e934accint, 10, 0x9fe38170fcfcf1a4bc61787c310b3int);
    assert(pow16(0x9fe38170fcfcf1a4bc61787c310b3int) * small_pow(2, 1) % prime116() == 0xa753e33b0ec8b866b117f114cc46aint) by (nonlinear_arith);
    lemma_step(prime116(), 2, 0xe87c2a477b815a, 0x9fe38170fcfcf1a4bc61787c310b3int, 1, 0xa753e33b0ec8b866b117f114cc46aint);
    assert(pow16(0xa753e33b0ec8b866b117f114cc46aint) * small_pow(2, 7) % prime116() == 0x4957bcad115692dd2ca4cb7cc3da4int) by (nonlinear_arith);
    lemma_step(prime116(), 2, 0xe87c2a477b815a1, 0xa753e33b0ec8b866b117f114cc46aint, 7, 0x4957bcad115692dd2ca4cb7cc3da4int);
    assert(pow16(0x4957bcad115692dd2ca4cb7cc3da4int) * small_pow(2, 9) % prime116() == 0xe438e2afa6634a4072d7558321a2fint) by (nonlinear_arith);
    lemma_step(prime116(), 2, 0xe87c2a477b815a17nat, 0x4957bcad115692dd2ca4cb7cc3da4int, 9, 0xe438e2afa6634a4072d7558321a2fint);
    assert(pow16(0xe438e2afa6634a4072d7558321a2fint) * small_pow(2, 3) % prime116() == 0x81cccac7265355bc70a81cca07aecint) by (nonlinear_arith);
    lemma_step(prime116(), 2, 0xe87c2a477b815a179nat, 0xe438e2afa6634a4072d7558321a2fint, 3, 0x81cccac7265355bc70a81cca07aecint);
    assert(pow16(0x81cccac7265355bc70a81cca07aecint) * small_pow(2, 7) % prime116() == 0xb73ecd5214b67c68dfcaac7603980int) by (nonlinear_arith);
    lemma_step(prime116(), 2, 0xe87c2a477b815a1793nat, 0x81cccac7265355bc70a81cca07aecint, 7, 0xb73ecd5214b67c68dfcaac7603980int);
    assert(pow16(0xb73ecd5214b67c68dfcaac7603980int) * small_pow(2, 8) % prime116() == 0x4363b1db3b7e2b991cd350c32998aint) by (nonlinear_arith);
    lemma_step(prime116(), 2, 0xe87c2a477b815a17937nat, 0xb73ecd5214b67c68dfcaac7603980int, 8, 0x4363b1db3b7e2b991cd350c32998aint);
    assert(pow16(0x4363b1db3b7e2b991cd350c32998aint) * small_pow(2, 7) % prime116() == 0x84b158b54a9e4de09d40bedbd0b34int) by (nonlinear_arith);
    lemma_step(prime116(), 2, 0xe87c2a477b815a179378nat, 0x4363b1db3b7e2b991cd350c32998aint, 7, 0x84b158b54a9e4de09d40bedbd0b34int);
    assert(pow16(0x84b158b54a9e4de09d40bedbd0b34int) * small_pow(2, 3) % prime116() == 0x359e37ebc0578d1a9d9079961d170int) by (nonlinear_arith);
    lemma_step(prime116(), 2, 0xe87c2a477b815a1793787nat, 0x84b158b54a9e4de09d40bedbd0b34int, 3, 0x359e37ebc0578d1a9d9079961d170int);
    assert(pow16(0x359e37ebc0578d1a9d9079961d170int) * small_pow(2, 9) % prime116() == 0x974304a17238fa2298925c8f365dcint) by (nonlinear_arith);
    lemma_step(prime116(), 2, 0xe87c2a477b815a17937873nat, 0x359e37ebc0578d1a9d9079961d170int, 9, 0x974304a17238fa2298925c8f365dcint);
    assert(pow16(0x974304a17238fa2298925c8f365dcint) * small_pow(2, 5) % prime116() == 0x4723e1db5a74ca1b46f23c6a464d2int) by (nonlinear_arith);
    lemma_step(prime116(), 2, 0xe87c2a477b815a179378739nat, 0x974304a17238fa2298925c8f365dcint, 5, 0x4723e1db5a74ca1b46f23c6a464d2int);
    assert(pow16(0x4723e1db5a74ca1b46f23c6a464d2int) * small_pow(2, 11) % prime116() == 0x9095bf6278a55b489c968fb6a8650int) by (nonlinear_arith);
    lemma_step(prime116(), 2, 0xe87c2a477b815a1793787395nat, 0x4723e1db5a74ca1b46f23c6a464d2int, 11, 0x9095bf6278a55b489c968fb6a8650int);
    assert(pow16(0x9095bf6278a55b489c968fb6a8650int) * small_pow(2, 2) % prime116() == 0x5591710bd8abd44b8633f13de7d97int) by (nonlinear_arith);
    lemma_step(prime116(), 2, 0xe87c2a477b815a1793787395bnat, 0x9095bf6278a55b489c968fb6a8650int, 2, 0x5591710bd8abd44b8633f13de7d97int);
    assert(pow16(0x5591710bd8abd44b8633f13de7d97int) * small_pow(2, 3) % prime116() == 0x9d12f8fa228178a3091169a144283int) by (nonlinear_arith);
    lemma_step(prime116(), 2, 0xe87c2a477b815a1793787395b2nat, 0x5591710bd8abd44b8633f13de7d97int, 3, 0x9d12f8fa228178a3091169a144283int);
    assert(pow16(0x9d12f8fa228178a3091169a144283int) * small_pow(2, 14) % prime116() == 0xd1b2ad899f6e641aa1ede251fa5deint) by (nonlinear_arith);
    lemma_step(prime116(), 2, 0xe87c2a477b815a1793787395b23nat, 0x9d12f8fa228178a3091169a144283int, 14, 0xd1b2ad899f6e641aa1ede251fa5deint);
    assert(pow16(0xd1b2ad899f6e641aa1ede251fa5deint) * small_pow(2, 0) % prime116() == 1) by (nonlinear_arith);
    lemma_step(prime116(), 2, 0xe87c2a477b815a1793787395b23enat, 0xd1b2ad899f6e641aa1ede251fa5deint, 0, 1);
}

proof fn lemma_power_116_0()
    ensures
        eqm(prime116(), pow(2, 0x2217588b6b4f717a0nat), 0xaedd80ab27e8de3ca5f2fb22d5403int),
{
    lemma_pow_zero(prime116(), 2);
    assert(pow16(1) * small_pow(2, 2) % prime116() == 4) by (nonlinear_arith);
    lemma_step(prime116(), 2, 0, 1, 2, 4);
    assert(pow16(4) * small_pow(2, 2) % prime116() == 0x400000000) by (nonlinear_arith);
    lemma_step(prime116(), 2, 2, 4, 2, 0x400000000);
    assert(pow16(0x400000000) * small_pow(2, 1) % prime116() == 0x4726c4d320000000000int) by (nonlinear_arith);
    lemma_step(prime116(), 2, 34, 0x400000000, 1, 0x4726c4d320000000000int);
    assert(pow16(0x4726c4d320000000000int) * small_pow(2, 7) % prime116() == 0x9e10535caff837d7c5291aa75141eint) by (nonlinear_arith);
    lemma_step(prime116(), 2, 545, 0x4726c4d320000000000int, 7, 0x9e10535caff837d7c5291aa75141eint);
    assert(pow16(0x9e10535caff837d7c5291aa75141eint) * small_pow(2, 5) % prime116() == 0xc5a158f0a198c844e78c5278e7e52int) by (nonlinear_arith);
    lemma_step(prime116(), 2, 8727, 0x9e10535caff837d7c5291aa75141eint, 5, 0xc5a158f0a198c844e78c5278e7e52int);
    assert(pow16(0xc5a158f0a198c844e78c5278e7e52int) * small_pow(2, 8) % prime116() == 0x1500cbd7bb1659c25e95a8d280a0dint) by (nonlinear_arith);
    lemma_step(prime116(), 2, 139637, 0xc5a158f0a198c844e78c5278e7e52int, 8, 0x1500cbd7bb1659c25e95a8d280a0dint);
    assert(pow16(0x1500cbd7bb1659c25e95a8d280a0dint) * small_pow(2, 8) % prime116() == 0xb2171325b2f1c1a49ecc867d5f24fint) by (nonlinear_arith);
    lemma_step(prime116(), 2, 0x221758, 0x1500cbd7bb1659c25e95a8d280a0dint, 8, 0xb2171325b2f1c1a49ecc867d5f24fint);
    assert(pow16(0xb2171325b2f1c1a49ecc867d5f24fint) * small_pow(2, 11) % prime116() == 0x28070f0ce68ad04dceeba5b7628b1int) by (nonlinear_arith);
    lemma_step(prime116(), 2, 0x2217588, 0xb2171325b2f1c1a49ecc867d5f24fint, 11, 0x28070f0ce68ad04dceeba5b7628b1int);
    assert(pow16(0x28070f0ce68ad04dceeba5b7628b1int) * small_pow(2, 6) % prime116() == 0x194edff57d80e5c9761410876addint) by (nonlinear_arith);
    lemma_step(prime116(), 2, 0x2217588b, 0x28070f0ce68ad04dceeba5b7628b1int, 6, 0x194edff57d80e5c9761410876addint);
    assert(pow16(0x194edff57d80e5c9761410876addint) * small_pow(2, 11) % prime116() == 0x695d4a8e9b68c082ac4a078aef045int) by (nonlinear_arith);
    lemma_step(prime116(), 2, 0x2217588b6, 0x194edff57d80e5c9761410876addint, 11, 0x695d4a8e9b68c082ac4a078aef045int);
    assert(pow16(0x695d4a8e9b68c082ac4a078aef045int) * small_pow(2, 4) % prime116() == 0xb2575d2efa93bf6464d7cad7b9ef9int) by (nonlinear_arith);
    lemma_step(prime116(), 2, 0x2217588b6b, 0x695d4a8e9b68c082ac4a078aef045int, 4, 0xb2575d2efa93bf6464d7cad7b9ef9int);
    assert(pow16(0xb2575d2efa93bf6464d7cad7b9ef9int) * small_pow(2, 15) % prime116() == 0x7783d69e20ee3bf78a6d9f9b8adfdint) by (nonlinear_arith);
    lemma_step(prime116(), 2, 0x2217588b6b4, 0xb2575d2efa93bf6464d7cad7b9ef9int, 15, 0x7783d69e20ee3bf78a6d9f9b8adfdint);
    assert(pow16(0x7783d69e20ee3bf78a6d9f9b8adfdint) * small_pow(2, 7) % prime116() == 0xdf4dd6133cbda34c81eefdf0eff1dint) by (nonlinear_arith);
    lemma_step(prime116(), 2, 0x2217588b6b4f, 0x7783d69e20ee3bf78a6d9f9b8adfdint, 7, 0xdf4dd6133cbda34c81eefdf0eff1dint);
    assert(pow16(0xdf4dd6133cbda34c81eefdf0eff1dint) * small_pow(2, 1) % prime116() == 0x3a599df33217093dc572ca5aab5a7int) by (nonlinear_arith);
    lemma_step(prime116(), 2, 0x2217588b6b4f7, 0xdf4dd6133cbda34c81eefdf0eff1dint, 1, 0x3a599df33217093dc572ca5aab5a7int);
    assert(pow16(0x3a599df33217093dc572ca5aab5a7int) * small_pow(2, 7) % prime116() == 0x2a989a902fb9217d482069bed88b1int) by (nonlinear_arith);
    lemma_step(prime116(), 2, 0x2217588b6b4f71, 0x3a599df33217093dc572ca5aab5a7int, 7, 0x2a989a902fb9217d482069bed88b1int);
    assert(pow16(0x2a989a902fb9217d482069bed88b1int) * small_pow(2, 10) % prime116() == 0x89b84ebdbb5f3ab59c3b0ef8b7512int) by (nonlinear_arith);
    lemma_step(prime116(), 2, 0x2217588b6b4f717, 0x2a989a902fb9217d482069bed88b1int, 10, 0x89b84ebdbb5f3ab59c3b0ef8b7512int);
    assert(pow16(0x89b84ebdbb5f3ab59c3b0ef8b7512int) * small_pow(2, 0) % prime116() == 0xaedd80ab27e8de3ca5f2fb22d5403int) by (nonlinear_arith);
    lemma_step(prime116(), 2, 0x2217588b6b4f717anat, 0x89b84ebdbb5f3ab59c3b0ef8b7512int, 0, 0xaedd80ab27e8de3ca5f2fb22d5403int);
}

proof fn lemma_power_116_1()
    ensures
        eqm(prime116(), pow(2, 0xc9405a7c6ddff89d0bef47da0nat), 0xb52295a2da9f8731db89340ad8f16int),
{
    lemma_pow_zero(prime116(), 2);
    assert(pow16(1) * small_pow(2, 12) % prime116() == 4096) by (nonlinear_arith);
    lemma_step(prime116(), 2, 0, 1, 12, 4096);
    assert(pow16(4096) * small_pow(2, 9) % prime116() == 0x4d1fc259a8601304281e475b2479fint) by (nonlinear_arith);
    lemma_step(prime116(), 2, 12, 4096, 9, 0x4d1fc259a8601304281e475b2479fint);
    assert(pow16(0x4d1fc259a8601304281e475b2479fint) * small_pow(2, 4) % prime116() == 0x9d96455616238cfda50440d0f5d8bint) by (nonlinear_arith);
    lemma_step(prime116(), 2, 201, 0x4d1fc259a8601304281e475b2479fint, 4, 0x9d96455616238cfda50440d0f5d8bint);
    assert(pow16(0x9d96455616238cfda50440d0f5d8bint) * small_pow(2, 0) % prime116() == 0x7bf7d983f005dbf244bc78a62bd26int) by (nonlinear_arith);
    lemma_step(prime116(), 2, 3220, 0x9d96455616238cfda50440d0f5d8bint, 0, 0x7bf7d983f005dbf244bc78a62bd26int);
    assert(pow16(0x7bf7d983f005dbf244bc78a62bd26int) * small_pow(2, 5) % prime116() == 0x64ee51d07aa10f00c917e53f41922int) by (nonlinear_arith);
    lemma_step(prime116(), 2, 51520, 0x7bf7d983f005dbf244bc78a62bd26int, 5, 0x64ee51d07aa10f00c917e53f41922int);
    assert(pow16(0x64ee51d07aa10f00c917e53f41922int) * small_pow(2, 10) % prime116() == 0x92a81457e5d916e1ae10b6316df31int) by (nonlinear_arith);
    lemma_step(prime116(), 2, 824325, 0x64ee51d07aa10f00c917e53f41922int, 10, 0x92a81457e5d916e1ae10b6316df31int);
    assert(pow16(0x92a81457e5d916e1ae10b6316df31int) * small_pow(2, 7) % prime116() == 0x85111b977aac78da0c8fe36326949int) by (nonlinear_arith);
    lemma_step(prime116(), 2, 0xc9405a, 0x92a81457e5d916e1ae10b6316df31int, 7, 0x85111b977aac78da0c8fe36326949int);
    assert(pow16(0x85111b977aac78da0c8fe36326949int) * small_pow(2, 12) % prime116() == 0xcb8bcbed59cfd6d3a3d73bb590d61int) by (nonlinear_arith);
    lemma_step(prime116(), 2, 0xc9405a7, 0x85111b977aac78da0c8fe36326949int, 12, 0xcb8bcbed59cfd6d3a3d73bb590d61int);
    assert(pow16(0xcb8bcbed59cfd6d3a3d73bb590d61int) * small_pow(2, 6) % prime116() == 0xa1d3c1be0e761e27139f76483c885int) by (nonlinear_arith);
    lemma_step(prime116(), 2, 0xc9405a7c, 0xcb8bcbed59cfd6d3a3d73bb590d61int, 6, 0xa1d3c1be0e761e27139f76483c885int);
    assert(pow16(0xa1d3c1be0e761e27139f76483c885int) * small_pow(2, 13) % prime116() == 0xd58d4c10ca33ba64f0904b2d8096eint) by (nonlinear_arith);
    lemma_step(prime116(), 2, 0xc9405a7c6, 0xa1d3c1be0e761e27139f76483c885int, 13, 0xd58d4c10ca33ba64f0904b2d8096eint);
    assert(pow16(0xd58d4c10ca33ba64f0904b2d8096eint) * small_pow(2, 13) % prime116() == 0x613c032af8ff6b912514ca13f45e4int) by (nonlinear_arith);
    lemma_step(prime116(), 2, 0xc9405a7c6d, 0xd58d4c10ca33ba64f0904b2d8096eint, 13, 0x613c032af8ff6b912514ca13f45e4int);
    assert(pow16(0x613c032af8ff6b912514ca13f45e4int) * small_pow(2, 15) % prime116() == 0xbb2c158bbe5492fc037a5acc13659int) by (nonlinear_arith);
    lemma_step(prime116(), 2, 0xc9405a7c6dd, 0x613c032af8ff6b912514ca13f45e4int, 15, 0xbb2c158bbe5492fc037a5acc13659int);
    assert(pow16(0xbb2c158bbe5492fc037a5acc13659int) * small_pow(2, 15) % prime116() == 0x3a0a481bee591fb4c659fd15c083aint) by (nonlinear_arith);
    lemma_step(prime116(), 2, 0xc9405a7c6ddf, 0xbb2c158bbe5492fc037a5acc13659int, 15, 0x3a0a481bee591fb4c659fd15c083aint);
    assert(pow16(0x3a0a481bee591fb4c659fd15c083aint) * small_pow(2, 8) % prime116() == 0x19916ca913fef297f95d7491a1321int) by (nonlinear_arith);
    lemma_step(prime116(), 2, 0xc9405a7c6ddff, 0x3a0a481bee591fb4c659fd15c083aint, 8, 0x19916ca913fef297f95d7491a1321int);
    assert(pow16(0x19916ca913fef297f95d7491a1321int) * small_pow(2, 9) % prime116() == 0x717eacca2fdfbc670da188c3ba89cint) by (nonlinear_arith);
    lemma_step(prime116(), 2, 0xc9405a7c6ddff8, 0x19916ca913fef297f95d7491a1321int, 9, 0x717eacca2fdfbc670da188c3ba89cint);
    assert(pow16(0x717eacca2fdfbc670da188c3ba89cint) * small_pow(2, 13) % prime116() == 0x7e49099cae33582123ef77c754c75int) by (nonlinear_arith);
    lemma_step(prime116(), 2, 0xc9405a7c6ddff89, 0x717eacca2fdfbc670da188c3ba89cint, 13, 0x7e49099cae33582123ef77c754c75int);
    assert(pow16(0x7e49099cae33582123ef77c754c75int) * small_pow(2, 0) % prime116() == 0x91055418ccd967300b4455d41d03cint) by (nonlinear_arith);
    lemma_step(prime116(), 2, 0xc9405a7c6ddff89dnat, 0x7e49099cae33582123ef77c754c75int, 0, 0x91055418ccd967300b4455d41d03cint);
    assert(pow16(0x91055418ccd967300b4455d41d03cint) * small_pow(2, 11) % prime116() == 0x14c5eeb6d51f8ada9e583045642afint) by (nonlinear_arith);
    lemma_step(prime116(), 2, 0xc9405a7c6ddff89d0nat, 0x91055418ccd967300b4455d41d03cint, 11, 0x14c5eeb6d51f8ada9e583045642afint);
    assert(pow16(0x14c5eeb6d51f8ada9e583045642afint) * small_pow(2, 14) % prime116() == 0x97e2eb210f9b701674c604cb7b4b0int) by (nonlinear_arith);
    lemma_step(prime116(), 2, 0xc9405a7c6ddff89d0bnat, 0x14c5eeb6d51f8ada9e583045642afint, 14, 0x97e2eb210f9b701674c604cb7b4b0int);
    assert(pow16(0x97e2eb210f9b701674c604cb7b4b0int) * small_pow(2, 15) % prime116() == 0x197852fd37ac162bdd3dfb19082a4int) by (nonlinear_arith);
    lemma_step(prime116(), 2, 0xc9405a7c6ddff89d0benat, 0x97e2eb210f9b701674c604cb7b4b0int, 15, 0x197852fd37ac162bdd3dfb19082a4int);
    assert(pow16(0x197852fd37ac162bdd3dfb19082a4int) * small_pow(2, 4) % prime116() == 0x23b6f708aae852aff6850b6091b93int) by (nonlinear_arith);
    lemma_step(prime116(), 2, 0xc9405a7c6ddff89d0befnat, 0x197852fd37ac162bdd3dfb19082a4int, 4, 0x23b6f708aae852aff6850b6091b93int);
    assert(pow16(0x23b6f708aae852aff6850b6091b93int) * small_pow(2, 7) % prime116() == 0xacbdeaa551bc4b25a0788a2ec5f10int) by (nonlinear_arith);
    lemma_step(prime116(), 2, 0xc9405a7c6ddff89d0bef4nat, 0x23b6f708aae852aff6850b6091b93int, 7, 0xacbdeaa551bc4b25a0788a2ec5f10int);
    assert(pow16(0xacbdeaa551bc4b25a0788a2ec5f10int) * small_pow(2, 13) % prime116() == 0xe1cc6fdfbde0555e92dcb7d0ffdc7int) by (nonlinear_arith);
    lemma_step(prime116(), 2, 0xc9405a7c6ddff89d0bef47nat, 0xacbdeaa551bc4b25a0788a2ec5f10int, 13, 0xe1cc6fdfbde0555e92dcb7d0ffdc7int);
    assert(pow16(0xe1cc6fdfbde0555e92dcb7d0ffdc7int) * small_pow(2, 10) % prime116() == 0xa79d2c0c2d17f70716c20690a5c72int) by (nonlinear_arith);
    lemma_step(prime116(), 2, 0xc9405a7c6ddff89d0bef47dnat, 0xe1cc6fdfbde0555e92dcb7d0ffdc7int, 10, 0xa79d2c0c2d17f70716c20690a5c72int);
    assert(pow16(0xa79d2c0c2d17f70716c20690a5c72int) * small_pow(2, 0) % prime116() == 0xb52295a2da9f8731db89340ad8f16int) by (nonlinear_arith);
    lemma_step(prime116(), 2, 0xc9405a7c6ddff89d0bef47danat, 0xa79d2c0c2d17f70716c20690a5c72int, 0, 0xb52295a2da9f8731db89340ad8f16int);
}

/// 75445702479781427272750846543864801 is prime.
proof fn lemma_prime_116()
    ensures
        is_prime(prime116()),
{
    lemma_unit_116();
    lemma_power_116_0();
    assert(0xe5e342b4c0a3d507894bab5f20e8bint * (0xaedd80ab27e8de3ca5f2fb22d5403int - 1) % prime116() == 1) by (nonlinear_arith);
    lemma_unit_witness(prime116(), 0xe5e342b4c0a3d507894bab5f20e8bint, 0xaedd80ab27e8de3ca5f2fb22d5403int, pow(2, 0x2217588b6b4f717a0nat));
    lemma_prime_51();
    lemma_power_116_1();
    assert(0x1bb0fee20f00433b82723f09a47f3int * (0xb52295a2da9f8731db89340ad8f16int - 1) % prime116() == 1) by (nonlinear_arith);
    lemma_unit_witness(prime116(), 0x1bb0fee20f00433b82723f09a47f3int, 0xb52295a2da9f8731db89340ad8f16int, pow(2, 0xc9405a7c6ddff89d0bef47da0nat));
    lemma_prime_17();
    assert forall|r: int| is_prime(r) && #[trigger] divides(r, prime116()) implies r > 0x7e0bc25701e906409int by {
        lemma_pocklington(prime116(), prime51(), 0x2217588b6b4f717a0nat, 2, 0xe5e342b4c0a3d507894bab5f20e8bint, r);
        lemma_pocklington(prime116(), prime17(), 0xc9405a7c6ddff89d0bef47da0nat, 2, 0x1bb0fee20f00433b82723f09a47f3int, r);
        lemma_two_divisors(prime51(), prime17(), r - 1);
        lemma_above(0x7e0bc25701e906409int, r);
    }
    assert(0x7e0bc25701e906409int * 0x7e0bc25701e906409int > prime116()) by (nonlinear_arith);
    lemma_prime_by_bound(prime116(), 0x7e0bc25701e906409int);
}

proof fn lemma_unit_236()
    ensures
        eqm(prime236(), pow(2, 0xabaf8c6b094fd0f32c2ccabab864dbecd99144679c1adf804898fb2042anat), 1),
{
    lemma_pow_zero(prime236(), 2);
    assert(pow16(1) * small_pow(2, 10) % prime236() == 1024) by (nonlinear_arith);
    lemma_step(prime236(), 2, 0, 1, 10, 1024);
    assert(pow16(1024) * small_pow(2, 11) % prime236() == 0x8000000000000000000000000000000000000000000int) by (nonlinear_arith);
    lemma_step(prime236(), 2, 10, 1024, 11, 0x8000000000000000000000000000000000000000000int);
    assert(pow16(0x8000000000000000000000000000000000000000000int) * small_pow(2, 10) % prime236() == 0x98456e9086f263a6c1b9b484a2e0d4f8f39f86bd12a2a67c503b3f5c9d1int) by (nonlinear_arith);
    lemma_step(prime236(), 2, 171, 0x8000000000000000000000000000000000000000000int, 10, 0x98456e9086f263a6c1b9b484a2e0d4f8f39f86bd12a2a67c503b3f5c9d1int);
    assert(pow16(0x98456e9086f263a6c1b9b484a2e0d4f8f39f86bd12a2a67c503b3f5c9d1int) * small_pow(2, 15) % prime236() == 0x9b835587fb714e16c33dffe10c2ce8128aa3b40f8300ea357cea34bd258int) by (nonlinear_arith);
    lemma_step(prime236(), 2, 2746, 0x98456e9086f263a6c1b9b484a2e0d4f8f39f86bd12a2a67c503b3f5c9d1int, 15, 0x9b835587fb714e16c33dffe10c2ce8128aa3b40f8300ea357cea34bd258int);
    assert(pow16(0x9b835587fb714e16c33dffe10c2ce8128aa3b40f8300ea357cea34bd258int) * small_pow(2, 8) % prime236() == 0x2cea123fa84e08972d63324bdcd04e2b49063d096ae927b3c5f848a77fint) by (nonlinear_arith);
    lemma_step(prime236(), 2, 43951, 0x9b835587fb714e16c33dffe10c2ce8128aa3b40f8300ea357cea34bd258int, 8, 0x2cea123fa84e08972d63324bdcd04e2b49063d096ae927b3c5f848a77fint);
    assert(pow16(0x2cea123fa84e08972d63324bdcd04e2b49063d096ae927b3c5f848a77fint) * small_pow(2, 12) % prime236() == 0x562a5f1e883e9fc3148961abf017c7aaefa69ae516d0f9d7f5f3fcf200cint) by (nonlinear_arith);
    lemma_step(prime236(), 2, 703224, 0x2cea123fa84e08972d63324bdcd04e2b49063d096ae927b3c5f848a77fint, 12, 0x562a5f1e883e9fc3148961abf017c7aaefa69ae516d0f9d7f5f3fcf200cint);
    assert(pow16(0x562a5f1e883e9fc3148961abf017c7aaefa69ae516d0f9d7f5f3fcf200cint) * small_pow(2, 6) % prime236() == 0x3ec2264a48efd2b4422960c37a01e4fde80185edb57987743243c80c2f8int) by (nonlinear_arith);
    lemma_step(prime236(), 2, 0xabaf8c, 0x562a5f1e883e9fc3148961abf017c7aaefa69ae516d0f9d7f5f3fcf200cint, 6, 0x3ec2264a48efd2b4422960c37a01e4fde80185edb57987743243c80c2f8int);
    assert(pow16(0x3ec2264a48efd2b4422960c37a01e4fde80185edb57987743243c80c2f8int) * small_pow(2, 11) % prime236() == 0x351a835a72217d5d8918847150669ba0de73657bc4d74b3ec295faa999dint) by (nonlinear_arith);
    lemma_step(prime236(), 2, 0xabaf8c6, 0x3ec2264a48efd2b4422960c37a01e4fde80185edb57987743243c80c2f8int, 11, 0x351a835a72217d5d8918847150669ba0de73657bc4d74b3ec295faa999dint);
    assert(pow16(0x351a835a72217d5d8918847150669ba0de73657bc4d74b3ec295faa999dint) * small_pow(2, 0) % prime236() == 0x79203519a4ca212e7a0d1b2072633b530f8e503a88e6bec5b1dd39ad27bint) by (nonlinear_arith);
    lemma_step(prime236(), 2, 0xabaf8c6b, 0x351a835a72217d5d8918847150669ba0de73657bc4d74b3ec295faa999dint, 0, 0x79203519a4ca212e7a0d1b2072633b530f8e503a88e6bec5b1dd39ad27bint);
    assert(pow16(0x79203519a4ca212e7a0d1b2072633b530f8e503a88e6bec5b1dd39ad27bint) * small_pow(2, 9) % prime236() == 0x2efd2529648ab837e25eb7a061c2420f502146610e90ef16459473732c7int) by (nonlinear_arith);
    lemma_step(prime236(), 2, 0xabaf8c6b0, 0x79203519a4ca212e7a0d1b2072633b530f8e503a88e6bec5b1dd39ad27bint, 9, 0x2efd2529648ab837e25eb7a061c2420f502146610e90ef16459473732c7int);
    assert(pow16(0x2efd2529648ab837e25eb7a061c2420f502146610e90ef16459473732c7int) * small_pow(2, 4) % prime236() == 0x59d2010b98253ff30e16b758406df2547c3b31833f0e58bc0289e40fc43int) by (nonlinear_arith);
    lemma_step(prime236(), 2, 0xabaf8c6b09, 0x2efd2529648ab837e25eb7a061c2420f502146610e90ef16459473732c7int, 4, 0x59d2010b98253ff30e16b758406df2547c3b31833f0e58bc0289e40fc43int);
    assert(pow16(0x59d2010b98253ff30e16b758406df2547c3b31833f0e58bc0289e40fc43int) * small_pow(2, 15) % prime236() == 0x5e6babd012fad117dc595cc8fe9b217d27dc56a6d7c36937da433a96514int) by (nonlinear_arith);
    lemma_step(prime236(), 2, 0xabaf8c6b094, 0x59d2010b98253ff30e16b758406df2547c3b31833f0e58bc0289e40fc43int, 15, 0x5e6babd012fad117dc595cc8fe9b217d27dc56a6d7c36937da433a96514int);
    assert(pow16(0x5e6babd012fad117dc595cc8fe9b217d27dc56a6d7c36937da433a96514int) * small_pow(2, 13) % prime236() == 0x20d53d5e0de943b3b9f2c36c1cb11377651390a722daea1b40ef0df4e53int) by (nonlinear_arith);
    lemma_step(prime236(), 2, 0xabaf8c6b094f, 0x5e6babd012fad117dc595cc8fe9b217d27dc56a6d7c36937da433a96514int, 13, 0x20d53d5e0de943b3b9f2c36c1cb11377651390a722daea1b40ef0df4e53int);
    assert(pow16(0x20d53d5e0de943b3b9f2c36c1cb11377651390a722daea1b40ef0df4e53int) * small_pow(2, 0) % prime236() == 0xa0513e080d8cfc7ecc515dd9374f9694476a2d5508ffda0def104f5f513int) by (nonlinear_arith);
    lemma_step(prime236(), 2, 0xabaf8c6b094fd, 0x20d53d5e0de943b3b9f2c36c1cb11377651390a722daea1b40ef0df4e53int, 0, 0xa0513e080d8cfc7ecc515dd9374f9694476a2d5508ffda0def104f5f513int);
    assert(pow16(0xa0513e080d8cfc7ecc515dd9374f9694476a2d5508ffda0def104f5f513int) * small_pow(2, 15) % prime236() == 0x7f6fe1a85125c44031389d568ac3a069848624fada4db30fae31c608b78int) by (nonlinear_arith);
    lemma_step(prime236(), 2, 0xabaf8c6b094fd0, 0xa0513e080d8cfc7ecc515dd9374f9694476a2d5508ffda0def104f5f513int, 15, 0x7f6fe1a85125c44031389d568ac3a069848624fada4db30fae31c608b78int);
    assert(pow16(0x7f6fe1a85125c44031389d568ac3a069848624fada4db30fae31c608b78int) * small_pow(2, 3) % prime236() == 0x3da899419029c2340a6ce9ff5f93b91d1ee159a80250bef106629f259e4int) by (nonlinear_arith);
    lemma_step(prime236(), 2, 0xabaf8c6b094fd0f, 0x7f6fe1a85125c44031389d568ac3a069848624fada4db30fae31c608b78int, 3, 0x3da899419029c2340a6ce9ff5f93b91d1ee159a80250bef106629f259e4int);
    assert(pow16(0x3da899419029c2340a6ce9ff5f93b91d1ee159a80250bef106629f259e4int) * small_pow(2, 2) % prime236() == 0x22686b0570abdfef3c103bb09b77936bbb48c1dd46f4a1853a6ff5d1353int) by (nonlinear_arith);
    lemma_step(prime236(), 2, 0xabaf8c6b094fd0f3nat, 0x3da899419029c2340a6ce9ff5f93b91d1ee159a80250bef106629f259e4int, 2, 0x22686b0570abdfef3c103bb09b77936bbb48c1dd46f4a1853a6ff5d1353int);
    assert(pow16(0x22686b0570abdfef3c103bb09b77936bbb48c1dd46f4a1853a6ff5d1353int) * small_pow(2, 12) % prime236() == 0x1ad5bc52c9c6202d8c9f889d7abe9f887de863f254747185013e6b77865int) by (nonlinear_arith);
    lemma_step(prime236(), 2, 0xabaf8c6b094fd0f32nat, 0x22686b0570abdfef3c103bb09b77936bbb48c1dd46f4a1853a6ff5d1353int, 12, 0x1ad5bc52c9c6202d8c9f889d7abe9f887de863f254747185013e6b77865int);
    assert(pow16(0x1ad5bc52c9c6202d8c9f889d7abe9f887de863f254747185013e6b77865int) * small_pow(2, 2) % prime236() == 0x9b14dccd12c5c9a0e0169e3d5a0026a0af8b89c18483f70f6cdab81b299int) by (nonlinear_arith);
    lemma_step(prime236(), 2, 0xabaf8c6b094fd0f32cnat, 0x1ad5bc52c9c6202d8c9f889d7abe9f887de863f254747185013e6b77865int, 2, 0x9b14dccd12c5c9a0e0169e3d5a0026a0af8b89c18483f70f6cdab81b299int);
    assert(pow16(0x9b14dccd12c5c9a0e0169e3d5a0026a0af8b89c18483f70f6cdab81b299int) * small_pow(2, 12) % prime236() == 0x628965681793a804c586568911b3b9c867ac376d4168aa8a74c6e34b44eint) by (nonlinear_arith);
    lemma_step(prime236(), 2, 0xabaf8c6b094fd0f32c2nat, 0x9b14dccd12c5c9a0e0169e3d5a0026a0af8b89c18483f70f6cdab81b299int, 12, 0x628965681793a804c586568911b3b9c867ac376d4168aa8a74c6e34b44eint);
    assert(pow16(0x628965681793a804c586568911b3b9c867ac376d4168aa8a74c6e34b44eint) * small_pow(2, 12) % prime236() == 0x8cff2ff1217e88ad997f2a2876471800813c29ad3f0b93e0e941777bb2eint) by (nonlinear_arith);
    lemma_step(prime236(), 2, 0xabaf8c6b094fd0f32c2cnat, 0x628965681793a804c586568911b3b9c867ac376d4168aa8a74c6e34b44eint, 12, 0x8cff2ff1217e88ad997f2a2876471800813c29ad3f0b93e0e941777bb2eint);
    assert(pow16(0x8cff2ff1217e88ad997f2a2876471800813c29ad3f0b93e0e941777bb2eint) * small_pow(2, 10) % prime236() == 0x77c594872a16a70a2f251349011c604f0c33ff02b9e6a8f6ae4f8832231int) by (nonlinear_arith);
    lemma_step(prime236(), 2, 0xabaf8c6b094fd0f32c2ccnat, 0x8cff2ff1217e88ad997f2a2876471800813c29ad3f0b93e0e941777bb2eint, 10, 0x77c594872a16a70a2f251349011c604f0c33ff02b9e6a8f6ae4f8832231int);
    assert(pow16(0x77c594872a16a70a2f251349011c604f0c33ff02b9e6a8f6ae4f8832231int) * small_pow(2, 11) % prime236() == 0x9bc29e51e651aef1a4b6816369454cc635950936ac18b7edf7a2bd2a3d7int) by (nonlinear_arith);
    lemma_step(prime236(), 2, 0xabaf8c6b094fd0f32c2ccanat, 0x77c594872a16a70a2f251349011c604f0c33ff02b9e6a8f6ae4f8832231int, 11, 0x9bc29e51e651aef1a4b6816369454cc635950936ac18b7edf7a2bd2a3d7int);
    assert(pow16(0x9bc29e51e651aef1a4b6816369454cc635950936ac18b7edf7a2bd2a3d7int) * small_pow(2, 10) % prime236() == 0x6d643650bd8c4ca59e350262598eece25ae5183214734a8e2680a1ff0a4int) by (nonlinear_arith);
    lemma_step(prime236(), 2, 0xabaf8c6b094fd0f32c2ccabnat, 0x9bc29e51e651aef1a4b6816369454cc635950936ac18b7edf7a2bd2a3d7int, 10, 0x6d643650bd8c4ca59e350262598eece25ae5183214734a8e2680a1ff0a4int);
    assert(pow16(0x6d643650bd8c4ca59e350262598eece25ae5183214734a8e2680a1ff0a4int) * small_pow(2, 11) % prime236() == 0x4c95d4222535657fcd59126ea764bf17ee4536a226b1503ad0c8c6730c0int) by (nonlinear_arith);
    lemma_step(prime236(), 2, 0xabaf8c6b094fd0f32c2ccabanat, 0x6d643650bd8c4ca59e350262598eece25ae5183214734a8e2680a1ff0a4int, 11, 0x4c95d4222535657fcd59126ea764bf17ee4536a226b1503ad0c8c6730c0int);
    assert(pow16(0x4c95d4222535657fcd59126ea764bf17ee4536a226b1503ad0c8c6730c0int) * small_pow(2, 8) % prime236() == 0x89f496bcbf60ba7a275febd4bcc076ca8e4ac27cc543c5d071151cec8cint) by (nonlinear_arith);
    lemma_step(prime236(), 2, 0xabaf8c6b094fd0f32c2ccababnat, 0x4c95d4222535657fcd59126ea764bf17ee4536a226b1503ad0c8c6730c0int, 8, 0x89f496bcbf60ba7a275febd4bcc076ca8e4ac27cc543c5d071151cec8cint);
    assert(pow16(0x89f496bcbf60ba7a275febd4bcc076ca8e4ac27cc543c5d071151cec8cint) * small_pow(2, 6) % prime236() == 0x665d13962bb0905ec90e17b62f455059d7bb0a97af871368b1d3851788fint) by (nonlinear_arith);
    lemma_step(prime236(), 2, 0xabaf8c6b094fd0f32c2ccabab8nat, 0x89f496bcbf60ba7a275febd4bcc076ca8e4ac27cc543c5d071151cec8cint, 6, 0x665d13962bb0905ec90e17b62f455059d7bb0a97af871368b1d3851788fint);
    assert(pow16(0x665d13962bb0905ec90e17b62f455059d7bb0a97af871368b1d3851788fint) * small_pow(2, 4) % prime236() == 0x276b1786417c82148e4ca9cb0f1275992dcfa4b9c8d06beb65af518520cint) by (nonlinear_arith);
    lemma_step(prime236(), 2, 0xabaf8c6b094fd0f32c2ccabab86nat, 0x665d13962bb0905ec90e17b62f455059d7bb0a97af871368b1d3851788fint, 4, 0x276b1786417c82148e4ca9cb0f1275992dcfa4b9c8d06beb65af518520cint);
    assert(pow16(0x276b1786417c82148e4ca9cb0f1275992dcfa4b9c8d06beb65af518520cint) * small_pow(2, 13) % prime236() == 0x1d1b9b0e1361200cedd51490da1190117ea2918e1770f42eebd188bafa4int) by (nonlinear_arith);
    lemma_step(prime236(), 2, 0xabaf8c6b094fd0f32c2ccabab864nat, 0x276b1786417c82148e4ca9cb0f1275992dcfa4b9c8d06beb65af518520cint, 13, 0x1d1b9b0e1361200cedd51490da1190117ea2918e1770f42eebd188bafa4int);
    assert(pow16(0x1d1b9b0e1361200cedd51490da1190117ea2918e1770f42eebd188bafa4int) * small_pow(2, 11) % prime236() == 0xa8f78592caf3bc358b141d31ba7ff9b3ec16ff810d69edfdb542edcbe74int) by (nonlinear_arith);
    lemma_step(prime236(), 2, 0xabaf8c6b094fd0f32c2ccabab864dnat, 0x1d1b9b0e1361200cedd51490da1190117ea2918e1770f42eebd188bafa4int, 11, 0xa8f78592caf3bc358b141d31ba7ff9b3ec16ff810d69edfdb542edcbe74int);
    assert(pow16(0xa8f78592caf3bc358b141d31ba7ff9b3ec16ff810d69edfdb542edcbe74int) * small_pow(2, 14) % prime236() == 0x65198fb2731d00e133983d7ef79d70fdcc957a4646f55e542a7e91157a7int) by (nonlinear_arith);
    lemma_step(prime236(), 2, 0xabaf8c6b094fd0f32c2ccabab864dbnat, 0xa8f78592caf3bc358b141d31ba7ff9b3ec16ff810d69edfdb542edcbe74int, 14, 0x65198fb2731d00e133983d7ef79d70fdcc957a4646f55e542a7e91157a7int);
    assert(pow16(0x65198fb2731d00e133983d7ef79d70fdcc957a4646f55e542a7e91157a7int) * small_pow(2, 12) % prime236() == 0x99a025d1a4b6c3ee39e8efb735145b644f980163dcb26d220a080f9bba0int) by (nonlinear_arith);
    lemma_step(prime236(), 2, 0xabaf8c6b094fd0f32c2ccabab864dbenat, 0x65198fb2731d00e133983d7ef79d70fdcc957a4646f55e542a7e91157a7int, 12, 0x99a025d1a4b6c3ee39e8efb735145b644f980163dcb26d220a080f9bba0int);
    assert(pow16(0x99a025d1a4b6c3ee39e8efb735145b644f980163dcb26d220a080f9bba0int) * small_pow(2, 13) % prime236() == 0x49ea3b118a8793dbf342aa72ed03a58a550277be065dc63ce27af175bb7int) by (nonlinear_arith);
    lemma_step(prime236(), 2, 0xabaf8c6b094fd0f32c2ccabab864dbecnat, 0x99a025d1a4b6c3ee39e8efb735145b644f980163dcb26d220a080f9bba0int, 13, 0x49ea3b118a8793dbf342aa72ed03a58a550277be065dc63ce27af175bb7int);
    assert(pow16(0x49ea3b118a8793dbf342aa72ed03a58a550277be065dc63ce27af175bb7int) * small_pow(2, 9) % prime236() == 0x2d3bcd918bcba478a628001702d8b04923e640b403987f1fc67d3157bfeint) by (nonlinear_arith);
    lemma_step(prime236(), 2, 0xabaf8c6b094fd0f32c2ccabab864dbecdnat, 0x49ea3b118a8793dbf342aa72ed03a58a550277be065dc63ce27af175bb7int, 9, 0x2d3bcd918bcba478a628001702d8b04923e640b403987f1fc67d3157bfeint);
    assert(pow16(0x2d3bcd918bcba478a628001702d8b04923e640b403987f1fc67d3157bfeint) * small_pow(2, 9) % prime236() == 0x9aeed6af3cd6962eb1fed0a2eed74f50cf13b3a6a2c3d04fe5893695710int) by (nonlinear_arith);
    lemma_step(prime236(), 2, 0xabaf8c6b094fd0f32c2ccabab864dbecd9nat, 0x2d3bcd918bcba478a628001702d8b04923e640b403987f1fc67d3157bfeint, 9, 0x9aeed6af3cd6962eb1fed0a2eed74f50cf13b3a6a2c3d04fe5893695710int);
    assert(pow16(0x9aeed6af3cd6962eb1fed0a2eed74f50cf13b3a6a2c3d04fe5893695710int) * small_pow(2, 1) % prime236() == 0x5602492ed8d3665fa0936352c3c44013beb514640f5e3f3464801f703c1int) by (nonlinear_arith);
    lemma_step(prime236(), 2, 0xabaf8c6b094fd0f32c2ccabab864dbecd99nat, 0x9aeed6af3cd6962eb1fed0a2eed74f50cf13b3a6a2c3d04fe5893695710int, 1, 0x5602492ed8d3665fa0936352c3c44013beb514640f5e3f3464801f703c1int);
    assert(pow16(0x5602492ed8d3665fa0936352c3c44013beb514640f5e3f3464801f703c1int) * small_pow(2, 4) % prime236() == 0x559eec119ed89e97e3880bf554e4dfac497e175c7ba49916ac3c2c04347int) by (nonlinear_arith);
    lemma_step(prime236(), 2, 0xabaf8c6b094fd0f32c2ccabab864dbecd991nat, 0x5602492ed8d3665fa0936352c3c44013beb514640f5e3f3464801f703c1int, 4, 0x559eec119ed89e97e3880bf554e4dfac497e175c7ba49916ac3c2c04347int);
    assert(pow16(0x559eec119ed89e97e3880bf554e4dfac497e175c7ba49916ac3c2c04347int) * small_pow(2, 4) % prime236() == 0x8691a864666d02d29e6e8f858711919bf3ea1f7df0bc23e87518f90e96fint) by (nonlinear_arith);
    lemma_step(prime236(), 2, 0xabaf8c6b094fd0f32c2ccabab864dbecd9914nat, 0x559eec119ed89e97e3880bf554e4dfac497e175c7ba49916ac3c2c04347int, 4, 0x8691a864666d02d29e6e8f858711919bf3ea1f7df0bc23e87518f90e96fint);
    assert(pow16(0x8691a864666d02d29e6e8f858711919bf3ea1f7df0bc23e87518f90e96fint) * small_pow(2, 6) % prime236() == 0x897d4e5ca6b621a204246bf1e6b3ccf0c3abffea8fbf99e759e1d4e4441int) by (nonlinear_arith);
    lemma_step(prime236(), 2, 0xabaf8c6b094fd0f32c2ccabab864dbecd99144nat, 0x8691a864666d02d29e6e8f858711919bf3ea1f7df0bc23e87518f90e96fint, 6, 0x897d4e5ca6b621a204246bf1e6b3ccf0c3abffea8fbf99e759e1d4e4441int);
    assert(pow16(0x897d4e5ca6b621a204246bf1e6b3ccf0c3abffea8fbf99e759e1d4e4441int) * small_pow(2, 7) % prime236() == 0x59a177ec303be469991b48d06373b36d457769c4c58ca76fd75ee1dd90aint) by (nonlinear_arith);
    lemma_step(prime236(), 2, 0xabaf8c6b094fd0f32c2ccabab864dbecd991446nat, 0x897d4e5ca6b621a204246bf1e6b3ccf0c3abffea8fbf99e759e1d4e4441int, 7, 0x59a177ec303be469991b48d06373b36d457769c4c58ca76fd75ee1dd90aint);
    assert(pow16(0x59a177ec303be469991b48d06373b36d457769c4c58ca76fd75ee1dd90aint) * small_pow(2, 9) % prime236() == 0xaa738e91cf630c4b2d4d9a87f107c67600d65c9394c40a69c0a8bfbbd71int) by (nonlinear_arith);
    lemma_step(prime236(), 2, 0xabaf8c6b094fd0f32c2ccabab864dbecd9914467nat, 0x59a177ec303be469991b48d06373b36d457769c4c58ca76fd75ee1dd90aint, 9, 0xaa738e91cf630c4b2d4d9a87f107c67600d65c9394c40a69c0a8bfbbd71int);
    assert(pow16(0xaa738e91cf630c4b2d4d9a87f107c67600d65c9394c40a69c0a8bfbbd71int) * small_pow(2, 12) % prime236() == 0x94b51c1c08bb6106c387702367d83969555138f3b551b4b89d2146436a4int) by (nonlinear_arith);
    lemma_step(prime236(), 2, 0xabaf8c6b094fd0f32c2ccabab864dbecd99144679nat, 0xaa738e91cf630c4b2d4d9a87f107c67600d65c9394c40a69c0a8bfbbd71int, 12, 0x94b51c1c08bb6106c387702367d83969555138f3b551b4b89d2146436a4int);
    assert(pow16(0x94b51c1c08bb6106c387702367d83969555138f3b551b4b89d2146436a4int) * small_pow(2, 1) % prime236() == 0x506725a0e8768ca4f235a0c11ddcc1eb8e7929ccfb68c61926032997176int) by (nonlinear_arith);
    lemma_step(prime236(), 2, 0xabaf8c6b094fd0f32c2ccabab864dbecd99144679cnat, 0x94b51c1c08bb6106c387702367d83969555138f3b551b4b89d2146436a4int, 1, 0x506725a0e8768ca4f235a0c11ddcc1eb8e7929ccfb68c61926032997176int);
    assert(pow16(0x506725a0e8768ca4f235a0c11ddcc1eb8e7929ccfb68c61926032997176int) * small_pow(2, 10) % prime236() == 0xa81cc8bb256fba5be9172c780f8f2ca8330a1cd3a1145636c53d52e39fint) by (nonlinear_arith);
    lemma_step(prime236(), 2, 0xabaf8c6b094fd0f32c2ccabab864dbecd99144679c1nat, 0x506725a0e8768ca4f235a0c11ddcc1eb8e7929ccfb68c61926032997176int, 10, 0xa81cc8bb256fba5be9172c780f8f2ca8330a1cd3a1145636c53d52e39fint);
    assert(pow16(0xa81cc8bb256fba5be9172c780f8f2ca8330a1cd3a1145636c53d52e39fint) * small_pow(2, 13) % prime236() == 0x29931d92ac4fbe34984e3ce2fcbdf241512f68a022c7aba70da45fbb3a2int) by (nonlinear_arith);
    lemma_step(prime236(), 2, 0xabaf8c6b094fd0f32c2ccabab864dbecd99144679c1anat, 0xa81cc8bb256fba5be9172c780f8f2ca8330a1cd3a1145636c53d52e39fint, 13, 0x29931d92ac4fbe34984e3ce2fcbdf241512f68a022c7aba70da45fbb3a2int);
    assert(pow16(0x29931d92ac4fbe34984e3ce2fcbdf241512f68a022c7aba70da45fbb3a2int) * small_pow(2, 15) % prime236() == 0x2d97383a0fe72a5348cabcc7d02162a6eba8a6799043408a18dd3b04cabint) by (nonlinear_arith);
    lemma_step(prime236(), 2, 0xabaf8c6b094fd0f32c2ccabab864dbecd99144679c1adnat, 0x29931d92ac4fbe34984e3ce2fcbdf241512f68a022c7aba70da45fbb3a2int, 15, 0x2d97383a0fe72a5348cabcc7d02162a6eba8a6799043408a18dd3b04cabint);
    assert(pow16(0x2d97383a0fe72a5348cabcc7d02162a6eba8a6799043408a18dd3b04cabint) * small_pow(2, 8) % prime236() == 0x19945ee73120db1556bc5ac04bbf87503fbd63f3fafedc8fdc5bff65b07int) by (nonlinear_arith);
    lemma_step(prime236(), 2, 0xabaf8c6b094fd0f32c2ccabab864dbecd99144679c1adfnat, 0x2d97383a0fe72a5348cabcc7d02162a6eba8a6799043408a18dd3b04cabint, 8, 0x19945ee73120db1556bc5ac04bbf87503fbd63f3fafedc8fdc5bff65b07int);
    assert(pow16(0x19945ee73120db1556bc5ac04bbf87503fbd63f3fafedc8fdc5bff65b07int) * small_pow(2, 0) % prime236() == 0x9ce01cb3d6a735e738ebec2a6955cd5ce7cd8100b65a09f089bba8af036int) by (nonlinear_arith);
    lemma_step(prime236(), 2, 0xabaf8c6b094fd0f32c2ccabab864dbecd99144679c1adf8nat, 0x19945ee73120db1556bc5ac04bbf87503fbd63f3fafedc8fdc5bff65b07int, 0, 0x9ce01cb3d6a735e738ebec2a6955cd5ce7cd8100b65a09f089bba8af036int);
    assert(pow16(0x9ce01cb3d6a735e738ebec2a6955cd5ce7cd8100b65a09f089bba8af036int) * small_pow(2, 4) % prime236() == 0x30739c1ed97aba889513453de982dcfa51dfecbd53f6d05a392fde8dc77int) by (nonlinear_arith);
    lemma_step(prime236(), 2, 0xabaf8c6b094fd0f32c2ccabab864dbecd99144679c1adf80nat, 0x9ce01cb3d6a735e738ebec2a6955cd5ce7cd8100b65a09f089bba8af036int, 4, 0x30739c1ed97aba889513453de982dcfa51dfecbd53f6d05a392fde8dc77int);
    assert(pow16(0x30739c1ed97aba889513453de982dcfa51dfecbd53f6d05a392fde8dc77int) * small_pow(2, 8) % prime236() == 0x490b0add75eb793e615e0705b853be2bcadbd7322782afe941dee347afdint) by (nonlinear_arith);
    lemma_step(prime236(), 2, 0xabaf8c6b094fd0f32c2ccabab864dbecd99144679c1adf804nat, 0x30739c1ed97aba889513453de982dcfa51dfecbd53f6d05a392fde8dc77int, 8, 0x490b0add75eb793e615e0705b853be2bcadbd7322782afe941dee347afdint);
    assert(pow16(0x490b0add75eb793e615e0705b853be2bcadbd7322782afe941dee347afdint) * small_pow(2, 9) % prime236() == 0x41a9631f8cdbfadab50e412382f6dee9cc77bf94b2622f905b0b96f8c96int) by (nonlinear_arith);
    lemma_step(prime236(), 2, 0xabaf8c6b094fd0f32c2ccabab864dbecd99144679c1adf8048nat, 0x490b0add75eb793e615e0705b853be2bcadbd7322782afe941dee347afdint, 9, 0x41a9631f8cdbfadab50e412382f6dee9cc77bf94b2622f905b0b96f8c96int);
    assert(pow16(0x41a9631f8cdbfadab50e412382f6dee9cc77bf94b2622f905b0b96f8c96int) * small_pow(2, 8) % prime236() == 0x91a0051e6ee101ad8800024798e93aa1975000e4be003810dde3e45e171int) by (nonlinear_arith);
    lemma_step(prime236(), 2, 0xabaf8c6b094fd0f32c2ccabab864dbecd99144679c1adf80489nat, 0x41a9631f8cdbfadab50e412382f6dee9cc77bf94b2622f905b0b96f8c96int, 8, 0x91a0051e6ee101ad8800024798e93aa1975000e4be003810dde3e45e171int);
    assert(pow16(0x91a0051e6ee101ad8800024798e93aa1975000e4be003810dde3e45e171int) * small_pow(2, 15) % prime236() == 0x1deade668010cea7c1eb364359e0c882bc6b9952c91e515a1a55e8655fcint) by (nonlinear_arith);
    lemma_step(prime236(), 2, 0xabaf8c6b094fd0f32c2ccabab864dbecd99144679c1adf804898nat, 0x91a0051e6ee101ad8800024798e93aa1975000e4be003810dde3e45e171int, 15, 0x1deade668010cea7c1eb364359e0c882bc6b9952c91e515a1a55e8655fcint);
    assert(pow16(0x1deade668010cea7c1eb364359e0c882bc6b9952c91e515a1a55e8655fcint) * small_pow(2, 11) % prime236() == 0x9cadcd6295e8e65487d8d9167c9f611713346dc929cad6c0d1fed199cb7int) by (nonlinear_arith);
    lemma_step(prime236(), 2, 0xabaf8c6b094fd0f32c2ccabab864dbecd99144679c1adf804898fnat, 0x1deade668010cea7c1eb364359e0c882bc6b9952c91e515a1a55e8655fcint, 11, 0x9cadcd6295e8e65487d8d9167c9f611713346dc929cad6c0d1fed199cb7int);
    assert(pow16(0x9cadcd6295e8e65487d8d9167c9f611713346dc929cad6c0d1fed199cb7int) * small_pow(2, 2) % prime236() == 0x2f24af634d40423bc52e9d24cd96cb68e39039e79b9ef49ce25513802b3int) by (nonlinear_arith);
    lemma_step(prime236(), 2, 0xabaf8c6b094fd0f32c2ccabab864dbecd99144679c1adf804898fbnat, 0x9cadcd6295e8e65487d8d9167c9f611713346dc929cad6c0d1fed199cb7int, 2, 0x2f24af634d40423bc52e9d24cd96cb68e39039e79b9ef49ce25513802b3int);
    assert(pow16(0x2f24af634d40423bc52e9d24cd96cb68e39039e79b9ef49ce25513802b3int) * small_pow(2, 0) % prime236() == 0x67574d5dc68a22aa0c1f64bf4b37f7def432b77f7d1716d10ce10f6a6cint) by (nonlinear_arith);
    lemma_step(prime236(), 2, 0xabaf8c6b094fd0f32c2ccabab864dbecd99144679c1adf804898fb2nat, 0x2f24af634d40423bc52e9d24cd96cb68e39039e79b9ef49ce25513802b3int, 0, 0x67574d5dc68a22aa0c1f64bf4b37f7def432b77f7d1716d10ce10f6a6cint);
    assert(pow16(0x67574d5dc68a22aa0c1f64bf4b37f7def432b77f7d1716d10ce10f6a6cint) * small_pow(2, 4) % prime236() == 0xa13016f6a922f690af065b91e8464a282ee92cd7342e1da335c82ae55a7int) by (nonlinear_arith);
    lemma_step(prime236(), 2, 0xabaf8c6b094fd0f32c2ccabab864dbecd99144679c1adf804898fb20nat, 0x67574d5dc68a22aa0c1f64bf4b37f7def432b77f7d1716d10ce10f6a6cint, 4, 0xa13016f6a922f690af065b91e8464a282ee92cd7342e1da335c82ae55a7int);
    assert(pow16(0xa13016f6a922f690af065b91e8464a282ee92cd7342e1da335c82ae55a7int) * small_pow(2, 2) % prime236() == 0x4329e4c4f84478de922756136591199af377e403bc6032b19a2d8237f7aint) by (nonlinear_arith);
    lemma_step(prime236(), 2, 0xabaf8c6b094fd0f32c2ccabab864dbecd99144679c1adf804898fb204nat, 0xa13016f6a922f690af065b91e8464a282ee92cd7342e1da335c82ae55a7int, 2, 0x4329e4c4f84478de922756136591199af377e403bc6032b19a2d8237f7aint);
    assert(pow16(0x4329e4c4f84478de922756136591199af377e403bc6032b19a2d8237f7aint) * small_pow(2, 10) % prime236() == 1) by (nonlinear_arith);
    lemma_step(prime236(), 2, 0xabaf8c6b094fd0f32c2ccabab864dbecd99144679c1adf804898fb2042nat, 0x4329e4c4f84478de922756136591199af377e403bc6032b19a2d8237f7aint, 10, 1);
}

proof fn lemma_power_236_0()
    ensures
        eqm(prime236(), pow(2, 0xbd0d14cf78e7521a329188e9fa496anat), 0xa118eb0f9d8184bab59e8e45df736d65fba3c64f4aa855bc8921ac18308int),
{
    lemma_pow_zero(prime236(), 2);
    assert(pow16(1) * small_pow(2, 11) % prime236() == 2048) by (nonlinear_arith);
    lemma_step(prime236(), 2, 0, 1, 11, 2048);
    assert(pow16(2048) * small_pow(2, 13) % prime236() == 0x200000000000000000000000000000000000000000000000int) by (nonlinear_arith);
    lemma_step(prime236(), 2, 11, 2048, 13, 0x200000000000000000000000000000000000000000000000int);
    assert(pow16(0x200000000000000000000000000000000000000000000000int) * small_pow(2, 0) % prime236() == 0x9c2295e31767e636259c7c1deed13941559c6c0579a73061da059fefd3fint) by (nonlinear_arith);
    lemma_step(prime236(), 2, 189, 0x200000000000000000000000000000000000000000000000int, 0, 0x9c2295e31767e636259c7c1deed13941559c6c0579a73061da059fefd3fint);
    assert(pow16(0x9c2295e31767e636259c7c1deed13941559c6c0579a73061da059fefd3fint) * small_pow(2, 13) % prime236() == 0x1915cb3e4ff6e29f92d957143a9a41090ce287174db79468d575ba7062fint) by (nonlinear_arith);
    lemma_step(prime236(), 2, 3024, 0x9c2295e31767e636259c7c1deed13941559c6c0579a73061da059fefd3fint, 13, 0x1915cb3e4ff6e29f92d957143a9a41090ce287174db79468d575ba7062fint);
    assert(pow16(0x1915cb3e4ff6e29f92d957143a9a41090ce287174db79468d575ba7062fint) * small_pow(2, 1) % prime236() == 0x5422485ff1f494f98dace9fb2dbb7b389b6cc135d9a829625638397d4caint) by (nonlinear_arith);
    lemma_step(prime236(), 2, 48397, 0x1915cb3e4ff6e29f92d957143a9a41090ce287174db79468d575ba7062fint, 1, 0x5422485ff1f494f98dace9fb2dbb7b389b6cc135d9a829625638397d4caint);
    assert(pow16(0x5422485ff1f494f98dace9fb2dbb7b389b6cc135d9a829625638397d4caint) * small_pow(2, 4) % prime236() == 0x3d5c1fd1357668adbc8cd1a8afdacb0f87fa1ee62680b76b3d822405076int) by (nonlinear_arith);
    lemma_step(prime236(), 2, 774353, 0x5422485ff1f494f98dace9fb2dbb7b389b6cc135d9a829625638397d4caint, 4, 0x3d5c1fd1357668adbc8cd1a8afdacb0f87fa1ee62680b76b3d822405076int);
    assert(pow16(0x3d5c1fd1357668adbc8cd1a8afdacb0f87fa1ee62680b76b3d822405076int) * small_pow(2, 12) % prime236() == 0x44fcdedf04753ed8c8ee915986db0b0a72ae2d45022447a3a9dc506e3efint) by (nonlinear_arith);
    lemma_step(prime236(), 2, 0xbd0d14, 0x3d5c1fd1357668adbc8cd1a8afdacb0f87fa1ee62680b76b3d822405076int, 12, 0x44fcdedf04753ed8c8ee915986db0b0a72ae2d45022447a3a9dc506e3efint);
    assert(pow16(0x44fcdedf04753ed8c8ee915986db0b0a72ae2d45022447a3a9dc506e3efint) * small_pow(2, 15) % prime236() == 0x3590cbf2c861435418e1ebbfdc94aa2753fc3dcd96b2e829500460504e4int) by (nonlinear_arith);
    lemma_step(prime236(), 2, 0xbd0d14c, 0x44fcdedf04753ed8c8ee915986db0b0a72ae2d45022447a3a9dc506e3efint, 15, 0x3590cbf2c861435418e1ebbfdc94aa2753fc3dcd96b2e829500460504e4int);
    assert(pow16(0x3590cbf2c861435418e1ebbfdc94aa2753fc3dcd96b2e829500460504e4int) * small_pow(2, 7) % prime236() == 0x405bb5b8ca0216da0c6f86ed1333a8bd775fed021a663d4e2b36235719bint) by (nonlinear_arith);
    lemma_step(prime236(), 2, 0xbd0d14cf, 0x3590cbf2c861435418e1ebbfdc94aa2753fc3dcd96b2e829500460504e4int, 7, 0x405bb5b8ca0216da0c6f86ed1333a8bd775fed021a663d4e2b36235719bint);
    assert(pow16(0x405bb5b8ca0216da0c6f86ed1333a8bd775fed021a663d4e2b36235719bint) * small_pow(2, 8) % prime236() == 0xa5f7104ec5019bccb3280196d860001a7443841d5ec0ed143bc88362c22int) by (nonlinear_arith);
    lemma_step(prime236(), 2, 0xbd0d14cf7, 0x405bb5b8ca0216da0c6f86ed1333a8bd775fed021a663d4e2b36235719bint, 8, 0xa5f7104ec5019bccb3280196d860001a7443841d5ec0ed143bc88362c22int);
    assert(pow16(0xa5f7104ec5019bccb3280196d860001a7443841d5ec0ed143bc88362c22int) * small_pow(2, 14) % prime236() == 0x2ecbe1d5d2a4e8bd96f9b7b79219fb1f19e861a83c56e62b50f54f2cb10int) by (nonlinear_arith);
    lemma_step(prime236(), 2, 0xbd0d14cf78, 0xa5f7104ec5019bccb3280196d860001a7443841d5ec0ed143bc88362c22int, 14, 0x2ecbe1d5d2a4e8bd96f9b7b79219fb1f19e861a83c56e62b50f54f2cb10int);
    assert(pow16(0x2ecbe1d5d2a4e8bd96f9b7b79219fb1f19e861a83c56e62b50f54f2cb10int) * small_pow(2, 7) % prime236() == 0x83cb33627fafca484eea55f3ed3e53cd71569273276be4273e9744e83e0int) by (nonlinear_arith);
    lemma_step(prime236(), 2, 0xbd0d14cf78e, 0x2ecbe1d5d2a4e8bd96f9b7b79219fb1f19e861a83c56e62b50f54f2cb10int, 7, 0x83cb33627fafca484eea55f3ed3e53cd71569273276be4273e9744e83e0int);
    assert(pow16(0x83cb33627fafca484eea55f3ed3e53cd71569273276be4273e9744e83e0int) * small_pow(2, 5) % prime236() == 0x11b8a152725ff5497da478350aa19b4f57f74d3443661db52819303f267int) by (nonlinear_arith);
    lemma_step(prime236(), 2, 0xbd0d14cf78e7, 0x83cb33627fafca484eea55f3ed3e53cd71569273276be4273e9744e83e0int, 5, 0x11b8a152725ff5497da478350aa19b4f57f74d3443661db52819303f267int);
    assert(pow16(0x11b8a152725ff5497da478350aa19b4f57f74d3443661db52819303f267int) * small_pow(2, 2) % prime236() == 0x66890395acbd229953540895de9c35dfd3b00c3391b3fbbeda237c04bbaint) by (nonlinear_arith);
    lemma_step(prime236(), 2, 0xbd0d14cf78e75, 0x11b8a152725ff5497da478350aa19b4f57f74d3443661db52819303f267int, 2, 0x66890395acbd229953540895de9c35dfd3b00c3391b3fbbeda237c04bbaint);
    assert(pow16(0x66890395acbd229953540895de9c35dfd3b00c3391b3fbbeda237c04bbaint) * small_pow(2, 1) % prime236() == 0xa93f25bba885b9252329b137dc883cf54091cd537fef79da6849f6d345bint) by (nonlinear_arith);
    lemma_step(prime236(), 2, 0xbd0d14cf78e752, 0x66890395acbd229953540895de9c35dfd3b00c3391b3fbbeda237c04bbaint, 1, 0xa93f25bba885b9252329b137dc883cf54091cd537fef79da6849f6d345bint);
    assert(pow16(0xa93f25bba885b9252329b137dc883cf54091cd537fef79da6849f6d345bint) * small_pow(2, 10) % prime236() == 0xa35d8d8f64b75f6c4a1be3f7bfeb14dec55fd2156f8b898db65dac5c275int) by (nonlinear_arith);
    lemma_step(prime236(), 2, 0xbd0d14cf78e7521, 0xa93f25bba885b9252329b137dc883cf54091cd537fef79da6849f6d345bint, 10, 0xa35d8d8f64b75f6c4a1be3f7bfeb14dec55fd2156f8b898db65dac5c275int);
    assert(pow16(0xa35d8d8f64b75f6c4a1be3f7bfeb14dec55fd2156f8b898db65dac5c275int) * small_pow(2, 3) % prime236() == 0x8020869b0a913f93aec77582682727fd398026d582cdb54e68fa8cfc38cint) by (nonlinear_arith);
    lemma_step(prime236(), 2, 0xbd0d14cf78e7521anat, 0xa35d8d8f64b75f6c4a1be3f7bfeb14dec55fd2156f8b898db65dac5c275int, 3, 0x8020869b0a913f93aec77582682727fd398026d582cdb54e68fa8cfc38cint);
    assert(pow16(0x8020869b0a913f93aec77582682727fd398026d582cdb54e68fa8cfc38cint) * small_pow(2, 2) % prime236() == 0x7f7597cdd3c877340a980a10f28f7bd44170bf96fb6e9d8a7500735f18bint) by (nonlinear_arith);
    lemma_step(prime236(), 2, 0xbd0d14cf78e7521a3nat, 0x8020869b0a913f93aec77582682727fd398026d582cdb54e68fa8cfc38cint, 2, 0x7f7597cdd3c877340a980a10f28f7bd44170bf96fb6e9d8a7500735f18bint);
    assert(pow16(0x7f7597cdd3c877340a980a10f28f7bd44170bf96fb6e9d8a7500735f18bint) * small_pow(2, 9) % prime236() == 0x9318ee288e9756eff6e670b0ecca0cf5106fa7c006befaf94804342cf7eint) by (nonlinear_arith);
    lemma_step(prime236(), 2, 0xbd0d14cf78e7521a32nat, 0x7f7597cdd3c877340a980a10f28f7bd44170bf96fb6e9d8a7500735f18bint, 9, 0x9318ee288e9756eff6e670b0ecca0cf5106fa7c006befaf94804342cf7eint);
    assert(pow16(0x9318ee288e9756eff6e670b0ecca0cf5106fa7c006befaf94804342cf7eint) * small_pow(2, 1) % prime236() == 0x28db7db68c1382ebca9d97999fc91f2e7ec2f4dae1b50a890d0c98ceb3bint) by (nonlinear_arith);
    lemma_step(prime236(), 2, 0xbd0d14cf78e7521a329nat, 0x9318ee288e9756eff6e670b0ecca0cf5106fa7c006befaf94804342cf7eint, 1, 0x28db7db68c1382ebca9d97999fc91f2e7ec2f4dae1b50a890d0c98ceb3bint);
    assert(pow16(0x28db7db68c1382ebca9d97999fc91f2e7ec2f4dae1b50a890d0c98ceb3bint) * small_pow(2, 8) % prime236() == 0x191ab7bc343c628269193e1f3b3661f2fc43d86e3a3945eaa4ce0581c49int) by (nonlinear_arith);
    lemma_step(prime236(), 2, 0xbd0d14cf78e7521a3291nat, 0x28db7db68c1382ebca9d97999fc91f2e7ec2f4dae1b50a890d0c98ceb3bint, 8, 0x191ab7bc343c628269193e1f3b3661f2fc43d86e3a3945eaa4ce0581c49int);
    assert(pow16(0x191ab7bc343c628269193e1f3b3661f2fc43d86e3a3945eaa4ce0581c49int) * small_pow(2, 8) % prime236() == 0x9f254955df08c93c067baa8495de768e15726947b90bdcd4eacc89b7546int) by (nonlinear_arith);
    lemma_step(prime236(), 2, 0xbd0d14cf78e7521a32918nat, 0x191ab7bc343c628269193e1f3b3661f2fc43d86e3a3945eaa4ce0581c49int, 8, 0x9f254955df08c93c067baa8495de768e15726947b90bdcd4eacc89b7546int);
    assert(pow16(0x9f254955df08c93c067baa8495de768e15726947b90bdcd4eacc89b7546int) * small_pow(2, 14) % prime236() == 0xa1ac6b40e5cae5858f15b1990489ac87ae8963971fa5721264f97f12c02int) by (nonlinear_arith);
    lemma_step(prime236(), 2, 0xbd0d14cf78e7521a329188nat, 0x9f254955df08c93c067baa8495de768e15726947b90bdcd4eacc89b7546int, 14, 0xa1ac6b40e5cae5858f15b1990489ac87ae8963971fa5721264f97f12c02int);
    assert(pow16(0xa1ac6b40e5cae5858f15b1990489ac87ae8963971fa5721264f97f12c02int) * small_pow(2, 9) % prime236() == 0x3acf2096c14e1b7fca61f3eee671d3421087e6919bfb43a8ac6ca187d41int) by (nonlinear_arith);
    lemma_step(prime236(), 2, 0xbd0d14cf78e7521a329188enat, 0xa1ac6b40e5cae5858f15b1990489ac87ae8963971fa5721264f97f12c02int, 9, 0x3acf2096c14e1b7fca61f3eee671d3421087e6919bfb43a8ac6ca187d41int);
    assert(pow16(0x3acf2096c14e1b7fca61f3eee671d3421087e6919bfb43a8ac6ca187d41int) * small_pow(2, 15) % prime236() == 0x32ab2873918a7aecbfb6d6af28c203c819c0c0017539810a225c1ebc092int) by (nonlinear_arith);
    lemma_step(prime236(), 2, 0xbd0d14cf78e7521a329188e9nat, 0x3acf2096c14e1b7fca61f3eee671d3421087e6919bfb43a8ac6ca187d41int, 15, 0x32ab2873918a7aecbfb6d6af28c203c819c0c0017539810a225c1ebc092int);
    assert(pow16(0x32ab2873918a7aecbfb6d6af28c203c819c0c0017539810a225c1ebc092int) * small_pow(2, 10) % prime236() == 0x9823bc824ddf4238bf45872426c1302f752184c5056f87a8f42c1600555int) by (nonlinear_arith);
    lemma_step(prime236(), 2, 0xbd0d14cf78e7521a329188e9fnat, 0x32ab2873918a7aecbfb6d6af28c203c819c0c0017539810a225c1ebc092int, 10, 0x9823bc824ddf4238bf45872426c1302f752184c5056f87a8f42c1600555int);
    assert(pow16(0x9823bc824ddf4238bf45872426c1302f752184c5056f87a8f42c1600555int) * small_pow(2, 4) % prime236() == 0x15ffe601f5b00c84e6b79ed19993fac9d4e536125b1eb5a8d2a9339d2bint) by (nonlinear_arith);
    lemma_step(prime236(), 2, 0xbd0d14cf78e7521a329188e9fanat, 0x9823bc824ddf4238bf45872426c1302f752184c5056f87a8f42c1600555int, 4, 0x15ffe601f5b00c84e6b79ed19993fac9d4e536125b1eb5a8d2a9339d2bint);
    assert(pow16(0x15ffe601f5b00c84e6b79ed19993fac9d4e536125b1eb5a8d2a9339d2bint) * small_pow(2, 9) % prime236() == 0x955deee08c97abfb04f70d7ac170d444f78674df8f534264a84f7ac6bc5int) by (nonlinear_arith);
    lemma_step(prime236(), 2, 0xbd0d14cf78e7521a329188e9fa4nat, 0x15ffe601f5b00c84e6b79ed19993fac9d4e536125b1eb5a8d2a9339d2bint, 9, 0x955deee08c97abfb04f70d7ac170d444f78674df8f534264a84f7ac6bc5int);
    assert(pow16(0x955deee08c97abfb04f70d7ac170d444f78674df8f534264a84f7ac6bc5int) * small_pow(2, 6) % prime236() == 0x497b1976e2c5196437c64570ab1267dc3ee2476cb1f39398a436a2a1147int) by (nonlinear_arith);
    lemma_step(prime236(), 2, 0xbd0d14cf78e7521a329188e9fa49nat, 0x955deee08c97abfb04f70d7ac170d444f78674df8f534264a84f7ac6bc5int, 6, 0x497b1976e2c5196437c64570ab1267dc3ee2476cb1f39398a436a2a1147int);
    assert(pow16(0x497b1976e2c5196437c64570ab1267dc3ee2476cb1f39398a436a2a1147int) * small_pow(2, 10) % prime236() == 0xa118eb0f9d8184bab59e8e45df736d65fba3c64f4aa855bc8921ac18308int) by (nonlinear_arith);
    lemma_step(prime236(), 2, 0xbd0d14cf78e7521a329188e9fa496nat, 0x497b1976e2c5196437c64570ab1267dc3ee2476cb1f39398a436a2a1147int, 10, 0xa118eb0f9d8184bab59e8e45df736d65fba3c64f4aa855bc8921ac18308int);
}

proof fn lemma_power_236_1()
    ensures
        eqm(prime236(), pow(2, 0x7c8235f80c8e0223a919f4ecf10e66ed091d33c899d238346bc3cb26anat), 0x13d9dc1e5009af5c4c2541515b87c068b913c42d9a7644ce63ffe960964int),
{
    lemma_pow_zero(prime236(), 2);
    assert(pow16(1) * small_pow(2, 7) % prime236() == 128) by (nonlinear_arith);
    lemma_step(prime236(), 2, 0, 1, 7, 128);
    assert(pow16(128) * small_pow(2, 12) % prime236() == 0x10000000000000000000000000000000int) by (nonlinear_arith);
    lemma_step(prime236(), 2, 7, 128, 12, 0x10000000000000000000000000000000int);
    assert(pow16(0x10000000000000000000000000000000int) * small_pow(2, 8) % prime236() == 0x5f4b5abee4108d267b799fcfd6d16c39734c32c92baf617f26350e9f37fint) by (nonlinear_arith);
    lemma_step(prime236(), 2, 124, 0x10000000000000000000000000000000int, 8, 0x5f4b5abee4108d267b799fcfd6d16c39734c32c92baf617f26350e9f37fint);
    assert(pow16(0x5f4b5abee4108d267b799fcfd6d16c39734c32c92baf617f26350e9f37fint) * small_pow(2, 2) % prime236() == 0x351f6627265ad0d5aa075b3f64228cb2b05bf8446f790432acd15db857cint) by (nonlinear_arith);
    lemma_step(prime236(), 2, 1992, 0x5f4b5abee4108d267b799fcfd6d16c39734c32c92baf617f26350e9f37fint, 2, 0x351f6627265ad0d5aa075b3f64228cb2b05bf8446f790432acd15db857cint);
    assert(pow16(0x351f6627265ad0d5aa075b3f64228cb2b05bf8446f790432acd15db857cint) * small_pow(2, 3) % prime236() == 0x2e79c18bf466210f9ed394870cf75826b8f88b8f2bc09fcd79bdcc63ad8int) by (nonlinear_arith);
    lemma_step(prime236(), 2, 31874, 0x351f6627265ad0d5aa075b3f64228cb2b05bf8446f790432acd15db857cint, 3, 0x2e79c18bf466210f9ed394870cf75826b8f88b8f2bc09fcd79bdcc63ad8int);
    assert(pow16(0x2e79c18bf466210f9ed394870cf75826b8f88b8f2bc09fcd79bdcc63ad8int) * small_pow(2, 5) % prime236() == 0x28ec1159758e7ee6e446dd5e61b5c79bf48e06f11a5df1760a61bdfb327int) by (nonlinear_arith);
    lemma_step(prime236(), 2, 509987, 0x2e79c18bf466210f9ed394870cf75826b8f88b8f2bc09fcd79bdcc63ad8int, 5, 0x28ec1159758e7ee6e446dd5e61b5c79bf48e06f11a5df1760a61bdfb327int);
    assert(pow16(0x28ec1159758e7ee6e446dd5e61b5c79bf48e06f11a5df1760a61bdfb327int) * small_pow(2, 15) % prime236() == 0x8438c1e09b36d638f0ef287975fd5635748e4bc09334af4fa2a04cae981int) by (nonlinear_arith);
    lemma_step(prime236(), 2, 0x7c8235, 0x28ec1159758e7ee6e446dd5e61b5c79bf48e06f11a5df1760a61bdfb327int, 15, 0x8438c1e09b36d638f0ef287975fd5635748e4bc09334af4fa2a04cae981int);
    assert(pow16(0x8438c1e09b36d638f0ef287975fd5635748e4bc09334af4fa2a04cae981int) * small_pow(2, 8) % prime236() == 0xe940144510f5a4465c6635a9265507d3d6f77b1d658617f778030c7348int) by (nonlinear_arith);
    lemma_step(prime236(), 2, 0x7c8235f, 0x8438c1e09b36d638f0ef287975fd5635748e4bc09334af4fa2a04cae981int, 8, 0xe940144510f5a4465c6635a9265507d3d6f77b1d658617f778030c7348int);
    assert(pow16(0xe940144510f5a4465c6635a9265507d3d6f77b1d658617f778030c7348int) * small_pow(2, 0) % prime236() == 0x3bcc86164bff87ab05e8467b52dce6719f03c3881576797847f979ed042int) by (nonlinear_arith);
    lemma_step(prime236(), 2, 0x7c8235f8, 0xe940144510f5a4465c6635a9265507d3d6f77b1d658617f778030c7348int, 0, 0x3bcc86164bff87ab05e8467b52dce6719f03c3881576797847f979ed042int);
    assert(pow16(0x3bcc86164bff87ab05e8467b52dce6719f03c3881576797847f979ed042int) * small_pow(2, 12) % prime236() == 0x7d767f1aeaacf176f2dc18a8d9b0d124843d2faf4dcc1566b0a1a291a42int) by (nonlinear_arith);
    lemma_step(prime236(), 2, 0x7c8235f80, 0x3bcc86164bff87ab05e8467b52dce6719f03c3881576797847f979ed042int, 12, 0x7d767f1aeaacf176f2dc18a8d9b0d124843d2faf4dcc1566b0a1a291a42int);
    assert(pow16(0x7d767f1aeaacf176f2dc18a8d9b0d124843d2faf4dcc1566b0a1a291a42int) * small_pow(2, 8) % prime236() == 0x7bd40d443958f9cda7a5ce5f17218f78162e88ee79be646d6f26b1bee1int) by (nonlinear_arith);
    lemma_step(prime236(), 2, 0x7c8235f80c, 0x7d767f1aeaacf176f2dc18a8d9b0d124843d2faf4dcc1566b0a1a291a42int, 8, 0x7bd40d443958f9cda7a5ce5f17218f78162e88ee79be646d6f26b1bee1int);
    assert(pow16(0x7bd40d443958f9cda7a5ce5f17218f78162e88ee79be646d6f26b1bee1int) * small_pow(2, 14) % prime236() == 0x2a87e6ea4292ed868a8f54e4d21b8b90bc6043b90c6503001001545bdc6int) by (nonlinear_arith);
    lemma_step(prime236(), 2, 0x7c8235f80c8, 0x7bd40d443958f9cda7a5ce5f17218f78162e88ee79be646d6f26b1bee1int, 14, 0x2a87e6ea4292ed868a8f54e4d21b8b90bc6043b90c6503001001545bdc6int);
    assert(pow16(0x2a87e6ea4292ed868a8f54e4d21b8b90bc6043b90c6503001001545bdc6int) * small_pow(2, 0) % prime236() == 0x7ee17cece21eda9386865b5c8cf659453da85f46a3c48f8e6b700642442int) by (nonlinear_arith);
    lemma_step(prime236(), 2, 0x7c8235f80c8e, 0x2a87e6ea4292ed868a8f54e4d21b8b90bc6043b90c6503001001545bdc6int, 0, 0x7ee17cece21eda9386865b5c8cf659453da85f46a3c48f8e6b700642442int);
    assert(pow16(0x7ee17cece21eda9386865b5c8cf659453da85f46a3c48f8e6b700642442int) * small_pow(2, 2) % prime236() == 0x6abe490c32b3f369bdec01d3290be6e2e60d5595f67f78a3e76197da50dint) by (nonlinear_arith);
    lemma_step(prime236(), 2, 0x7c8235f80c8e0, 0x7ee17cece21eda9386865b5c8cf659453da85f46a3c48f8e6b700642442int, 2, 0x6abe490c32b3f369bdec01d3290be6e2e60d5595f67f78a3e76197da50dint);
    assert(pow16(0x6abe490c32b3f369bdec01d3290be6e2e60d5595f67f78a3e76197da50dint) * small_pow(2, 2) % prime236() == 0x4e6c8f421026da53ec87c34050a8d27a9e4c9aa7cbbf81f8984a2282d68int) by (nonlinear_arith);
    lemma_step(prime236(), 2, 0x7c8235f80c8e02, 0x6abe490c32b3f369bdec01d3290be6e2e60d5595f67f78a3e76197da50dint, 2, 0x4e6c8f421026da53ec87c34050a8d27a9e4c9aa7cbbf81f8984a2282d68int);
    assert(pow16(0x4e6c8f421026da53ec87c34050a8d27a9e4c9aa7cbbf81f8984a2282d68int) * small_pow(2, 3) % prime236() == 0x28d3aa019ed0c12715aecfd7ce8133b2966d88f463a417da34292f843f0int) by (nonlinear_arith);
    lemma_step(prime236(), 2, 0x7c8235f80c8e022, 0x4e6c8f421026da53ec87c34050a8d27a9e4c9aa7cbbf81f8984a2282d68int, 3, 0x28d3aa019ed0c12715aecfd7ce8133b2966d88f463a417da34292f843f0int);
    assert(pow16(0x28d3aa019ed0c12715aecfd7ce8133b2966d88f463a417da34292f843f0int) * small_pow(2, 10) % prime236() == 0x1f58f51950eced267e7a2745f6650ad467d35a4d64de0a310d99ca6e835int) by (nonlinear_arith);
    lemma_step(prime236(), 2, 0x7c8235f80c8e0223nat, 0x28d3aa019ed0c12715aecfd7ce8133b2966d88f463a417da34292f843f0int, 10, 0x1f58f51950eced267e7a2745f6650ad467d35a4d64de0a310d99ca6e835int);
    assert(pow16(0x1f58f51950eced267e7a2745f6650ad467d35a4d64de0a310d99ca6e835int) * small_pow(2, 9) % prime236() == 0x26816d64066175b51aa165eaa1df644a74c0122073cc40429728b312e43int) by (nonlinear_arith);
    lemma_step(prime236(), 2, 0x7c8235f80c8e0223anat, 0x1f58f51950eced267e7a2745f6650ad467d35a4d64de0a310d99ca6e835int, 9, 0x26816d64066175b51aa165eaa1df644a74c0122073cc40429728b312e43int);
    assert(pow16(0x26816d64066175b51aa165eaa1df644a74c0122073cc40429728b312e43int) * small_pow(2, 1) % prime236() == 0x4523cffbf982bd5c40b3643826f25ab70144eb6304e006a5095f9e42feint) by (nonlinear_arith);
    lemma_step(prime236(), 2, 0x7c8235f80c8e0223a9nat, 0x26816d64066175b51aa165eaa1df644a74c0122073cc40429728b312e43int, 1, 0x4523cffbf982bd5c40b3643826f25ab70144eb6304e006a5095f9e42feint);
    assert(pow16(0x4523cffbf982bd5c40b3643826f25ab70144eb6304e006a5095f9e42feint) * small_pow(2, 9) % prime236() == 0x8d5ffdcef2899a66d02fd77b1f31a891b802a69a65ab7943378a2fa1975int) by (nonlinear_arith);
    lemma_step(prime236(), 2, 0x7c8235f80c8e0223a91nat, 0x4523cffbf982bd5c40b3643826f25ab70144eb6304e006a5095f9e42feint, 9, 0x8d5ffdcef2899a66d02fd77b1f31a891b802a69a65ab7943378a2fa1975int);
    assert(pow16(0x8d5ffdcef2899a66d02fd77b1f31a891b802a69a65ab7943378a2fa1975int) * small_pow(2, 15) % prime236() == 0x584eda73f357725800dd78f60da81b8fed757a511202823d207db8956f7int) by (nonlinear_arith);
    lemma_step(prime236(), 2, 0x7c8235f80c8e0223a919nat, 0x8d5ffdcef2899a66d02fd77b1f31a891b802a69a65ab7943378a2fa1975int, 15, 0x584eda73f357725800dd78f60da81b8fed757a511202823d207db8956f7int);
    assert(pow16(0x584eda73f357725800dd78f60da81b8fed757a511202823d207db8956f7int) * small_pow(2, 4) % prime236() == 0x787d5e918150e5478f55d729af52341fb90695892cc78b27cb1ab6a7f22int) by (nonlinear_arith);
    lemma_step(prime236(), 2, 0x7c8235f80c8e0223a919fnat, 0x584eda73f357725800dd78f60da81b8fed757a511202823d207db8956f7int, 4, 0x787d5e918150e5478f55d729af52341fb90695892cc78b27cb1ab6a7f22int);
    assert(pow16(0x787d5e918150e5478f55d729af52341fb90695892cc78b27cb1ab6a7f22int) * small_pow(2, 14) % prime236() == 0x19fcec03299b579cff1f8685379ca0a9dfd88927c100600d3a17cb23658int) by (nonlinear_arith);
    lemma_step(prime236(), 2, 0x7c8235f80c8e0223a919f4nat, 0x787d5e918150e5478f55d729af52341fb90695892cc78b27cb1ab6a7f22int, 14, 0x19fcec03299b579cff1f8685379ca0a9dfd88927c100600d3a17cb23658int);
    assert(pow16(0x19fcec03299b579cff1f8685379ca0a9dfd88927c100600d3a17cb23658int) * small_pow(2, 12) % prime236() == 0x50e7e00c435dfac3764e5af7b5555c5d64f8f78e883471508ad6cae1a6int) by (nonlinear_arith);
    lemma_step(prime236(), 2, 0x7c8235f80c8e0223a919f4enat, 0x19fcec03299b579cff1f8685379ca0a9dfd88927c100600d3a17cb23658int, 12, 0x50e7e00c435dfac3764e5af7b5555c5d64f8f78e883471508ad6cae1a6int);
    assert(pow16(0x50e7e00c435dfac3764e5af7b5555c5d64f8f78e883471508ad6cae1a6int) * small_pow(2, 15) % prime236() == 0x44cfa1162ac48816bb2b74ce0317231f85d4bafbd79a88fa54b21f7f8cdint) by (nonlinear_arith);
    lemma_step(prime236(), 2, 0x7c8235f80c8e0223a919f4ecnat, 0x50e7e00c435dfac3764e5af7b5555c5d64f8f78e883471508ad6cae1a6int, 15, 0x44cfa1162ac48816bb2b74ce0317231f85d4bafbd79a88fa54b21f7f8cdint);
    assert(pow16(0x44cfa1162ac48816bb2b74ce0317231f85d4bafbd79a88fa54b21f7f8cdint) * small_pow(2, 1) % prime236() == 0xbce12900c60733e88d622e95c715bb1eeca27f56e0fcf8c3104f414599int) by (nonlinear_arith);
    lemma_step(prime236(), 2, 0x7c8235f80c8e0223a919f4ecfnat, 0x44cfa1162ac48816bb2b74ce0317231f85d4bafbd79a88fa54b21f7f8cdint, 1, 0xbce12900c60733e88d622e95c715bb1eeca27f56e0fcf8c3104f414599int);
    assert(pow16(0xbce12900c60733e88d622e95c715bb1eeca27f56e0fcf8c3104f414599int) * small_pow(2, 0) % prime236() == 0x6ca5e5f160af6b530eb2f420807721618788f9d34937866ce45aa619ee1int) by (nonlinear_arith);
    lemma_step(prime236(), 2, 0x7c8235f80c8e0223a919f4ecf1nat, 0xbce12900c60733e88d622e95c715bb1eeca27f56e0fcf8c3104f414599int, 0, 0x6ca5e5f160af6b530eb2f420807721618788f9d34937866ce45aa619ee1int);
    assert(pow16(0x6ca5e5f160af6b530eb2f420807721618788f9d34937866ce45aa619ee1int) * small_pow(2, 14) % prime236() == 0x80d1fee15253dcbae6bcd19150aeebce7fc5d873cac8ca6d715f227b8afint) by (nonlinear_arith);
    lemma_step(prime236(), 2, 0x7c8235f80c8e0223a919f4ecf10nat, 0x6ca5e5f160af6b530eb2f420807721618788f9d34937866ce45aa619ee1int, 14, 0x80d1fee15253dcbae6bcd19150aeebce7fc5d873cac8ca6d715f227b8afint);
    assert(pow16(0x80d1fee15253dcbae6bcd19150aeebce7fc5d873cac8ca6d715f227b8afint) * small_pow(2, 6) % prime236() == 0x56a734d930aa70accaa92da12dabead1627c134b6dc748c06bea82bd56eint) by (nonlinear_arith);
    lemma_step(prime236(), 2, 0x7c8235f80c8e0223a919f4ecf10enat, 0x80d1fee15253dcbae6bcd19150aeebce7fc5d873cac8ca6d715f227b8afint, 6, 0x56a734d930aa70accaa92da12dabead1627c134b6dc748c06bea82bd56eint);
    assert(pow16(0x56a734d930aa70accaa92da12dabead1627c134b6dc748c06bea82bd56eint) * small_pow(2, 6) % prime236() == 0x4f61fc9ad482008af402f6488a1c924b0d34c4f6fe3dc72ee27b741b06dint) by (nonlinear_arith);
    lemma_step(prime236(), 2, 0x7c8235f80c8e0223a919f4ecf10e6nat, 0x56a734d930aa70accaa92da12dabead1627c134b6dc748c06bea82bd56eint, 6, 0x4f61fc9ad482008af402f6488a1c924b0d34c4f6fe3dc72ee27b741b06dint);
    assert(pow16(0x4f61fc9ad482008af402f6488a1c924b0d34c4f6fe3dc72ee27b741b06dint) * small_pow(2, 14) % prime236() == 0x1a89d26886e87ec7a19e293ada6b4e8651b471db511a680cd844f978903int) by (nonlinear_arith);
    lemma_step(prime236(), 2, 0x7c8235f80c8e0223a919f4ecf10e66nat, 0x4f61fc9ad482008af402f6488a1c924b0d34c4f6fe3dc72ee27b741b06dint, 14, 0x1a89d26886e87ec7a19e293ada6b4e8651b471db511a680cd844f978903int);
    assert(pow16(0x1a89d26886e87ec7a19e293ada6b4e8651b471db511a680cd844f978903int) * small_pow(2, 13) % prime236() == 0x57492cdf46aed786f9e41b9d610b73d8a007589a9e4a6078274487b2bbint) by (nonlinear_arith);
    lemma_step(prime236(), 2, 0x7c8235f80c8e0223a919f4ecf10e66enat, 0x1a89d26886e87ec7a19e293ada6b4e8651b471db511a680cd844f978903int, 13, 0x57492cdf46aed786f9e41b9d610b73d8a007589a9e4a6078274487b2bbint);
    assert(pow16(0x57492cdf46aed786f9e41b9d610b73d8a007589a9e4a6078274487b2bbint) * small_pow(2, 0) % prime236() == 0x44bc8cf96e34a63daaa36df2d707c8009cf16a3c1d36bf1659fb332482int) by (nonlinear_arith);
    lemma_step(prime236(), 2, 0x7c8235f80c8e0223a919f4ecf10e66ednat, 0x57492cdf46aed786f9e41b9d610b73d8a007589a9e4a6078274487b2bbint, 0, 0x44bc8cf96e34a63daaa36df2d707c8009cf16a3c1d36bf1659fb332482int);
    assert(pow16(0x44bc8cf96e34a63daaa36df2d707c8009cf16a3c1d36bf1659fb332482int) * small_pow(2, 9) % prime236() == 0x4b0c3e47b48bf5320494392a8da4f95275963526b5c8a9147fde0bde699int) by (nonlinear_arith);
    lemma_step(prime236(), 2, 0x7c8235f80c8e0223a919f4ecf10e66ed0nat, 0x44bc8cf96e34a63daaa36df2d707c8009cf16a3c1d36bf1659fb332482int, 9, 0x4b0c3e47b48bf5320494392a8da4f95275963526b5c8a9147fde0bde699int);
    assert(pow16(0x4b0c3e47b48bf5320494392a8da4f95275963526b5c8a9147fde0bde699int) * small_pow(2, 1) % prime236() == 0x68908f65a46f49aa1944089fcf6bca839779c2066ced0444ba96a632cc9int) by (nonlinear_arith);
    lemma_step(prime236(), 2, 0x7c8235f80c8e0223a919f4ecf10e66ed09nat, 0x4b0c3e47b48bf5320494392a8da4f95275963526b5c8a9147fde0bde699int, 1, 0x68908f65a46f49aa1944089fcf6bca839779c2066ced0444ba96a632cc9int);
    assert(pow16(0x68908f65a46f49aa1944089fcf6bca839779c2066ced0444ba96a632cc9int) * small_pow(2, 13) % prime236() == 0xe377ffdc2cda222cf08931f15cc3c59610ffdc0b8eb4048a802112799cint) by (nonlinear_arith);
    lemma_step(prime236(), 2, 0x7c8235f80c8e0223a919f4ecf10e66ed091nat, 0x68908f65a46f49aa1944089fcf6bca839779c2066ced0444ba96a632cc9int, 13, 0xe377ffdc2cda222cf08931f15cc3c59610ffdc0b8eb4048a802112799cint);
    assert(pow16(0xe377ffdc2cda222cf08931f15cc3c59610ffdc0b8eb4048a802112799cint) * small_pow(2, 3) % prime236() == 0xa1df281a434c0c053c2a66ee5b18259d091feb2399e571efdbb13068565int) by (nonlinear_arith);
    lemma_step(prime236(), 2, 0x7c8235f80c8e0223a919f4ecf10e66ed091dnat, 0xe377ffdc2cda222cf08931f15cc3c59610ffdc0b8eb4048a802112799cint, 3, 0xa1df281a434c0c053c2a66ee5b18259d091feb2399e571efdbb13068565int);
    assert(pow16(0xa1df281a434c0c053c2a66ee5b18259d091feb2399e571efdbb13068565int) * small_pow(2, 3) % prime236() == 0x9cdf7c0b5dcfb0e575d9d3a122ba55a403f2444f393b0206c237fc24fb3int) by (nonlinear_arith);
    lemma_step(prime236(), 2, 0x7c8235f80c8e0223a919f4ecf10e66ed091d3nat, 0xa1df281a434c0c053c2a66ee5b18259d091feb2399e571efdbb13068565int, 3, 0x9cdf7c0b5dcfb0e575d9d3a122ba55a403f2444f393b0206c237fc24fb3int);
    assert(pow16(0x9cdf7c0b5dcfb0e575d9d3a122ba55a403f2444f393b0206c237fc24fb3int) * small_pow(2, 12) % prime236() == 0x53df710b0d17e74a40e01c5102ad2d8a7bca21e56b9a55921e30424b2c8int) by (nonlinear_arith);
    lemma_step(prime236(), 2, 0x7c8235f80c8e0223a919f4ecf10e66ed091d33nat, 0x9cdf7c0b5dcfb0e575d9d3a122ba55a403f2444f393b0206c237fc24fb3int, 12, 0x53df710b0d17e74a40e01c5102ad2d8a7bca21e56b9a55921e30424b2c8int);
    assert(pow16(0x53df710b0d17e74a40e01c5102ad2d8a7bca21e56b9a55921e30424b2c8int) * small_pow(2, 8) % prime236() == 0x2f8a02727d5fb7ada992da4bcfba254a2a29e3032d7b8090658fe7c21afint) by (nonlinear_arith);
    lemma_step(prime236(), 2, 0x7c8235f80c8e0223a919f4ecf10e66ed091d33cnat, 0x53df710b0d17e74a40e01c5102ad2d8a7bca21e56b9a55921e30424b2c8int, 8, 0x2f8a02727d5fb7ada992da4bcfba254a2a29e3032d7b8090658fe7c21afint);
    assert(pow16(0x2f8a02727d5fb7ada992da4bcfba254a2a29e3032d7b8090658fe7c21afint) * small_pow(2, 9) % prime236() == 0x242b8236aa464b2edc578b4641740cf18791c6276fc6226e9df66c0d75dint) by (nonlinear_arith);
    lemma_step(prime236(), 2, 0x7c8235f80c8e0223a919f4ecf10e66ed091d33c8nat, 0x2f8a02727d5fb7ada992da4bcfba254a2a29e3032d7b8090658fe7c21afint, 9, 0x242b8236aa464b2edc578b4641740cf18791c6276fc6226e9df66c0d75dint);
    assert(pow16(0x242b8236aa464b2edc578b4641740cf18791c6276fc6226e9df66c0d75dint) * small_pow(2, 9) % prime236() == 0x73436b12dba8835063702db7f15da5de5d42622dbad05460713576944afint) by (nonlinear_arith);
    lemma_step(prime236(), 2, 0x7c8235f80c8e0223a919f4ecf10e66ed091d33c89nat, 0x242b8236aa464b2edc578b4641740cf18791c6276fc6226e9df66c0d75dint, 9, 0x73436b12dba8835063702db7f15da5de5d42622dbad05460713576944afint);
    assert(pow16(0x73436b12dba8835063702db7f15da5de5d42622dbad05460713576944afint) * small_pow(2, 13) % prime236() == 0x6db5df52e8f423f42e273d91d2b83eeb8d5dde53ebbc393304502961799int) by (nonlinear_arith);
    lemma_step(prime236(), 2, 0x7c8235f80c8e0223a919f4ecf10e66ed091d33c899nat, 0x73436b12dba8835063702db7f15da5de5d42622dbad05460713576944afint, 13, 0x6db5df52e8f423f42e273d91d2b83eeb8d5dde53ebbc393304502961799int);
    assert(pow16(0x6db5df52e8f423f42e273d91d2b83eeb8d5dde53ebbc393304502961799int) * small_pow(2, 2) % prime236() == 0x8617d14fdeee63614a942bf4f2379befacaf40c476cc8df950efd30378eint) by (nonlinear_arith);
    lemma_step(prime236(), 2, 0x7c8235f80c8e0223a919f4ecf10e66ed091d33c899dnat, 0x6db5df52e8f423f42e273d91d2b83eeb8d5dde53ebbc393304502961799int, 2, 0x8617d14fdeee63614a942bf4f2379befacaf40c476cc8df950efd30378eint);
    assert(pow16(0x8617d14fdeee63614a942bf4f2379befacaf40c476cc8df950efd30378eint) * small_pow(2, 3) % prime236() == 0xa611a967941818a00876f77f134c3e1d25d58c382cd78059fcf7ae28766int) by (nonlinear_arith);
    lemma_step(prime236(), 2, 0x7c8235f80c8e0223a919f4ecf10e66ed091d33c899d2nat, 0x8617d14fdeee63614a942bf4f2379befacaf40c476cc8df950efd30378eint, 3, 0xa611a967941818a00876f77f134c3e1d25d58c382cd78059fcf7ae28766int);
    assert(pow16(0xa611a967941818a00876f77f134c3e1d25d58c382cd78059fcf7ae28766int) * small_pow(2, 8) % prime236() == 0x323d509847bcc27b5a8b1746171404dc1991de44bdb0907ef5e567b1a7eint) by (nonlinear_arith);
    lemma_step(prime236(), 2, 0x7c8235f80c8e0223a919f4ecf10e66ed091d33c899d23nat, 0xa611a967941818a00876f77f134c3e1d25d58c382cd78059fcf7ae28766int, 8, 0x323d509847bcc27b5a8b1746171404dc1991de44bdb0907ef5e567b1a7eint);
    assert(pow16(0x323d509847bcc27b5a8b1746171404dc1991de44bdb0907ef5e567b1a7eint) * small_pow(2, 3) % prime236() == 0x2fab9bb912ecf32b7675f526eb41fa9595c8394b7b215361c0b0bac523cint) by (nonlinear_arith);
    lemma_step(prime236(), 2, 0x7c8235f80c8e0223a919f4ecf10e66ed091d33c899d238nat, 0x323d509847bcc27b5a8b1746171404dc1991de44bdb0907ef5e567b1a7eint, 3, 0x2fab9bb912ecf32b7675f526eb41fa9595c8394b7b215361c0b0bac523cint);
    assert(pow16(0x2fab9bb912ecf32b7675f526eb41fa9595c8394b7b215361c0b0bac523cint) * small_pow(2, 4) % prime236() == 0xa56dcf38326abd39ca6ab5c2675186ea7bacf59bcfdf5f4a6ec4386ec8int) by (nonlinear_arith);
    lemma_step(prime236(), 2, 0x7c8235f80c8e0223a919f4ecf10e66ed091d33c899d2383nat, 0x2fab9bb912ecf32b7675f526eb41fa9595c8394b7b215361c0b0bac523cint, 4, 0xa56dcf38326abd39ca6ab5c2675186ea7bacf59bcfdf5f4a6ec4386ec8int);
    assert(pow16(0xa56dcf38326abd39ca6ab5c2675186ea7bacf59bcfdf5f4a6ec4386ec8int) * small_pow(2, 6) % prime236() == 0x5307a636a168268459a3059c46b41f49b26864d04ffb9a286cae9a4026bint) by (nonlinear_arith);
    lemma_step(prime236(), 2, 0x7c8235f80c8e0223a919f4ecf10e66ed091d33c899d23834nat, 0xa56dcf38326abd39ca6ab5c2675186ea7bacf59bcfdf5f4a6ec4386ec8int, 6, 0x5307a636a168268459a3059c46b41f49b26864d04ffb9a286cae9a4026bint);
    assert(pow16(0x5307a636a168268459a3059c46b41f49b26864d04ffb9a286cae9a4026bint) * small_pow(2, 11) % prime236() == 0x322a045e3e7e56bf97c7ea438f6682d92b94fe230a81c1db36d96891079int) by (nonlinear_arith);
    lemma_step(prime236(), 2, 0x7c8235f80c8e0223a919f4ecf10e66ed091d33c899d238346nat, 0x5307a636a168268459a3059c46b41f49b26864d04ffb9a286cae9a4026bint, 11, 0x322a045e3e7e56bf97c7ea438f6682d92b94fe230a81c1db36d96891079int);
    assert(pow16(0x322a045e3e7e56bf97c7ea438f6682d92b94fe230a81c1db36d96891079int) * small_pow(2, 12) % prime236() == 0x780425ded4937ad88aa05fc1e93bf370e440049c4fbaad90821b3bd0d1fint) by (nonlinear_arith);
    lemma_step(prime236(), 2, 0x7c8235f80c8e0223a919f4ecf10e66ed091d33c899d238346bnat, 0x322a045e3e7e56bf97c7ea438f6682d92b94fe230a81c1db36d96891079int, 12, 0x780425ded4937ad88aa05fc1e93bf370e440049c4fbaad90821b3bd0d1fint);
    assert(pow16(0x780425ded4937ad88aa05fc1e93bf370e440049c4fbaad90821b3bd0d1fint) * small_pow(2, 3) % prime236() == 0x6c1c70ae0e7b9b02b7c192b58374d08caa49adbdf46fb193b1d7d370d2dint) by (nonlinear_arith);
    lemma_step(prime236(), 2, 0x7c8235f80c8e0223a919f4ecf10e66ed091d33c899d238346bcnat, 0x780425ded4937ad88aa05fc1e93bf370e440049c4fbaad90821b3bd0d1fint, 3, 0x6c1c70ae0e7b9b02b7c192b58374d08caa49adbdf46fb193b1d7d370d2dint);
    assert(pow16(0x6c1c70ae0e7b9b02b7c192b58374d08caa49adbdf46fb193b1d7d370d2dint) * small_pow(2, 12) % prime236() == 0xc5c24779f9bb80525c5ba3dc7d6b363c1c84f5aa71753b5516a42170a2int) by (nonlinear_arith);
    lemma_step(prime236(), 2, 0x7c8235f80c8e0223a919f4ecf10e66ed091d33c899d238346bc3nat, 0x6c1c70ae0e7b9b02b7c192b58374d08caa49adbdf46fb193b1d7d370d2dint, 12, 0xc5c24779f9bb80525c5ba3dc7d6b363c1c84f5aa71753b5516a42170a2int);
    assert(pow16(0xc5c24779f9bb80525c5ba3dc7d6b363c1c84f5aa71753b5516a42170a2int) * small_pow(2, 11) % prime236() == 0x36530de28ba55c6885f34622b14b3c5b1ea652e9e2a5176a0d3672b4bd3int) by (nonlinear_arith);
    lemma_step(prime236(), 2, 0x7c8235f80c8e0223a919f4ecf10e66ed091d33c899d238346bc3cnat, 0xc5c24779f9bb80525c5ba3dc7d6b363c1c84f5aa71753b5516a42170a2int, 11, 0x36530de28ba55c6885f34622b14b3c5b1ea652e9e2a5176a0d3672b4bd3int);
    assert(pow16(0x36530de28ba55c6885f34622b14b3c5b1ea652e9e2a5176a0d3672b4bd3int) * small_pow(2, 2) % prime236() == 0x19300c404413564b3729115b7cd324cfd21ff7b726f614fedbd51ce910bint) by (nonlinear_arith);
    lemma_step(prime236(), 2, 0x7c8235f80c8e0223a919f4ecf10e66ed091d33c899d238346bc3cbnat, 0x36530de28ba55c6885f34622b14b3c5b1ea652e9e2a5176a0d3672b4bd3int, 2, 0x19300c404413564b3729115b7cd324cfd21ff7b726f614fedbd51ce910bint);
    assert(pow16(0x19300c404413564b3729115b7cd324cfd21ff7b726f614fedbd51ce910bint) * small_pow(2, 6) % prime236() == 0xab61650ca4f597d247e8a957b316c2d43a1133047af11020f5390c1fc0aint) by (nonlinear_arith);
    lemma_step(prime236(), 2, 0x7c8235f80c8e0223a919f4ecf10e66ed091d33c899d238346bc3cb2nat, 0x19300c404413564b3729115b7cd324cfd21ff7b726f614fedbd51ce910bint, 6, 0xab61650ca4f597d247e8a957b316c2d43a1133047af11020f5390c1fc0aint);
    assert(pow16(0xab61650ca4f597d247e8a957b316c2d43a1133047af11020f5390c1fc0aint) * small_pow(2, 10) % prime236() == 0x13d9dc1e5009af5c4c2541515b87c068b913c42d9a7644ce63ffe960964int) by (nonlinear_arith);
    lemma_step(prime236(), 2, 0x7c8235f80c8e0223a919f4ecf10e66ed091d33c899d238346bc3cb26nat, 0xab61650ca4f597d247e8a957b316c2d43a1133047af11020f5390c1fc0aint, 10, 0x13d9dc1e5009af5c4c2541515b87c068b913c42d9a7644ce63ffe960964int);
}

/// 74058212732561358302231226437062788676166966415465897661863160754340907 is prime.
proof fn lemma_prime_236()
    ensures
        is_prime(prime236()),
{
    lemma_unit_236();
    lemma_power_236_0();
    assert(0xa35a14fb1452ddd0fca6eef50ac9bd9a369cab894104fc366d4fa595e38int * (0xa118eb0f9d8184bab59e8e45df736d65fba3c64f4aa855bc8921ac18308int - 1) % prime236() == 1) by (nonlinear_arith);
    lemma_unit_witness(prime236(), 0xa35a14fb1452ddd0fca6eef50ac9bd9a369cab894104fc366d4fa595e38int, 0xa118eb0f9d8184bab59e8e45df736d65fba3c64f4aa855bc8921ac18308int, pow(2, 0xbd0d14cf78e7521a329188e9fa496anat));
    lemma_prime_116();
    lemma_power_236_1();
    assert(0x57f4888591087bd9c3eb0c0f278ba4fddc26c6cce3b2e8944893fcd09abint * (0x13d9dc1e5009af5c4c2541515b87c068b913c42d9a7644ce63ffe960964int - 1) % prime236() == 1) by (nonlinear_arith);
    lemma_unit_witness(prime236(), 0x57f4888591087bd9c3eb0c0f278ba4fddc26c6cce3b2e8944893fcd09abint, 0x13d9dc1e5009af5c4c2541515b87c068b913c42d9a7644ce63ffe960964int, pow(2, 0x7c8235f80c8e0223a919f4ecf10e66ed091d33c899d238346bc3cb26anat));
    lemma_small_prime(353);
    assert forall|r: int| is_prime(r) && #[trigger] divides(r, prime236()) implies r > 0x14093364c914d5d3a825917616ac7941int by {
        lemma_pocklington(prime236(), prime116(), 0xbd0d14cf78e7521a329188e9fa496anat, 2, 0xa35a14fb1452ddd0fca6eef50ac9bd9a369cab894104fc366d4fa595e38int, r);
        lemma_pocklington(prime236(), 353, 0x7c8235f80c8e0223a919f4ecf10e66ed091d33c899d238346bc3cb26anat, 2, 0x57f4888591087bd9c3eb0c0f278ba4fddc26c6cce3b2e8944893fcd09abint, r);
        lemma_two_divisors(prime116(), 353, r - 1);
        lemma_above(0x14093364c914d5d3a825917616ac7941int, r);
    }
    assert(0x14093364c914d5d3a825917616ac7941int * 0x14093364c914d5d3a825917616ac7941int > prime236()) by (nonlinear_arith);
    lemma_prime_by_bound(prime236(), 0x14093364c914d5d3a825917616ac7941int);
}

proof fn lemma_power_255()
    ensures
        eqm(prime255(), pow(0x3724c21c2, 781764), 0x2e3a5e89ce58ce79f905dbed3774c7a48c8aeb879a6684e36cea97150858d182int),
{
    lemma_pow_zero(prime255(), 0x3724c21c2);
    assert(pow16(1) * small_pow(0x3724c21c2, 11) % prime255() == 0x40b060f76eb487c39618b33bfdb499574166094e192d22e473e9ccfdefeaa23int) by (nonlinear_arith);
    lemma_step(prime255(), 0x3724c21c2, 0, 1, 11, 0x40b060f76eb487c39618b33bfdb499574166094e192d22e473e9ccfdefeaa23int);
    assert(pow16(0x40b060f76eb487c39618b33bfdb499574166094e192d22e473e9ccfdefeaa23int) * small_pow(0x3724c21c2, 14) % prime255() == 0x11e9ae54581c17fd0a84d86f93ea55d375eca608118a02712dc15b889bb1099int) by (nonlinear_arith);
    lemma_step(prime255(), 0x3724c21c2, 11, 0x40b060f76eb487c39618b33bfdb499574166094e192d22e473e9ccfdefeaa23int, 14, 0x11e9ae54581c17fd0a84d86f93ea55d375eca608118a02712dc15b889bb1099int);
    assert(pow16(0x11e9ae54581c17fd0a84d86f93ea55d375eca608118a02712dc15b889bb1099int) * small_pow(0x3724c21c2, 13) % prime255() == 0x3d210b22e34169feb3f2c8a9c9deff9c6dd895d59801f8d60da97daa8a762343int) by (nonlinear_arith);
    lemma_step(prime255(), 0x3724c21c2, 190, 0x11e9ae54581c17fd0a84d86f93ea55d375eca608118a02712dc15b889bb1099int, 13, 0x3d210b22e34169feb3f2c8a9c9deff9c6dd895d59801f8d60da97daa8a762343int);
    assert(pow16(0x3d210b22e34169feb3f2c8a9c9deff9c6dd895d59801f8d60da97daa8a762343int) * small_pow(0x3724c21c2, 12) % prime255() == 0x2156ceb29047d00e004fef42283acff85b9e16ed8b359d2239f944fc1fc2ec4int) by (nonlinear_arith);
    lemma_step(prime255(), 0x3724c21c2, 3053, 0x3d210b22e34169feb3f2c8a9c9deff9c6dd895d59801f8d60da97daa8a762343int, 12, 0x2156ceb29047d00e004fef42283acff85b9e16ed8b359d2239f944fc1fc2ec4int);
    assert(pow16(0x2156ceb29047d00e004fef42283acff85b9e16ed8b359d2239f944fc1fc2ec4int) * small_pow(0x3724c21c2, 4) % prime255() == 0x2e3a5e89ce58ce79f905dbed3774c7a48c8aeb879a6684e36cea97150858d182int) by (nonlinear_arith);
    lemma_step(prime255(), 0x3724c21c2, 48860, 0x2156ceb29047d00e004fef42283acff85b9e16ed8b359d2239f944fc1fc2ec4int, 4, 0x2e3a5e89ce58ce79f905dbed3774c7a48c8aeb879a6684e36cea97150858d182int);
}

/// 121665 * 121666 to the power (p - 1) / 2 is minus one modulo p.
pub proof fn lemma_euler_255()
    ensures
        eqm(prime255(), pow(0x3724c21c2, 0x3ffffffffffffffffffffffffffffffffffffffffffffffffffffffffffffff6nat), -1),
{
    lemma_pow_zero(prime255(), 0x3724c21c2);
    assert(pow16(1) * small_pow(0x3724c21c2, 3) % prime255() == 0x28f0174abcb2edcdcc1d9ff508int) by (nonlinear_arith);
    lemma_step(prime255(), 0x3724c21c2, 0, 1, 3, 0x28f0174abcb2edcdcc1d9ff508int);
    assert(pow16(0x28f0174abcb2edcdcc1d9ff508int) * small_pow(0x3724c21c2, 15) % prime255() == 0x645b23d786aac140fa70a0fae9ca44a220b56bcf646d2d01b35aea57e433b212int) by (nonlinear_arith);
    lemma_step(prime255(), 0x3724c21c2, 3, 0x28f0174abcb2edcdcc1d9ff508int, 15, 0x645b23d786aac140fa70a0fae9ca44a220b56bcf646d2d01b35aea57e433b212int);
    assert(pow16(0x645b23d786aac140fa70a0fae9ca44a220b56bcf646d2d01b35aea57e433b212int) * small_pow(0x3724c21c2, 15) % prime255() == 0x8c32e05b0817754b214c45df8120797c736fc5c93aace6815465bff31e09e02int) by (nonlinear_arith);
    lemma_step(prime255(), 0x3724c21c2, 63, 0x645b23d786aac140fa70a0fae9ca44a220b56bcf646d2d01b35aea57e433b212int, 15, 0x8c32e05b0817754b214c45df8120797c736fc5c93aace6815465bff31e09e02int);
    assert(pow16(0x8c32e05b0817754b214c45df8120797c736fc5c93aace6815465bff31e09e02int) * small_pow(0x3724c21c2, 15) % prime255() == 0x2c627fcbdabb9dde609d077e4e6eb39e8ec1823a5a4b08091aafa1aac93cbe4eint) by (nonlinear_arith);
    lemma_step(prime255(), 0x3724c21c2, 1023, 0x8c32e05b0817754b214c45df8120797c736fc5c93aace6815465bff31e09e02int, 15, 0x2c627fcbdabb9dde609d077e4e6eb39e8ec1823a5a4b08091aafa1aac93cbe4eint);
    assert(pow16(0x2c627fcbdabb9dde609d077e4e6eb39e8ec1823a5a4b08091aafa1aac93cbe4eint) * small_pow(0x3724c21c2, 15) % prime255() == 0x2d68be1ece952e2e82306ce226fd0a781bec24805fdc80559c528f782fa96182int) by (nonlinear_arith);
    lemma_step(prime255(), 0x3724c21c2, 16383, 0x2c627fcbdabb9dde609d077e4e6eb39e8ec1823a5a4b08091aafa1aac93cbe4eint, 15, 0x2d68be1ece952e2e82306ce226fd0a781bec24805fdc80559c528f782fa96182int);
    assert(pow16(0x2d68be1ece952e2e82306ce226fd0a781bec24805fdc80559c528f782fa96182int) * small_pow(0x3724c21c2, 15) % prime255() == 0x4dc1fcafa9075d9c98888f092cf411387c8623a9d1e06baee5b9f2b540d07077int) by (nonlinear_arith);
    lemma_step(prime255(), 0x3724c21c2, 262143, 0x2d68be1ece952e2e82306ce226fd0a781bec24805fdc80559c528f782fa96182int, 15, 0x4dc1fcafa9075d9c98888f092cf411387c8623a9d1e06baee5b9f2b540d07077int);
    assert(pow16(0x4dc1fcafa9075d9c98888f092cf411387c8623a9d1e06baee5b9f2b540d07077int) * small_pow(0x3724c21c2, 15) % prime255() == 0x7349b181f4fad2b43510ba4785298b36dc21d40f9de207ed17a21618058aada2int) by (nonlinear_arith);
    lemma_step(prime255(), 0x3724c21c2, 0x3fffff, 0x4dc1fcafa9075d9c98888f092cf411387c8623a9d1e06baee5b9f2b540d07077int, 15, 0x7349b181f4fad2b43510ba4785298b36dc21d40f9de207ed17a21618058aada2int);
    assert(pow16(0x7349b181f4fad2b43510ba4785298b36dc21d40f9de207ed17a21618058aada2int) * small_pow(0x3724c21c2, 15) % prime255() == 0x4f027631928217e886ac079ff819771e8858896c1dcd84a67ac4c313c28fb991int) by (nonlinear_arith);
    lemma_step(prime255(), 0x3724c21c2, 0x3ffffff, 0x7349b181f4fad2b43510ba4785298b36dc21d40f9de207ed17a21618058aada2int, 15, 0x4f027631928217e886ac079ff819771e8858896c1dcd84a67ac4c313c28fb991int);
    assert(pow16(0x4f027631928217e886ac079ff819771e8858896c1dcd84a67ac4c313c28fb991int) * small_pow(0x3724c21c2, 15) % prime255() == 0x694f307c64c9e19cd0c21c9dd277d052f3a50b42b8fc9adaeb7237e022fafa11int) by (nonlinear_arith);
    lemma_step(prime255(), 0x3724c21c2, 0x3fffffff, 0x4f027631928217e886ac079ff819771e8858896c1dcd84a67ac4c313c28fb991int, 15, 0x694f307c64c9e19cd0c21c9dd277d052f3a50b42b8fc9adaeb7237e022fafa11int);
    assert(pow16(0x694f307c64c9e19cd0c21c9dd277d052f3a50b42b8fc9adaeb7237e022fafa11int) * small_pow(0x3724c21c2, 15) % prime255() == 0x2818d27dee6424b3eaf8c0e7819372ff32a3e9744ace3f0cf2a0ed59a38ce173int) by (nonlinear_arith);
    lemma_step(prime255(), 0x3724c21c2, 0x3ffffffff, 0x694f307c64c9e19cd0c21c9dd277d052f3a50b42b8fc9adaeb7237e022fafa11int, 15, 0x2818d27dee6424b3eaf8c0e7819372ff32a3e9744ace3f0cf2a0ed59a38ce173int);
    assert(pow16(0x2818d27dee6424b3eaf8c0e7819372ff32a3e9744ace3f0cf2a0ed59a38ce173int) * small_pow(0x3724c21c2, 15) % prime255() == 0x6993d5a498d392c8ae272b4fb7390b19c0861eebc6942321183b63603e1c6f22int) by (nonlinear_arith);
    lemma_step(prime255(), 0x3724c21c2, 0x3fffffffff, 0x2818d27dee6424b3eaf8c0e7819372ff32a3e9744ace3f0cf2a0ed59a38ce173int, 15, 0x6993d5a498d392c8ae272b4fb7390b19c0861eebc6942321183b63603e1c6f22int);
    assert(pow16(0x6993d5a498d392c8ae272b4fb7390b19c0861eebc6942321183b63603e1c6f22int) * small_pow(0x3724c21c2, 15) % prime255() == 0x37bef5c70672f2ad816c142de7704f574b466fb048d08c99e4c947a0d8aa2c64int) by (nonlinear_arith);
    lemma_step(prime255(), 0x3724c21c2, 0x3ffffffffff, 0x6993d5a498d392c8ae272b4fb7390b19c0861eebc6942321183b63603e1c6f22int, 15, 0x37bef5c70672f2ad816c142de7704f574b466fb048d08c99e4c947a0d8aa2c64int);
    assert(pow16(0x37bef5c70672f2ad816c142de7704f574b466fb048d08c99e4c947a0d8aa2c64int) * small_pow(0x3724c21c2, 15) % prime255() == 0x1d497a8cf191c3f5bab63ca106de09a60820ce7bee05acda1c8206aeab175727int) by (nonlinear_arith);
    lemma_step(prime255(), 0x3724c21c2, 0x3fffffffffff, 0x37bef5c70672f2ad816c142de7704f574b466fb048d08c99e4c947a0d8aa2c64int, 15, 0x1d497a8cf191c3f5bab63ca106de09a60820ce7bee05acda1c8206aeab175727int);
    assert(pow16(0x1d497a8cf191c3f5bab63ca106de09a60820ce7bee05acda1c8206aeab175727int) * small_pow(0x3724c21c2, 15) % prime255() == 0xc641ce7fcdc14361f219918044de8e02936235eba7833dd2bfe87d1e368703fint) by (nonlinear_arith);
    lemma_step(prime255(), 0x3724c21c2, 0x3ffffffffffff, 0x1d497a8cf191c3f5bab63ca106de09a60820ce7bee05acda1c8206aeab175727int, 15, 0xc641ce7fcdc14361f219918044de8e02936235eba7833dd2bfe87d1e368703fint);
    assert(pow16(0xc641ce7fcdc14361f219918044de8e02936235eba7833dd2bfe87d1e368703fint) * small_pow(0x3724c21c2, 15) % prime255() == 0xa90f8910fe092cb771cdae5d42608319588e6f554917710817ba49dd1275128int) by (nonlinear_arith);
    lemma_step(prime255(), 0x3724c21c2, 0x3fffffffffffff, 0xc641ce7fcdc14361f219918044de8e02936235eba7833dd2bfe87d1e368703fint, 15, 0xa90f8910fe092cb771cdae5d42608319588e6f554917710817ba49dd1275128int);
    assert(pow16(0xa90f8910fe092cb771cdae5d42608319588e6f554917710817ba49dd1275128int) * small_pow(0x3724c21c2, 15) % prime255() == 0x3c3bbbfe4266ff36c3a507cbb6ed55ee0134072fea761843eae34e835bc556f9int) by (nonlinear_arith);
    lemma_step(prime255(), 0x3724c21c2, 0x3ffffffffffffff, 0xa90f8910fe092cb771cdae5d42608319588e6f554917710817ba49dd1275128int, 15, 0x3c3bbbfe4266ff36c3a507cbb6ed55ee0134072fea761843eae34e835bc556f9int);
    assert(pow16(0x3c3bbbfe4266ff36c3a507cbb6ed55ee0134072fea761843eae34e835bc556f9int) * small_pow(0x3724c21c2, 15) % prime255() == 0xeb1995eb249ab27524cb271888f917c18fc8f7115cd4edc800e6a0598c5bbe3int) by (nonlinear_arith);
    lemma_step(prime255(), 0x3724c21c2, 0x3fffffffffffffffnat, 0x3c3bbbfe4266ff36c3a507cbb6ed55ee0134072fea761843eae34e835bc556f9int, 15, 0xeb1995eb249ab27524cb271888f917c18fc8f7115cd4edc800e6a0598c5bbe3int);
    assert(pow16(0xeb1995eb249ab27524cb271888f917c18fc8f7115cd4edc800e6a0598c5bbe3int) * small_pow(0x3724c21c2, 15) % prime255() == 0x6fe2bb91da3fb4948a1ed4c7879ebd400572cc6e5925c77411881cbd6a7ed50bint) by (nonlinear_arith);
    lemma_step(prime255(), 0x3724c21c2, 0x3ffffffffffffffffnat, 0xeb1995eb249ab27524cb271888f917c18fc8f7115cd4edc800e6a0598c5bbe3int, 15, 0x6fe2bb91da3fb4948a1ed4c7879ebd400572cc6e5925c77411881cbd6a7ed50bint);
    assert(pow16(0x6fe2bb91da3fb4948a1ed4c7879ebd400572cc6e5925c77411881cbd6a7ed50bint) * small_pow(0x3724c21c2, 15) % prime255() == 0x7264ac8c288f93326e1d8468daa16c152e83f7b41d45bbca4d187d1a2352e38fint) by (nonlinear_arith);
    lemma_step(prime255(), 0x3724c21c2, 0x3fffffffffffffffffnat, 0x6fe2bb91da3fb4948a1ed4c7879ebd400572cc6e5925c77411881cbd6a7ed50bint, 15, 0x7264ac8c288f93326e1d8468daa16c152e83f7b41d45bbca4d187d1a2352e38fint);
    assert(pow16(0x7264ac8c288f93326e1d8468daa16c152e83f7b41d45bbca4d187d1a2352e38fint) * small_pow(0x3724c21c2, 15) % prime255() == 0x2e8c1d43c384e374f4b44d93ad91116e5b431f9248fb79d0fc0b332802f3221aint) by (nonlinear_arith);
    lemma_step(prime255(), 0x3724c21c2, 0x3ffffffffffffffffffnat, 0x7264ac8c288f93326e1d8468daa16c152e83f7b41d45bbca4d187d1a2352e38fint, 15, 0x2e8c1d43c384e374f4b44d93ad91116e5b431f9248fb79d0fc0b332802f3221aint);
    assert(pow16(0x2e8c1d43c384e374f4b44d93ad91116e5b431f9248fb79d0fc0b332802f3221aint) * small_pow(0x3724c21c2, 15) % prime255() == 0x2a318f49a8252a5a73c6de79115a18f8417e1782c03b71bf0439746adf9e3302int) by (nonlinear_arith);
    lemma_step(prime255(), 0x3724c21c2, 0x3fffffffffffffffffffnat, 0x2e8c1d43c384e374f4b44d93ad91116e5b431f9248fb79d0fc0b332802f3221aint, 15, 0x2a318f49a8252a5a73c6de79115a18f8417e1782c03b71bf0439746adf9e3302int);
    assert(pow16(0x2a318f49a8252a5a73c6de79115a18f8417e1782c03b71bf0439746adf9e3302int) * small_pow(0x3724c21c2, 15) % prime255() == 0x666382e46b5ff900f1e3e68f0a2861584ba8dc5117b4eb6d90216f22ff64e13fint) by (nonlinear_arith);
    lemma_step(prime255(), 0x3724c21c2, 0x3ffffffffffffffffffffnat, 0x2a318f49a8252a5a73c6de79115a18f8417e1782c03b71bf0439746adf9e3302int, 15, 0x666382e46b5ff900f1e3e68f0a2861584ba8dc5117b4eb6d90216f22ff64e13fint);
    assert(pow16(0x666382e46b5ff900f1e3e68f0a2861584ba8dc5117b4eb6d90216f22ff64e13fint) * small_pow(0x3724c21c2, 15) % prime255() == 0x7c6b0aef686d146b9eccf63edfd488138ff2c058266fb61b0083a74ef7b9195bint) by (nonlinear_arith);
    lemma_step(prime255(), 0x3724c21c2, 0x3fffffffffffffffffffffnat, 0x666382e46b5ff900f1e3e68f0a2861584ba8dc5117b4eb6d90216f22ff64e13fint, 15, 0x7c6b0aef686d146b9eccf63edfd488138ff2c058266fb61b0083a74ef7b9195bint);
    assert(pow16(0x7c6b0aef686d146b9eccf63edfd488138ff2c058266fb61b0083a74ef7b9195bint) * small_pow(0x3724c21c2, 15) % prime255() == 0x5dd9b6c961341a520b40af69d210c0c6b9e389e8893e7291f8085f1f8b0bfd3cint) by (nonlinear_arith);
    lemma_step(prime255(), 0x3724c21c2, 0x3ffffffffffffffffffffffnat, 0x7c6b0aef686d146b9eccf63edfd488138ff2c058266fb61b0083a74ef7b9195bint, 15, 0x5dd9b6c961341a520b40af69d210c0c6b9e389e8893e7291f8085f1f8b0bfd3cint);
    assert(pow16(0x5dd9b6c961341a520b40af69d210c0c6b9e389e8893e7291f8085f1f8b0bfd3cint) * small_pow(0x3724c21c2, 15) % prime255() == 0x49566229b6a3c190344f9292926bb4420d29d11adec57ab7b0cb5bef4433210fint) by (nonlinear_arith);
    lemma_step(prime255(), 0x3724c21c2, 0x3fffffffffffffffffffffffnat, 0x5dd9b6c961341a520b40af69d210c0c6b9e389e8893e7291f8085f1f8b0bfd3cint, 15, 0x49566229b6a3c190344f9292926bb4420d29d11adec57ab7b0cb5bef4433210fint);
    assert(pow16(0x49566229b6a3c190344f9292926bb4420d29d11adec57ab7b0cb5bef4433210fint) * small_pow(0x3724c21c2, 15) % prime255() == 0x4c3c78b829c12bae8c6429300d5e965cddaf9c8e06edab86af0e45ff5cb2f54bint) by (nonlinear_arith);
    lemma_step(prime255(), 0x3724c21c2, 0x3ffffffffffffffffffffffffnat, 0x49566229b6a3c190344f9292926bb4420d29d11adec57ab7b0cb5bef4433210fint, 15, 0x4c3c78b829c12bae8c6429300d5e965cddaf9c8e06edab86af0e45ff5cb2f54bint);
    assert(pow16(0x4c3c78b829c12bae8c6429300d5e965cddaf9c8e06edab86af0e45ff5cb2f54bint) * small_pow(0x3724c21c2, 15) % prime255() == 0x275c64bc3f73386e24528f49ab08dcb52a885cb36e4e4196b4925629b11b964bint) by (nonlinear_arith);
    lemma_step(prime255(), 0x3724c21c2, 0x3fffffffffffffffffffffffffnat, 0x4c3c78b829c12bae8c6429300d5e965cddaf9c8e06edab86af0e45ff5cb2f54bint, 15, 0x275c64bc3f73386e24528f49ab08dcb52a885cb36e4e4196b4925629b11b964bint);
    assert(pow16(0x275c64bc3f73386e24528f49ab08dcb52a885cb36e4e4196b4925629b11b964bint) * small_pow(0x3724c21c2, 15) % prime255() == 0x21d4d73ebb5a47718643c8f2577028b158414bf0bb783c43e2c391dfbbe8aaacint) by (nonlinear_arith);
    lemma_step(prime255(), 0x3724c21c2, 0x3ffffffffffffffffffffffffffnat, 0x275c64bc3f73386e24528f49ab08dcb52a885cb36e4e4196b4925629b11b964bint, 15, 0x21d4d73ebb5a47718643c8f2577028b158414bf0bb783c43e2c391dfbbe8aaacint);
    assert(pow16(0x21d4d73ebb5a47718643c8f2577028b158414bf0bb783c43e2c391dfbbe8aaacint) * small_pow(0x3724c21c2, 15) % prime255() == 0x1681771f840f2e3c00ac2f4c28f1736b46645e04b8b8fc1195a0baa4b50fd741int) by (nonlinear_arith);
    lemma_step(prime255(), 0x3724c21c2, 0x3fffffffffffffffffffffffffffnat, 0x21d4d73ebb5a47718643c8f2577028b158414bf0bb783c43e2c391dfbbe8aaacint, 15, 0x1681771f840f2e3c00ac2f4c28f1736b46645e04b8b8fc1195a0baa4b50fd741int);
    assert(pow16(0x1681771f840f2e3c00ac2f4c28f1736b46645e04b8b8fc1195a0baa4b50fd741int) * small_pow(0x3724c21c2, 15) % prime255() == 0x6a70e3cd72cd6d8d71d2514bed3a33d5a2294072658c53fb344dcf3eb4f38f56int) by (nonlinear_arith);
    lemma_step(prime255(), 0x3724c21c2, 0x3ffffffffffffffffffffffffffffnat, 0x1681771f840f2e3c00ac2f4c28f1736b46645e04b8b8fc1195a0baa4b50fd741int, 15, 0x6a70e3cd72cd6d8d71d2514bed3a33d5a2294072658c53fb344dcf3eb4f38f56int);
    assert(pow16(0x6a70e3cd72cd6d8d71d2514bed3a33d5a2294072658c53fb344dcf3eb4f38f56int) * small_pow(0x3724c21c2, 15) % prime255() == 0x187ef6f76380de81fc59ea39e7848c9168c77ef26982197c2a37058dd6935c6cint) by (nonlinear_arith);
    lemma_step(prime255(), 0x3724c21c2, 0x3fffffffffffffffffffffffffffffnat, 0x6a70e3cd72cd6d8d71d2514bed3a33d5a2294072658c53fb344dcf3eb4f38f56int, 15, 0x187ef6f76380de81fc59ea39e7848c9168c77ef26982197c2a37058dd6935c6cint);
    assert(pow16(0x187ef6f76380de81fc59ea39e7848c9168c77ef26982197c2a37058dd6935c6cint) * small_pow(0x3724c21c2, 15) % prime255() == 0x683d33a3874eba57891b89f16d3e0580448034a345b0db3a7d618c266add7af1int) by (nonlinear_arith);
    lemma_step(prime255(), 0x3724c21c2, 0x3ffffffffffffffffffffffffffffffnat, 0x187ef6f76380de81fc59ea39e7848c9168c77ef26982197c2a37058dd6935c6cint, 15, 0x683d33a3874eba57891b89f16d3e0580448034a345b0db3a7d618c266add7af1int);
    assert(pow16(0x683d33a3874eba57891b89f16d3e0580448034a345b0db3a7d618c266add7af1int) * small_pow(0x3724c21c2, 15) % prime255() == 0x1f13ce971796a7db99e888108f35a138796a3fb72e8092c114a9181ff32fa925int) by (nonlinear_arith);
    lemma_step(prime255(), 0x3724c21c2, 0x3fffffffffffffffffffffffffffffffnat, 0x683d33a3874eba57891b89f16d3e0580448034a345b0db3a7d618c266add7af1int, 15, 0x1f13ce971796a7db99e888108f35a138796a3fb72e8092c114a9181ff32fa925int);
    assert(pow16(0x1f13ce971796a7db99e888108f35a138796a3fb72e8092c114a9181ff32fa925int) * small_pow(0x3724c21c2, 15) % prime255() == 0x23c04279a42953f6af270883d91e201263c2eed9b338643a5c75ba78e0bcde78int) by (nonlinear_arith);
    lemma_step(prime255(), 0x3724c21c2, 0x3ffffffffffffffffffffffffffffffffnat, 0x1f13ce971796a7db99e888108f35a138796a3fb72e8092c114a9181ff32fa925int, 15, 0x23c04279a42953f6af270883d91e201263c2eed9b338643a5c75ba78e0bcde78int);
    assert(pow16(0x23c04279a42953f6af270883d91e201263c2eed9b338643a5c75ba78e0bcde78int) * small_pow(0x3724c21c2, 15) % prime255() == 0x6a9388d85134e5ecf31e555ec16a0675f2b73eecebe44413b5682450b20a3f3cint) by (nonlinear_arith);
    lemma_step(prime255(), 0x3724c21c2, 0x3fffffffffffffffffffffffffffffffffnat, 0x23c04279a42953f6af270883d91e201263c2eed9b338643a5c75ba78e0bcde78int, 15, 0x6a9388d85134e5ecf31e555ec16a0675f2b73eecebe44413b5682450b20a3f3cint);
    assert(pow16(0x6a9388d85134e5ecf31e555ec16a0675f2b73eecebe44413b5682450b20a3f3cint) * small_pow(0x3724c21c2, 15) % prime255() == 0x2cb107823174c20c4e79ba08e479ab1dd989d7b3d181443a9764ba3bd842a2a7int) by (nonlinear_arith);
    lemma_step(prime255(), 0x3724c21c2, 0x3ffffffffffffffffffffffffffffffffffnat, 0x6a9388d85134e5ecf31e555ec16a0675f2b73eecebe44413b5682450b20a3f3cint, 15, 0x2cb107823174c20c4e79ba08e479ab1dd989d7b3d181443a9764ba3bd842a2a7int);
    assert(pow16(0x2cb107823174c20c4e79ba08e479ab1dd989d7b3d181443a9764ba3bd842a2a7int) * small_pow(0x3724c21c2, 15) % prime255() == 0x4ceaa6c0b0be81f2ac9fbfce88dc263989a189884ba215cabdeec6fd6670af5eint) by (nonlinear_arith);
    lemma_step(prime255(), 0x3724c21c2, 0x3fffffffffffffffffffffffffffffffffffnat, 0x2cb107823174c20c4e79ba08e479ab1dd989d7b3d181443a9764ba3bd842a2a7int, 15, 0x4ceaa6c0b0be81f2ac9fbfce88dc263989a189884ba215cabdeec6fd6670af5eint);
    assert(pow16(0x4ceaa6c0b0be81f2ac9fbfce88dc263989a189884ba215cabdeec6fd6670af5eint) * small_pow(0x3724c21c2, 15) % prime255() == 0x454eb393fe6be209f41914a32cef90e7e5dcf55ccfb63928ea0ab3b3e861126cint) by (nonlinear_arith);
    lemma_step(prime255(), 0x3724c21c2, 0x3ffffffffffffffffffffffffffffffffffffnat, 0x4ceaa6c0b0be81f2ac9fbfce88dc263989a189884ba215cabdeec6fd6670af5eint, 15, 0x454eb393fe6be209f41914a32cef90e7e5dcf55ccfb63928ea0ab3b3e861126cint);
    assert(pow16(0x454eb393fe6be209f41914a32cef90e7e5dcf55ccfb63928ea0ab3b3e861126cint) * small_pow(0x3724c21c2, 15) % prime255() == 0x73225b08527b2f7cab756117cd27f127f83407169f353c3a0614fccaf1489e3eint) by (nonlinear_arith);
    lemma_step(prime255(), 0x3724c21c2, 0x3fffffffffffffffffffffffffffffffffffffnat, 0x454eb393fe6be209f41914a32cef90e7e5dcf55ccfb63928ea0ab3b3e861126cint, 15, 0x73225b08527b2f7cab756117cd27f127f83407169f353c3a0614fccaf1489e3eint);
    assert(pow16(0x73225b08527b2f7cab756117cd27f127f83407169f353c3a0614fccaf1489e3eint) * small_pow(0x3724c21c2, 15) % prime255() == 0x77e8be2420defa7998ad220b3a146fd69b8a9285efd78579ed41328f8546aedeint) by (nonlinear_arith);
    lemma_step(prime255(), 0x3724c21c2, 0x3ffffffffffffffffffffffffffffffffffffffnat, 0x73225b08527b2f7cab756117cd27f127f83407169f353c3a0614fccaf1489e3eint, 15, 0x77e8be2420defa7998ad220b3a146fd69b8a9285efd78579ed41328f8546aedeint);
    assert(pow16(0x77e8be2420defa7998ad220b3a146fd69b8a9285efd78579ed41328f8546aedeint) * small_pow(0x3724c21c2, 15) % prime255() == 0x526dc5b842937ad229e0027dcf55fa16dc429f1d85f437b96aa453290bbea807int) by (nonlinear_arith);
    lemma_step(prime255(), 0x3724c21c2, 0x3fffffffffffffffffffffffffffffffffffffffnat, 0x77e8be2420defa7998ad220b3a146fd69b8a9285efd78579ed41328f8546aedeint, 15, 0x526dc5b842937ad229e0027dcf55fa16dc429f1d85f437b96aa453290bbea807int);
    assert(pow16(0x526dc5b842937ad229e0027dcf55fa16dc429f1d85f437b96aa453290bbea807int) * small_pow(0x3724c21c2, 15) % prime255() == 0x22e522920d736dc96a17868666684a6392b65580a4c487b21d1999283e26ce54int) by (nonlinear_arith);
    lemma_step(prime255(), 0x3724c21c2, 0x3ffffffffffffffffffffffffffffffffffffffffnat, 0x526dc5b842937ad229e0027dcf55fa16dc429f1d85f437b96aa453290bbea807int, 15, 0x22e522920d736dc96a17868666684a6392b65580a4c487b21d1999283e26ce54int);
    assert(pow16(0x22e522920d736dc96a17868666684a6392b65580a4c487b21d1999283e26ce54int) * small_pow(0x3724c21c2, 15) % prime255() == 0x6c0fd16b275e1a503b6825347bce13498da0defffe2115e9079936ef2d9d4960int) by (nonlinear_arith);
    lemma_step(prime255(), 0x3724c21c2, 0x3fffffffffffffffffffffffffffffffffffffffffnat, 0x22e522920d736dc96a17868666684a6392b65580a4c487b21d1999283e26ce54int, 15, 0x6c0fd16b275e1a503b6825347bce13498da0defffe2115e9079936ef2d9d4960int);
    assert(pow16(0x6c0fd16b275e1a503b6825347bce13498da0defffe2115e9079936ef2d9d4960int) * small_pow(0x3724c21c2, 15) % prime255() == 0x7dd1ee88ffe0cd841dee4a3f00d7f1a2a34c25898e4edceb5684fa70efdef79dint) by (nonlinear_arith);
    lemma_step(prime255(), 0x3724c21c2, 0x3ffffffffffffffffffffffffffffffffffffffffffnat, 0x6c0fd16b275e1a503b6825347bce13498da0defffe2115e9079936ef2d9d4960int, 15, 0x7dd1ee88ffe0cd841dee4a3f00d7f1a2a34c25898e4edceb5684fa70efdef79dint);
    assert(pow16(0x7dd1ee88ffe0cd841dee4a3f00d7f1a2a34c25898e4edceb5684fa70efdef79dint) * small_pow(0x3724c21c2, 15) % prime255() == 0x53620e103bb6aa5e08cbb86b05f92fd110917559f3cb6b0a039d2e6baf26ec3aint) by (nonlinear_arith);
    lemma_step(prime255(), 0x3724c21c2, 0x3fffffffffffffffffffffffffffffffffffffffffffnat, 0x7dd1ee88ffe0cd841dee4a3f00d7f1a2a34c25898e4edceb5684fa70efdef79dint, 15, 0x53620e103bb6aa5e08cbb86b05f92fd110917559f3cb6b0a039d2e6baf26ec3aint);
    assert(pow16(0x53620e103bb6aa5e08cbb86b05f92fd110917559f3cb6b0a039d2e6baf26ec3aint) * small_pow(0x3724c21c2, 15) % prime255() == 0x19aa4f2eb71293a7f27e03423fd4ef0d96f33cb99bcde9b72b58caa9c9cb27cfint) by (nonlinear_arith);
    lemma_step(prime255(), 0x3724c21c2, 0x3ffffffffffffffffffffffffffffffffffffffffffffnat, 0x53620e103bb6aa5e08cbb86b05f92fd110917559f3cb6b0a039d2e6baf26ec3aint, 15, 0x19aa4f2eb71293a7f27e03423fd4ef0d96f33cb99bcde9b72b58caa9c9cb27cfint);
    assert(pow16(0x19aa4f2eb71293a7f27e03423fd4ef0d96f33cb99bcde9b72b58caa9c9cb27cfint) * small_pow(0x3724c21c2, 15) % prime255() == 0x778c83826738fe829e7b2c3bb367d7d4d8d0ed1af28140952511e9cdce793236int) by (nonlinear_arith);
    lemma_step(prime255(), 0x3724c21c2, 0x3fffffffffffffffffffffffffffffffffffffffffffffnat, 0x19aa4f2eb71293a7f27e03423fd4ef0d96f33cb99bcde9b72b58caa9c9cb27cfint, 15, 0x778c83826738fe829e7b2c3bb367d7d4d8d0ed1af28140952511e9cdce793236int);
    assert(pow16(0x778c83826738fe829e7b2c3bb367d7d4d8d0ed1af28140952511e9cdce793236int) * small_pow(0x3724c21c2, 15) % prime255() == 0x7596d476e6b5dc8e9222d42e13e1a54f47398e21d39ddb290af55fa44d1d0a5aint) by (nonlinear_arith);
    lemma_step(prime255(), 0x3724c21c2, 0x3ffffffffffffffffffffffffffffffffffffffffffffffnat, 0x778c83826738fe829e7b2c3bb367d7d4d8d0ed1af28140952511e9cdce793236int, 15, 0x7596d476e6b5dc8e9222d42e13e1a54f47398e21d39ddb290af55fa44d1d0a5aint);
    assert(pow16(0x7596d476e6b5dc8e9222d42e13e1a54f47398e21d39ddb290af55fa44d1d0a5aint) * small_pow(0x3724c21c2, 15) % prime255() == 0x469e336540f9f1c90ddde6559ae620d7f926392c71a779eb81dda60e901399dcint) by (nonlinear_arith);
    lemma_step(prime255(), 0x3724c21c2, 0x3fffffffffffffffffffffffffffffffffffffffffffffffnat, 0x7596d476e6b5dc8e9222d42e13e1a54f47398e21d39ddb290af55fa44d1d0a5aint, 15, 0x469e336540f9f1c90ddde6559ae620d7f926392c71a779eb81dda60e901399dcint);
    assert(pow16(0x469e336540f9f1c90ddde6559ae620d7f926392c71a779eb81dda60e901399dcint) * small_pow(0x3724c21c2, 15) % prime255() == 0x1482dff67f96e72272ad14e97ce39b35a59d9b2f522486a9e2f62d9855121606int) by (nonlinear_arith);
    lemma_step(prime255(), 0x3724c21c2, 0x3ffffffffffffffffffffffffffffffffffffffffffffffffnat, 0x469e336540f9f1c90ddde6559ae620d7f926392c71a779eb81dda60e901399dcint, 15, 0x1482dff67f96e72272ad14e97ce39b35a59d9b2f522486a9e2f62d9855121606int);
    assert(pow16(0x1482dff67f96e72272ad14e97ce39b35a59d9b2f522486a9e2f62d9855121606int) * small_pow(0x3724c21c2, 15) % prime255() == 0x7fb3f1a12a6abf6372ebb6e89e293793786377b6d67201e0f8f2b1d382942497int) by (nonlinear_arith);
    lemma_step(prime255(), 0x3724c21c2, 0x3fffffffffffffffffffffffffffffffffffffffffffffffffnat, 0x1482dff67f96e72272ad14e97ce39b35a59d9b2f522486a9e2f62d9855121606int, 15, 0x7fb3f1a12a6abf6372ebb6e89e293793786377b6d67201e0f8f2b1d382942497int);
    assert(pow16(0x7fb3f1a12a6abf6372ebb6e89e293793786377b6d67201e0f8f2b1d382942497int) * small_pow(0x3724c21c2, 15) % prime255() == 0x9f48b42923c3bd2dfa8fce6d5dfa24184ad9e3ae2b939cac279813c52a47f80int) by (nonlinear_arith);
    lemma_step(prime255(), 0x3724c21c2, 0x3ffffffffffffffffffffffffffffffffffffffffffffffffffnat, 0x7fb3f1a12a6abf6372ebb6e89e293793786377b6d67201e0f8f2b1d382942497int, 15, 0x9f48b42923c3bd2dfa8fce6d5dfa24184ad9e3ae2b939cac279813c52a47f80int);
    assert(pow16(0x9f48b42923c3bd2dfa8fce6d5dfa24184ad9e3ae2b939cac279813c52a47f80int) * small_pow(0x3724c21c2, 15) % prime255() == 0x4f6b0ef645d72ad359cb36484fe43177cf2dff5876c05066bcc2d3407c4fccfaint) by (nonlinear_arith);
    lemma_step(prime255(), 0x3724c21c2, 0x3fffffffffffffffffffffffffffffffffffffffffffffffffffnat, 0x9f48b42923c3bd2dfa8fce6d5dfa24184ad9e3ae2b939cac279813c52a47f80int, 15, 0x4f6b0ef645d72ad359cb36484fe43177cf2dff5876c05066bcc2d3407c4fccfaint);
    assert(pow16(0x4f6b0ef645d72ad359cb36484fe43177cf2dff5876c05066bcc2d3407c4fccfaint) * small_pow(0x3724c21c2, 15) % prime255() == 0x49691c5fa73ef91b7b289f06572000092fbb9454b4e5bbbb83e947277b94500aint) by (nonlinear_arith);
    lemma_step(prime255(), 0x3724c21c2, 0x3ffffffffffffffffffffffffffffffffffffffffffffffffffffnat, 0x4f6b0ef645d72ad359cb36484fe43177cf2dff5876c05066bcc2d3407c4fccfaint, 15, 0x49691c5fa73ef91b7b289f06572000092fbb9454b4e5bbbb83e947277b94500aint);
    assert(pow16(0x49691c5fa73ef91b7b289f06572000092fbb9454b4e5bbbb83e947277b94500aint) * small_pow(0x3724c21c2, 15) % prime255() == 0x2caef9efee4b5d8191f5f616c3128b5f832fd735cbea28779f914ac1987e4ddint) by (nonlinear_arith);
    lemma_step(prime255(), 0x3724c21c2, 0x3fffffffffffffffffffffffffffffffffffffffffffffffffffffnat, 0x49691c5fa73ef91b7b289f06572000092fbb9454b4e5bbbb83e947277b94500aint, 15, 0x2caef9efee4b5d8191f5f616c3128b5f832fd735cbea28779f914ac1987e4ddint);
    assert(pow16(0x2caef9efee4b5d8191f5f616c3128b5f832fd735cbea28779f914ac1987e4ddint) * small_pow(0x3724c21c2, 15) % prime255() == 0x40d909e1f0dc6b29fa0f43c6c2a1f47d06761119f6c43be1ccac924d1691e6eint) by (nonlinear_arith);
    lemma_step(prime255(), 0x3724c21c2, 0x3ffffffffffffffffffffffffffffffffffffffffffffffffffffffnat, 0x2caef9efee4b5d8191f5f616c3128b5f832fd735cbea28779f914ac1987e4ddint, 15, 0x40d909e1f0dc6b29fa0f43c6c2a1f47d06761119f6c43be1ccac924d1691e6eint);
    assert(pow16(0x40d909e1f0dc6b29fa0f43c6c2a1f47d06761119f6c43be1ccac924d1691e6eint) * small_pow(0x3724c21c2, 15) % prime255() == 0x41492e1199b4144dc7d4afcfe2cf0663ce5a404dbcb09a2abcd6c928fffb0efeint) by (nonlinear_arith);
    lemma_step(prime255(), 0x3724c21c2, 0x3fffffffffffffffffffffffffffffffffffffffffffffffffffffffnat, 0x40d909e1f0dc6b29fa0f43c6c2a1f47d06761119f6c43be1ccac924d1691e6eint, 15, 0x41492e1199b4144dc7d4afcfe2cf0663ce5a404dbcb09a2abcd6c928fffb0efeint);
    assert(pow16(0x41492e1199b4144dc7d4afcfe2cf0663ce5a404dbcb09a2abcd6c928fffb0efeint) * small_pow(0x3724c21c2, 15) % prime255() == 0x19e448e17b8c3801edc6c319f9f0f53e4784748bf481738cfcf1ede6c4c7429int) by (nonlinear_arith);
    lemma_step(prime255(), 0x3724c21c2, 0x3ffffffffffffffffffffffffffffffffffffffffffffffffffffffffnat, 0x41492e1199b4144dc7d4afcfe2cf0663ce5a404dbcb09a2abcd6c928fffb0efeint, 15, 0x19e448e17b8c3801edc6c319f9f0f53e4784748bf481738cfcf1ede6c4c7429int);
    assert(pow16(0x19e448e17b8c3801edc6c319f9f0f53e4784748bf481738cfcf1ede6c4c7429int) * small_pow(0x3724c21c2, 15) % prime255() == 0x17a82335c68374a0763b2abc0d1fb09020a3cff5d8ab5bd396c91368bb1764b8int) by (nonlinear_arith);
    lemma_step(prime255(), 0x3724c21c2, 0x3fffffffffffffffffffffffffffffffffffffffffffffffffffffffffnat, 0x19e448e17b8c3801edc6c319f9f0f53e4784748bf481738cfcf1ede6c4c7429int, 15, 0x17a82335c68374a0763b2abc0d1fb09020a3cff5d8ab5bd396c91368bb1764b8int);
    assert(pow16(0x17a82335c68374a0763b2abc0d1fb09020a3cff5d8ab5bd396c91368bb1764b8int) * small_pow(0x3724c21c2, 15) % prime255() == 0x7808c56b6148cf315476064f1b441a2cbbf07e0b448302f52d2184a912f0c888int) by (nonlinear_arith);
    lemma_step(prime255(), 0x3724c21c2, 0x3ffffffffffffffffffffffffffffffffffffffffffffffffffffffffffnat, 0x17a82335c68374a0763b2abc0d1fb09020a3cff5d8ab5bd396c91368bb1764b8int, 15, 0x7808c56b6148cf315476064f1b441a2cbbf07e0b448302f52d2184a912f0c888int);
    assert(pow16(0x7808c56b6148cf315476064f1b441a2cbbf07e0b448302f52d2184a912f0c888int) * small_pow(0x3724c21c2, 15) % prime255() == 0x67ae6c6b863c1a8a6c73c293e3544427f2509843ce1a1b9fbe1463fd83d20ef5int) by (nonlinear_arith);
    lemma_step(prime255(), 0x3724c21c2, 0x3fffffffffffffffffffffffffffffffffffffffffffffffffffffffffffnat, 0x7808c56b6148cf315476064f1b441a2cbbf07e0b448302f52d2184a912f0c888int, 15, 0x67ae6c6b863c1a8a6c73c293e3544427f2509843ce1a1b9fbe1463fd83d20ef5int);
    assert(pow16(0x67ae6c6b863c1a8a6c73c293e3544427f2509843ce1a1b9fbe1463fd83d20ef5int) * small_pow(0x3724c21c2, 15) % prime255() == 0xe95c47999f4fef25abf097eb3547cfde2760d70e9b2f71941831331b4c0ee3aint) by (nonlinear_arith);
    lemma_step(prime255(), 0x3724c21c2, 0x3ffffffffffffffffffffffffffffffffffffffffffffffffffffffffffffnat, 0x67ae6c6b863c1a8a6c73c293e3544427f2509843ce1a1b9fbe1463fd83d20ef5int, 15, 0xe95c47999f4fef25abf097eb3547cfde2760d70e9b2f71941831331b4c0ee3aint);
    assert(pow16(0xe95c47999f4fef25abf097eb3547cfde2760d70e9b2f71941831331b4c0ee3aint) * small_pow(0x3724c21c2, 15) % prime255() == 0x1ac8b960fcd2b3c430f30a6a421642dda150915a811b842979d94c85a4fe83f2int) by (nonlinear_arith);
    lemma_step(prime255(), 0x3724c21c2, 0x3fffffffffffffffffffffffffffffffffffffffffffffffffffffffffffffnat, 0xe95c47999f4fef25abf097eb3547cfde2760d70e9b2f71941831331b4c0ee3aint, 15, 0x1ac8b960fcd2b3c430f30a6a421642dda150915a811b842979d94c85a4fe83f2int);
    assert(pow16(0x1ac8b960fcd2b3c430f30a6a421642dda150915a811b842979d94c85a4fe83f2int) * small_pow(0x3724c21c2, 6) % prime255() == 0x7fffffffffffffffffffffffffffffffffffffffffffffffffffffffffffffecint) by (nonlinear_arith);
    lemma_step(prime255(), 0x3724c21c2, 0x3ffffffffffffffffffffffffffffffffffffffffffffffffffffffffffffffnat, 0x1ac8b960fcd2b3c430f30a6a421642dda150915a811b842979d94c85a4fe83f2int, 6, 0x7fffffffffffffffffffffffffffffffffffffffffffffffffffffffffffffecint);
    lemma_eqm_intro(prime255(), 0x7fffffffffffffffffffffffffffffffffffffffffffffffffffffffffffffecint, -1, 1);
    lemma_eqm_trans(prime255(), pow(0x3724c21c2, 0x3ffffffffffffffffffffffffffffffffffffffffffffffffffffffffffffff6nat), 0x7fffffffffffffffffffffffffffffffffffffffffffffffffffffffffffffecint, -1);
}

/// 2^255 - 19 is prime.
pub proof fn lemma_prime_255()
    ensures
        is_prime(prime255()),
{
    lemma_euler_255();
    lemma_square_of_power(prime255(), 0x3724c21c2, 0x3ffffffffffffffffffffffffffffffffffffffffffffffffffffffffffffff6nat, -1);
    lemma_power_255();
    assert(0x6b1d8873cedeb764bdb8cc83da4fda645821199186684986fd718fa8bcdac87int * (0x2e3a5e89ce58ce79f905dbed3774c7a48c8aeb879a6684e36cea97150858d182int - 1) % prime255() == 1) by (nonlinear_arith);
    lemma_unit_witness(prime255(), 0x6b1d8873cedeb764bdb8cc83da4fda645821199186684986fd718fa8bcdac87int, 0x2e3a5e89ce58ce79f905dbed3774c7a48c8aeb879a6684e36cea97150858d182int, pow(0x3724c21c2, 781764));
    lemma_prime_236();
    assert forall|r: int| is_prime(r) && #[trigger] divides(r, prime255()) implies r > prime236() by {
        lemma_pocklington(prime255(), prime236(), 781764, 0x3724c21c2, 0x6b1d8873cedeb764bdb8cc83da4fda645821199186684986fd718fa8bcdac87int, r);
        lemma_above(prime236(), r);
    }
    assert(prime236() * prime236() > prime255()) by (nonlinear_arith);
    lemma_prime_by_bound(prime255(), prime236());
}

} // verus!
