//! A certificate that the order of the base point is prime, as chains of modular
//! powers.
use crate::math::certificate::{
    lemma_above, lemma_pow_zero, lemma_small_prime, lemma_step, lemma_two_divisors,
    lemma_unit_witness, pow16, small_pow,
};
use crate::math::congruence::eqm;
use crate::math::primes::{divides, is_prime, lemma_pocklington, lemma_prime_by_bound};
use vstd::arithmetic::power::pow;
use vstd::prelude::*;

verus! {

#[verifier::inline]
spec fn prime2551() -> int {
    0x9f7int
}

#[verifier::inline]
spec fn prime21() -> int {
    0x12af21int
}

#[verifier::inline]
spec fn prime3797() -> int {
    0xed5int
}

#[verifier::inline]
spec fn prime20() -> int {
    0x81c7dint
}

#[verifier::inline]
spec fn prime51() -> int {
    0x477be711eceddint
}

#[verifier::inline]
spec fn prime62() -> int {
    0x3d89490a0e5537efint
}

#[verifier::inline]
spec fn prime88() -> int {
    0x8e51fa3a480f89f9de5163int
}

#[verifier::inline]
spec fn prime134() -> int {
    0x3a0fc367dcf0ff0a5a1db0b1b7c3093f33int
}

#[verifier::inline]
spec fn prime138() -> int {
    0x32cdcafae152df290ed9fa9b80caa8174cbint
}

#[verifier::inline]
pub open spec fn prime253() -> int {
    0x1000000000000000000000000000000014def9dea2f79cd65812631a5cf5d3edint
}

proof fn lemma_unit_2551()
    ensures
        eqm(prime2551(), pow(2, 2550), 1),
{
    lemma_pow_zero(prime2551(), 2);
    assert(pow16(1) * small_pow(2, 9) % prime2551() == 512) by (nonlinear_arith);
    lemma_step(prime2551(), 2, 0, 1, 9, 512);
    assert(pow16(512) * small_pow(2, 15) % prime2551() == 699) by (nonlinear_arith);
    lemma_step(prime2551(), 2, 9, 512, 15, 699);
    assert(pow16(699) * small_pow(2, 6) % prime2551() == 1) by (nonlinear_arith);
    lemma_step(prime2551(), 2, 159, 699, 6, 1);
}

proof fn lemma_power_2551_0()
    ensures
        eqm(prime2551(), pow(2, 150), 2089),
{
    lemma_pow_zero(prime2551(), 2);
    assert(pow16(1) * small_pow(2, 9) % prime2551() == 512) by (nonlinear_arith);
    lemma_step(prime2551(), 2, 0, 1, 9, 512);
    assert(pow16(512) * small_pow(2, 6) % prime2551() == 2089) by (nonlinear_arith);
    lemma_step(prime2551(), 2, 9, 512, 6, 2089);
}

proof fn lemma_power_2551_1()
    ensures
        eqm(prime2551(), pow(2, 510), 1501),
{
    lemma_pow_zero(prime2551(), 2);
    assert(pow16(1) * small_pow(2, 1) % prime2551() == 2) by (nonlinear_arith);
    lemma_step(prime2551(), 2, 0, 1, 1, 2);
    assert(pow16(2) * small_pow(2, 15) % prime2551() == 828) by (nonlinear_arith);
    lemma_step(prime2551(), 2, 1, 2, 15, 828);
    assert(pow16(828) * small_pow(2, 14) % prime2551() == 1501) by (nonlinear_arith);
    lemma_step(prime2551(), 2, 31, 828, 14, 1501);
}

/// 2551 is prime.
proof fn lemma_prime_2551()
    ensures
        is_prime(prime2551()),
{
    lemma_unit_2551();
    lemma_power_2551_0();
    assert(1135 * (2089 - 1) % prime2551() == 1) by (nonlinear_arith);
    lemma_unit_witness(prime2551(), 1135, 2089, pow(2, 150));
    lemma_small_prime(17);
    lemma_power_2551_1();
    assert(1784 * (1501 - 1) % prime2551() == 1) by (nonlinear_arith);
    lemma_unit_witness(prime2551(), 1784, 1501, pow(2, 510));
    lemma_small_prime(5);
    assert forall|r: int| is_prime(r) && #[trigger] divides(r, prime2551()) implies r > 85 by {
        lemma_pocklington(prime2551(), 17, 150, 2, 1135, r);
        lemma_pocklington(prime2551(), 5, 510, 2, 1784, r);
        lemma_two_divisors(17, 5, r - 1);
        lemma_above(85, r);
    }
    assert(85 * 85 > prime2551()) by (nonlinear_arith);
    lemma_prime_by_bound(prime2551(), 85);
}

proof fn lemma_unit_21()
    ensures
        eqm(prime21(), pow(2, 0x12af20), 1),
{
    lemma_pow_zero(prime21(), 2);
    assert(pow16(1) * small_pow(2, 1) % prime21() == 2) by (nonlinear_arith);
    lemma_step(prime21(), 2, 0, 1, 1, 2);
    assert(pow16(2) * small_pow(2, 2) % prime21() == 262144) by (nonlinear_arith);
    lemma_step(prime21(), 2, 1, 2, 2, 262144);
    assert(pow16(262144) * small_pow(2, 10) % prime21() == 499249) by (nonlinear_arith);
    lemma_step(prime21(), 2, 18, 262144, 10, 499249);
    assert(pow16(499249) * small_pow(2, 15) % prime21() == 731565) by (nonlinear_arith);
    lemma_step(prime21(), 2, 298, 499249, 15, 731565);
    assert(pow16(731565) * small_pow(2, 2) % prime21() == 0x10973e) by (nonlinear_arith);
    lemma_step(prime21(), 2, 4783, 731565, 2, 0x10973e);
    assert(pow16(0x10973e) * small_pow(2, 0) % prime21() == 1) by (nonlinear_arith);
    lemma_step(prime21(), 2, 76530, 0x10973e, 0, 1);
}

proof fn lemma_power_21_0()
    ensures
        eqm(prime21(), pow(2, 480), 921659),
{
    lemma_pow_zero(prime21(), 2);
    assert(pow16(1) * small_pow(2, 1) % prime21() == 2) by (nonlinear_arith);
    lemma_step(prime21(), 2, 0, 1, 1, 2);
    assert(pow16(2) * small_pow(2, 14) % prime21() == 0x10bb14) by (nonlinear_arith);
    lemma_step(prime21(), 2, 1, 2, 14, 0x10bb14);
    assert(pow16(0x10bb14) * small_pow(2, 0) % prime21() == 921659) by (nonlinear_arith);
    lemma_step(prime21(), 2, 30, 0x10bb14, 0, 921659);
}

/// 1224481 is prime.
proof fn lemma_prime_21()
    ensures
        is_prime(prime21()),
{
    lemma_unit_21();
    lemma_power_21_0();
    assert(0x10cb57 * (921659 - 1) % prime21() == 1) by (nonlinear_arith);
    lemma_unit_witness(prime21(), 0x10cb57, 921659, pow(2, 480));
    lemma_prime_2551();
    assert forall|r: int| is_prime(r) && #[trigger] divides(r, prime21()) implies r > prime2551() by {
        lemma_pocklington(prime21(), prime2551(), 480, 2, 0x10cb57, r);
        lemma_above(prime2551(), r);
    }
    assert(prime2551() * prime2551() > prime21()) by (nonlinear_arith);
    lemma_prime_by_bound(prime21(), prime2551());
}

proof fn lemma_unit_3797()
    ensures
        eqm(prime3797(), pow(2, 3796), 1),
{
    lemma_pow_zero(prime3797(), 2);
    assert(pow16(1) * small_pow(2, 14) % prime3797() == 1196) by (nonlinear_arith);
    lemma_step(prime3797(), 2, 0, 1, 14, 1196);
    assert(pow16(1196) * small_pow(2, 13) % prime3797() == 1410) by (nonlinear_arith);
    lemma_step(prime3797(), 2, 14, 1196, 13, 1410);
    assert(pow16(1410) * small_pow(2, 4) % prime3797() == 1) by (nonlinear_arith);
    lemma_step(prime3797(), 2, 237, 1410, 4, 1);
}

proof fn lemma_power_3797_0()
    ensures
        eqm(prime3797(), pow(2, 52), 3565),
{
    lemma_pow_zero(prime3797(), 2);
    assert(pow16(1) * small_pow(2, 3) % prime3797() == 8) by (nonlinear_arith);
    lemma_step(prime3797(), 2, 0, 1, 3, 8);
    assert(pow16(8) * small_pow(2, 4) % prime3797() == 3565) by (nonlinear_arith);
    lemma_step(prime3797(), 2, 3, 8, 4, 3565);
}

/// 3797 is prime.
proof fn lemma_prime_3797()
    ensures
        is_prime(prime3797()),
{
    lemma_unit_3797();
    lemma_power_3797_0();
    assert(3357 * (3565 - 1) % prime3797() == 1) by (nonlinear_arith);
    lemma_unit_witness(prime3797(), 3357, 3565, pow(2, 52));
    lemma_small_prime(73);
    assert forall|r: int| is_prime(r) && #[trigger] divides(r, prime3797()) implies r > 73 by {
        lemma_pocklington(prime3797(), 73, 52, 2, 3357, r);
        lemma_above(73, r);
    }
    assert(73 * 73 > prime3797()) by (nonlinear_arith);
    lemma_prime_by_bound(prime3797(), 73);
}

proof fn lemma_unit_20()
    ensures
        eqm(prime20(), pow(2, 531580), 1),
{
    lemma_pow_zero(prime20(), 2);
    assert(pow16(1) * small_pow(2, 8) % prime20() == 256) by (nonlinear_arith);
    lemma_step(prime20(), 2, 0, 1, 8, 256);
    assert(pow16(256) * small_pow(2, 1) % prime20() == 37133) by (nonlinear_arith);
    lemma_step(prime20(), 2, 8, 256, 1, 37133);
    assert(pow16(37133) * small_pow(2, 12) % prime20() == 380818) by (nonlinear_arith);
    lemma_step(prime20(), 2, 129, 37133, 12, 380818);
    assert(pow16(380818) * small_pow(2, 7) % prime20() == 360778) by (nonlinear_arith);
    lemma_step(prime20(), 2, 2076, 380818, 7, 360778);
    assert(pow16(360778) * small_pow(2, 12) % prime20() == 1) by (nonlinear_arith);
    lemma_step(prime20(), 2, 33223, 360778, 12, 1);
}

proof fn lemma_power_20_0()
    ensures
        eqm(prime20(), pow(2, 140), 32301),
{
    lemma_pow_zero(prime20(), 2);
    assert(pow16(1) * small_pow(2, 8) % prime20() == 256) by (nonlinear_arith);
    lemma_step(prime20(), 2, 0, 1, 8, 256);
    assert(pow16(256) * small_pow(2, 12) % prime20() == 32301) by (nonlinear_arith);
    lemma_step(prime20(), 2, 8, 256, 12, 32301);
}

/// 531581 is prime.
proof fn lemma_prime_20()
    ensures
        is_prime(prime20()),
{
    lemma_unit_20();
    lemma_power_20_0();
    assert(50673 * (32301 - 1) % prime20() == 1) by (nonlinear_arith);
    lemma_unit_witness(prime20(), 50673, 32301, pow(2, 140));
    lemma_prime_3797();
    assert forall|r: int| is_prime(r) && #[trigger] divides(r, prime20()) implies r > prime3797() by {
        lemma_pocklington(prime20(), prime3797(), 140, 2, 50673, r);
        lemma_above(prime3797(), r);
    }
    assert(prime3797() * prime3797() > prime20()) by (nonlinear_arith);
    lemma_prime_by_bound(prime20(), prime3797());
}

proof fn lemma_unit_51()
    ensures
        eqm(prime51(), pow(2, 0x477be711ecedc), 1),
{
    lemma_pow_zero(prime51(), 2);
    assert(pow16(1) * small_pow(2, 4) % prime51() == 16) by (nonlinear_arith);
    lemma_step(prime51(), 2, 0, 1, 4, 16);
    assert(pow16(16) * small_pow(2, 7) % prime51() == 0x1718ef43864e5) by (nonlinear_arith);
    lemma_step(prime51(), 2, 4, 16, 7, 0x1718ef43864e5);
    assert(pow16(0x1718ef43864e5) * small_pow(2, 7) % prime51() == 0x18cf36b72dab1) by (nonlinear_arith);
    lemma_step(prime51(), 2, 71, 0x1718ef43864e5, 7, 0x18cf36b72dab1);
    assert(pow16(0x18cf36b72dab1) * small_pow(2, 11) % prime51() == 0x3969f30980d98) by (nonlinear_arith);
    lemma_step(prime51(), 2, 1143, 0x18cf36b72dab1, 11, 0x3969f30980d98);
    assert(pow16(0x3969f30980d98) * small_pow(2, 14) % prime51() == 0x3d00975512c60) by (nonlinear_arith);
    lemma_step(prime51(), 2, 18299, 0x3969f30980d98, 14, 0x3d00975512c60);
    assert(pow16(0x3d00975512c60) * small_pow(2, 7) % prime51() == 0x6ecf51297a11) by (nonlinear_arith);
    lemma_step(prime51(), 2, 292798, 0x3d00975512c60, 7, 0x6ecf51297a11);
    assert(pow16(0x6ecf51297a11) * small_pow(2, 1) % prime51() == 0x2725cb9153800) by (nonlinear_arith);
    lemma_step(prime51(), 2, 0x477be7, 0x6ecf51297a11, 1, 0x2725cb9153800);
    assert(pow16(0x2725cb9153800) * small_pow(2, 1) % prime51() == 0x380316d5dff2a) by (nonlinear_arith);
    lemma_step(prime51(), 2, 0x477be71, 0x2725cb9153800, 1, 0x380316d5dff2a);
    assert(pow16(0x380316d5dff2a) * small_pow(2, 14) % prime51() == 0x2410e848d22bb) by (nonlinear_arith);
    lemma_step(prime51(), 2, 0x477be711, 0x380316d5dff2a, 14, 0x2410e848d22bb);
    assert(pow16(0x2410e848d22bb) * small_pow(2, 12) % prime51() == 0xde8e26bb8699) by (nonlinear_arith);
    lemma_step(prime51(), 2, 0x477be711e, 0x2410e848d22bb, 12, 0xde8e26bb8699);
    assert(pow16(0xde8e26bb8699) * small_pow(2, 14) % prime51() == 0x3a4ecd85eb4ba) by (nonlinear_arith);
    lemma_step(prime51(), 2, 0x477be711ec, 0xde8e26bb8699, 14, 0x3a4ecd85eb4ba);
    assert(pow16(0x3a4ecd85eb4ba) * small_pow(2, 13) % prime51() == 0x2354f98fad680) by (nonlinear_arith);
    lemma_step(prime51(), 2, 0x477be711ece, 0x3a4ecd85eb4ba, 13, 0x2354f98fad680);
    assert(pow16(0x2354f98fad680) * small_pow(2, 12) % prime51() == 1) by (nonlinear_arith);
    lemma_step(prime51(), 2, 0x477be711eced, 0x2354f98fad680, 12, 1);
}

proof fn lemma_power_51_0()
    ensures
        eqm(prime51(), pow(2, 0x3d36ff5c), 0x4735c3113b127),
{
    lemma_pow_zero(prime51(), 2);
    assert(pow16(1) * small_pow(2, 3) % prime51() == 8) by (nonlinear_arith);
    lemma_step(prime51(), 2, 0, 1, 3, 8);
    assert(pow16(8) * small_pow(2, 13) % prime51() == 0x29d680a68d39b) by (nonlinear_arith);
    lemma_step(prime51(), 2, 3, 8, 13, 0x29d680a68d39b);
    assert(pow16(0x29d680a68d39b) * small_pow(2, 3) % prime51() == 0x103b9ea5fcc54) by (nonlinear_arith);
    lemma_step(prime51(), 2, 61, 0x29d680a68d39b, 3, 0x103b9ea5fcc54);
    assert(pow16(0x103b9ea5fcc54) * small_pow(2, 6) % prime51() == 0x45d8d6be18e38) by (nonlinear_arith);
    lemma_step(prime51(), 2, 979, 0x103b9ea5fcc54, 6, 0x45d8d6be18e38);
    assert(pow16(0x45d8d6be18e38) * small_pow(2, 15) % prime51() == 0x1913e8a53d497) by (nonlinear_arith);
    lemma_step(prime51(), 2, 15670, 0x45d8d6be18e38, 15, 0x1913e8a53d497);
    assert(pow16(0x1913e8a53d497) * small_pow(2, 15) % prime51() == 0x17068e29c52ba) by (nonlinear_arith);
    lemma_step(prime51(), 2, 250735, 0x1913e8a53d497, 15, 0x17068e29c52ba);
    assert(pow16(0x17068e29c52ba) * small_pow(2, 5) % prime51() == 0x295902bc23212) by (nonlinear_arith);
    lemma_step(prime51(), 2, 0x3d36ff, 0x17068e29c52ba, 5, 0x295902bc23212);
    assert(pow16(0x295902bc23212) * small_pow(2, 12) % prime51() == 0x4735c3113b127) by (nonlinear_arith);
    lemma_step(prime51(), 2, 0x3d36ff5, 0x295902bc23212, 12, 0x4735c3113b127);
}

proof fn lemma_power_51_1()
    ensures
        eqm(prime51(), pow(2, 0x8d01ad0c), 0x40cae279246b8),
{
    lemma_pow_zero(prime51(), 2);
    assert(pow16(1) * small_pow(2, 8) % prime51() == 256) by (nonlinear_arith);
    lemma_step(prime51(), 2, 0, 1, 8, 256);
    assert(pow16(256) * small_pow(2, 13) % prime51() == 0x3aca8aed55030) by (nonlinear_arith);
    lemma_step(prime51(), 2, 8, 256, 13, 0x3aca8aed55030);
    assert(pow16(0x3aca8aed55030) * small_pow(2, 0) % prime51() == 0xadc2314fb0f3) by (nonlinear_arith);
    lemma_step(prime51(), 2, 141, 0x3aca8aed55030, 0, 0xadc2314fb0f3);
    assert(pow16(0xadc2314fb0f3) * small_pow(2, 1) % prime51() == 0x46bd454ab8039) by (nonlinear_arith);
    lemma_step(prime51(), 2, 2256, 0xadc2314fb0f3, 1, 0x46bd454ab8039);
    assert(pow16(0x46bd454ab8039) * small_pow(2, 10) % prime51() == 0x3eda78c8359df) by (nonlinear_arith);
    lemma_step(prime51(), 2, 36097, 0x46bd454ab8039, 10, 0x3eda78c8359df);
    assert(pow16(0x3eda78c8359df) * small_pow(2, 13) % prime51() == 0x1677e88ae291) by (nonlinear_arith);
    lemma_step(prime51(), 2, 577562, 0x3eda78c8359df, 13, 0x1677e88ae291);
    assert(pow16(0x1677e88ae291) * small_pow(2, 0) % prime51() == 0x3fc0ab43ee711) by (nonlinear_arith);
    lemma_step(prime51(), 2, 0x8d01ad, 0x1677e88ae291, 0, 0x3fc0ab43ee711);
    assert(pow16(0x3fc0ab43ee711) * small_pow(2, 12) % prime51() == 0x40cae279246b8) by (nonlinear_arith);
    lemma_step(prime51(), 2, 0x8d01ad0, 0x3fc0ab43ee711, 12, 0x40cae279246b8);
}

/// 1257559732178653 is prime.
proof fn lemma_prime_51()
    ensures
        is_prime(prime51()),
{
    lemma_unit_51();
    lemma_power_51_0();
    assert(0x2cf51ccba75d1 * (0x4735c3113b127 - 1) % prime51() == 1) by (nonlinear_arith);
    lemma_unit_witness(prime51(), 0x2cf51ccba75d1, 0x4735c3113b127, pow(2, 0x3d36ff5c));
    lemma_prime_21();
    lemma_power_51_1();
    assert(0xc1a8109e02f6 * (0x40cae279246b8 - 1) % prime51() == 1) by (nonlinear_arith);
    lemma_unit_witness(prime51(), 0xc1a8109e02f6, 0x40cae279246b8, pow(2, 0x8d01ad0c));
    lemma_prime_20();
    assert forall|r: int| is_prime(r) && #[trigger] divides(r, prime51()) implies r > 0x978d4f1f1d by {
        lemma_pocklington(prime51(), prime21(), 0x3d36ff5c, 2, 0x2cf51ccba75d1, r);
        lemma_pocklington(prime51(), prime20(), 0x8d01ad0c, 2, 0xc1a8109e02f6, r);
        lemma_two_divisors(prime21(), prime20(), r - 1);
        lemma_above(0x978d4f1f1d, r);
    }
    assert(0x978d4f1f1d * 0x978d4f1f1d > prime51()) by (nonlinear_arith);
    lemma_prime_by_bound(prime51(), 0x978d4f1f1d);
}

proof fn lemma_unit_62()
    ensures
        eqm(prime62(), pow(2, 0x3d89490a0e5537eenat), 1),
{
    lemma_pow_zero(prime62(), 2);
    assert(pow16(1) * small_pow(2, 3) % prime62() == 8) by (nonlinear_arith);
    lemma_step(prime62(), 2, 0, 1, 3, 8);
    assert(pow16(8) * small_pow(2, 13) % prime62() == 0x2000000000000000int) by (nonlinear_arith);
    lemma_step(prime62(), 2, 3, 8, 13, 0x2000000000000000int);
    assert(pow16(0x2000000000000000int) * small_pow(2, 8) % prime62() == 0x2a560162e14b2ea6int) by (nonlinear_arith);
    lemma_step(prime62(), 2, 61, 0x2000000000000000int, 8, 0x2a560162e14b2ea6int);
    assert(pow16(0x2a560162e14b2ea6int) * small_pow(2, 9) % prime62() == 0x3c107482afe82a32int) by (nonlinear_arith);
    lemma_step(prime62(), 2, 984, 0x2a560162e14b2ea6int, 9, 0x3c107482afe82a32int);
    assert(pow16(0x3c107482afe82a32int) * small_pow(2, 4) % prime62() == 0x1ca844d6295bd3a4int) by (nonlinear_arith);
    lemma_step(prime62(), 2, 15753, 0x3c107482afe82a32int, 4, 0x1ca844d6295bd3a4int);
    assert(pow16(0x1ca844d6295bd3a4int) * small_pow(2, 9) % prime62() == 0x3033baa2a7bdac57int) by (nonlinear_arith);
    lemma_step(prime62(), 2, 252052, 0x1ca844d6295bd3a4int, 9, 0x3033baa2a7bdac57int);
    assert(pow16(0x3033baa2a7bdac57int) * small_pow(2, 0) % prime62() == 0x25165ecbabd12b39int) by (nonlinear_arith);
    lemma_step(prime62(), 2, 0x3d8949, 0x3033baa2a7bdac57int, 0, 0x25165ecbabd12b39int);
    assert(pow16(0x25165ecbabd12b39int) * small_pow(2, 10) % prime62() == 0x38d24a2dab44796eint) by (nonlinear_arith);
    lemma_step(prime62(), 2, 0x3d89490, 0x25165ecbabd12b39int, 10, 0x38d24a2dab44796eint);
    assert(pow16(0x38d24a2dab44796eint) * small_pow(2, 0) % prime62() == 0x1e47a834ca20a2ddint) by (nonlinear_arith);
    lemma_step(prime62(), 2, 0x3d89490a, 0x38d24a2dab44796eint, 0, 0x1e47a834ca20a2ddint);
    assert(pow16(0x1e47a834ca20a2ddint) * small_pow(2, 14) % prime62() == 0x2079294ecbf1cb62int) by (nonlinear_arith);
    lemma_step(prime62(), 2, 0x3d89490a0, 0x1e47a834ca20a2ddint, 14, 0x2079294ecbf1cb62int);
    assert(pow16(0x2079294ecbf1cb62int) * small_pow(2, 5) % prime62() == 0x3c07f87d054b8f16int) by (nonlinear_arith);
    lemma_step(prime62(), 2, 0x3d89490a0e, 0x2079294ecbf1cb62int, 5, 0x3c07f87d054b8f16int);
    assert(pow16(0x3c07f87d054b8f16int) * small_pow(2, 5) % prime62() == 0xc04bfc1af410e78) by (nonlinear_arith);
    lemma_step(prime62(), 2, 0x3d89490a0e5, 0x3c07f87d054b8f16int, 5, 0xc04bfc1af410e78);
    assert(pow16(0xc04bfc1af410e78) * small_pow(2, 3) % prime62() == 0x2fdc5d19fa52b259int) by (nonlinear_arith);
    lemma_step(prime62(), 2, 0x3d89490a0e55, 0xc04bfc1af410e78, 3, 0x2fdc5d19fa52b259int);
    assert(pow16(0x2fdc5d19fa52b259int) * small_pow(2, 7) % prime62() == 0x2ba22db3dc836763int) by (nonlinear_arith);
    lemma_step(prime62(), 2, 0x3d89490a0e553, 0x2fdc5d19fa52b259int, 7, 0x2ba22db3dc836763int);
    assert(pow16(0x2ba22db3dc836763int) * small_pow(2, 14) % prime62() == 0x3450710bff154228int) by (nonlinear_arith);
    lemma_step(prime62(), 2, 0x3d89490a0e5537, 0x2ba22db3dc836763int, 14, 0x3450710bff154228int);
    assert(pow16(0x3450710bff154228int) * small_pow(2, 14) % prime62() == 1) by (nonlinear_arith);
    lemma_step(prime62(), 2, 0x3d89490a0e5537e, 0x3450710bff154228int, 14, 1);
}

proof fn lemma_power_62_0()
    ensures
        eqm(prime62(), pow(2, 3526), 0x5c52cd00a1f4ba7),
{
    lemma_pow_zero(prime62(), 2);
    assert(pow16(1) * small_pow(2, 13) % prime62() == 8192) by (nonlinear_arith);
    lemma_step(prime62(), 2, 0, 1, 13, 8192);
    assert(pow16(8192) * small_pow(2, 12) % prime62() == 0x13b13e905a0913e5int) by (nonlinear_arith);
    lemma_step(prime62(), 2, 13, 8192, 12, 0x13b13e905a0913e5int);
    assert(pow16(0x13b13e905a0913e5int) * small_pow(2, 6) % prime62() == 0x5c52cd00a1f4ba7) by (nonlinear_arith);
    lemma_step(prime62(), 2, 220, 0x13b13e905a0913e5int, 6, 0x5c52cd00a1f4ba7);
}

/// 4434155615661930479 is prime.
proof fn lemma_prime_62()
    ensures
        is_prime(prime62()),
{
    lemma_unit_62();
    lemma_power_62_0();
    assert(0xe0605543c5b9ae3 * (0x5c52cd00a1f4ba7 - 1) % prime62() == 1) by (nonlinear_arith);
    lemma_unit_witness(prime62(), 0xe0605543c5b9ae3, 0x5c52cd00a1f4ba7, pow(2, 3526));
    lemma_prime_51();
    assert forall|r: int| is_prime(r) && #[trigger] divides(r, prime62()) implies r > prime51() by {
        lemma_pocklington(prime62(), prime51(), 3526, 2, 0xe0605543c5b9ae3, r);
        lemma_above(prime51(), r);
    }
    assert(prime51() * prime51() > prime62()) by (nonlinear_arith);
    lemma_prime_by_bound(prime62(), prime51());
}

proof fn lemma_unit_88()
    ensures
        eqm(prime88(), pow(2, 0x8e51fa3a480f89f9de5162nat), 1),
{
    lemma_pow_zero(prime88(), 2);
    assert(pow16(1) * small_pow(2, 8) % prime88() == 256) by (nonlinear_arith);
    lemma_step(prime88(), 2, 0, 1, 8, 256);
    assert(pow16(256) * small_pow(2, 14) % prime88() == 0xdc182ff92aa43153d0515int) by (nonlinear_arith);
    lemma_step(prime88(), 2, 8, 256, 14, 0xdc182ff92aa43153d0515int);
    assert(pow16(0xdc182ff92aa43153d0515int) * small_pow(2, 5) % prime88() == 0x85f3a41a980b17867e82d3int) by (nonlinear_arith);
    lemma_step(prime88(), 2, 142, 0xdc182ff92aa43153d0515int, 5, 0x85f3a41a980b17867e82d3int);
    assert(pow16(0x85f3a41a980b17867e82d3int) * small_pow(2, 1) % prime88() == 0x2e49aabfcb61c4183f6e06int) by (nonlinear_arith);
    lemma_step(prime88(), 2, 2277, 0x85f3a41a980b17867e82d3int, 1, 0x2e49aabfcb61c4183f6e06int);
    assert(pow16(0x2e49aabfcb61c4183f6e06int) * small_pow(2, 15) % prime88() == 0x17a0c95cc0e8e3f23081b7int) by (nonlinear_arith);
    lemma_step(prime88(), 2, 36433, 0x2e49aabfcb61c4183f6e06int, 15, 0x17a0c95cc0e8e3f23081b7int);
    assert(pow16(0x17a0c95cc0e8e3f23081b7int) * small_pow(2, 10) % prime88() == 0x4f7388784a8e2b0db12d4dint) by (nonlinear_arith);
    lemma_step(prime88(), 2, 582943, 0x17a0c95cc0e8e3f23081b7int, 10, 0x4f7388784a8e2b0db12d4dint);
    assert(pow16(0x4f7388784a8e2b0db12d4dint) * small_pow(2, 3) % prime88() == 0x6ebf50d0b858c67a0c487bint) by (nonlinear_arith);
    lemma_step(prime88(), 2, 0x8e51fa, 0x4f7388784a8e2b0db12d4dint, 3, 0x6ebf50d0b858c67a0c487bint);
    assert(pow16(0x6ebf50d0b858c67a0c487bint) * small_pow(2, 10) % prime88() == 0x62a7e115202f5a365b6418int) by (nonlinear_arith);
    lemma_step(prime88(), 2, 0x8e51fa3, 0x6ebf50d0b858c67a0c487bint, 10, 0x62a7e115202f5a365b6418int);
    assert(pow16(0x62a7e115202f5a365b6418int) * small_pow(2, 4) % prime88() == 0x8a1d057f464f1d3d6b4f51int) by (nonlinear_arith);
    lemma_step(prime88(), 2, 0x8e51fa3a, 0x62a7e115202f5a365b6418int, 4, 0x8a1d057f464f1d3d6b4f51int);
    assert(pow16(0x8a1d057f464f1d3d6b4f51int) * small_pow(2, 8) % prime88() == 0x6a0a95f07f4c7457c3941bint) by (nonlinear_arith);
    lemma_step(prime88(), 2, 0x8e51fa3a4, 0x8a1d057f464f1d3d6b4f51int, 8, 0x6a0a95f07f4c7457c3941bint);
    assert(pow16(0x6a0a95f07f4c7457c3941bint) * small_pow(2, 0) % prime88() == 0x127a2886a0adc68d1ba0fbint) by (nonlinear_arith);
    lemma_step(prime88(), 2, 0x8e51fa3a48, 0x6a0a95f07f4c7457c3941bint, 0, 0x127a2886a0adc68d1ba0fbint);
    assert(pow16(0x127a2886a0adc68d1ba0fbint) * small_pow(2, 15) % prime88() == 0x3d2d2b345caa227c9ffe31int) by (nonlinear_arith);
    lemma_step(prime88(), 2, 0x8e51fa3a480, 0x127a2886a0adc68d1ba0fbint, 15, 0x3d2d2b345caa227c9ffe31int);
    assert(pow16(0x3d2d2b345caa227c9ffe31int) * small_pow(2, 8) % prime88() == 0x8ab3efe4032c12ea833cb3int) by (nonlinear_arith);
    lemma_step(prime88(), 2, 0x8e51fa3a480f, 0x3d2d2b345caa227c9ffe31int, 8, 0x8ab3efe4032c12ea833cb3int);
    assert(pow16(0x8ab3efe4032c12ea833cb3int) * small_pow(2, 9) % prime88() == 0x123f234f441ca9ed05544bint) by (nonlinear_arith);
    lemma_step(prime88(), 2, 0x8e51fa3a480f8, 0x8ab3efe4032c12ea833cb3int, 9, 0x123f234f441ca9ed05544bint);
    assert(pow16(0x123f234f441ca9ed05544bint) * small_pow(2, 15) % prime88() == 0x40df06cb3bbcc95e71213aint) by (nonlinear_arith);
    lemma_step(prime88(), 2, 0x8e51fa3a480f89, 0x123f234f441ca9ed05544bint, 15, 0x40df06cb3bbcc95e71213aint);
    assert(pow16(0x40df06cb3bbcc95e71213aint) * small_pow(2, 9) % prime88() == 0x6ce40075badb38177b3930int) by (nonlinear_arith);
    lemma_step(prime88(), 2, 0x8e51fa3a480f89f, 0x40df06cb3bbcc95e71213aint, 9, 0x6ce40075badb38177b3930int);
    assert(pow16(0x6ce40075badb38177b3930int) * small_pow(2, 13) % prime88() == 0x244c1fac50c379053b71f1int) by (nonlinear_arith);
    lemma_step(prime88(), 2, 0x8e51fa3a480f89f9nat, 0x6ce40075badb38177b3930int, 13, 0x244c1fac50c379053b71f1int);
    assert(pow16(0x244c1fac50c379053b71f1int) * small_pow(2, 14) % prime88() == 0x670f296d1b9fa1d37ae2e0int) by (nonlinear_arith);
    lemma_step(prime88(), 2, 0x8e51fa3a480f89f9dnat, 0x244c1fac50c379053b71f1int, 14, 0x670f296d1b9fa1d37ae2e0int);
    assert(pow16(0x670f296d1b9fa1d37ae2e0int) * small_pow(2, 5) % prime88() == 0x2e9e983d78bdddf4508ac8int) by (nonlinear_arith);
    lemma_step(prime88(), 2, 0x8e51fa3a480f89f9denat, 0x670f296d1b9fa1d37ae2e0int, 5, 0x2e9e983d78bdddf4508ac8int);
    assert(pow16(0x2e9e983d78bdddf4508ac8int) * small_pow(2, 1) % prime88() == 0x3419d157539cd2bc522618int) by (nonlinear_arith);
    lemma_step(prime88(), 2, 0x8e51fa3a480f89f9de5nat, 0x2e9e983d78bdddf4508ac8int, 1, 0x3419d157539cd2bc522618int);
    assert(pow16(0x3419d157539cd2bc522618int) * small_pow(2, 6) % prime88() == 0x156542d174031ff3f5c6b4int) by (nonlinear_arith);
    lemma_step(prime88(), 2, 0x8e51fa3a480f89f9de51nat, 0x3419d157539cd2bc522618int, 6, 0x156542d174031ff3f5c6b4int);
    assert(pow16(0x156542d174031ff3f5c6b4int) * small_pow(2, 2) % prime88() == 1) by (nonlinear_arith);
    lemma_step(prime88(), 2, 0x8e51fa3a480f89f9de516nat, 0x156542d174031ff3f5c6b4int, 2, 1);
}

proof fn lemma_power_88_0()
    ensures
        eqm(prime88(), pow(2, 0x25012be), 0x43d06a01b28fc1632b40ebint),
{
    lemma_pow_zero(prime88(), 2);
    assert(pow16(1) * small_pow(2, 2) % prime88() == 4) by (nonlinear_arith);
    lemma_step(prime88(), 2, 0, 1, 2, 4);
    assert(pow16(4) * small_pow(2, 5) % prime88() == 0x2000000000) by (nonlinear_arith);
    lemma_step(prime88(), 2, 2, 4, 5, 0x2000000000);
    assert(pow16(0x2000000000) * small_pow(2, 0) % prime88() == 0x106296d204c47fa1c30d00int) by (nonlinear_arith);
    lemma_step(prime88(), 2, 37, 0x2000000000, 0, 0x106296d204c47fa1c30d00int);
    assert(pow16(0x106296d204c47fa1c30d00int) * small_pow(2, 1) % prime88() == 0x6254eb9f6323640014b112int) by (nonlinear_arith);
    lemma_step(prime88(), 2, 592, 0x106296d204c47fa1c30d00int, 1, 0x6254eb9f6323640014b112int);
    assert(pow16(0x6254eb9f6323640014b112int) * small_pow(2, 2) % prime88() == 0x36e290adea0d2601877756int) by (nonlinear_arith);
    lemma_step(prime88(), 2, 9473, 0x6254eb9f6323640014b112int, 2, 0x36e290adea0d2601877756int);
    assert(pow16(0x36e290adea0d2601877756int) * small_pow(2, 11) % prime88() == 0x183b962288e9ed655567b5int) by (nonlinear_arith);
    lemma_step(prime88(), 2, 151570, 0x36e290adea0d2601877756int, 11, 0x183b962288e9ed655567b5int);
    assert(pow16(0x183b962288e9ed655567b5int) * small_pow(2, 14) % prime88() == 0x43d06a01b28fc1632b40ebint) by (nonlinear_arith);
    lemma_step(prime88(), 2, 0x25012b, 0x183b962288e9ed655567b5int, 14, 0x43d06a01b28fc1632b40ebint);
}

/// 172054593956031949258510691 is prime.
proof fn lemma_prime_88()
    ensures
        is_prime(prime88()),
{
    lemma_unit_88();
    lemma_power_88_0();
    assert(0x7f9d1382843bc75f2bbbb0int * (0x43d06a01b28fc1632b40ebint - 1) % prime88() == 1) by (nonlinear_arith);
    lemma_unit_witness(prime88(), 0x7f9d1382843bc75f2bbbb0int, 0x43d06a01b28fc1632b40ebint, pow(2, 0x25012be));
    lemma_prime_62();
    assert forall|r: int| is_prime(r) && #[trigger] divides(r, prime88()) implies r > prime62() by {
        lemma_pocklington(prime88(), prime62(), 0x25012be, 2, 0x7f9d1382843bc75f2bbbb0int, r);
        lemma_above(prime62(), r);
    }
    assert(prime62() * prime62() > prime88()) by (nonlinear_arith);
    lemma_prime_by_bound(prime88(), prime62());
}

proof fn lemma_unit_134()
    ensures
        eqm(prime134(), pow(2, 0x3a0fc367dcf0ff0a5a1db0b1b7c3093f32nat), 1),
{
    lemma_pow_zero(prime134(), 2);
    assert(pow16(1) * small_pow(2, 3) % prime134() == 8) by (nonlinear_arith);
    lemma_step(prime134(), 2, 0, 1, 3, 8);
    assert(pow16(8) * small_pow(2, 10) % prime134() == 0x400000000000000) by (nonlinear_arith);
    lemma_step(prime134(), 2, 3, 8, 10, 0x400000000000000);
    assert(pow16(0x400000000000000) * small_pow(2, 0) % prime134() == 0x22647f06f9028a71c1caa53db47c486c40int) by (nonlinear_arith);
    lemma_step(prime134(), 2, 58, 0x400000000000000, 0, 0x22647f06f9028a71c1caa53db47c486c40int);
    assert(pow16(0x22647f06f9028a71c1caa53db47c486c40int) * small_pow(2, 15) % prime134() == 0x27313dd838a322e18c500fe2afd46dcdccint) by (nonlinear_arith);
    lemma_step(prime134(), 2, 928, 0x22647f06f9028a71c1caa53db47c486c40int, 15, 0x27313dd838a322e18c500fe2afd46dcdccint);
    assert(pow16(0x27313dd838a322e18c500fe2afd46dcdccint) * small_pow(2, 12) % prime134() == 0x18d1c5c0a7431a9b3f10d4969b39716813int) by (nonlinear_arith);
    lemma_step(prime134(), 2, 14863, 0x27313dd838a322e18c500fe2afd46dcdccint, 12, 0x18d1c5c0a7431a9b3f10d4969b39716813int);
    assert(pow16(0x18d1c5c0a7431a9b3f10d4969b39716813int) * small_pow(2, 3) % prime134() == 0xbb139af2acda13a3606e72037520f2b20int) by (nonlinear_arith);
    lemma_step(prime134(), 2, 237820, 0x18d1c5c0a7431a9b3f10d4969b39716813int, 3, 0xbb139af2acda13a3606e72037520f2b20int);
    assert(pow16(0xbb139af2acda13a3606e72037520f2b20int) * small_pow(2, 6) % prime134() == 0x88581485cac63a5b8edda99102ac83481int) by (nonlinear_arith);
    lemma_step(prime134(), 2, 0x3a0fc3, 0xbb139af2acda13a3606e72037520f2b20int, 6, 0x88581485cac63a5b8edda99102ac83481int);
    assert(pow16(0x88581485cac63a5b8edda99102ac83481int) * small_pow(2, 7) % prime134() == 0x1486a1af37ddd08a2cf317da2567a0a90int) by (nonlinear_arith);
    lemma_step(prime134(), 2, 0x3a0fc36, 0x88581485cac63a5b8edda99102ac83481int, 7, 0x1486a1af37ddd08a2cf317da2567a0a90int);
    assert(pow16(0x1486a1af37ddd08a2cf317da2567a0a90int) * small_pow(2, 13) % prime134() == 0x244539567ba700fed739cc6757d67482b3int) by (nonlinear_arith);
    lemma_step(prime134(), 2, 0x3a0fc367, 0x1486a1af37ddd08a2cf317da2567a0a90int, 13, 0x244539567ba700fed739cc6757d67482b3int);
    assert(pow16(0x244539567ba700fed739cc6757d67482b3int) * small_pow(2, 12) % prime134() == 0x31d31ecd1f3aad42e03d905b3aef79d79bint) by (nonlinear_arith);
    lemma_step(prime134(), 2, 0x3a0fc367d, 0x244539567ba700fed739cc6757d67482b3int, 12, 0x31d31ecd1f3aad42e03d905b3aef79d79bint);
    assert(pow16(0x31d31ecd1f3aad42e03d905b3aef79d79bint) * small_pow(2, 15) % prime134() == 0xe8db97061aa95c9540af67c00ba9f0fcdint) by (nonlinear_arith);
    lemma_step(prime134(), 2, 0x3a0fc367dc, 0x31d31ecd1f3aad42e03d905b3aef79d79bint, 15, 0xe8db97061aa95c9540af67c00ba9f0fcdint);
    assert(pow16(0xe8db97061aa95c9540af67c00ba9f0fcdint) * small_pow(2, 0) % prime134() == 0x15eedbb5fab12c8f75e79cda9ac381b462int) by (nonlinear_arith);
    lemma_step(prime134(), 2, 0x3a0fc367dcf, 0xe8db97061aa95c9540af67c00ba9f0fcdint, 0, 0x15eedbb5fab12c8f75e79cda9ac381b462int);
    assert(pow16(0x15eedbb5fab12c8f75e79cda9ac381b462int) * small_pow(2, 15) % prime134() == 0x1f9f60f27df863470f9a5af028d837d819int) by (nonlinear_arith);
    lemma_step(prime134(), 2, 0x3a0fc367dcf0, 0x15eedbb5fab12c8f75e79cda9ac381b462int, 15, 0x1f9f60f27df863470f9a5af028d837d819int);
    assert(pow16(0x1f9f60f27df863470f9a5af028d837d819int) * small_pow(2, 15) % prime134() == 0x376bc29367cf8f72dc99b2c94e8c4f06acint) by (nonlinear_arith);
    lemma_step(prime134(), 2, 0x3a0fc367dcf0f, 0x1f9f60f27df863470f9a5af028d837d819int, 15, 0x376bc29367cf8f72dc99b2c94e8c4f06acint);
    assert(pow16(0x376bc29367cf8f72dc99b2c94e8c4f06acint) * small_pow(2, 0) % prime134() == 0x2d3389f0d18f360911e60b55fc82dae884int) by (nonlinear_arith);
    lemma_step(prime134(), 2, 0x3a0fc367dcf0ff, 0x376bc29367cf8f72dc99b2c94e8c4f06acint, 0, 0x2d3389f0d18f360911e60b55fc82dae884int);
    assert(pow16(0x2d3389f0d18f360911e60b55fc82dae884int) * small_pow(2, 10) % prime134() == 0x2c6296b297679b8efe838a12b00b4b2f8aint) by (nonlinear_arith);
    lemma_step(prime134(), 2, 0x3a0fc367dcf0ff0, 0x2d3389f0d18f360911e60b55fc82dae884int, 10, 0x2c6296b297679b8efe838a12b00b4b2f8aint);
    assert(pow16(0x2c6296b297679b8efe838a12b00b4b2f8aint) * small_pow(2, 5) % prime134() == 0x194f776ec114636eedb3957a699cac399fint) by (nonlinear_arith);
    lemma_step(prime134(), 2, 0x3a0fc367dcf0ff0anat, 0x2c6296b297679b8efe838a12b00b4b2f8aint, 5, 0x194f776ec114636eedb3957a699cac399fint);
    assert(pow16(0x194f776ec114636eedb3957a699cac399fint) * small_pow(2, 10) % prime134() == 0xa2b42e24ada0eb5629ed37eb2ec3fcc5int) by (nonlinear_arith);
    lemma_step(prime134(), 2, 0x3a0fc367dcf0ff0a5nat, 0x194f776ec114636eedb3957a699cac399fint, 10, 0xa2b42e24ada0eb5629ed37eb2ec3fcc5int);
    assert(pow16(0xa2b42e24ada0eb5629ed37eb2ec3fcc5int) * small_pow(2, 1) % prime134() == 0x371d03b3d686c578b5735edd3cc65e355int) by (nonlinear_arith);
    lemma_step(prime134(), 2, 0x3a0fc367dcf0ff0a5anat, 0xa2b42e24ada0eb5629ed37eb2ec3fcc5int, 1, 0x371d03b3d686c578b5735edd3cc65e355int);
    assert(pow16(0x371d03b3d686c578b5735edd3cc65e355int) * small_pow(2, 13) % prime134() == 0x290661c70262979aa9e68f08f9c79dc42fint) by (nonlinear_arith);
    lemma_step(prime134(), 2, 0x3a0fc367dcf0ff0a5a1nat, 0x371d03b3d686c578b5735edd3cc65e355int, 13, 0x290661c70262979aa9e68f08f9c79dc42fint);
    assert(pow16(0x290661c70262979aa9e68f08f9c79dc42fint) * small_pow(2, 11) % prime134() == 0xfdc95ff7f5f17dcb40f9be4ba1174498aint) by (nonlinear_arith);
    lemma_step(prime134(), 2, 0x3a0fc367dcf0ff0a5a1dnat, 0x290661c70262979aa9e68f08f9c79dc42fint, 11, 0xfdc95ff7f5f17dcb40f9be4ba1174498aint);
    assert(pow16(0xfdc95ff7f5f17dcb40f9be4ba1174498aint) * small_pow(2, 0) % prime134() == 0x2f8c83f2bb35a5beecc874c20536144a83int) by (nonlinear_arith);
    lemma_step(prime134(), 2, 0x3a0fc367dcf0ff0a5a1dbnat, 0xfdc95ff7f5f17dcb40f9be4ba1174498aint, 0, 0x2f8c83f2bb35a5beecc874c20536144a83int);
    assert(pow16(0x2f8c83f2bb35a5beecc874c20536144a83int) * small_pow(2, 11) % prime134() == 0x97bd350a4db0c15de4973a88e40c5a9d7int) by (nonlinear_arith);
    lemma_step(prime134(), 2, 0x3a0fc367dcf0ff0a5a1db0nat, 0x2f8c83f2bb35a5beecc874c20536144a83int, 11, 0x97bd350a4db0c15de4973a88e40c5a9d7int);
    assert(pow16(0x97bd350a4db0c15de4973a88e40c5a9d7int) * small_pow(2, 1) % prime134() == 0xc49342d636b29f179a77b412d4af75329int) by (nonlinear_arith);
    lemma_step(prime134(), 2, 0x3a0fc367dcf0ff0a5a1db0bnat, 0x97bd350a4db0c15de4973a88e40c5a9d7int, 1, 0xc49342d636b29f179a77b412d4af75329int);
    assert(pow16(0xc49342d636b29f179a77b412d4af75329int) * small_pow(2, 11) % prime134() == 0x302b80c22769cb1c4e6e60109bba83844cint) by (nonlinear_arith);
    lemma_step(prime134(), 2, 0x3a0fc367dcf0ff0a5a1db0b1nat, 0xc49342d636b29f179a77b412d4af75329int, 11, 0x302b80c22769cb1c4e6e60109bba83844cint);
    assert(pow16(0x302b80c22769cb1c4e6e60109bba83844cint) * small_pow(2, 7) % prime134() == 0x33ae5c2b3b5d4918330d116908ebd56464int) by (nonlinear_arith);
    lemma_step(prime134(), 2, 0x3a0fc367dcf0ff0a5a1db0b1bnat, 0x302b80c22769cb1c4e6e60109bba83844cint, 7, 0x33ae5c2b3b5d4918330d116908ebd56464int);
    assert(pow16(0x33ae5c2b3b5d4918330d116908ebd56464int) * small_pow(2, 12) % prime134() == 0x240a0fdf185e3c78c05be5bb3f264285efint) by (nonlinear_arith);
    lemma_step(prime134(), 2, 0x3a0fc367dcf0ff0a5a1db0b1b7nat, 0x33ae5c2b3b5d4918330d116908ebd56464int, 12, 0x240a0fdf185e3c78c05be5bb3f264285efint);
    assert(pow16(0x240a0fdf185e3c78c05be5bb3f264285efint) * small_pow(2, 3) % prime134() == 0x2bade27cc358aaa00a8234165cb25e8d1aint) by (nonlinear_arith);
    lemma_step(prime134(), 2, 0x3a0fc367dcf0ff0a5a1db0b1b7cnat, 0x240a0fdf185e3c78c05be5bb3f264285efint, 3, 0x2bade27cc358aaa00a8234165cb25e8d1aint);
    assert(pow16(0x2bade27cc358aaa00a8234165cb25e8d1aint) * small_pow(2, 0) % prime134() == 0x23a67b681069e5e83b50972727074e494int) by (nonlinear_arith);
    lemma_step(prime134(), 2, 0x3a0fc367dcf0ff0a5a1db0b1b7c3nat, 0x2bade27cc358aaa00a8234165cb25e8d1aint, 0, 0x23a67b681069e5e83b50972727074e494int);
    assert(pow16(0x23a67b681069e5e83b50972727074e494int) * small_pow(2, 9) % prime134() == 0x20f28c4634480b803640b633b70eaf2250int) by (nonlinear_arith);
    lemma_step(prime134(), 2, 0x3a0fc367dcf0ff0a5a1db0b1b7c30nat, 0x23a67b681069e5e83b50972727074e494int, 9, 0x20f28c4634480b803640b633b70eaf2250int);
    assert(pow16(0x20f28c4634480b803640b633b70eaf2250int) * small_pow(2, 3) % prime134() == 0x157a075d3b3087fa471185500eb14dc1c3int) by (nonlinear_arith);
    lemma_step(prime134(), 2, 0x3a0fc367dcf0ff0a5a1db0b1b7c309nat, 0x20f28c4634480b803640b633b70eaf2250int, 3, 0x157a075d3b3087fa471185500eb14dc1c3int);
    assert(pow16(0x157a075d3b3087fa471185500eb14dc1c3int) * small_pow(2, 15) % prime134() == 0x39c7e10bf418c33540db3e4974305a7deint) by (nonlinear_arith);
    lemma_step(prime134(), 2, 0x3a0fc367dcf0ff0a5a1db0b1b7c3093nat, 0x157a075d3b3087fa471185500eb14dc1c3int, 15, 0x39c7e10bf418c33540db3e4974305a7deint);
    assert(pow16(0x39c7e10bf418c33540db3e4974305a7deint) * small_pow(2, 3) % prime134() == 0x3815eb3580012cf93e39ccc583d7f652c0int) by (nonlinear_arith);
    lemma_step(prime134(), 2, 0x3a0fc367dcf0ff0a5a1db0b1b7c3093fnat, 0x39c7e10bf418c33540db3e4974305a7deint, 3, 0x3815eb3580012cf93e39ccc583d7f652c0int);
    assert(pow16(0x3815eb3580012cf93e39ccc583d7f652c0int) * small_pow(2, 2) % prime134() == 1) by (nonlinear_arith);
    lemma_step(prime134(), 2, 0x3a0fc367dcf0ff0a5a1db0b1b7c3093f3nat, 0x3815eb3580012cf93e39ccc583d7f652c0int, 2, 1);
}

proof fn lemma_power_134_0()
    ensures
        eqm(prime134(), pow(2, 0x687059bb73a6), 0x1ae2c2ca6b6676caa5c3933f166ac4090cint),
{
    lemma_pow_zero(prime134(), 2);
    assert(pow16(1) * small_pow(2, 6) % prime134() == 64) by (nonlinear_arith);
    lemma_step(prime134(), 2, 0, 1, 6, 64);
    assert(pow16(64) * small_pow(2, 8) % prime134() == 0x100000000000000000000000000int) by (nonlinear_arith);
    lemma_step(prime134(), 2, 6, 64, 8, 0x100000000000000000000000000int);
    assert(pow16(0x100000000000000000000000000int) * small_pow(2, 7) % prime134() == 0x396017ec5fe7f2898124ae2da509413bd7int) by (nonlinear_arith);
    lemma_step(prime134(), 2, 104, 0x100000000000000000000000000int, 7, 0x396017ec5fe7f2898124ae2da509413bd7int);
    assert(pow16(0x396017ec5fe7f2898124ae2da509413bd7int) * small_pow(2, 0) % prime134() == 0x31e8f1349b0b2b7374bebf020a631644b5int) by (nonlinear_arith);
    lemma_step(prime134(), 2, 1671, 0x396017ec5fe7f2898124ae2da509413bd7int, 0, 0x31e8f1349b0b2b7374bebf020a631644b5int);
    assert(pow16(0x31e8f1349b0b2b7374bebf020a631644b5int) * small_pow(2, 5) % prime134() == 0xa4be7f579ea410797eed54a12d6c08a7cint) by (nonlinear_arith);
    lemma_step(prime134(), 2, 26736, 0x31e8f1349b0b2b7374bebf020a631644b5int, 5, 0xa4be7f579ea410797eed54a12d6c08a7cint);
    assert(pow16(0xa4be7f579ea410797eed54a12d6c08a7cint) * small_pow(2, 9) % prime134() == 0xba204b26404bf84f36fdbb16ebc525604int) by (nonlinear_arith);
    lemma_step(prime134(), 2, 427781, 0xa4be7f579ea410797eed54a12d6c08a7cint, 9, 0xba204b26404bf84f36fdbb16ebc525604int);
    assert(pow16(0xba204b26404bf84f36fdbb16ebc525604int) * small_pow(2, 11) % prime134() == 0x24c3c2221f30ae8bf9888c9766f623af38int) by (nonlinear_arith);
    lemma_step(prime134(), 2, 0x687059, 0xba204b26404bf84f36fdbb16ebc525604int, 11, 0x24c3c2221f30ae8bf9888c9766f623af38int);
    assert(pow16(0x24c3c2221f30ae8bf9888c9766f623af38int) * small_pow(2, 11) % prime134() == 0x10566007adfee76ffbba0513094894bbd7int) by (nonlinear_arith);
    lemma_step(prime134(), 2, 0x687059b, 0x24c3c2221f30ae8bf9888c9766f623af38int, 11, 0x10566007adfee76ffbba0513094894bbd7int);
    assert(pow16(0x10566007adfee76ffbba0513094894bbd7int) * small_pow(2, 7) % prime134() == 0xf6e910dae538a419d6b1ed66538cc9c26int) by (nonlinear_arith);
    lemma_step(prime134(), 2, 0x687059bb, 0x10566007adfee76ffbba0513094894bbd7int, 7, 0xf6e910dae538a419d6b1ed66538cc9c26int);
    assert(pow16(0xf6e910dae538a419d6b1ed66538cc9c26int) * small_pow(2, 3) % prime134() == 0x3670ac32de02b2b66529ce18ff8ea0ca73int) by (nonlinear_arith);
    lemma_step(prime134(), 2, 0x687059bb7, 0xf6e910dae538a419d6b1ed66538cc9c26int, 3, 0x3670ac32de02b2b66529ce18ff8ea0ca73int);
    assert(pow16(0x3670ac32de02b2b66529ce18ff8ea0ca73int) * small_pow(2, 10) % prime134() == 0x106ef48637eb6783ff424e1f2aad82cbafint) by (nonlinear_arith);
    lemma_step(prime134(), 2, 0x687059bb73, 0x3670ac32de02b2b66529ce18ff8ea0ca73int, 10, 0x106ef48637eb6783ff424e1f2aad82cbafint);
    assert(pow16(0x106ef48637eb6783ff424e1f2aad82cbafint) * small_pow(2, 6) % prime134() == 0x1ae2c2ca6b6676caa5c3933f166ac4090cint) by (nonlinear_arith);
    lemma_step(prime134(), 2, 0x687059bb73a, 0x106ef48637eb6783ff424e1f2aad82cbafint, 6, 0x1ae2c2ca6b6676caa5c3933f166ac4090cint);
}

/// 19757330305831588566944191468367130476339 is prime.
proof fn lemma_prime_134()
    ensures
        is_prime(prime134()),
{
    lemma_unit_134();
    lemma_power_134_0();
    assert(0x301ca9f38446aff6c3063f39e6ef47be52int * (0x1ae2c2ca6b6676caa5c3933f166ac4090cint - 1) % prime134() == 1) by (nonlinear_arith);
    lemma_unit_witness(prime134(), 0x301ca9f38446aff6c3063f39e6ef47be52int, 0x1ae2c2ca6b6676caa5c3933f166ac4090cint, pow(2, 0x687059bb73a6));
    lemma_prime_88();
    assert forall|r: int| is_prime(r) && #[trigger] divides(r, prime134()) implies r > prime88() by {
        lemma_pocklington(prime134(), prime88(), 0x687059bb73a6, 2, 0x301ca9f38446aff6c3063f39e6ef47be52int, r);
        lemma_above(prime88(), r);
    }
    assert(prime88() * prime88() > prime134()) by (nonlinear_arith);
    lemma_prime_by_bound(prime134(), prime88());
}

proof fn lemma_unit_138()
    ensures
        eqm(prime138(), pow(2, 0x32cdcafae152df290ed9fa9b80caa8174canat), 1),
{
    lemma_pow_zero(prime138(), 2);
    assert(pow16(1) * small_pow(2, 3) % prime138() == 8) by (nonlinear_arith);
    lemma_step(prime138(), 2, 0, 1, 3, 8);
    assert(pow16(8) * small_pow(2, 2) % prime138() == 0x4000000000000) by (nonlinear_arith);
    lemma_step(prime138(), 2, 3, 8, 2, 0x4000000000000);
    assert(pow16(0x4000000000000) * small_pow(2, 12) % prime138() == 0x1cc27d3c1528c687e70c140e837daf80e86int) by (nonlinear_arith);
    lemma_step(prime138(), 2, 50, 0x4000000000000, 12, 0x1cc27d3c1528c687e70c140e837daf80e86int);
    assert(pow16(0x1cc27d3c1528c687e70c140e837daf80e86int) * small_pow(2, 13) % prime138() == 0x1430d32b8dcaae76da4c931dc6647665a6aint) by (nonlinear_arith);
    lemma_step(prime138(), 2, 812, 0x1cc27d3c1528c687e70c140e837daf80e86int, 13, 0x1430d32b8dcaae76da4c931dc6647665a6aint);
    assert(pow16(0x1430d32b8dcaae76da4c931dc6647665a6aint) * small_pow(2, 12) % prime138() == 0x20ef80a0b654a2af85b33b5746905b17321int) by (nonlinear_arith);
    lemma_step(prime138(), 2, 13005, 0x1430d32b8dcaae76da4c931dc6647665a6aint, 12, 0x20ef80a0b654a2af85b33b5746905b17321int);
    assert(pow16(0x20ef80a0b654a2af85b33b5746905b17321int) * small_pow(2, 10) % prime138() == 0x234123a6424402fd364d2a7b7b58ccbfea6int) by (nonlinear_arith);
    lemma_step(prime138(), 2, 208092, 0x20ef80a0b654a2af85b33b5746905b17321int, 10, 0x234123a6424402fd364d2a7b7b58ccbfea6int);
    assert(pow16(0x234123a6424402fd364d2a7b7b58ccbfea6int) * small_pow(2, 15) % prime138() == 0x1a45edf11265c70705d61a54dff33a80810int) by (nonlinear_arith);
    lemma_step(prime138(), 2, 0x32cdca, 0x234123a6424402fd364d2a7b7b58ccbfea6int, 15, 0x1a45edf11265c70705d61a54dff33a80810int);
    assert(pow16(0x1a45edf11265c70705d61a54dff33a80810int) * small_pow(2, 10) % prime138() == 0x12b9f9853d5cd91df86f290e2737c5b14d1int) by (nonlinear_arith);
    lemma_step(prime138(), 2, 0x32cdcaf, 0x1a45edf11265c70705d61a54dff33a80810int, 10, 0x12b9f9853d5cd91df86f290e2737c5b14d1int);
    assert(pow16(0x12b9f9853d5cd91df86f290e2737c5b14d1int) * small_pow(2, 14) % prime138() == 0x1f13e5d37d9c693f72358cdd069f45a4833int) by (nonlinear_arith);
    lemma_step(prime138(), 2, 0x32cdcafa, 0x12b9f9853d5cd91df86f290e2737c5b14d1int, 14, 0x1f13e5d37d9c693f72358cdd069f45a4833int);
    assert(pow16(0x1f13e5d37d9c693f72358cdd069f45a4833int) * small_pow(2, 1) % prime138() == 0x254b88384d672fb8df7a43ae5ab5b8967ebint) by (nonlinear_arith);
    lemma_step(prime138(), 2, 0x32cdcafae, 0x1f13e5d37d9c693f72358cdd069f45a4833int, 1, 0x254b88384d672fb8df7a43ae5ab5b8967ebint);
    assert(pow16(0x254b88384d672fb8df7a43ae5ab5b8967ebint) * small_pow(2, 5) % prime138() == 0xe5dffd80ce56e18e65a7f34cffbd1ba978int) by (nonlinear_arith);
    lemma_step(prime138(), 2, 0x32cdcafae1, 0x254b88384d672fb8df7a43ae5ab5b8967ebint, 5, 0xe5dffd80ce56e18e65a7f34cffbd1ba978int);
    assert(pow16(0xe5dffd80ce56e18e65a7f34cffbd1ba978int) * small_pow(2, 2) % prime138() == 0xd23359a6e298ec9b80b703d21571025675int) by (nonlinear_arith);
    lemma_step(prime138(), 2, 0x32cdcafae15, 0xe5dffd80ce56e18e65a7f34cffbd1ba978int, 2, 0xd23359a6e298ec9b80b703d21571025675int);
    assert(pow16(0xd23359a6e298ec9b80b703d21571025675int) * small_pow(2, 13) % prime138() == 0xdd41d92a99a44ad250c508ec214f8bbf7cint) by (nonlinear_arith);
    lemma_step(prime138(), 2, 0x32cdcafae152, 0xd23359a6e298ec9b80b703d21571025675int, 13, 0xdd41d92a99a44ad250c508ec214f8bbf7cint);
    assert(pow16(0xdd41d92a99a44ad250c508ec214f8bbf7cint) * small_pow(2, 15) % prime138() == 0x8ed31667058b30ef59ade18af336ee86feint) by (nonlinear_arith);
    lemma_step(prime138(), 2, 0x32cdcafae152d, 0xdd41d92a99a44ad250c508ec214f8bbf7cint, 15, 0x8ed31667058b30ef59ade18af336ee86feint);
    assert(pow16(0x8ed31667058b30ef59ade18af336ee86feint) * small_pow(2, 2) % prime138() == 0x1b737776c299c4b706050a9964d3a9149faint) by (nonlinear_arith);
    lemma_step(prime138(), 2, 0x32cdcafae152df, 0x8ed31667058b30ef59ade18af336ee86feint, 2, 0x1b737776c299c4b706050a9964d3a9149faint);
    assert(pow16(0x1b737776c299c4b706050a9964d3a9149faint) * small_pow(2, 9) % prime138() == 0x2e6dadace0bd36a655e15be95c4999c24b0int) by (nonlinear_arith);
    lemma_step(prime138(), 2, 0x32cdcafae152df2, 0x1b737776c299c4b706050a9964d3a9149faint, 9, 0x2e6dadace0bd36a655e15be95c4999c24b0int);
    assert(pow16(0x2e6dadace0bd36a655e15be95c4999c24b0int) * small_pow(2, 0) % prime138() == 0x1d243a609b3b6d14f949a199b6a9bdc9229int) by (nonlinear_arith);
    lemma_step(prime138(), 2, 0x32cdcafae152df29nat, 0x2e6dadace0bd36a655e15be95c4999c24b0int, 0, 0x1d243a609b3b6d14f949a199b6a9bdc9229int);
    assert(pow16(0x1d243a609b3b6d14f949a199b6a9bdc9229int) * small_pow(2, 14) % prime138() == 0x32c00797ca13e1af8352c737ec5ce8d03a0int) by (nonlinear_arith);
    lemma_step(prime138(), 2, 0x32cdcafae152df290nat, 0x1d243a609b3b6d14f949a199b6a9bdc9229int, 14, 0x32c00797ca13e1af8352c737ec5ce8d03a0int);
    assert(pow16(0x32c00797ca13e1af8352c737ec5ce8d03a0int) * small_pow(2, 13) % prime138() == 0x2de9b0699ae3b2cc35b3e39651bfa3233d3int) by (nonlinear_arith);
    lemma_step(prime138(), 2, 0x32cdcafae152df290enat, 0x32c00797ca13e1af8352c737ec5ce8d03a0int, 13, 0x2de9b0699ae3b2cc35b3e39651bfa3233d3int);
    assert(pow16(0x2de9b0699ae3b2cc35b3e39651bfa3233d3int) * small_pow(2, 9) % prime138() == 0x1b73faf65ea3b8a45fad19efebfb03ee34eint) by (nonlinear_arith);
    lemma_step(prime138(), 2, 0x32cdcafae152df290ednat, 0x2de9b0699ae3b2cc35b3e39651bfa3233d3int, 9, 0x1b73faf65ea3b8a45fad19efebfb03ee34eint);
    assert(pow16(0x1b73faf65ea3b8a45fad19efebfb03ee34eint) * small_pow(2, 15) % prime138() == 0x2bb3f191f842657570631cd5e82cae51ca8int) by (nonlinear_arith);
    lemma_step(prime138(), 2, 0x32cdcafae152df290ed9nat, 0x1b73faf65ea3b8a45fad19efebfb03ee34eint, 15, 0x2bb3f191f842657570631cd5e82cae51ca8int);
    assert(pow16(0x2bb3f191f842657570631cd5e82cae51ca8int) * small_pow(2, 10) % prime138() == 0x19d1cfce39e54e9cd818319ca8682224e8aint) by (nonlinear_arith);
    lemma_step(prime138(), 2, 0x32cdcafae152df290ed9fnat, 0x2bb3f191f842657570631cd5e82cae51ca8int, 10, 0x19d1cfce39e54e9cd818319ca8682224e8aint);
    assert(pow16(0x19d1cfce39e54e9cd818319ca8682224e8aint) * small_pow(2, 9) % prime138() == 0x2f6f971e46a32ec307f0a6ffc977556285aint) by (nonlinear_arith);
    lemma_step(prime138(), 2, 0x32cdcafae152df290ed9fanat, 0x19d1cfce39e54e9cd818319ca8682224e8aint, 9, 0x2f6f971e46a32ec307f0a6ffc977556285aint);
    assert(pow16(0x2f6f971e46a32ec307f0a6ffc977556285aint) * small_pow(2, 11) % prime138() == 0x321c1cb96362f3f329746289ba5f66ec26eint) by (nonlinear_arith);
    lemma_step(prime138(), 2, 0x32cdcafae152df290ed9fa9nat, 0x2f6f971e46a32ec307f0a6ffc977556285aint, 11, 0x321c1cb96362f3f329746289ba5f66ec26eint);
    assert(pow16(0x321c1cb96362f3f329746289ba5f66ec26eint) * small_pow(2, 8) % prime138() == 0x2614db8e2f5d488c70fab0895889fe65430int) by (nonlinear_arith);
    lemma_step(prime138(), 2, 0x32cdcafae152df290ed9fa9bnat, 0x321c1cb96362f3f329746289ba5f66ec26eint, 8, 0x2614db8e2f5d488c70fab0895889fe65430int);
    assert(pow16(0x2614db8e2f5d488c70fab0895889fe65430int) * small_pow(2, 0) % prime138() == 0x22a4e00330eb1ac97f564bc89ce7e38840int) by (nonlinear_arith);
    lemma_step(prime138(), 2, 0x32cdcafae152df290ed9fa9b8nat, 0x2614db8e2f5d488c70fab0895889fe65430int, 0, 0x22a4e00330eb1ac97f564bc89ce7e38840int);
    assert(pow16(0x22a4e00330eb1ac97f564bc89ce7e38840int) * small_pow(2, 12) % prime138() == 0x62b9bb4e5c21862c9d32750963c4fe9aaaint) by (nonlinear_arith);
    lemma_step(prime138(), 2, 0x32cdcafae152df290ed9fa9b80nat, 0x22a4e00330eb1ac97f564bc89ce7e38840int, 12, 0x62b9bb4e5c21862c9d32750963c4fe9aaaint);
    assert(pow16(0x62b9bb4e5c21862c9d32750963c4fe9aaaint) * small_pow(2, 10) % prime138() == 0x2654955a0cb2d213877225922f634938655int) by (nonlinear_arith);
    lemma_step(prime138(), 2, 0x32cdcafae152df290ed9fa9b80cnat, 0x62b9bb4e5c21862c9d32750963c4fe9aaaint, 10, 0x2654955a0cb2d213877225922f634938655int);
    assert(pow16(0x2654955a0cb2d213877225922f634938655int) * small_pow(2, 10) % prime138() == 0xb27ce908892a1f5e39a86e0c18b16f1ac1int) by (nonlinear_arith);
    lemma_step(prime138(), 2, 0x32cdcafae152df290ed9fa9b80canat, 0x2654955a0cb2d213877225922f634938655int, 10, 0xb27ce908892a1f5e39a86e0c18b16f1ac1int);
    assert(pow16(0xb27ce908892a1f5e39a86e0c18b16f1ac1int) * small_pow(2, 8) % prime138() == 0x11dd121fe332fbd2d3eb76eb06270c59761int) by (nonlinear_arith);
    lemma_step(prime138(), 2, 0x32cdcafae152df290ed9fa9b80caanat, 0xb27ce908892a1f5e39a86e0c18b16f1ac1int, 8, 0x11dd121fe332fbd2d3eb76eb06270c59761int);
    assert(pow16(0x11dd121fe332fbd2d3eb76eb06270c59761int) * small_pow(2, 1) % prime138() == 0x894486865a48522b98dfee0ad00074d993int) by (nonlinear_arith);
    lemma_step(prime138(), 2, 0x32cdcafae152df290ed9fa9b80caa8nat, 0x11dd121fe332fbd2d3eb76eb06270c59761int, 1, 0x894486865a48522b98dfee0ad00074d993int);
    assert(pow16(0x894486865a48522b98dfee0ad00074d993int) * small_pow(2, 7) % prime138() == 0x217e96b10f5a36326bff84a88cf5d53efc7int) by (nonlinear_arith);
    lemma_step(prime138(), 2, 0x32cdcafae152df290ed9fa9b80caa81nat, 0x894486865a48522b98dfee0ad00074d993int, 7, 0x217e96b10f5a36326bff84a88cf5d53efc7int);
    assert(pow16(0x217e96b10f5a36326bff84a88cf5d53efc7int) * small_pow(2, 4) % prime138() == 0x21b62e8d6f71b7edeaf475e3e6df3c15eeint) by (nonlinear_arith);
    lemma_step(prime138(), 2, 0x32cdcafae152df290ed9fa9b80caa817nat, 0x217e96b10f5a36326bff84a88cf5d53efc7int, 4, 0x21b62e8d6f71b7edeaf475e3e6df3c15eeint);
    assert(pow16(0x21b62e8d6f71b7edeaf475e3e6df3c15eeint) * small_pow(2, 12) % prime138() == 0x1afe18db381deb3799961f7298109060fint) by (nonlinear_arith);
    lemma_step(prime138(), 2, 0x32cdcafae152df290ed9fa9b80caa8174nat, 0x21b62e8d6f71b7edeaf475e3e6df3c15eeint, 12, 0x1afe18db381deb3799961f7298109060fint);
    assert(pow16(0x1afe18db381deb3799961f7298109060fint) * small_pow(2, 10) % prime138() == 1) by (nonlinear_arith);
    lemma_step(prime138(), 2, 0x32cdcafae152df290ed9fa9b80caa8174cnat, 0x1afe18db381deb3799961f7298109060fint, 10, 1);
}

proof fn lemma_power_138_0()
    ensures
        eqm(prime138(), pow(2, 14), 16384),
{
    lemma_pow_zero(prime138(), 2);
    assert(pow16(1) * small_pow(2, 14) % prime138() == 16384) by (nonlinear_arith);
    lemma_step(prime138(), 2, 0, 1, 14, 16384);
}

/// 276602624281642239937218680557139826668747 is prime.
proof fn lemma_prime_138()
    ensures
        is_prime(prime138()),
{
    lemma_unit_138();
    lemma_power_138_0();
    assert(0x114761f57a17276184231256cbd81b2ad93int * (16384 - 1) % prime138() == 1) by (nonlinear_arith);
    lemma_unit_witness(prime138(), 0x114761f57a17276184231256cbd81b2ad93int, 16384, pow(2, 14));
    lemma_prime_134();
    assert forall|r: int| is_prime(r) && #[trigger] divides(r, prime138()) implies r > prime134() by {
        lemma_pocklington(prime138(), prime134(), 14, 2, 0x114761f57a17276184231256cbd81b2ad93int, r);
        lemma_above(prime134(), r);
    }
    assert(prime134() * prime134() > prime138()) by (nonlinear_arith);
    lemma_prime_by_bound(prime138(), prime134());
}

proof fn lemma_unit_253()
    ensures
        eqm(prime253(), pow(2, 0x1000000000000000000000000000000014def9dea2f79cd65812631a5cf5d3ecnat), 1),
{
    lemma_pow_zero(prime253(), 2);
    assert(pow16(1) * small_pow(2, 1) % prime253() == 2) by (nonlinear_arith);
    lemma_step(prime253(), 2, 0, 1, 1, 2);
    assert(pow16(2) * small_pow(2, 0) % prime253() == 65536) by (nonlinear_arith);
    lemma_step(prime253(), 2, 1, 2, 0, 65536);
    assert(pow16(65536) * small_pow(2, 0) % prime253() == 0xffffffffffffffffffffffffffffffec6ef5bf4737dcf70d6ec31748d98951dint) by (nonlinear_arith);
    lemma_step(prime253(), 2, 16, 65536, 0, 0xffffffffffffffffffffffffffffffec6ef5bf4737dcf70d6ec31748d98951dint);
    assert(pow16(0xffffffffffffffffffffffffffffffec6ef5bf4737dcf70d6ec31748d98951dint) * small_pow(2, 0) % prime253() == 0xf1c7e9a75c48198b3ce05d5df3f6cf8528fbd8e8942860d8566135af9bbc5c8int) by (nonlinear_arith);
    lemma_step(prime253(), 2, 256, 0xffffffffffffffffffffffffffffffec6ef5bf4737dcf70d6ec31748d98951dint, 0, 0xf1c7e9a75c48198b3ce05d5df3f6cf8528fbd8e8942860d8566135af9bbc5c8int);
    assert(pow16(0xf1c7e9a75c48198b3ce05d5df3f6cf8528fbd8e8942860d8566135af9bbc5c8int) * small_pow(2, 0) % prime253() == 0xa93ee1af2e4a00398aef9eb9d8164c219dfc6f7eda4a0fef4144ae4b5b695cbint) by (nonlinear_arith);
    lemma_step(prime253(), 2, 4096, 0xf1c7e9a75c48198b3ce05d5df3f6cf8528fbd8e8942860d8566135af9bbc5c8int, 0, 0xa93ee1af2e4a00398aef9eb9d8164c219dfc6f7eda4a0fef4144ae4b5b695cbint);
    assert(pow16(0xa93ee1af2e4a00398aef9eb9d8164c219dfc6f7eda4a0fef4144ae4b5b695cbint) * small_pow(2, 0) % prime253() == 0x752169d675dee8276253ab3e418668bc35b5fdf10bf904c060523f8f8b5fe4eint) by (nonlinear_arith);
    lemma_step(prime253(), 2, 65536, 0xa93ee1af2e4a00398aef9eb9d8164c219dfc6f7eda4a0fef4144ae4b5b695cbint, 0, 0x752169d675dee8276253ab3e418668bc35b5fdf10bf904c060523f8f8b5fe4eint);
    assert(pow16(0x752169d675dee8276253ab3e418668bc35b5fdf10bf904c060523f8f8b5fe4eint) * small_pow(2, 0) % prime253() == 0x16f8b98b53a2b47ac36b4217ec580cdbcd8a57ab84386ad2d36e6d56858c46fint) by (nonlinear_arith);
    lemma_step(prime253(), 2, 0x100000, 0x752169d675dee8276253ab3e418668bc35b5fdf10bf904c060523f8f8b5fe4eint, 0, 0x16f8b98b53a2b47ac36b4217ec580cdbcd8a57ab84386ad2d36e6d56858c46fint);
    assert(pow16(0x16f8b98b53a2b47ac36b4217ec580cdbcd8a57ab84386ad2d36e6d56858c46fint) * small_pow(2, 0) % prime253() == 0xb23dc51b8f0ccb57c2ed594db5fa6ddd5d6f9cacd10a39a429460f6e00e0793int) by (nonlinear_arith);
    lemma_step(prime253(), 2, 0x1000000, 0x16f8b98b53a2b47ac36b4217ec580cdbcd8a57ab84386ad2d36e6d56858c46fint, 0, 0xb23dc51b8f0ccb57c2ed594db5fa6ddd5d6f9cacd10a39a429460f6e00e0793int);
    assert(pow16(0xb23dc51b8f0ccb57c2ed594db5fa6ddd5d6f9cacd10a39a429460f6e00e0793int) * small_pow(2, 0) % prime253() == 0x5964aa76446b40efafb7760a871c45f199c9738b2187a29c8b67868d8bdffcaint) by (nonlinear_arith);
    lemma_step(prime253(), 2, 0x10000000, 0xb23dc51b8f0ccb57c2ed594db5fa6ddd5d6f9cacd10a39a429460f6e00e0793int, 0, 0x5964aa76446b40efafb7760a871c45f199c9738b2187a29c8b67868d8bdffcaint);
    assert(pow16(0x5964aa76446b40efafb7760a871c45f199c9738b2187a29c8b67868d8bdffcaint) * small_pow(2, 0) % prime253() == 0x3a85a501f1d49c691dd426b05dc1c8dd5e0303795741dd55fc7abfdb0b0360aint) by (nonlinear_arith);
    lemma_step(prime253(), 2, 0x100000000, 0x5964aa76446b40efafb7760a871c45f199c9738b2187a29c8b67868d8bdffcaint, 0, 0x3a85a501f1d49c691dd426b05dc1c8dd5e0303795741dd55fc7abfdb0b0360aint);
    assert(pow16(0x3a85a501f1d49c691dd426b05dc1c8dd5e0303795741dd55fc7abfdb0b0360aint) * small_pow(2, 0) % prime253() == 0x46b8a5833e92b5e6806c4b7e25410a472460c487dea27818e47d29c76c9a4e2int) by (nonlinear_arith);
    lemma_step(prime253(), 2, 0x1000000000, 0x3a85a501f1d49c691dd426b05dc1c8dd5e0303795741dd55fc7abfdb0b0360aint, 0, 0x46b8a5833e92b5e6806c4b7e25410a472460c487dea27818e47d29c76c9a4e2int);
    assert(pow16(0x46b8a5833e92b5e6806c4b7e25410a472460c487dea27818e47d29c76c9a4e2int) * small_pow(2, 0) % prime253() == 0x4d5af79fe30a5a582abf5caeb3e9f084937a5df69ec73276e5b4dc2c7ca74aint) by (nonlinear_arith);
    lemma_step(prime253(), 2, 0x10000000000, 0x46b8a5833e92b5e6806c4b7e25410a472460c487dea27818e47d29c76c9a4e2int, 0, 0x4d5af79fe30a5a582abf5caeb3e9f084937a5df69ec73276e5b4dc2c7ca74aint);
    assert(pow16(0x4d5af79fe30a5a582abf5caeb3e9f084937a5df69ec73276e5b4dc2c7ca74aint) * small_pow(2, 0) % prime253() == 0xa15a032c5a1029c40b3bd957978b9a6c79be1aed82b5a56f91042fbd4a2671fint) by (nonlinear_arith);
    lemma_step(prime253(), 2, 0x100000000000, 0x4d5af79fe30a5a582abf5caeb3e9f084937a5df69ec73276e5b4dc2c7ca74aint, 0, 0xa15a032c5a1029c40b3bd957978b9a6c79be1aed82b5a56f91042fbd4a2671fint);
    assert(pow16(0xa15a032c5a1029c40b3bd957978b9a6c79be1aed82b5a56f91042fbd4a2671fint) * small_pow(2, 0) % prime253() == 0xcbddf9b1c03448d616a3bccb854e8c1c4317bb28ba3106cbf8d84f46c8cb578int) by (nonlinear_arith);
    lemma_step(prime253(), 2, 0x1000000000000, 0xa15a032c5a1029c40b3bd957978b9a6c79be1aed82b5a56f91042fbd4a2671fint, 0, 0xcbddf9b1c03448d616a3bccb854e8c1c4317bb28ba3106cbf8d84f46c8cb578int);
    assert(pow16(0xcbddf9b1c03448d616a3bccb854e8c1c4317bb28ba3106cbf8d84f46c8cb578int) * small_pow(2, 0) % prime253() == 0x2fbb143967106f138133045c8dd258d57981f7b77ef2efb08f99a6511515820int) by (nonlinear_arith);
    lemma_step(prime253(), 2, 0x10000000000000, 0xcbddf9b1c03448d616a3bccb854e8c1c4317bb28ba3106cbf8d84f46c8cb578int, 0, 0x2fbb143967106f138133045c8dd258d57981f7b77ef2efb08f99a6511515820int);
    assert(pow16(0x2fbb143967106f138133045c8dd258d57981f7b77ef2efb08f99a6511515820int) * small_pow(2, 0) % prime253() == 0x5f7bbf69ad7b2fd5ecbf6baaab18e3fdb6259e6f88fae12fd756d6342276119int) by (nonlinear_arith);
    lemma_step(prime253(), 2, 0x100000000000000, 0x2fbb143967106f138133045c8dd258d57981f7b77ef2efb08f99a6511515820int, 0, 0x5f7bbf69ad7b2fd5ecbf6baaab18e3fdb6259e6f88fae12fd756d6342276119int);
    assert(pow16(0x5f7bbf69ad7b2fd5ecbf6baaab18e3fdb6259e6f88fae12fd756d6342276119int) * small_pow(2, 0) % prime253() == 0x6e1bed5c833b22f2e84961eca25da6c9b72395be572928eaa9e5a14184fa2e0int) by (nonlinear_arith);
    lemma_step(prime253(), 2, 0x1000000000000000nat, 0x5f7bbf69ad7b2fd5ecbf6baaab18e3fdb6259e6f88fae12fd756d6342276119int, 0, 0x6e1bed5c833b22f2e84961eca25da6c9b72395be572928eaa9e5a14184fa2e0int);
    assert(pow16(0x6e1bed5c833b22f2e84961eca25da6c9b72395be572928eaa9e5a14184fa2e0int) * small_pow(2, 0) % prime253() == 0x3a2007a25d436a2b27e3eed02e9c535ba8cf3689ead175b34ea25946e3d6d36int) by (nonlinear_arith);
    lemma_step(prime253(), 2, 0x10000000000000000nat, 0x6e1bed5c833b22f2e84961eca25da6c9b72395be572928eaa9e5a14184fa2e0int, 0, 0x3a2007a25d436a2b27e3eed02e9c535ba8cf3689ead175b34ea25946e3d6d36int);
    assert(pow16(0x3a2007a25d436a2b27e3eed02e9c535ba8cf3689ead175b34ea25946e3d6d36int) * small_pow(2, 0) % prime253() == 0xcc3c20918e63070ef975f15571b44c2fdd0a8fc26ec5c8b05c12681d42816a1int) by (nonlinear_arith);
    lemma_step(prime253(), 2, 0x100000000000000000nat, 0x3a2007a25d436a2b27e3eed02e9c535ba8cf3689ead175b34ea25946e3d6d36int, 0, 0xcc3c20918e63070ef975f15571b44c2fdd0a8fc26ec5c8b05c12681d42816a1int);
    assert(pow16(0xcc3c20918e63070ef975f15571b44c2fdd0a8fc26ec5c8b05c12681d42816a1int) * small_pow(2, 0) % prime253() == 0x35c76169682f1f35777bedd1dd503ee5dbdcf380a7169fe7ba231c8e7b1b67eint) by (nonlinear_arith);
    lemma_step(prime253(), 2, 0x1000000000000000000nat, 0xcc3c20918e63070ef975f15571b44c2fdd0a8fc26ec5c8b05c12681d42816a1int, 0, 0x35c76169682f1f35777bedd1dd503ee5dbdcf380a7169fe7ba231c8e7b1b67eint);
    assert(pow16(0x35c76169682f1f35777bedd1dd503ee5dbdcf380a7169fe7ba231c8e7b1b67eint) * small_pow(2, 0) % prime253() == 0xe9cc52ab81e7885e2c6828adb517f5c218f2dd39840bebff476cd7356b850a4int) by (nonlinear_arith);
    lemma_step(prime253(), 2, 0x10000000000000000000nat, 0x35c76169682f1f35777bedd1dd503ee5dbdcf380a7169fe7ba231c8e7b1b67eint, 0, 0xe9cc52ab81e7885e2c6828adb517f5c218f2dd39840bebff476cd7356b850a4int);
    assert(pow16(0xe9cc52ab81e7885e2c6828adb517f5c218f2dd39840bebff476cd7356b850a4int) * small_pow(2, 0) % prime253() == 0xf8a7ca3021076303f2ba1ca45441bb6d71cfc0744774a64854148fa8e62d366int) by (nonlinear_arith);
    lemma_step(prime253(), 2, 0x100000000000000000000nat, 0xe9cc52ab81e7885e2c6828adb517f5c218f2dd39840bebff476cd7356b850a4int, 0, 0xf8a7ca3021076303f2ba1ca45441bb6d71cfc0744774a64854148fa8e62d366int);
    assert(pow16(0xf8a7ca3021076303f2ba1ca45441bb6d71cfc0744774a64854148fa8e62d366int) * small_pow(2, 0) % prime253() == 0x7847b18ddc3e528c989e4c1c18ee795b5ce8dafc6db7ad93fd5ca0c007b3ffdint) by (nonlinear_arith);
    lemma_step(prime253(), 2, 0x1000000000000000000000nat, 0xf8a7ca3021076303f2ba1ca45441bb6d71cfc0744774a64854148fa8e62d366int, 0, 0x7847b18ddc3e528c989e4c1c18ee795b5ce8dafc6db7ad93fd5ca0c007b3ffdint);
    assert(pow16(0x7847b18ddc3e528c989e4c1c18ee795b5ce8dafc6db7ad93fd5ca0c007b3ffdint) * small_pow(2, 0) % prime253() == 0x62526fb2dc80fe9e3794ac2a6d82ecf80572fb13b606d89f6d746ee263e76c4int) by (nonlinear_arith);
    lemma_step(prime253(), 2, 0x10000000000000000000000nat, 0x7847b18ddc3e528c989e4c1c18ee795b5ce8dafc6db7ad93fd5ca0c007b3ffdint, 0, 0x62526fb2dc80fe9e3794ac2a6d82ecf80572fb13b606d89f6d746ee263e76c4int);
    assert(pow16(0x62526fb2dc80fe9e3794ac2a6d82ecf80572fb13b606d89f6d746ee263e76c4int) * small_pow(2, 0) % prime253() == 0x239be1c68863486ab4b01ea8fb3b6712c2b7049d5863261cfeb39a9c3e8a880int) by (nonlinear_arith);
    lemma_step(prime253(), 2, 0x100000000000000000000000nat, 0x62526fb2dc80fe9e3794ac2a6d82ecf80572fb13b606d89f6d746ee263e76c4int, 0, 0x239be1c68863486ab4b01ea8fb3b6712c2b7049d5863261cfeb39a9c3e8a880int);
    assert(pow16(0x239be1c68863486ab4b01ea8fb3b6712c2b7049d5863261cfeb39a9c3e8a880int) * small_pow(2, 0) % prime253() == 0x4450c3b8e25f7b99ae5320a80e38d3246d336742bddc2957893b713335975f8int) by (nonlinear_arith);
    lemma_step(prime253(), 2, 0x1000000000000000000000000nat, 0x239be1c68863486ab4b01ea8fb3b6712c2b7049d5863261cfeb39a9c3e8a880int, 0, 0x4450c3b8e25f7b99ae5320a80e38d3246d336742bddc2957893b713335975f8int);
    assert(pow16(0x4450c3b8e25f7b99ae5320a80e38d3246d336742bddc2957893b713335975f8int) * small_pow(2, 0) % prime253() == 0x7fbb98a293618a6c9edd660d05684c16e2bf5f55c32247c6396aaca71b4d59bint) by (nonlinear_arith);
    lemma_step(prime253(), 2, 0x10000000000000000000000000nat, 0x4450c3b8e25f7b99ae5320a80e38d3246d336742bddc2957893b713335975f8int, 0, 0x7fbb98a293618a6c9edd660d05684c16e2bf5f55c32247c6396aaca71b4d59bint);
    assert(pow16(0x7fbb98a293618a6c9edd660d05684c16e2bf5f55c32247c6396aaca71b4d59bint) * small_pow(2, 0) % prime253() == 0xac7bd451d4e2354ef1a6234a016a221e47c271e49dc4a63715f10d40992975int) by (nonlinear_arith);
    lemma_step(prime253(), 2, 0x100000000000000000000000000nat, 0x7fbb98a293618a6c9edd660d05684c16e2bf5f55c32247c6396aaca71b4d59bint, 0, 0xac7bd451d4e2354ef1a6234a016a221e47c271e49dc4a63715f10d40992975int);
    assert(pow16(0xac7bd451d4e2354ef1a6234a016a221e47c271e49dc4a63715f10d40992975int) * small_pow(2, 0) % prime253() == 0xb46a4ac3fd346e317cc3c860442b9dedfef506d6cbe3dc67e82869571e389c6int) by (nonlinear_arith);
    lemma_step(prime253(), 2, 0x1000000000000000000000000000nat, 0xac7bd451d4e2354ef1a6234a016a221e47c271e49dc4a63715f10d40992975int, 0, 0xb46a4ac3fd346e317cc3c860442b9dedfef506d6cbe3dc67e82869571e389c6int);
    assert(pow16(0xb46a4ac3fd346e317cc3c860442b9dedfef506d6cbe3dc67e82869571e389c6int) * small_pow(2, 0) % prime253() == 0x46c02b6e5959111511b91b98c8dee29ae9bfe57f3a63b50d36a930b089dabafint) by (nonlinear_arith);
    lemma_step(prime253(), 2, 0x10000000000000000000000000000nat, 0xb46a4ac3fd346e317cc3c860442b9dedfef506d6cbe3dc67e82869571e389c6int, 0, 0x46c02b6e5959111511b91b98c8dee29ae9bfe57f3a63b50d36a930b089dabafint);
    assert(pow16(0x46c02b6e5959111511b91b98c8dee29ae9bfe57f3a63b50d36a930b089dabafint) * small_pow(2, 0) % prime253() == 0x87e6775614b9efa6ab63a41663f2c6e489ec4dcd30d2afa0e2aefb7cd124343int) by (nonlinear_arith);
    lemma_step(prime253(), 2, 0x100000000000000000000000000000nat, 0x46c02b6e5959111511b91b98c8dee29ae9bfe57f3a63b50d36a930b089dabafint, 0, 0x87e6775614b9efa6ab63a41663f2c6e489ec4dcd30d2afa0e2aefb7cd124343int);
    assert(pow16(0x87e6775614b9efa6ab63a41663f2c6e489ec4dcd30d2afa0e2aefb7cd124343int) * small_pow(2, 0) % prime253() == 0xf9a14a27f7c8e2c046fc0ceb4c8b72846ec1f156e96c8794b34e3c2576ddbf6int) by (nonlinear_arith);
    lemma_step(prime253(), 2, 0x1000000000000000000000000000000nat, 0x87e6775614b9efa6ab63a41663f2c6e489ec4dcd30d2afa0e2aefb7cd124343int, 0, 0xf9a14a27f7c8e2c046fc0ceb4c8b72846ec1f156e96c8794b34e3c2576ddbf6int);
    assert(pow16(0xf9a14a27f7c8e2c046fc0ceb4c8b72846ec1f156e96c8794b34e3c2576ddbf6int) * small_pow(2, 1) % prime253() == 0x37e6a06ad916a54cd3658577a8fa50967603f0f64f1c5601f50b0c946950cc9int) by (nonlinear_arith);
    lemma_step(prime253(), 2, 0x10000000000000000000000000000000nat, 0xf9a14a27f7c8e2c046fc0ceb4c8b72846ec1f156e96c8794b34e3c2576ddbf6int, 1, 0x37e6a06ad916a54cd3658577a8fa50967603f0f64f1c5601f50b0c946950cc9int);
    assert(pow16(0x37e6a06ad916a54cd3658577a8fa50967603f0f64f1c5601f50b0c946950cc9int) * small_pow(2, 4) % prime253() == 0x60aeaef62791cabf88fafe532841d667e4fa90d5c2e4f441ecaad68b8f94a44int) by (nonlinear_arith);
    lemma_step(prime253(), 2, 0x100000000000000000000000000000001nat, 0x37e6a06ad916a54cd3658577a8fa50967603f0f64f1c5601f50b0c946950cc9int, 4, 0x60aeaef62791cabf88fafe532841d667e4fa90d5c2e4f441ecaad68b8f94a44int);
    assert(pow16(0x60aeaef62791cabf88fafe532841d667e4fa90d5c2e4f441ecaad68b8f94a44int) * small_pow(2, 13) % prime253() == 0x8ba675aa745705328b73a8975420efdc5a3a563f1ade344d89506d55df71ffcint) by (nonlinear_arith);
    lemma_step(prime253(), 2, 0x1000000000000000000000000000000014nat, 0x60aeaef62791cabf88fafe532841d667e4fa90d5c2e4f441ecaad68b8f94a44int, 13, 0x8ba675aa745705328b73a8975420efdc5a3a563f1ade344d89506d55df71ffcint);
    assert(pow16(0x8ba675aa745705328b73a8975420efdc5a3a563f1ade344d89506d55df71ffcint) * small_pow(2, 14) % prime253() == 0xafe71bc58bded66a1ddb93105f82448503578333a515aa95fb11a87e5f75c04int) by (nonlinear_arith);
    lemma_step(prime253(), 2, 0x1000000000000000000000000000000014dnat, 0x8ba675aa745705328b73a8975420efdc5a3a563f1ade344d89506d55df71ffcint, 14, 0xafe71bc58bded66a1ddb93105f82448503578333a515aa95fb11a87e5f75c04int);
    assert(pow16(0xafe71bc58bded66a1ddb93105f82448503578333a515aa95fb11a87e5f75c04int) * small_pow(2, 15) % prime253() == 0x6edfa31b7db50d096c7a8401e29eb218d506a5abcd209ac7e9481c22eea3f04int) by (nonlinear_arith);
    lemma_step(prime253(), 2, 0x1000000000000000000000000000000014denat, 0xafe71bc58bded66a1ddb93105f82448503578333a515aa95fb11a87e5f75c04int, 15, 0x6edfa31b7db50d096c7a8401e29eb218d506a5abcd209ac7e9481c22eea3f04int);
    assert(pow16(0x6edfa31b7db50d096c7a8401e29eb218d506a5abcd209ac7e9481c22eea3f04int) * small_pow(2, 9) % prime253() == 0xfa8b7377ff4f24022e94a5795db274ca74a67bedea50a667a8c9a96bd5a8001int) by (nonlinear_arith);
    lemma_step(prime253(), 2, 0x1000000000000000000000000000000014defnat, 0x6edfa31b7db50d096c7a8401e29eb218d506a5abcd209ac7e9481c22eea3f04int, 9, 0xfa8b7377ff4f24022e94a5795db274ca74a67bedea50a667a8c9a96bd5a8001int);
    assert(pow16(0xfa8b7377ff4f24022e94a5795db274ca74a67bedea50a667a8c9a96bd5a8001int) * small_pow(2, 13) % prime253() == 0x34e8d3b72e94012b3bdc0a1ae7997b10925f708aa32708186dc74ed3fef4cd8int) by (nonlinear_arith);
    lemma_step(prime253(), 2, 0x1000000000000000000000000000000014def9nat, 0xfa8b7377ff4f24022e94a5795db274ca74a67bedea50a667a8c9a96bd5a8001int, 13, 0x34e8d3b72e94012b3bdc0a1ae7997b10925f708aa32708186dc74ed3fef4cd8int);
    assert(pow16(0x34e8d3b72e94012b3bdc0a1ae7997b10925f708aa32708186dc74ed3fef4cd8int) * small_pow(2, 14) % prime253() == 0x631abe59a5ab098394a041643f87ead1fcac5489e69c63ccfa5345e3bc4034dint) by (nonlinear_arith);
    lemma_step(prime253(), 2, 0x1000000000000000000000000000000014def9dnat, 0x34e8d3b72e94012b3bdc0a1ae7997b10925f708aa32708186dc74ed3fef4cd8int, 14, 0x631abe59a5ab098394a041643f87ead1fcac5489e69c63ccfa5345e3bc4034dint);
    assert(pow16(0x631abe59a5ab098394a041643f87ead1fcac5489e69c63ccfa5345e3bc4034dint) * small_pow(2, 10) % prime253() == 0x2a957d477979de3f999b3dfab607d5f8bf58a6396078c0c6bcb76e74f684423int) by (nonlinear_arith);
    lemma_step(prime253(), 2, 0x1000000000000000000000000000000014def9denat, 0x631abe59a5ab098394a041643f87ead1fcac5489e69c63ccfa5345e3bc4034dint, 10, 0x2a957d477979de3f999b3dfab607d5f8bf58a6396078c0c6bcb76e74f684423int);
    assert(pow16(0x2a957d477979de3f999b3dfab607d5f8bf58a6396078c0c6bcb76e74f684423int) * small_pow(2, 2) % prime253() == 0x43504ad5838b56d5fab10b41016ea5c047e0859994da0893fa5cff3ff4be7bfint) by (nonlinear_arith);
    lemma_step(prime253(), 2, 0x1000000000000000000000000000000014def9deanat, 0x2a957d477979de3f999b3dfab607d5f8bf58a6396078c0c6bcb76e74f684423int, 2, 0x43504ad5838b56d5fab10b41016ea5c047e0859994da0893fa5cff3ff4be7bfint);
    assert(pow16(0x43504ad5838b56d5fab10b41016ea5c047e0859994da0893fa5cff3ff4be7bfint) * small_pow(2, 15) % prime253() == 0xa801eb2b3d21d8af2a0c24ef7b82eb5e46f23b342d975d42e58835dc8a31ff0int) by (nonlinear_arith);
    lemma_step(prime253(), 2, 0x1000000000000000000000000000000014def9dea2nat, 0x43504ad5838b56d5fab10b41016ea5c047e0859994da0893fa5cff3ff4be7bfint, 15, 0xa801eb2b3d21d8af2a0c24ef7b82eb5e46f23b342d975d42e58835dc8a31ff0int);
    assert(pow16(0xa801eb2b3d21d8af2a0c24ef7b82eb5e46f23b342d975d42e58835dc8a31ff0int) * small_pow(2, 7) % prime253() == 0x3900b3dc53d2b8fcdb06c0ef3eec783954caf9a270b6f8594b685d39eb3fd7bint) by (nonlinear_arith);
    lemma_step(prime253(), 2, 0x1000000000000000000000000000000014def9dea2fnat, 0xa801eb2b3d21d8af2a0c24ef7b82eb5e46f23b342d975d42e58835dc8a31ff0int, 7, 0x3900b3dc53d2b8fcdb06c0ef3eec783954caf9a270b6f8594b685d39eb3fd7bint);
    assert(pow16(0x3900b3dc53d2b8fcdb06c0ef3eec783954caf9a270b6f8594b685d39eb3fd7bint) * small_pow(2, 9) % prime253() == 0x561a6112cfb4ff36f2430f926137cc09fcb53ce2c7f5ef0e12bda4906a7f982int) by (nonlinear_arith);
    lemma_step(prime253(), 2, 0x1000000000000000000000000000000014def9dea2f7nat, 0x3900b3dc53d2b8fcdb06c0ef3eec783954caf9a270b6f8594b685d39eb3fd7bint, 9, 0x561a6112cfb4ff36f2430f926137cc09fcb53ce2c7f5ef0e12bda4906a7f982int);
    assert(pow16(0x561a6112cfb4ff36f2430f926137cc09fcb53ce2c7f5ef0e12bda4906a7f982int) * small_pow(2, 12) % prime253() == 0x6d265522cfd7c250714e73883f84b04168559e598b38d4d05b95a94458ab700int) by (nonlinear_arith);
    lemma_step(prime253(), 2, 0x1000000000000000000000000000000014def9dea2f79nat, 0x561a6112cfb4ff36f2430f926137cc09fcb53ce2c7f5ef0e12bda4906a7f982int, 12, 0x6d265522cfd7c250714e73883f84b04168559e598b38d4d05b95a94458ab700int);
    assert(pow16(0x6d265522cfd7c250714e73883f84b04168559e598b38d4d05b95a94458ab700int) * small_pow(2, 13) % prime253() == 0x2042efec5df60d90a9ba2ba1606fc0bdb7290801ca89d1a1524102ae61781a9int) by (nonlinear_arith);
    lemma_step(prime253(), 2, 0x1000000000000000000000000000000014def9dea2f79cnat, 0x6d265522cfd7c250714e73883f84b04168559e598b38d4d05b95a94458ab700int, 13, 0x2042efec5df60d90a9ba2ba1606fc0bdb7290801ca89d1a1524102ae61781a9int);
    assert(pow16(0x2042efec5df60d90a9ba2ba1606fc0bdb7290801ca89d1a1524102ae61781a9int) * small_pow(2, 6) % prime253() == 0x8965843b7ca50c7106b35ad5036a7a42094ac4d46a97fcf3a9b2230ed82b22eint) by (nonlinear_arith);
    lemma_step(prime253(), 2, 0x1000000000000000000000000000000014def9dea2f79cdnat, 0x2042efec5df60d90a9ba2ba1606fc0bdb7290801ca89d1a1524102ae61781a9int, 6, 0x8965843b7ca50c7106b35ad5036a7a42094ac4d46a97fcf3a9b2230ed82b22eint);
    assert(pow16(0x8965843b7ca50c7106b35ad5036a7a42094ac4d46a97fcf3a9b2230ed82b22eint) * small_pow(2, 5) % prime253() == 0xf088aebc54e072a889562be74f841ca9455928b6df46170e965aa39c8112c0cint) by (nonlinear_arith);
    lemma_step(prime253(), 2, 0x1000000000000000000000000000000014def9dea2f79cd6nat, 0x8965843b7ca50c7106b35ad5036a7a42094ac4d46a97fcf3a9b2230ed82b22eint, 5, 0xf088aebc54e072a889562be74f841ca9455928b6df46170e965aa39c8112c0cint);
    assert(pow16(0xf088aebc54e072a889562be74f841ca9455928b6df46170e965aa39c8112c0cint) * small_pow(2, 8) % prime253() == 0x441278b40aa804a4441cfbeaee0ea458b13207659f50f59088acab02157047aint) by (nonlinear_arith);
    lemma_step(prime253(), 2, 0x1000000000000000000000000000000014def9dea2f79cd65nat, 0xf088aebc54e072a889562be74f841ca9455928b6df46170e965aa39c8112c0cint, 8, 0x441278b40aa804a4441cfbeaee0ea458b13207659f50f59088acab02157047aint);
    assert(pow16(0x441278b40aa804a4441cfbeaee0ea458b13207659f50f59088acab02157047aint) * small_pow(2, 1) % prime253() == 0x1892e28b62766d757c5f19df6a8d3dbd00e67cbbfa0568ae4f9b6463a243138int) by (nonlinear_arith);
    lemma_step(prime253(), 2, 0x1000000000000000000000000000000014def9dea2f79cd658nat, 0x441278b40aa804a4441cfbeaee0ea458b13207659f50f59088acab02157047aint, 1, 0x1892e28b62766d757c5f19df6a8d3dbd00e67cbbfa0568ae4f9b6463a243138int);
    assert(pow16(0x1892e28b62766d757c5f19df6a8d3dbd00e67cbbfa0568ae4f9b6463a243138int) * small_pow(2, 2) % prime253() == 0x6124f1f90d9c2c12ef226af215020bbdd04c9c88f50a4ebb1766f6993a458e4int) by (nonlinear_arith);
    lemma_step(prime253(), 2, 0x1000000000000000000000000000000014def9dea2f79cd6581nat, 0x1892e28b62766d757c5f19df6a8d3dbd00e67cbbfa0568ae4f9b6463a243138int, 2, 0x6124f1f90d9c2c12ef226af215020bbdd04c9c88f50a4ebb1766f6993a458e4int);
    assert(pow16(0x6124f1f90d9c2c12ef226af215020bbdd04c9c88f50a4ebb1766f6993a458e4int) * small_pow(2, 6) % prime253() == 0x45288ccfbb32bc5776668355618812e0aa6a9500ea3f8131951b49d3fc7fedfint) by (nonlinear_arith);
    lemma_step(prime253(), 2, 0x1000000000000000000000000000000014def9dea2f79cd65812nat, 0x6124f1f90d9c2c12ef226af215020bbdd04c9c88f50a4ebb1766f6993a458e4int, 6, 0x45288ccfbb32bc5776668355618812e0aa6a9500ea3f8131951b49d3fc7fedfint);
    assert(pow16(0x45288ccfbb32bc5776668355618812e0aa6a9500ea3f8131951b49d3fc7fedfint) * small_pow(2, 3) % prime253() == 0x55f64b6cc8a14190fda9436e791b74458698f9968c3310e48ba1f873c5cde13int) by (nonlinear_arith);
    lemma_step(prime253(), 2, 0x1000000000000000000000000000000014def9dea2f79cd658126nat, 0x45288ccfbb32bc5776668355618812e0aa6a9500ea3f8131951b49d3fc7fedfint, 3, 0x55f64b6cc8a14190fda9436e791b74458698f9968c3310e48ba1f873c5cde13int);
    assert(pow16(0x55f64b6cc8a14190fda9436e791b74458698f9968c3310e48ba1f873c5cde13int) * small_pow(2, 1) % prime253() == 0xaa9607604406e05790ec1ac762125f8ae1e76d537ee3877499f80606234e18eint) by (nonlinear_arith);
    lemma_step(prime253(), 2, 0x1000000000000000000000000000000014def9dea2f79cd6581263nat, 0x55f64b6cc8a14190fda9436e791b74458698f9968c3310e48ba1f873c5cde13int, 1, 0xaa9607604406e05790ec1ac762125f8ae1e76d537ee3877499f80606234e18eint);
    assert(pow16(0xaa9607604406e05790ec1ac762125f8ae1e76d537ee3877499f80606234e18eint) * small_pow(2, 10) % prime253() == 0x79eac773f9b01cf9f429f91eb2caa0b3f920c91e83e847b4b77e83130116922int) by (nonlinear_arith);
    lemma_step(prime253(), 2, 0x1000000000000000000000000000000014def9dea2f79cd65812631nat, 0xaa9607604406e05790ec1ac762125f8ae1e76d537ee3877499f80606234e18eint, 10, 0x79eac773f9b01cf9f429f91eb2caa0b3f920c91e83e847b4b77e83130116922int);
    assert(pow16(0x79eac773f9b01cf9f429f91eb2caa0b3f920c91e83e847b4b77e83130116922int) * small_pow(2, 5) % prime253() == 0x73b89c2d1b0848cabf2ab2632021f5cdbdb8c59b7744bffb74a0fc8d8d362int) by (nonlinear_arith);
    lemma_step(prime253(), 2, 0x1000000000000000000000000000000014def9dea2f79cd65812631anat, 0x79eac773f9b01cf9f429f91eb2caa0b3f920c91e83e847b4b77e83130116922int, 5, 0x73b89c2d1b0848cabf2ab2632021f5cdbdb8c59b7744bffb74a0fc8d8d362int);
    assert(pow16(0x73b89c2d1b0848cabf2ab2632021f5cdbdb8c59b7744bffb74a0fc8d8d362int) * small_pow(2, 12) % prime253() == 0x5016977ec15ae931521dc6ff27d4f6dacb945f5c041d3c4e78b3ceb5ae443d2int) by (nonlinear_arith);
    lemma_step(prime253(), 2, 0x1000000000000000000000000000000014def9dea2f79cd65812631a5nat, 0x73b89c2d1b0848cabf2ab2632021f5cdbdb8c59b7744bffb74a0fc8d8d362int, 12, 0x5016977ec15ae931521dc6ff27d4f6dacb945f5c041d3c4e78b3ceb5ae443d2int);
    assert(pow16(0x5016977ec15ae931521dc6ff27d4f6dacb945f5c041d3c4e78b3ceb5ae443d2int) * small_pow(2, 15) % prime253() == 0xf6f918f6f632c9cfde152f478a274529f296487fd7cb6fb61fec6fcb416347cint) by (nonlinear_arith);
    lemma_step(prime253(), 2, 0x1000000000000000000000000000000014def9dea2f79cd65812631a5cnat, 0x5016977ec15ae931521dc6ff27d4f6dacb945f5c041d3c4e78b3ceb5ae443d2int, 15, 0xf6f918f6f632c9cfde152f478a274529f296487fd7cb6fb61fec6fcb416347cint);
    assert(pow16(0xf6f918f6f632c9cfde152f478a274529f296487fd7cb6fb61fec6fcb416347cint) * small_pow(2, 5) % prime253() == 0x12870b97c3648b518cc037d62df289c6428f8920be87214812590a1a41114a3int) by (nonlinear_arith);
    lemma_step(prime253(), 2, 0x1000000000000000000000000000000014def9dea2f79cd65812631a5cfnat, 0xf6f918f6f632c9cfde152f478a274529f296487fd7cb6fb61fec6fcb416347cint, 5, 0x12870b97c3648b518cc037d62df289c6428f8920be87214812590a1a41114a3int);
    assert(pow16(0x12870b97c3648b518cc037d62df289c6428f8920be87214812590a1a41114a3int) * small_pow(2, 13) % prime253() == 0x16ee1c56acd6e08dc8540ab202f2c008c81dd68fb1ee35b531279a62a6e7cffint) by (nonlinear_arith);
    lemma_step(prime253(), 2, 0x1000000000000000000000000000000014def9dea2f79cd65812631a5cf5nat, 0x12870b97c3648b518cc037d62df289c6428f8920be87214812590a1a41114a3int, 13, 0x16ee1c56acd6e08dc8540ab202f2c008c81dd68fb1ee35b531279a62a6e7cffint);
    assert(pow16(0x16ee1c56acd6e08dc8540ab202f2c008c81dd68fb1ee35b531279a62a6e7cffint) * small_pow(2, 3) % prime253() == 0x4847178168bc62f4b69678ac015c8930b2a616543e600bf9712ed20cf477b47int) by (nonlinear_arith);
    lemma_step(prime253(), 2, 0x1000000000000000000000000000000014def9dea2f79cd65812631a5cf5dnat, 0x16ee1c56acd6e08dc8540ab202f2c008c81dd68fb1ee35b531279a62a6e7cffint, 3, 0x4847178168bc62f4b69678ac015c8930b2a616543e600bf9712ed20cf477b47int);
    assert(pow16(0x4847178168bc62f4b69678ac015c8930b2a616543e600bf9712ed20cf477b47int) * small_pow(2, 14) % prime253() == 0x93b07239fa73ed24520f4d8eefa1bbc045550e69d4d593e5823b739fca45cceint) by (nonlinear_arith);
    lemma_step(prime253(), 2, 0x1000000000000000000000000000000014def9dea2f79cd65812631a5cf5d3nat, 0x4847178168bc62f4b69678ac015c8930b2a616543e600bf9712ed20cf477b47int, 14, 0x93b07239fa73ed24520f4d8eefa1bbc045550e69d4d593e5823b739fca45cceint);
    assert(pow16(0x93b07239fa73ed24520f4d8eefa1bbc045550e69d4d593e5823b739fca45cceint) * small_pow(2, 12) % prime253() == 1) by (nonlinear_arith);
    lemma_step(prime253(), 2, 0x1000000000000000000000000000000014def9dea2f79cd65812631a5cf5d3enat, 0x93b07239fa73ed24520f4d8eefa1bbc045550e69d4d593e5823b739fca45cceint, 12, 1);
}

proof fn lemma_power_253_0()
    ensures
        eqm(prime253(), pow(2, 0x509faf1d7c73cc776823a348caa44nat), 0x6941747825185c74c21c65c0572a638494435ae0b3ba38e09b97aa8d26faec1int),
{
    lemma_pow_zero(prime253(), 2);
    assert(pow16(1) * small_pow(2, 5) % prime253() == 32) by (nonlinear_arith);
    lemma_step(prime253(), 2, 0, 1, 5, 32);
    assert(pow16(32) * small_pow(2, 0) % prime253() == 0x100000000000000000000int) by (nonlinear_arith);
    lemma_step(prime253(), 2, 5, 32, 0, 0x100000000000000000000int);
    assert(pow16(0x100000000000000000000int) * small_pow(2, 9) % prime253() == 0x8e1d0f0049f716290b33a2cada2072c66d0d50cfedf8c650e2acdc746d8a762int) by (nonlinear_arith);
    lemma_step(prime253(), 2, 80, 0x100000000000000000000int, 9, 0x8e1d0f0049f716290b33a2cada2072c66d0d50cfedf8c650e2acdc746d8a762int);
    assert(pow16(0x8e1d0f0049f716290b33a2cada2072c66d0d50cfedf8c650e2acdc746d8a762int) * small_pow(2, 15) % prime253() == 0x86d818be2df9c0fcbb65bdd50547d29268dc895dded7d19093adf32ffa8eaf8int) by (nonlinear_arith);
    lemma_step(prime253(), 2, 1289, 0x8e1d0f0049f716290b33a2cada2072c66d0d50cfedf8c650e2acdc746d8a762int, 15, 0x86d818be2df9c0fcbb65bdd50547d29268dc895dded7d19093adf32ffa8eaf8int);
    assert(pow16(0x86d818be2df9c0fcbb65bdd50547d29268dc895dded7d19093adf32ffa8eaf8int) * small_pow(2, 10) % prime253() == 0xfc10bad906aad05ddfac7bd4142cfaeb56af42717c26d40fdf9d1c8ec688bb8int) by (nonlinear_arith);
    lemma_step(prime253(), 2, 20639, 0x86d818be2df9c0fcbb65bdd50547d29268dc895dded7d19093adf32ffa8eaf8int, 10, 0xfc10bad906aad05ddfac7bd4142cfaeb56af42717c26d40fdf9d1c8ec688bb8int);
    assert(pow16(0xfc10bad906aad05ddfac7bd4142cfaeb56af42717c26d40fdf9d1c8ec688bb8int) * small_pow(2, 15) % prime253() == 0xd3326110c3b9ed2cf83a06f5692cf1be8bc3fda23e250633b6999cb6d5ca701int) by (nonlinear_arith);
    lemma_step(prime253(), 2, 330234, 0xfc10bad906aad05ddfac7bd4142cfaeb56af42717c26d40fdf9d1c8ec688bb8int, 15, 0xd3326110c3b9ed2cf83a06f5692cf1be8bc3fda23e250633b6999cb6d5ca701int);
    assert(pow16(0xd3326110c3b9ed2cf83a06f5692cf1be8bc3fda23e250633b6999cb6d5ca701int) * small_pow(2, 1) % prime253() == 0xcff02c64ec79d0281f11dbdbffd7ee1c8593e317547a31f934902fd6345787cint) by (nonlinear_arith);
    lemma_step(prime253(), 2, 0x509faf, 0xd3326110c3b9ed2cf83a06f5692cf1be8bc3fda23e250633b6999cb6d5ca701int, 1, 0xcff02c64ec79d0281f11dbdbffd7ee1c8593e317547a31f934902fd6345787cint);
    assert(pow16(0xcff02c64ec79d0281f11dbdbffd7ee1c8593e317547a31f934902fd6345787cint) * small_pow(2, 13) % prime253() == 0x284dc2fe78b178c75f67d9179fc62dafe213b2106a205fae8826f9f37f9e884int) by (nonlinear_arith);
    lemma_step(prime253(), 2, 0x509faf1, 0xcff02c64ec79d0281f11dbdbffd7ee1c8593e317547a31f934902fd6345787cint, 13, 0x284dc2fe78b178c75f67d9179fc62dafe213b2106a205fae8826f9f37f9e884int);
    assert(pow16(0x284dc2fe78b178c75f67d9179fc62dafe213b2106a205fae8826f9f37f9e884int) * small_pow(2, 7) % prime253() == 0x35138bee705b2a1fd0f844f863246426297124467985c54c6809cd61262e598int) by (nonlinear_arith);
    lemma_step(prime253(), 2, 0x509faf1d, 0x284dc2fe78b178c75f67d9179fc62dafe213b2106a205fae8826f9f37f9e884int, 7, 0x35138bee705b2a1fd0f844f863246426297124467985c54c6809cd61262e598int);
    assert(pow16(0x35138bee705b2a1fd0f844f863246426297124467985c54c6809cd61262e598int) * small_pow(2, 12) % prime253() == 0x78222d417ed00f5378f9d686b4571b96deb35c2a8ff34ced14ff96905c67988int) by (nonlinear_arith);
    lemma_step(prime253(), 2, 0x509faf1d7, 0x35138bee705b2a1fd0f844f863246426297124467985c54c6809cd61262e598int, 12, 0x78222d417ed00f5378f9d686b4571b96deb35c2a8ff34ced14ff96905c67988int);
    assert(pow16(0x78222d417ed00f5378f9d686b4571b96deb35c2a8ff34ced14ff96905c67988int) * small_pow(2, 7) % prime253() == 0x776c3b602626c490691221fde46683124be49f53ad00f037735c45dcbd0de73int) by (nonlinear_arith);
    lemma_step(prime253(), 2, 0x509faf1d7c, 0x78222d417ed00f5378f9d686b4571b96deb35c2a8ff34ced14ff96905c67988int, 7, 0x776c3b602626c490691221fde46683124be49f53ad00f037735c45dcbd0de73int);
    assert(pow16(0x776c3b602626c490691221fde46683124be49f53ad00f037735c45dcbd0de73int) * small_pow(2, 3) % prime253() == 0xda8f441e2b443cc229f9e5483e9e42ce6c874237bd467a93b95271e8a5f91a7int) by (nonlinear_arith);
    lemma_step(prime253(), 2, 0x509faf1d7c7, 0x776c3b602626c490691221fde46683124be49f53ad00f037735c45dcbd0de73int, 3, 0xda8f441e2b443cc229f9e5483e9e42ce6c874237bd467a93b95271e8a5f91a7int);
    assert(pow16(0xda8f441e2b443cc229f9e5483e9e42ce6c874237bd467a93b95271e8a5f91a7int) * small_pow(2, 12) % prime253() == 0xa7c8609c140b7a87645c00d42e4ae0140403f0b56211baedb4d5728822cc748int) by (nonlinear_arith);
    lemma_step(prime253(), 2, 0x509faf1d7c73, 0xda8f441e2b443cc229f9e5483e9e42ce6c874237bd467a93b95271e8a5f91a7int, 12, 0xa7c8609c140b7a87645c00d42e4ae0140403f0b56211baedb4d5728822cc748int);
    assert(pow16(0xa7c8609c140b7a87645c00d42e4ae0140403f0b56211baedb4d5728822cc748int) * small_pow(2, 12) % prime253() == 0x2a53279f8297a3fef7d6c5c47ee575c100a167b15138e61d007e48ff1468a86int) by (nonlinear_arith);
    lemma_step(prime253(), 2, 0x509faf1d7c73c, 0xa7c8609c140b7a87645c00d42e4ae0140403f0b56211baedb4d5728822cc748int, 12, 0x2a53279f8297a3fef7d6c5c47ee575c100a167b15138e61d007e48ff1468a86int);
    assert(pow16(0x2a53279f8297a3fef7d6c5c47ee575c100a167b15138e61d007e48ff1468a86int) * small_pow(2, 7) % prime253() == 0xc80eab45fc2fb3103941419dc16fb1c150e58b6c4a5c760d0f6f829de377de3int) by (nonlinear_arith);
    lemma_step(prime253(), 2, 0x509faf1d7c73cc, 0x2a53279f8297a3fef7d6c5c47ee575c100a167b15138e61d007e48ff1468a86int, 7, 0xc80eab45fc2fb3103941419dc16fb1c150e58b6c4a5c760d0f6f829de377de3int);
    assert(pow16(0xc80eab45fc2fb3103941419dc16fb1c150e58b6c4a5c760d0f6f829de377de3int) * small_pow(2, 7) % prime253() == 0x627465a5b4f35ef29fd6e991b6a3085b70485010001643ae306d5d84a422914int) by (nonlinear_arith);
    lemma_step(prime253(), 2, 0x509faf1d7c73cc7, 0xc80eab45fc2fb3103941419dc16fb1c150e58b6c4a5c760d0f6f829de377de3int, 7, 0x627465a5b4f35ef29fd6e991b6a3085b70485010001643ae306d5d84a422914int);
    assert(pow16(0x627465a5b4f35ef29fd6e991b6a3085b70485010001643ae306d5d84a422914int) * small_pow(2, 6) % prime253() == 0xcafae15f16a4be7a9ce2dcaf72c63550f7a2fc9b58a9822e01969bbf508193fint) by (nonlinear_arith);
    lemma_step(prime253(), 2, 0x509faf1d7c73cc77nat, 0x627465a5b4f35ef29fd6e991b6a3085b70485010001643ae306d5d84a422914int, 6, 0xcafae15f16a4be7a9ce2dcaf72c63550f7a2fc9b58a9822e01969bbf508193fint);
    assert(pow16(0xcafae15f16a4be7a9ce2dcaf72c63550f7a2fc9b58a9822e01969bbf508193fint) * small_pow(2, 8) % prime253() == 0x1a4cff3d4dcf275200ec38f583b282e01def447a1b231b4f3c43e736f3e0d67int) by (nonlinear_arith);
    lemma_step(prime253(), 2, 0x509faf1d7c73cc776nat, 0xcafae15f16a4be7a9ce2dcaf72c63550f7a2fc9b58a9822e01969bbf508193fint, 8, 0x1a4cff3d4dcf275200ec38f583b282e01def447a1b231b4f3c43e736f3e0d67int);
    assert(pow16(0x1a4cff3d4dcf275200ec38f583b282e01def447a1b231b4f3c43e736f3e0d67int) * small_pow(2, 2) % prime253() == 0x3d41ac5669e834026c1e29f9acae928d6ffeffb710b1718a9195b345121736dint) by (nonlinear_arith);
    lemma_step(prime253(), 2, 0x509faf1d7c73cc7768nat, 0x1a4cff3d4dcf275200ec38f583b282e01def447a1b231b4f3c43e736f3e0d67int, 2, 0x3d41ac5669e834026c1e29f9acae928d6ffeffb710b1718a9195b345121736dint);
    assert(pow16(0x3d41ac5669e834026c1e29f9acae928d6ffeffb710b1718a9195b345121736dint) * small_pow(2, 3) % prime253() == 0x6b9db0157a1695716fc6d68496ba6e13f5be7c7c792e6cd0a40ea2d49bf54f6int) by (nonlinear_arith);
    lemma_step(prime253(), 2, 0x509faf1d7c73cc77682nat, 0x3d41ac5669e834026c1e29f9acae928d6ffeffb710b1718a9195b345121736dint, 3, 0x6b9db0157a1695716fc6d68496ba6e13f5be7c7c792e6cd0a40ea2d49bf54f6int);
    assert(pow16(0x6b9db0157a1695716fc6d68496ba6e13f5be7c7c792e6cd0a40ea2d49bf54f6int) * small_pow(2, 10) % prime253() == 0x1c2b69cc4b5c2e491778cb0f37f800a42fe9c454070ad9120d4a9383db941d9int) by (nonlinear_arith);
    lemma_step(prime253(), 2, 0x509faf1d7c73cc776823nat, 0x6b9db0157a1695716fc6d68496ba6e13f5be7c7c792e6cd0a40ea2d49bf54f6int, 10, 0x1c2b69cc4b5c2e491778cb0f37f800a42fe9c454070ad9120d4a9383db941d9int);
    assert(pow16(0x1c2b69cc4b5c2e491778cb0f37f800a42fe9c454070ad9120d4a9383db941d9int) * small_pow(2, 3) % prime253() == 0xe7116a18d5c918d871e9e3bcf125b75d2d0e4d5e17c0f04fda4c31078723b8dint) by (nonlinear_arith);
    lemma_step(prime253(), 2, 0x509faf1d7c73cc776823anat, 0x1c2b69cc4b5c2e491778cb0f37f800a42fe9c454070ad9120d4a9383db941d9int, 3, 0xe7116a18d5c918d871e9e3bcf125b75d2d0e4d5e17c0f04fda4c31078723b8dint);
    assert(pow16(0xe7116a18d5c918d871e9e3bcf125b75d2d0e4d5e17c0f04fda4c31078723b8dint) * small_pow(2, 4) % prime253() == 0x87e93f02ef22fe029f4028a904954055642d6a640d07fc9fca9daec16347fafint) by (nonlinear_arith);
    lemma_step(prime253(), 2, 0x509faf1d7c73cc776823a3nat, 0xe7116a18d5c918d871e9e3bcf125b75d2d0e4d5e17c0f04fda4c31078723b8dint, 4, 0x87e93f02ef22fe029f4028a904954055642d6a640d07fc9fca9daec16347fafint);
    assert(pow16(0x87e93f02ef22fe029f4028a904954055642d6a640d07fc9fca9daec16347fafint) * small_pow(2, 8) % prime253() == 0x6507169e1b8cde52ddb2539e39fb2697fb63b4cd8e26b49aa0a0f11762d7f16int) by (nonlinear_arith);
    lemma_step(prime253(), 2, 0x509faf1d7c73cc776823a34nat, 0x87e93f02ef22fe029f4028a904954055642d6a640d07fc9fca9daec16347fafint, 8, 0x6507169e1b8cde52ddb2539e39fb2697fb63b4cd8e26b49aa0a0f11762d7f16int);
    assert(pow16(0x6507169e1b8cde52ddb2539e39fb2697fb63b4cd8e26b49aa0a0f11762d7f16int) * small_pow(2, 12) % prime253() == 0x1887adb4ba8c206054e63011f9f9a7b3aef2ebc4dc26606704ad0bfc914be4int) by (nonlinear_arith);
    lemma_step(prime253(), 2, 0x509faf1d7c73cc776823a348nat, 0x6507169e1b8cde52ddb2539e39fb2697fb63b4cd8e26b49aa0a0f11762d7f16int, 12, 0x1887adb4ba8c206054e63011f9f9a7b3aef2ebc4dc26606704ad0bfc914be4int);
    assert(pow16(0x1887adb4ba8c206054e63011f9f9a7b3aef2ebc4dc26606704ad0bfc914be4int) * small_pow(2, 10) % prime253() == 0x6da1db8430cb1b95bad4ae9d0cf4a1d57564ef336dda2e6a75cd90566c7d6adint) by (nonlinear_arith);
    lemma_step(prime253(), 2, 0x509faf1d7c73cc776823a348cnat, 0x1887adb4ba8c206054e63011f9f9a7b3aef2ebc4dc26606704ad0bfc914be4int, 10, 0x6da1db8430cb1b95bad4ae9d0cf4a1d57564ef336dda2e6a75cd90566c7d6adint);
    assert(pow16(0x6da1db8430cb1b95bad4ae9d0cf4a1d57564ef336dda2e6a75cd90566c7d6adint) * small_pow(2, 10) % prime253() == 0xb572aba64c5a77b0cbad0b93da696f02255a6fbdfc5976c941fce7b74811256int) by (nonlinear_arith);
    lemma_step(prime253(), 2, 0x509faf1d7c73cc776823a348canat, 0x6da1db8430cb1b95bad4ae9d0cf4a1d57564ef336dda2e6a75cd90566c7d6adint, 10, 0xb572aba64c5a77b0cbad0b93da696f02255a6fbdfc5976c941fce7b74811256int);
    assert(pow16(0xb572aba64c5a77b0cbad0b93da696f02255a6fbdfc5976c941fce7b74811256int) * small_pow(2, 4) % prime253() == 0x7e0bc1d1059fc9fd46a6495ef4aca855a37bf4a7c402024242e8a1c94fbb423int) by (nonlinear_arith);
    lemma_step(prime253(), 2, 0x509faf1d7c73cc776823a348caanat, 0xb572aba64c5a77b0cbad0b93da696f02255a6fbdfc5976c941fce7b74811256int, 4, 0x7e0bc1d1059fc9fd46a6495ef4aca855a37bf4a7c402024242e8a1c94fbb423int);
    assert(pow16(0x7e0bc1d1059fc9fd46a6495ef4aca855a37bf4a7c402024242e8a1c94fbb423int) * small_pow(2, 4) % prime253() == 0x6941747825185c74c21c65c0572a638494435ae0b3ba38e09b97aa8d26faec1int) by (nonlinear_arith);
    lemma_step(prime253(), 2, 0x509faf1d7c73cc776823a348caa4nat, 0x7e0bc1d1059fc9fd46a6495ef4aca855a37bf4a7c402024242e8a1c94fbb423int, 4, 0x6941747825185c74c21c65c0572a638494435ae0b3ba38e09b97aa8d26faec1int);
}

/// The order of the base point is prime.
pub proof fn lemma_prime_253()
    ensures
        is_prime(prime253()),
{
    lemma_unit_253();
    lemma_power_253_0();
    assert(0x4f00a20dc254447a5cb50de6926ccd209ebc28f00f1664a7d2f3930fbe411aeint * (0x6941747825185c74c21c65c0572a638494435ae0b3ba38e09b97aa8d26faec1int - 1) % prime253() == 1) by (nonlinear_arith);
    lemma_unit_witness(prime253(), 0x4f00a20dc254447a5cb50de6926ccd209ebc28f00f1664a7d2f3930fbe411aeint, 0x6941747825185c74c21c65c0572a638494435ae0b3ba38e09b97aa8d26faec1int, pow(2, 0x509faf1d7c73cc776823a348caa44nat));
    lemma_prime_138();
    assert forall|r: int| is_prime(r) && #[trigger] divides(r, prime253()) implies r > prime138() by {
        lemma_pocklington(prime253(), prime138(), 0x509faf1d7c73cc776823a348caa44nat, 2, 0x4f00a20dc254447a5cb50de6926ccd209ebc28f00f1664a7d2f3930fbe411aeint, r);
        lemma_above(prime138(), r);
    }
    assert(prime138() * prime138() > prime253()) by (nonlinear_arith);
    lemma_prime_by_bound(prime253(), prime138());
}

} // verus!
