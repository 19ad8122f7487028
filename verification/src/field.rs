//! Arithmetic in the field of `2^255 - 19`, on five limbs of 51 bits.
use crate::bytes::{le256, lemma_le_bounds, load_words, store_words};
use crate::math::congruence::{lemma_eqm_intro, lemma_eqm_pow};
use crate::math::gf::{
    d, d_inverse, eq, finv, lemma_comb1, lemma_constants, lemma_eq_mod, lemma_eq_ops, lemma_eq_refl,
    lemma_eq_small, lemma_eq_sym, lemma_eq_trans, lemma_nonzero_product, lemma_p, lemma_reduced,
    lemma_square_half_power, lemma_swap, p, sqrt_m1,
};
use crate::math::primes::lemma_euclid;
use vstd::arithmetic::power::{lemma_pow1, lemma_pow_adds, lemma_pow_multiplies, pow};
use vstd::arithmetic::power2::{
    lemma2_to64, lemma_pow2_adds, lemma_pow2_pos, lemma_pow2_unfold, pow2,
};
use vstd::prelude::*;

verus! {

/// A field element. Its limbs are below `2^52`, so the integer that they stand
/// for need not be reduced.
#[derive(Clone, Copy, Debug)]
pub struct Fe51 {
    limbs: [u64; 5],
}

const LIMB: u64 = 0x8_0000_0000_0000;

/// The integer that five limbs stand for.
pub open spec fn limb_value(l0: int, l1: int, l2: int, l3: int, l4: int) -> int {
    l0 + 0x8000000000000 * l1 + 0x40000000000000000000000000int * l2
        + 0x200000000000000000000000000000000000000int * l3
        + 0x1000000000000000000000000000000000000000000000000000int * l4
}

/// A difference that is a multiple of the modulus is none in the field.
proof fn lemma_multiple(a: int, b: int, k: int)
    requires
        a - b == k * (0x8000000000000000000000000000000000000000000000000000000000000000int - 19),
    ensures
        eq(a, b),
{
    lemma_p();
    let n = p();
    assert(a - b == n * k) by (nonlinear_arith)
        requires
            a - b == k * n,
    ;
    lemma_eqm_intro(p(), a, b, k);
}

/// Moves what a limb holds beyond 51 bits to the next one, and around.
fn carry(l0: u64, l1: u64, l2: u64, l3: u64, l4: u64) -> (r: Fe51)
    requires
        l0 < 0x40_0000_0000_0000,
        l1 < 0x40_0000_0000_0000,
        l2 < 0x40_0000_0000_0000,
        l3 < 0x40_0000_0000_0000,
        l4 < 0x40_0000_0000_0000,
    ensures
        r.wf(),
        r.limbs[0] < 0x8_0000_0000_0100,
        r.limbs[1] < LIMB,
        r.limbs[2] < LIMB,
        r.limbs[3] < LIMB,
        r.limbs[4] < LIMB,
        eq(r.val(), limb_value(l0 as int, l1 as int, l2 as int, l3 as int, l4 as int)),
{
    let m1: u64 = l1 + l0 / LIMB;
    let m2: u64 = l2 + m1 / LIMB;
    let m3: u64 = l3 + m2 / LIMB;
    let m4: u64 = l4 + m3 / LIMB;
    let c: u64 = m4 / LIMB;
    let r = Fe51 {
        limbs: [l0 % LIMB + 19 * c, m1 % LIMB, m2 % LIMB, m3 % LIMB, m4 % LIMB],
    };
    proof {
        lemma_multiple(
            r.val(),
            limb_value(l0 as int, l1 as int, l2 as int, l3 as int, l4 as int),
            -(c as int),
        );
    }
    r
}

/// The product of two limbs.
fn mul64(a: u64, b: u64) -> (r: u128)
    requires
        a < 0x10_0000_0000_0000,
        b < 0x10_0000_0000_0000,
    ensures
        r == a * b,
        r < 0x100_0000_0000_0000_0000_0000_0000,
{
    assert(a * b < 0x100_0000_0000_0000_0000_0000_0000) by (nonlinear_arith)
        requires
            a < 0x10_0000_0000_0000,
            b < 0x10_0000_0000_0000,
    ;
    a as u128 * b as u128
}

proof fn lemma_term(a: int, s: int, k: int, b: int)
    ensures
        a * (s + k * b) == a * s + k * (a * b),
{
    assert(a * (s + k * b) == a * s + k * (a * b)) by (nonlinear_arith);
}

proof fn lemma_distribute(a: int, b0: int, b1: int, b2: int, b3: int, b4: int)
    ensures
        a * limb_value(b0, b1, b2, b3, b4) == limb_value(a * b0, a * b1, a * b2, a * b3, a * b4),
{
    let k1: int = 0x8000000000000;
    let k2 = 0x40000000000000000000000000int;
    let k3 = 0x200000000000000000000000000000000000000int;
    let k4 = 0x1000000000000000000000000000000000000000000000000000int;
    lemma_term(a, b0, k1, b1);
    lemma_term(a, b0 + k1 * b1, k2, b2);
    lemma_term(a, b0 + k1 * b1 + k2 * b2, k3, b3);
    lemma_term(a, b0 + k1 * b1 + k2 * b2 + k3 * b3, k4, b4);
}

/// The schoolbook product of two five-limb integers.
proof fn lemma_schoolbook(a: Seq<int>, b: Seq<int>)
    requires
        a.len() == 5,
        b.len() == 5,
    ensures
        limb_value(a[0], a[1], a[2], a[3], a[4]) * limb_value(b[0], b[1], b[2], b[3], b[4])
            == limb_value(
            a[0] * b[0],
            a[0] * b[1] + a[1] * b[0],
            a[0] * b[2] + a[1] * b[1] + a[2] * b[0],
            a[0] * b[3] + a[1] * b[2] + a[2] * b[1] + a[3] * b[0],
            a[0] * b[4] + a[1] * b[3] + a[2] * b[2] + a[3] * b[1] + a[4] * b[0],
        ) + 0x8000000000000000000000000000000000000000000000000000000000000000int * limb_value(
            a[1] * b[4] + a[2] * b[3] + a[3] * b[2] + a[4] * b[1],
            a[2] * b[4] + a[3] * b[3] + a[4] * b[2],
            a[3] * b[4] + a[4] * b[3],
            a[4] * b[4],
            0,
        ),
{
    let v = limb_value(b[0], b[1], b[2], b[3], b[4]);
    lemma_distribute(v, a[0], a[1], a[2], a[3], a[4]);
    lemma_distribute(a[0], b[0], b[1], b[2], b[3], b[4]);
    lemma_distribute(a[1], b[0], b[1], b[2], b[3], b[4]);
    lemma_distribute(a[2], b[0], b[1], b[2], b[3], b[4]);
    lemma_distribute(a[3], b[0], b[1], b[2], b[3], b[4]);
    lemma_distribute(a[4], b[0], b[1], b[2], b[3], b[4]);
    let u = limb_value(a[0], a[1], a[2], a[3], a[4]);
    assert(u * v == v * u) by (nonlinear_arith);
    assert(v * a[0] == a[0] * v) by (nonlinear_arith);
    assert(v * a[1] == a[1] * v) by (nonlinear_arith);
    assert(v * a[2] == a[2] * v) by (nonlinear_arith);
    assert(v * a[3] == a[3] * v) by (nonlinear_arith);
    assert(v * a[4] == a[4] * v) by (nonlinear_arith);
}

impl Fe51 {
    /// The bound on the limbs.
    pub closed spec fn wf(self) -> bool {
        &&& self.limbs[0] < 0x10_0000_0000_0000
        &&& self.limbs[1] < 0x10_0000_0000_0000
        &&& self.limbs[2] < 0x10_0000_0000_0000
        &&& self.limbs[3] < 0x10_0000_0000_0000
        &&& self.limbs[4] < 0x10_0000_0000_0000
    }

    /// The integer that the limbs stand for.
    pub closed spec fn val(self) -> int {
        limb_value(
            self.limbs[0] as int,
            self.limbs[1] as int,
            self.limbs[2] as int,
            self.limbs[3] as int,
            self.limbs[4] as int,
        )
    }

    pub fn zero() -> (r: Self)
        ensures
            r.wf(),
            r.val() == 0,
    {
        Fe51 { limbs: [0, 0, 0, 0, 0] }
    }

    pub fn one() -> (r: Self)
        ensures
            r.wf(),
            r.val() == 1,
    {
        Fe51 { limbs: [1, 0, 0, 0, 0] }
    }

    pub fn two() -> (r: Self)
        ensures
            r.wf(),
            r.val() == 2,
    {
        Fe51 { limbs: [2, 0, 0, 0, 0] }
    }

    /// The curve constant.
    pub fn d() -> (r: Self)
        ensures
            r.wf(),
            r.val() == d(),
    {
        proof {
            reveal(d);
        }
        Fe51 {
            limbs: [
                0x34dca135978a3,
                0x1a8283b156ebd,
                0x5e7a26001c029,
                0x739c663a03cbb,
                0x52036cee2b6ff,
            ],
        }
    }

    /// Twice the curve constant.
    pub fn two_d() -> (r: Self)
        ensures
            r.wf(),
            eq(r.val(), 2 * d()),
    {
        proof {
            reveal(d);
        }
        let r = Fe51 {
            limbs: [
                0x69b9426b2f159,
                0x35050762add7a,
                0x3cf44c0038052,
                0x6738cc7407977,
                0x2406d9dc56dff,
            ],
        };
        proof {
            lemma_multiple(r.val(), 2 * d(), -1);
        }
        r
    }

    /// The inverse of the curve constant.
    pub fn d_inv() -> (r: Self)
        ensures
            r.wf(),
            r.val() == d_inverse(),
    {
        proof {
            reveal(d_inverse);
        }
        Fe51 { limbs: [0xf276cdc9f843, 0x3084f2a85c4bc, 0x6e73d982d775a, 0x721958b108a66, 0x40907ed214d5c] }
    }

    /// A square root of minus one.
    pub fn sqrt_minus_one() -> (r: Self)
        ensures
            r.wf(),
            r.val() == sqrt_m1(),
    {
        proof {
            reveal(sqrt_m1);
        }
        Fe51 { limbs: [0x61b274a0ea0b0, 0xd5a5fc8f189d, 0x7ef5e9cbd0c60, 0x78595a6804c9e, 0x2b8324804fc1d] }
    }

    pub fn add(&self, rhs: &Self) -> (r: Self)
        requires
            self.wf(),
            rhs.wf(),
        ensures
            r.wf(),
            eq(r.val(), self.val() + rhs.val()),
    {
        carry(
            self.limbs[0] + rhs.limbs[0],
            self.limbs[1] + rhs.limbs[1],
            self.limbs[2] + rhs.limbs[2],
            self.limbs[3] + rhs.limbs[3],
            self.limbs[4] + rhs.limbs[4],
        )
    }

    pub fn subtract(&self, rhs: &Self) -> (r: Self)
        requires
            self.wf(),
            rhs.wf(),
        ensures
            r.wf(),
            eq(r.val(), self.val() - rhs.val()),
    {
        // Four times the modulus, limb by limb, keeps every limb positive.
        let l0: u64 = self.limbs[0] + 0x1f_ffff_ffff_ffb4 - rhs.limbs[0];
        let l1: u64 = self.limbs[1] + 0x1f_ffff_ffff_fffc - rhs.limbs[1];
        let l2: u64 = self.limbs[2] + 0x1f_ffff_ffff_fffc - rhs.limbs[2];
        let l3: u64 = self.limbs[3] + 0x1f_ffff_ffff_fffc - rhs.limbs[3];
        let l4: u64 = self.limbs[4] + 0x1f_ffff_ffff_fffc - rhs.limbs[4];
        let r = carry(l0, l1, l2, l3, l4);
        proof {
            let v = limb_value(l0 as int, l1 as int, l2 as int, l3 as int, l4 as int);
            lemma_multiple(v, self.val() - rhs.val(), 4);
            lemma_eq_trans(r.val(), v, self.val() - rhs.val());
        }
        r
    }

    pub fn negate(&self) -> (r: Self)
        requires
            self.wf(),
        ensures
            r.wf(),
            eq(r.val(), -self.val()),
    {
        Fe51::zero().subtract(self)
    }

    pub fn double(&self) -> (r: Self)
        requires
            self.wf(),
        ensures
            r.wf(),
            eq(r.val(), 2 * self.val()),
    {
        self.add(self)
    }

    pub fn multiply(&self, rhs: &Self) -> (r: Self)
        requires
            self.wf(),
            rhs.wf(),
        ensures
            r.wf(),
            eq(r.val(), self.val() * rhs.val()),
    {
        let a0: u64 = self.limbs[0];
        let a1: u64 = self.limbs[1];
        let a2: u64 = self.limbs[2];
        let a3: u64 = self.limbs[3];
        let a4: u64 = self.limbs[4];
        let b0: u64 = rhs.limbs[0];
        let b1: u64 = rhs.limbs[1];
        let b2: u64 = rhs.limbs[2];
        let b3: u64 = rhs.limbs[3];
        let b4: u64 = rhs.limbs[4];
        let r0: u128 = mul64(a0, b0) + 19 * (mul64(a1, b4) + mul64(a2, b3) + mul64(a3, b2) + mul64(
            a4,
            b1,
        ));
        let r1: u128 = mul64(a0, b1) + mul64(a1, b0) + 19 * (mul64(a2, b4) + mul64(a3, b3) + mul64(
            a4,
            b2,
        ));
        let r2: u128 = mul64(a0, b2) + mul64(a1, b1) + mul64(a2, b0) + 19 * (mul64(a3, b4) + mul64(
            a4,
            b3,
        ));
        let r3: u128 = mul64(a0, b3) + mul64(a1, b2) + mul64(a2, b1) + mul64(a3, b0) + 19 * mul64(
            a4,
            b4,
        );
        let r4: u128 = mul64(a0, b4) + mul64(a1, b3) + mul64(a2, b2) + mul64(a3, b1) + mul64(a4, b0);
        let r = carry_wide(r0, r1, r2, r3, r4);
        proof {
            let a = seq![a0 as int, a1 as int, a2 as int, a3 as int, a4 as int];
            let b = seq![b0 as int, b1 as int, b2 as int, b3 as int, b4 as int];
            lemma_schoolbook(a, b);
            let v = limb_value(r0 as int, r1 as int, r2 as int, r3 as int, r4 as int);
            let h = limb_value(
                a1 * b4 + a2 * b3 + a3 * b2 + a4 * b1,
                a2 * b4 + a3 * b3 + a4 * b2,
                a3 * b4 + a4 * b3,
                (a4 * b4) as int,
                0,
            );
            lemma_multiple(v, self.val() * rhs.val(), -h);
            lemma_eq_trans(r.val(), v, self.val() * rhs.val());
        }
        r
    }

    pub fn square(&self) -> (r: Self)
        requires
            self.wf(),
        ensures
            r.wf(),
            eq(r.val(), self.val() * self.val()),
    {
        self.multiply(self)
    }
}

/// Brings the limbs of a product back under their bound.
fn carry_wide(l0: u128, l1: u128, l2: u128, l3: u128, l4: u128) -> (r: Fe51)
    requires
        l0 < 0x8000_0000_0000_0000_0000_0000_0000,
        l1 < 0x8000_0000_0000_0000_0000_0000_0000,
        l2 < 0x8000_0000_0000_0000_0000_0000_0000,
        l3 < 0x8000_0000_0000_0000_0000_0000_0000,
        l4 < 0x800_0000_0000_0000_0000_0000_0000,
    ensures
        r.wf(),
        eq(r.val(), limb_value(l0 as int, l1 as int, l2 as int, l3 as int, l4 as int)),
{
    let m: u128 = 0x8_0000_0000_0000;
    let m1: u128 = l1 + l0 / m;
    let m2: u128 = l2 + m1 / m;
    let m3: u128 = l3 + m2 / m;
    let m4: u128 = l4 + m3 / m;
    let c: u128 = m4 / m;
    let n0: u128 = l0 % m + 19 * c;
    let n1: u128 = m1 % m + n0 / m;
    let r = Fe51 {
        limbs: [
            (n0 % m) as u64,
            n1 as u64,
            (m2 % m) as u64,
            (m3 % m) as u64,
            (m4 % m) as u64,
        ],
    };
    proof {
        lemma_multiple(
            r.val(),
            limb_value(l0 as int, l1 as int, l2 as int, l3 as int, l4 as int),
            -(c as int),
        );
    }
    r
}

impl Fe51 {
    /// The representative with limbs of 51 bits that is below the modulus.
    fn canonical(&self) -> (r: Self)
        requires
            self.wf(),
        ensures
            r.limbs[0] < LIMB,
            r.limbs[1] < LIMB,
            r.limbs[2] < LIMB,
            r.limbs[3] < LIMB,
            r.limbs[4] < LIMB,
            r.wf(),
            r.val() == self.val() % p(),
    {
        let w = carry(self.limbs[0], self.limbs[1], self.limbs[2], self.limbs[3], self.limbs[4]);
        // One where the value reaches the modulus, zero elsewhere.
        let q0: u64 = (w.limbs[0] + 19) / LIMB;
        let q1: u64 = (w.limbs[1] + q0) / LIMB;
        let q2: u64 = (w.limbs[2] + q1) / LIMB;
        let q3: u64 = (w.limbs[3] + q2) / LIMB;
        let q: u64 = (w.limbs[4] + q3) / LIMB;
        proof {
            lemma_p();
            assert(q == if w.val() >= p() { 1int } else { 0 });
        }
        let l0: u64 = w.limbs[0] + 19 * q;
        let l1: u64 = w.limbs[1] + l0 / LIMB;
        let l2: u64 = w.limbs[2] + l1 / LIMB;
        let l3: u64 = w.limbs[3] + l2 / LIMB;
        let l4: u64 = w.limbs[4] + l3 / LIMB;
        let r = Fe51 { limbs: [l0 % LIMB, l1 % LIMB, l2 % LIMB, l3 % LIMB, l4 % LIMB] };
        proof {
            assert(l4 / LIMB == q);
            lemma_multiple(r.val(), w.val(), -(q as int));
            lemma_eq_trans(r.val(), w.val(), self.val());
            lemma_reduced(self.val());
            lemma_eq_trans(r.val(), self.val(), self.val() % p());
            lemma_eq_small(r.val(), self.val() % p());
        }
        r
    }

    /// Whether two elements are the same.
    pub fn equals(&self, rhs: &Self) -> (r: bool)
        requires
            self.wf(),
            rhs.wf(),
        ensures
            r == eq(self.val(), rhs.val()),
    {
        let a = self.canonical();
        let b = rhs.canonical();
        proof {
            lemma_eq_mod(self.val(), rhs.val());
            if a.val() == b.val() {
                lemma_limbs_injective(a, b);
            }
        }
        a.limbs[0] == b.limbs[0] && a.limbs[1] == b.limbs[1] && a.limbs[2] == b.limbs[2]
            && a.limbs[3] == b.limbs[3] && a.limbs[4] == b.limbs[4]
    }

    /// Whether the reduced representative is odd.
    pub fn is_odd(&self) -> (r: bool)
        requires
            self.wf(),
        ensures
            r == ((self.val() % p()) % 2 == 1),
    {
        self.canonical().limbs[0] % 2 == 1
    }

    /// Reads an integer, which need not be reduced.
    pub fn from_bytes_unchecked(bytes: &[u8; 32]) -> (r: Self)
        ensures
            r.wf(),
            r.val() == le256(bytes@),
    {
        let w = load_words(bytes);
        proof {
            lemma_le_bounds(bytes@);
        }
        Fe51 {
            limbs: [
                w[0] % LIMB,
                w[0] / LIMB + 0x2000 * (w[1] % 0x40_0000_0000),
                w[1] / 0x40_0000_0000 + 0x400_0000 * (w[2] % 0x200_0000),
                w[2] / 0x200_0000 + 0x80_0000_0000 * (w[3] % 0x1000),
                w[3] / 0x1000,
            ],
        }
    }

    /// Writes the reduced representative.
    pub fn to_bytes(&self) -> (b: [u8; 32])
        requires
            self.wf(),
        ensures
            le256(b@) == self.val() % p(),
            b[31] < 128,
    {
        let c = self.canonical();
        let w0: u64 = c.limbs[0] + LIMB * (c.limbs[1] % 0x2000);
        let w1: u64 = c.limbs[1] / 0x2000 + 0x40_0000_0000 * (c.limbs[2] % 0x400_0000);
        let w2: u64 = c.limbs[2] / 0x400_0000 + 0x200_0000 * (c.limbs[3] % 0x80_0000_0000);
        let w3: u64 = c.limbs[3] / 0x80_0000_0000 + 0x1000 * c.limbs[4];
        store_words(&[w0, w1, w2, w3])
    }

    /// The power `2^k`, by repeated squaring.
    fn pow2k(&self, k: u32) -> (r: Self)
        requires
            self.wf(),
        ensures
            r.wf(),
            eq(r.val(), pow(self.val(), pow2(k as nat))),
    {
        let mut r = *self;
        let mut i: u32 = 0;
        proof {
            lemma_pow1(self.val());
            lemma2_to64();
            lemma_eq_refl(self.val());
        }
        while i < k
            invariant
                i <= k,
                r.wf(),
                eq(r.val(), pow(self.val(), pow2(i as nat))),
            decreases k - i,
        {
            let ghost v = r.val();
            r = r.square();
            proof {
                let e = pow2(i as nat);
                let q = pow(self.val(), e);
                lemma_eq_ops(v, q, v, q);
                lemma_pow_adds(self.val(), e, e);
                lemma_pow2_unfold((i + 1) as nat);
                lemma_eq_trans(r.val(), v * v, q * q);
            }
            i += 1;
        }
        r
    }

    /// The powers `2^250 - 1` and `11`.
    fn pow22501(&self) -> (r: (Self, Self))
        requires
            self.wf(),
        ensures
            r.0.wf(),
            r.1.wf(),
            eq(r.0.val(), pow(self.val(), (pow2(250) - 1) as nat)),
            eq(r.1.val(), pow(self.val(), 11)),
    {
        let ghost a = self.val();
        proof {
            lemma_pow1(a);
            lemma_eq_refl(a);
            lemma2_to64();
            lemma_pow2_adds(50, 50);
            lemma_pow2_adds(100, 100);
            lemma_pow2_adds(200, 50);
            lemma_pow2_adds(10, 10);
            lemma_pow2_adds(20, 20);
            lemma_pow2_adds(40, 10);
            lemma_pow2_adds(5, 5);
        }
        let t0 = self.pow2k(1);
        proof {
            lemma_power_raise(a, a, 1, 1, t0.val());
        }
        let t1 = t0.pow2k(2);
        proof {
            lemma_power_raise(a, t0.val(), 2, 2, t1.val());
        }
        let t2 = self.multiply(&t1);
        proof {
            lemma_power_product(a, a, 1, t1.val(), 8, t2.val());
        }
        let t3 = t0.multiply(&t2);
        proof {
            lemma_power_product(a, t0.val(), 2, t2.val(), 9, t3.val());
        }
        let t4 = t3.pow2k(1);
        proof {
            lemma_power_raise(a, t3.val(), 11, 1, t4.val());
        }
        let t5 = t2.multiply(&t4);
        proof {
            lemma_power_product(a, t2.val(), 9, t4.val(), 22, t5.val());
            assert(31 == pow2(5) - 1);
        }
        let t7 = t5.ones(&t5, 5, Ghost(a), Ghost(5));
        let t9 = t7.ones(&t7, 10, Ghost(a), Ghost(10));
        let t11 = t9.ones(&t9, 20, Ghost(a), Ghost(20));
        let t13 = t11.ones(&t7, 10, Ghost(a), Ghost(40));
        let t15 = t13.ones(&t13, 50, Ghost(a), Ghost(50));
        let t17 = t15.ones(&t15, 100, Ghost(a), Ghost(100));
        let t19 = t17.ones(&t13, 50, Ghost(a), Ghost(200));
        (t19, t3)
    }

    /// From the powers `2^m - 1` and `2^k - 1` of `a`, the power
    /// `2^(m + k) - 1`.
    fn ones(&self, low: &Self, k: u32, Ghost(a): Ghost<int>, Ghost(m): Ghost<nat>) -> (r: Self)
        requires
            self.wf(),
            low.wf(),
            eq(self.val(), pow(a, (pow2(m) - 1) as nat)),
            eq(low.val(), pow(a, (pow2(k as nat) - 1) as nat)),
        ensures
            r.wf(),
            eq(r.val(), pow(a, (pow2(m + k as nat) - 1) as nat)),
    {
        let t = self.pow2k(k);
        let r = t.multiply(low);
        proof {
            lemma_pow2_pos(m);
            lemma_pow2_pos(k as nat);
            let e = (pow2(m) - 1) as nat;
            lemma_power_raise(a, self.val(), e, k as nat, t.val());
            let f = e * pow2(k as nat);
            let g = (pow2(k as nat) - 1) as nat;
            lemma_power_product(a, t.val(), f, low.val(), g, r.val());
            lemma_pow2_adds(m, k as nat);
            let x = pow2(m) as int;
            let y = pow2(k as nat) as int;
            assert((x - 1) * y + (y - 1) == x * y - 1) by (nonlinear_arith);
        }
        r
    }

    /// The inverse; zero for zero.
    pub fn invert(&self) -> (r: Self)
        requires
            self.wf(),
        ensures
            r.wf(),
            eq(r.val(), finv(self.val())),
    {
        let (t19, t3) = self.pow22501();
        let t20 = t19.pow2k(5);
        let r = t20.multiply(&t3);
        proof {
            let a = self.val();
            lemma_pow2_250();
            lemma2_to64();
            let e = (pow2(250) - 1) as nat;
            lemma_power_raise(a, t19.val(), e, 5, t20.val());
            lemma_power_product(a, t20.val(), e * 32, t3.val(), 11, r.val());
            reveal(finv);
            lemma_p();
            lemma_reduced(pow(a, (p() - 2) as nat));
            assert(e * 32 + 11 == p() - 2);
            lemma_eq_trans(r.val(), pow(a, (p() - 2) as nat), finv(a));
        }
        r
    }

    /// The power `(p - 5) / 8`.
    fn pow_p58(&self) -> (r: Self)
        requires
            self.wf(),
        ensures
            r.wf(),
            eq(r.val(), pow(self.val(), ((p() - 5) / 8) as nat)),
    {
        let (t19, _) = self.pow22501();
        let t20 = t19.pow2k(2);
        let r = self.multiply(&t20);
        proof {
            let a = self.val();
            lemma_pow2_250();
            lemma2_to64();
            lemma_pow1(a);
            lemma_eq_refl(a);
            let e = (pow2(250) - 1) as nat;
            lemma_power_raise(a, t19.val(), e, 2, t20.val());
            lemma_power_product(a, a, 1, t20.val(), e * 4, r.val());
            lemma_p();
            assert(1 + e * 4 == (p() - 5) / 8);
        }
        r
    }
}

/// The lowest limb of an integer and the rest of it.
proof fn lemma_limb(x0: int, x: int, y0: int, y: int)
    requires
        0 <= x0 < LIMB,
        0 <= y0 < LIMB,
        x0 + LIMB * x == y0 + LIMB * y,
    ensures
        x0 == y0,
        x == y,
{
}

/// Limbs of 51 bits are determined by the integer that they stand for.
proof fn lemma_limbs_injective(a: Fe51, b: Fe51)
    requires
        a.limbs[0] < LIMB,
        a.limbs[1] < LIMB,
        a.limbs[2] < LIMB,
        a.limbs[3] < LIMB,
        b.limbs[0] < LIMB,
        b.limbs[1] < LIMB,
        b.limbs[2] < LIMB,
        b.limbs[3] < LIMB,
        a.val() == b.val(),
    ensures
        a.limbs[0] == b.limbs[0],
        a.limbs[1] == b.limbs[1],
        a.limbs[2] == b.limbs[2],
        a.limbs[3] == b.limbs[3],
        a.limbs[4] == b.limbs[4],
{
    let x3 = a.limbs[3] + LIMB * a.limbs[4];
    let x2 = a.limbs[2] + LIMB * x3;
    let x1 = a.limbs[1] + LIMB * x2;
    let y3 = b.limbs[3] + LIMB * b.limbs[4];
    let y2 = b.limbs[2] + LIMB * y3;
    let y1 = b.limbs[1] + LIMB * y2;
    lemma_limb(a.limbs[0] as int, x1, b.limbs[0] as int, y1);
    lemma_limb(a.limbs[1] as int, x2, b.limbs[1] as int, y2);
    lemma_limb(a.limbs[2] as int, x3, b.limbs[2] as int, y3);
    lemma_limb(a.limbs[3] as int, a.limbs[4] as int, b.limbs[3] as int, b.limbs[4] as int);
}

proof fn lemma_pow2_250()
    ensures
        pow2(250) == 0x400000000000000000000000000000000000000000000000000000000000000int,
{
    lemma2_to64();
    lemma_pow2_adds(32, 26);
    lemma_pow2_adds(58, 64);
    lemma_pow2_adds(122, 64);
    lemma_pow2_adds(186, 64);
    let a = pow2(32) as int;
    let b = pow2(26) as int;
    let w = pow2(64) as int;
    let c = pow2(58) as int;
    let e = pow2(122) as int;
    let f = pow2(186) as int;
    assert(a * b == 0x400000000000000int) by (nonlinear_arith)
        requires
            a == 0x100000000int,
            b == 0x4000000int,
    ;
    assert(c * w == 0x4000000000000000000000000000000int) by (nonlinear_arith)
        requires
            c == 0x400000000000000int,
            w == 0x10000000000000000int,
    ;
    assert(e * w == 0x40000000000000000000000000000000000000000000000int) by (nonlinear_arith)
        requires
            e == 0x4000000000000000000000000000000int,
            w == 0x10000000000000000int,
    ;
    assert(f * w == 0x400000000000000000000000000000000000000000000000000000000000000int) by (nonlinear_arith)
        requires
            f == 0x40000000000000000000000000000000000000000000000int,
            w == 0x10000000000000000int,
    ;
}

/// Raising a power to a power of two.
proof fn lemma_power_raise(a: int, x: int, e: nat, k: nat, r: int)
    requires
        eq(x, pow(a, e)),
        eq(r, pow(x, pow2(k))),
    ensures
        eq(r, pow(a, e * pow2(k))),
{
    lemma_p();
    lemma_eqm_pow(p(), x, pow(a, e), pow2(k));
    lemma_pow_multiplies(a, e, pow2(k));
    lemma_eq_trans(r, pow(x, pow2(k)), pow(a, e * pow2(k)));
}

/// Multiplying two powers.
proof fn lemma_power_product(a: int, x: int, e: nat, y: int, f: nat, r: int)
    requires
        eq(x, pow(a, e)),
        eq(y, pow(a, f)),
        eq(r, x * y),
    ensures
        eq(r, pow(a, e + f)),
{
    lemma_eq_ops(x, pow(a, e), y, pow(a, f));
    lemma_pow_adds(a, e, f);
    lemma_eq_trans(r, x * y, pow(a, e + f));
}

impl Fe51 {
    /// A square root of `u / v`: some `r` with `v r^2 == u`, or none where no
    /// element has that property.
    pub fn sqrt_ratio(u: &Self, v: &Self) -> (r: Option<Self>)
        requires
            u.wf(),
            v.wf(),
        ensures
            match r {
                Some(x) => x.wf() && is_root(u.val(), v.val(), x.val()),
                None => forall|w: int| !is_root(u.val(), v.val(), w),
            },
    {
        let v2 = v.square();
        let v3 = v2.multiply(v);
        let v6 = v3.square();
        let v7 = v6.multiply(v);
        let c = u.multiply(&v7);
        let t = c.pow_p58();
        let uv3 = u.multiply(&v3);
        let r = uv3.multiply(&t);
        let r2 = r.square();
        let check = v.multiply(&r2);
        let minus_u = u.negate();
        proof {
            let (a, b) = (u.val(), v.val());
            let b3 = (b * b) * b;
            let b7 = (b3 * b3) * b;
            let e = ((p() - 5) / 8) as nat;
            lemma_eq_refl(a);
            lemma_eq_refl(b);
            lemma_times(v2.val(), b * b, b, b, v3.val());
            lemma_times(v3.val(), b3, v3.val(), b3, v6.val());
            lemma_times(v6.val(), b3 * b3, b, b, v7.val());
            lemma_times(a, a, v7.val(), b7, c.val());
            lemma_p();
            lemma_eqm_pow(p(), c.val(), a * b7, e);
            lemma_eq_trans(t.val(), pow(c.val(), e), pow(a * b7, e));
            lemma_times(a, a, v3.val(), b3, uv3.val());
            lemma_times(uv3.val(), a * b3, t.val(), pow(a * b7, e), r.val());
            let x = (a * b3) * pow(a * b7, e);
            lemma_times(r.val(), x, r.val(), x, r2.val());
            lemma_times(b, b, r2.val(), x * x, check.val());
            lemma_candidate(a, b);
            lemma_times(b, b, r2.val(), r.val() * r.val(), check.val());
            lemma_eq_sym(check.val(), b * (r.val() * r.val()));
        }
        if check.equals(u) {
            proof {
                lemma_eq_trans(v.val() * (r.val() * r.val()), check.val(), u.val());
            }
            Some(r)
        } else if check.equals(&minus_u) {
            let i = Fe51::sqrt_minus_one();
            let s = r.multiply(&i);
            proof {
                let (a, b) = (u.val(), v.val());
                lemma_eq_trans(check.val(), minus_u.val(), -a);
                lemma_eq_trans(b * (r.val() * r.val()), check.val(), -a);
                lemma_other_root(a, b, r.val(), s.val());
            }
            Some(s)
        } else {
            proof {
                let (a, b) = (u.val(), v.val());
                let k = root_sign(a, b);
                assert forall|w: int| !is_root(a, b, w) by {
                    if is_root(a, b, w) {
                        lemma_root_sign(a, b, w);
                        if eq(a * k, a) {
                            lemma_eq_trans(check.val(), a * k, a);
                        } else {
                            lemma_eq_trans(check.val(), a * k, -a);
                            lemma_eq_sym(minus_u.val(), -a);
                            lemma_eq_trans(check.val(), -a, minus_u.val());
                        }
                    }
                }
            }
            None
        }
    }
}

/// The square roots of `u / v`.
pub open spec fn is_root(u: int, v: int, w: int) -> bool {
    eq(v * (w * w), u)
}

/// The power `(p - 1) / 4` of `u v^7`, which tells whether `u / v` is a square.
spec fn root_sign(u: int, v: int) -> int {
    let v3 = (v * v) * v;
    pow(u * ((v3 * v3) * v), ((p() - 1) / 4) as nat)
}

/// Products of equal elements, with a name for the result.
proof fn lemma_times(a: int, a2: int, b: int, b2: int, r: int)
    requires
        eq(a, a2),
        eq(b, b2),
        eq(r, a * b),
    ensures
        eq(r, a2 * b2),
{
    lemma_eq_ops(a, a2, b, b2);
    lemma_eq_trans(r, a * b, a2 * b2);
}

/// The candidate root's square, times `v`, is `u` times its sign.
proof fn lemma_candidate(u: int, v: int)
    ensures
        ({
            let v3 = (v * v) * v;
            let c = u * ((v3 * v3) * v);
            let x = (u * v3) * pow(c, ((p() - 5) / 8) as nat);
            v * (x * x) == u * root_sign(u, v)
        }),
{
    lemma_p();
    let v3 = (v * v) * v;
    let v7 = (v3 * v3) * v;
    let c = u * v7;
    let e = ((p() - 5) / 8) as nat;
    let t = pow(c, e);
    let x = (u * v3) * t;
    lemma_swap(u * v3, t, u * v3, t);
    lemma_swap(u, v3, u, v3);
    lemma_pow1(c);
    lemma_pow_adds(c, e, e);
    lemma_pow_adds(c, 1, e + e);
    assert(1 + (e + e) == (p() - 1) / 4);
    let q = v3 * v3;
    let tt = t * t;
    assert(v * (((u * u) * q) * tt) == u * ((u * (q * v)) * tt)) by {
        let uu = u * u;
        assert(v * ((uu * q) * tt) == (uu * (q * v)) * tt) by (nonlinear_arith);
        let w = q * v;
        assert(((u * u) * w) * tt == u * ((u * w) * tt)) by (nonlinear_arith);
    }
}

/// Where `v r^2` is `-u`, the root is `r` times the root of minus one.
proof fn lemma_other_root(u: int, v: int, r: int, s: int)
    requires
        eq(v * (r * r), -u),
        eq(s, r * sqrt_m1()),
    ensures
        is_root(u, v, s),
{
    lemma_constants();
    let i = sqrt_m1();
    let rr = r * r;
    lemma_eq_refl(rr);
    lemma_eq_refl(v);
    lemma_eq_ops(s, r * i, s, r * i);
    lemma_swap(r, i, r, i);
    lemma_eq_ops(rr, rr, i * i, -1);
    lemma_eq_trans(s * s, rr * (i * i), rr * (-1));
    lemma_eq_ops(v, v, s * s, rr * (-1));
    assert(v * (rr * (-1)) == -(v * rr)) by (nonlinear_arith);
    lemma_comb1(-(v * rr), u, -1, v * rr, -u);
    lemma_eq_trans(v * (s * s), -(v * rr), u);
}

/// Where `u / v` has a root, the sign is one or minus one, unless `u` is zero.
proof fn lemma_root_sign(u: int, v: int, w: int)
    requires
        is_root(u, v, w),
    ensures
        eq(u * root_sign(u, v), u) || eq(u * root_sign(u, v), -u),
{
    lemma_p();
    let k = root_sign(u, v);
    let v3 = (v * v) * v;
    let v7 = (v3 * v3) * v;
    let c = u * v7;
    if eq(u, 0) {
        assert(u * k - u == (k - 1) * (u - 0)) by (nonlinear_arith);
        lemma_comb1(u * k, u, k - 1, u, 0);
    } else {
        let ww = w * w;
        if eq(v, 0) {
            assert(v * ww - 0 == ww * (v - 0)) by (nonlinear_arith);
            lemma_comb1(v * ww, 0, ww, v, 0);
            lemma_eq_sym(v * ww, u);
            lemma_eq_trans(u, v * ww, 0);
        }
        if eq(w, 0) {
            let vw = v * w;
            assert(v * ww - 0 == vw * (w - 0)) by (nonlinear_arith)
                requires
                    ww == w * w,
                    vw == v * w,
            ;
            lemma_comb1(v * ww, 0, vw, w, 0);
            lemma_eq_sym(v * ww, u);
            lemma_eq_trans(u, v * ww, 0);
        }
        // c == (v^4 w)^2
        let v4 = v3 * v;
        let z = v4 * w;
        lemma_nonzero_product(v, v);
        lemma_nonzero_product(v * v, v);
        lemma_nonzero_product(v3, v);
        lemma_nonzero_product(v4, w);
        lemma_eq_refl(v7);
        lemma_eq_sym(v * ww, u);
        lemma_eq_ops(u, v * ww, v7, v7);
        lemma_swap(v4, w, v4, w);
        lemma_swap(v3, v, v3, v);
        let q = v3 * v3;
        assert((v * ww) * (q * v) == (q * (v * v)) * ww) by (nonlinear_arith);
        assert(eq(c, z * z));
        lemma_square_half_power(c, z);
        // the square of the sign is one
        let h = ((p() - 1) / 4) as nat;
        lemma_pow_adds(c, h, h);
        assert(h + h == (p() - 1) / 2);
        assert(eq(k * k, 1));
        assert((k - 1) * (k + 1) - 0 == 1 * (k * k - 1)) by (nonlinear_arith);
        lemma_comb1((k - 1) * (k + 1), 0, 1, k * k, 1);
        lemma_euclid(p(), k - 1, k + 1);
        if eq(k - 1, 0) {
            assert(u * k - u == u * ((k - 1) - 0)) by (nonlinear_arith);
            lemma_comb1(u * k, u, u, k - 1, 0);
        } else {
            assert(u * k - (-u) == u * ((k + 1) - 0)) by (nonlinear_arith);
            lemma_comb1(u * k, -u, u, k + 1, 0);
        }
    }
}

} // verus!
