//! The work on eight lanes at a time: decoding, the multiplication ladders and
//! the equations of the two policies.
use crate::batch::{split_factor, PreparedBatch, PreparedSplitBatch, SIMD_LANES};
use crate::bytes::{bytes_equal, le256, lemma_le256_injective};
use crate::edwards::{basepoint, decoded, encoded, lemma_basepoint, EdwardsPoint};
use crate::field::Fe51;
use crate::math::curve::{
    identity, lemma_add_assoc, lemma_add_identity, lemma_add_comm, lemma_add_on_curve,
    lemma_identity_on_curve, lemma_smul_add, lemma_smul_mul, lemma_smul_neg, lemma_smul_of_add,
    lemma_smul_on_curve, lemma_smul_small, neg, on_curve, padd, smul, Affine,
};
use crate::math::gf::{
    eq, lemma_constants, lemma_eq_cancel, lemma_eq_ops, lemma_eq_refl, lemma_eq_small, lemma_eq_sym,
    lemma_eq_trans, lemma_nonzero_product, lemma_p, p,
};
use crate::scalar::{digits_from, digits_small, Radix16, Radix16Half};
use crate::tables::{BasepointTable, PointTable};
use vstd::prelude::*;

verus! {

/// `[s] b + [k] a`.
pub open spec fn combination(s: int, k: int, b: Affine, a: Affine) -> Affine {
    padd(smul(s, b), smul(k, a))
}

/// `[s] B - [k] a`, with the base point `B`: what `R` is for a valid signature.
pub open spec fn recomputed(s: int, k: int, a: Affine) -> Affine {
    padd(smul(s, basepoint()), neg(smul(k, a)))
}

/// The cofactored equation: eight times the difference of the recomputed point
/// and `R` is the identity.
pub open spec fn cofactored(s: int, k: int, a: Affine, r: Affine) -> bool {
    smul(8, padd(recomputed(s, k, a), neg(r))) == identity()
}

proof fn lemma_combination_on_curve(s: int, k: int, b: Affine, a: Affine)
    requires
        on_curve(a),
        on_curve(b),
    ensures
        on_curve(combination(s, k, b, a)),
        on_curve(smul(s, b)),
        on_curve(smul(k, a)),
{
    lemma_smul_on_curve(s, b);
    lemma_smul_on_curve(k, a);
    lemma_add_on_curve(smul(s, b), smul(k, a));
}

/// The combination with both multiples zero.
proof fn lemma_combination_zero(b: Affine, a: Affine)
    requires
        on_curve(a),
        on_curve(b),
    ensures
        combination(0, 0, b, a) == identity(),
{
    lemma_smul_small(a);
    lemma_smul_small(b);
    lemma_identity_on_curve();
    lemma_add_identity(identity());
}

/// A multiple of a combination.
proof fn lemma_combination_scale(n: int, s: int, k: int, b: Affine, a: Affine)
    requires
        on_curve(a),
        on_curve(b),
    ensures
        smul(n, combination(s, k, b, a)) == combination(n * s, n * k, b, a),
{
    lemma_combination_on_curve(s, k, b, a);
    lemma_smul_of_add(n, smul(s, b), smul(k, a));
    lemma_smul_mul(n, s, b);
    lemma_smul_mul(n, k, a);
}

/// More of the second point.
proof fn lemma_combination_second(s: int, k: int, m: int, b: Affine, a: Affine)
    requires
        on_curve(a),
        on_curve(b),
    ensures
        padd(combination(s, k, b, a), smul(m, a)) == combination(s, k + m, b, a),
{
    lemma_combination_on_curve(s, k, b, a);
    lemma_smul_on_curve(m, a);
    lemma_add_assoc(smul(s, b), smul(k, a), smul(m, a));
    lemma_smul_add(k, m, a);
}

/// More of the first point.
proof fn lemma_combination_first(s: int, k: int, m: int, b: Affine, a: Affine)
    requires
        on_curve(a),
        on_curve(b),
    ensures
        padd(combination(s, k, b, a), smul(m, b)) == combination(s + m, k, b, a),
{
    lemma_combination_on_curve(s, k, b, a);
    lemma_smul_on_curve(m, b);
    lemma_add_comm(smul(s, b), smul(k, a));
    lemma_add_assoc(smul(k, a), smul(s, b), smul(m, b));
    lemma_smul_add(s, m, b);
    lemma_smul_on_curve(s + m, b);
    lemma_add_comm(smul(k, a), smul(s + m, b));
}

/// A negative multiple is the inverse of a multiple.
pub proof fn lemma_recomputed(s: int, k: int, a: Affine)
    requires
        on_curve(a),
    ensures
        combination(s, -k, basepoint(), a) == recomputed(s, k, a),
        on_curve(recomputed(s, k, a)),
{
    lemma_basepoint();
    lemma_smul_neg(k, a);
    lemma_combination_on_curve(s, -k, basepoint(), a);
}

impl EdwardsPoint {
    /// Sixteen times a point.
    fn mul_by_16(&self) -> (r: Self)
        requires
            self.wf(),
        ensures
            r.wf(),
            r.affine() == smul(16, self.affine()),
    {
        let r = self.double().double().double().double();
        proof {
            let a = self.affine();
            lemma_smul_small(a);
            lemma_smul_add(2, 2, a);
            lemma_smul_add(4, 4, a);
            lemma_smul_add(8, 8, a);
        }
        r
    }

    /// Eight times a point.
    fn mul_by_cofactor(&self) -> (r: Self)
        requires
            self.wf(),
        ensures
            r.wf(),
            r.affine() == smul(8, self.affine()),
    {
        let r = self.double().double().double();
        proof {
            let a = self.affine();
            lemma_smul_small(a);
            lemma_smul_add(2, 2, a);
            lemma_smul_add(4, 4, a);
        }
        r
    }
}

/// Two digits in radix 16, folded into one.
fn base_pair_digit(low: i8, high: i8) -> (r: i16)
    requires
        -8 <= low <= 8,
        -8 <= high <= 8,
    ensures
        r == low + 16 * high,
        -136 <= r <= 136,
{
    low as i16 + 16 * (high as i16)
}

/// The full ladder: `[s] B - [k] A` by the digits of `s` and `k`, two at a time.
/// A multiple of `A` is added for every digit of `k`, and one of `B` for every
/// two digits of `s`.
fn ladder(s: &Radix16, k: &Radix16, table: &PointTable, base: &BasepointTable) -> (r: EdwardsPoint)
    requires
        digits_small(s@),
        digits_small(k@),
        table.is_table_of(table.point()),
        base.is_table_of(basepoint()),
    ensures
        r.wf(),
        r.affine() == recomputed(digits_from(s@, 0), digits_from(k@, 0), table.point()),
{
    let ghost a = table.point();
    let ghost b = basepoint();
    let mut acc = EdwardsPoint::identity();
    let mut j: usize = 32;
    proof {
        lemma_combination_zero(b, a);
    }
    while j > 0
        invariant
            j <= 32,
            digits_small(s@),
            digits_small(k@),
            a == table.point(),
            b == basepoint(),
            table.is_table_of(a),
            base.is_table_of(b),
            acc.wf(),
            acc.affine() == combination(
                digits_from(s@, 2 * j),
                -digits_from(k@, 2 * j),
                b,
                a,
            ),
        decreases j,
    {
        j -= 1;
        let lo: usize = 2 * j;
        let hi: usize = 2 * j + 1;
        let ghost s2 = digits_from(s@, 2 * j + 2);
        let ghost k2 = digits_from(k@, 2 * j + 2);
        let (kl, kh, sl, sh) = (k[lo], k[hi], s[lo], s[hi]);
        assert(-8 <= kl <= 8 && -8 <= kh <= 8 && -8 <= sl <= 8 && -8 <= sh <= 8) by {
            assert(k@[lo as int] == kl && k@[hi as int] == kh && s@[lo as int] == sl && s@[hi as int] == sh);
        }
        acc = acc.mul_by_16();
        acc = acc.add_cached(table.select_signed_cached_ref(-kh));
        acc = acc.mul_by_16();
        acc = acc.add_cached(table.select_signed_cached_ref(-kl));
        let pair: i16 = base_pair_digit(sl, sh);
        acc = acc.add_affine_cached(base.select_signed_affine_cached_ref(pair));
        proof {
            lemma_combination_scale(16, s2, -k2, b, a);
            lemma_combination_second(16 * s2, 16 * (-k2), -kh as int, b, a);
            let k3 = 16 * (-k2) + (-kh);
            lemma_combination_scale(16, 16 * s2, k3, b, a);
            lemma_combination_second(16 * (16 * s2), 16 * k3, -kl as int, b, a);
            lemma_combination_first(16 * (16 * s2), 16 * k3 + (-kl), pair as int, b, a);
            assert(digits_from(k@, hi as int) == kh + 16 * k2);
            assert(digits_from(k@, lo as int) == kl + 16 * digits_from(k@, hi as int));
            assert(digits_from(s@, hi as int) == sh + 16 * s2);
            assert(digits_from(s@, lo as int) == sl + 16 * digits_from(s@, hi as int));
        }
    }
    proof {
        lemma_recomputed(digits_from(s@, 0), digits_from(k@, 0), a);
    }
    acc
}

/// One step of the split ladder, on a combination of two points and of their
/// multiples by the split factor.
proof fn lemma_split_step(
    s: int,
    k: int,
    k0: int,
    k1: int,
    b: Affine,
    a: Affine,
)
    requires
        on_curve(a),
        on_curve(b),
    ensures
        padd(
            padd(smul(16, combination(s, k, b, a)), smul(k0, a)),
            smul(k1, smul(split_factor(), a)),
        ) == combination(16 * s, 16 * k + k0 + split_factor() * k1, b, a),
{
    let f = split_factor();
    lemma_combination_scale(16, s, k, b, a);
    lemma_combination_second(16 * s, 16 * k, k0, b, a);
    lemma_smul_mul(k1, f, a);
    lemma_combination_second(16 * s, 16 * k + k0, k1 * f, b, a);
    assert(k1 * f == f * k1) by (nonlinear_arith);
}

/// The split ladder: `[s] B - [k] A` by the digits of the halves of `s` and
/// `k`, with half of the doublings of the full ladder.
fn split_ladder(
    s0: &Radix16Half,
    s1: &Radix16Half,
    k0: &Radix16Half,
    k1: &Radix16Half,
    table: &PointTable,
    table_hi: &PointTable,
    base: &BasepointTable,
    base_hi: &BasepointTable,
) -> (r: EdwardsPoint)
    requires
        digits_small(s0@),
        digits_small(s1@),
        digits_small(k0@),
        digits_small(k1@),
        table.is_table_of(table.point()),
        table_hi.is_table_of(smul(split_factor(), table.point())),
        base.is_table_of(basepoint()),
        base_hi.is_table_of(smul(split_factor(), basepoint())),
    ensures
        r.wf(),
        r.affine() == recomputed(
            digits_from(s0@, 0) + split_factor() * digits_from(s1@, 0),
            digits_from(k0@, 0) + split_factor() * digits_from(k1@, 0),
            table.point(),
        ),
{
    let ghost a = table.point();
    let ghost b = basepoint();
    let ghost f = split_factor();
    let mut acc = EdwardsPoint::identity();
    let mut j: usize = 16;
    proof {
        lemma_combination_zero(b, a);
    }
    while j > 0
        invariant
            j <= 16,
            digits_small(s0@),
            digits_small(s1@),
            digits_small(k0@),
            digits_small(k1@),
            a == table.point(),
            b == basepoint(),
            f == split_factor(),
            table.is_table_of(a),
            table_hi.is_table_of(smul(f, a)),
            base.is_table_of(b),
            base_hi.is_table_of(smul(f, b)),
            acc.wf(),
            acc.affine() == combination(
                digits_from(s0@, 2 * j) + f * digits_from(s1@, 2 * j),
                -(digits_from(k0@, 2 * j) + f * digits_from(k1@, 2 * j)),
                b,
                a,
            ),
        decreases j,
    {
        j -= 1;
        let lo: usize = 2 * j;
        let hi: usize = 2 * j + 1;
        let ghost (s0r, s1r) = (digits_from(s0@, 2 * j + 2), digits_from(s1@, 2 * j + 2));
        let ghost (k0r, k1r) = (digits_from(k0@, 2 * j + 2), digits_from(k1@, 2 * j + 2));
        let (k0l, k0h, k1l, k1h) = (k0[lo], k0[hi], k1[lo], k1[hi]);
        let (s0l, s0h, s1l, s1h) = (s0[lo], s0[hi], s1[lo], s1[hi]);
        assert(-8 <= k0l <= 8 && -8 <= k0h <= 8 && -8 <= k1l <= 8 && -8 <= k1h <= 8) by {
            assert(k0@[lo as int] == k0l && k0@[hi as int] == k0h);
            assert(k1@[lo as int] == k1l && k1@[hi as int] == k1h);
        }
        assert(-8 <= s0l <= 8 && -8 <= s0h <= 8 && -8 <= s1l <= 8 && -8 <= s1h <= 8) by {
            assert(s0@[lo as int] == s0l && s0@[hi as int] == s0h);
            assert(s1@[lo as int] == s1l && s1@[hi as int] == s1h);
        }
        acc = acc.mul_by_16();
        acc = acc.add_cached(table.select_signed_cached_ref(-k0h));
        acc = acc.add_cached(table_hi.select_signed_cached_ref(-k1h));
        acc = acc.mul_by_16();
        acc = acc.add_cached(table.select_signed_cached_ref(-k0l));
        acc = acc.add_cached(table_hi.select_signed_cached_ref(-k1l));
        let pair0: i16 = base_pair_digit(s0l, s0h);
        acc = acc.add_affine_cached(base.select_signed_affine_cached_ref(pair0));
        let pair1: i16 = base_pair_digit(s1l, s1h);
        acc = acc.add_affine_cached(base_hi.select_signed_affine_cached_ref(pair1));
        proof {
            let sr = s0r + f * s1r;
            let kr = -(k0r + f * k1r);
            lemma_split_step(sr, kr, -k0h as int, -k1h as int, b, a);
            let km = 16 * kr + (-k0h) + f * (-k1h);
            lemma_split_step(16 * sr, km, -k0l as int, -k1l as int, b, a);
            let kn = 16 * km + (-k0l) + f * (-k1l);
            let sm = 16 * (16 * sr);
            lemma_combination_first(sm, kn, pair0 as int, b, a);
            lemma_smul_mul(pair1 as int, f, b);
            lemma_combination_first(sm + pair0, kn, pair1 * f, b, a);
            assert(digits_from(k0@, hi as int) == k0h + 16 * k0r);
            assert(digits_from(k0@, lo as int) == k0l + 16 * digits_from(k0@, hi as int));
            assert(digits_from(k1@, hi as int) == k1h + 16 * k1r);
            assert(digits_from(k1@, lo as int) == k1l + 16 * digits_from(k1@, hi as int));
            assert(digits_from(s0@, hi as int) == s0h + 16 * s0r);
            assert(digits_from(s0@, lo as int) == s0l + 16 * digits_from(s0@, hi as int));
            assert(digits_from(s1@, hi as int) == s1h + 16 * s1r);
            assert(digits_from(s1@, lo as int) == s1l + 16 * digits_from(s1@, hi as int));
        }
    }
    proof {
        lemma_recomputed(
            digits_from(s0@, 0) + f * digits_from(s1@, 0),
            digits_from(k0@, 0) + f * digits_from(k1@, 0),
            a,
        );
    }
    acc
}

/// Quotients are equal where their cross products are.
proof fn lemma_coordinate(x1: int, z1: int, q1: int, x2: int, z2: int, q2: int)
    requires
        eq(x1, q1 * z1),
        eq(x2, q2 * z2),
        !eq(z1, 0),
        !eq(z2, 0),
        0 <= q1 < p(),
        0 <= q2 < p(),
    ensures
        eq(x1 * z2, x2 * z1) <==> q1 == q2,
{
    let m = z1 * z2;
    lemma_nonzero_product(z1, z2);
    lemma_eq_refl(z1);
    lemma_eq_refl(z2);
    lemma_eq_ops(x1, q1 * z1, z2, z2);
    lemma_eq_ops(x2, q2 * z2, z1, z1);
    assert((q1 * z1) * z2 == m * q1 && (q2 * z2) * z1 == m * q2) by (nonlinear_arith)
        requires
            m == z1 * z2,
    ;
    if eq(x1 * z2, x2 * z1) {
        lemma_eq_sym(x1 * z2, m * q1);
        lemma_eq_trans(m * q1, x1 * z2, x2 * z1);
        lemma_eq_trans(m * q1, x2 * z1, m * q2);
        lemma_eq_cancel(m, q1, q2);
        lemma_eq_small(q1, q2);
    }
    if q1 == q2 {
        lemma_eq_sym(x2 * z1, m * q2);
        lemma_eq_trans(x1 * z2, m * q1, x2 * z1);
    }
}

impl EdwardsPoint {
    /// Whether two sets of coordinates stand for the same point.
    pub fn same_point(&self, rhs: &Self) -> (r: bool)
        requires
            self.wf(),
            rhs.wf(),
        ensures
            r == (self.affine() == rhs.affine()),
    {
        let (x1, y1, z1, _t1) = self.coords();
        let (x2, y2, z2, _t2) = rhs.coords();
        let a = x1.multiply(z2);
        let b = x2.multiply(z1);
        let c = y1.multiply(z2);
        let d = y2.multiply(z1);
        proof {
            let (u, v) = (self.affine(), rhs.affine());
            lemma_coordinate(x1.val(), z1.val(), u.x, x2.val(), z2.val(), v.x);
            lemma_coordinate(y1.val(), z1.val(), u.y, y2.val(), z2.val(), v.y);
            lemma_eq_both(a.val(), x1.val() * z2.val(), b.val(), x2.val() * z1.val());
            lemma_eq_both(c.val(), y1.val() * z2.val(), d.val(), y2.val() * z1.val());
        }
        a.equals(&b) && c.equals(&d)
    }

    /// Whether the `x` coordinate is zero.
    pub fn has_zero_x(&self) -> (r: bool)
        requires
            self.wf(),
        ensures
            r == (self.affine().x == 0),
    {
        let (x, _y, _z, _t) = self.coords();
        let zero = Fe51::zero();
        proof {
            lemma_constants();
            lemma_p();
            lemma_eq_refl(0);
            let (xv, zv) = (x.val(), self.zv());
            assert(0 * 1 == 0int && xv * 1 == xv && 0 * zv == 0) by (nonlinear_arith);
            lemma_coordinate(xv, zv, self.affine().x, 0, 1, 0);
        }
        x.equals(&zero)
    }
}

/// Equality of values that are equal to other values.
proof fn lemma_eq_both(a: int, a2: int, b: int, b2: int)
    requires
        eq(a, a2),
        eq(b, b2),
    ensures
        eq(a, b) <==> eq(a2, b2),
{
    lemma_eq_sym(a, a2);
    lemma_eq_sym(b, b2);
    if eq(a, b) {
        lemma_eq_trans(a2, a, b);
        lemma_eq_trans(a2, b, b2);
    }
    if eq(a2, b2) {
        lemma_eq_trans(a, a2, b2);
        lemma_eq_trans(a, b2, b);
    }
}

/// The bit of a mask that belongs to a lane.
pub open spec fn lane_bit(mask: int, lane: int) -> bool
    decreases lane,
{
    if lane <= 0 {
        mask % 2 == 1
    } else {
        lane_bit(mask / 2, lane - 1)
    }
}

/// The mask of some flags.
fn mask_from_flags(flags: &[bool; SIMD_LANES]) -> (mask: u8)
    ensures
        forall|lane: int| 0 <= lane < 8 ==> #[trigger] flags@[lane] == lane_bit(mask as int, lane),
{
    let mut mask: u8 = 0;
    let mut lane: usize = 8;
    while lane > 0
        invariant
            lane <= 8,
            (mask as int) < room8(8 - lane),
            forall|l: int|
                lane <= l < 8 ==> #[trigger] flags@[l] == lane_bit(mask as int, l - lane),
        decreases lane,
    {
        lane -= 1;
        let ghost before = mask as int;
        assert(room8(8 - (lane + 1)) <= 128) by {
            reveal_with_fuel(room8, 9);
        }
        mask = if flags[lane] {
            2 * mask + 1
        } else {
            2 * mask
        };
        assert(mask as int / 2 == before);
        assert forall|l: int| lane <= l < 8 implies #[trigger] flags@[l] == lane_bit(
            mask as int,
            l - lane,
        ) by {
            if l > lane {
                assert(flags@[l] == lane_bit(before, l - (lane + 1)));
            }
        }
    }
    mask
}

/// Two to the `k`.
spec fn room8(k: int) -> int
    decreases k,
{
    if k <= 0 {
        1
    } else {
        2 * room8(k - 1)
    }
}

/// The decompressed `R` of every lane; the identity where there is none.
pub struct WideRPoints {
    points: [EdwardsPoint; SIMD_LANES],
}

impl WideRPoints {
    pub closed spec fn coordinates(self, lane: int) -> EdwardsPoint {
        self.points@[lane]
    }

    /// The point of a lane.
    pub open spec fn at(self, lane: int) -> Affine {
        self.coordinates(lane).affine()
    }

    pub open spec fn wf(self) -> bool {
        forall|lane: int| 0 <= lane < 8 ==> (#[trigger] self.coordinates(lane)).wf()
    }

    /// The lanes whose point has a zero `x`.
    pub fn x_zero_lanes(&self) -> (r: [bool; SIMD_LANES])
        requires
            self.wf(),
        ensures
            forall|lane: int| 0 <= lane < 8 ==> #[trigger] r@[lane] == (self.at(lane).x == 0),
    {
        let mut r: [bool; SIMD_LANES] = [false; 8];
        let mut lane: usize = 0;
        while lane < 8
            invariant
                lane <= 8,
                self.wf(),
                forall|l: int| 0 <= l < lane ==> #[trigger] r@[l] == (self.at(l).x == 0),
            decreases 8 - lane,
        {
            assert(self.coordinates(lane as int).wf());
            r[lane] = self.points[lane].has_zero_x();
            lane += 1;
        }
        r
    }
}

/// Decompresses the `R` of every lane. The mask tells which are points.
pub fn decompress_r_points(r_bytes: &[[u8; 32]; SIMD_LANES]) -> (r: (WideRPoints, u8))
    ensures
        r.0.wf(),
        forall|lane: int|
            0 <= lane < 8 ==> #[trigger] lane_bit(r.1 as int, lane) == (decoded(
                r_bytes@[lane]@,
            ) is Some),
        forall|lane: int|
            0 <= lane < 8 && decoded(r_bytes@[lane]@) is Some ==> #[trigger] r.0.at(lane)
                == decoded(r_bytes@[lane]@)->0,
{
    let mut points: [EdwardsPoint; SIMD_LANES] = [EdwardsPoint::identity(); 8];
    let mut valid: [bool; SIMD_LANES] = [false; 8];
    let mut lane: usize = 0;
    while lane < 8
        invariant
            lane <= 8,
            forall|l: int| 0 <= l < 8 ==> (#[trigger] points@[l]).wf(),
            forall|l: int|
                0 <= l < lane ==> #[trigger] valid@[l] == (decoded(r_bytes@[l]@) is Some),
            forall|l: int|
                0 <= l < lane && decoded(r_bytes@[l]@) is Some ==> (#[trigger] points@[l]).affine()
                    == decoded(r_bytes@[l]@)->0,
        decreases 8 - lane,
    {
        match EdwardsPoint::decompress(&r_bytes[lane]) {
            Some(point) => {
                points[lane] = point;
                valid[lane] = true;
            },
            None => {
                valid[lane] = false;
            },
        }
        lane += 1;
    }
    let mask = mask_from_flags(&valid);
    let r = WideRPoints { points };
    proof {
        assert forall|l: int| 0 <= l < 8 implies #[trigger] lane_bit(mask as int, l) == (decoded(
            r_bytes@[l]@,
        ) is Some) by {
            assert(valid@[l] == lane_bit(mask as int, l));
        }
        assert forall|l: int| 0 <= l < 8 implies (#[trigger] r.coordinates(l)).wf() by {
            assert(points@[l].wf());
        }
        assert forall|l: int| 0 <= l < 8 && decoded(r_bytes@[l]@) is Some implies #[trigger] r.at(l)
            == decoded(r_bytes@[l]@)->0 by {
            assert(points@[l].affine() == decoded(r_bytes@[l]@)->0);
        }
    }
    (r, mask)
}

/// Decodes the public keys of all lanes to tables, and decompresses their `R`.
/// The masks tell which keys and which `R` are points; the table of a key that
/// is none is that of the identity. No table is normalized.
pub fn decode_keys_and_decompress_r(
    public_keys: &[[u8; 32]; SIMD_LANES],
    r_bytes: &[[u8; 32]; SIMD_LANES],
) -> (r: ([PointTable; SIMD_LANES], u8, WideRPoints, u8))
    ensures
        forall|lane: int|
            0 <= lane < 8 ==> #[trigger] lane_bit(r.1 as int, lane) == (decoded(
                public_keys@[lane]@,
            ) is Some),
        forall|lane: int|
            0 <= lane < 8 ==> (#[trigger] r.0@[lane]).is_projective_table_of(
                match decoded(public_keys@[lane]@) {
                    Some(a) => a,
                    None => identity(),
                },
            ),
        r.2.wf(),
        forall|lane: int|
            0 <= lane < 8 ==> #[trigger] lane_bit(r.3 as int, lane) == (decoded(
                r_bytes@[lane]@,
            ) is Some),
        forall|lane: int|
            0 <= lane < 8 && decoded(r_bytes@[lane]@) is Some ==> #[trigger] r.2.at(lane)
                == decoded(r_bytes@[lane]@)->0,
{
    let mut tables: [PointTable; SIMD_LANES] = [PointTable::new(&EdwardsPoint::identity()); 8];
    let mut valid: [bool; SIMD_LANES] = [false; 8];
    let mut lane: usize = 0;
    while lane < 8
        invariant
            lane <= 8,
            forall|l: int|
                0 <= l < lane ==> #[trigger] valid@[l] == (decoded(public_keys@[l]@) is Some),
            forall|l: int|
                0 <= l < lane ==> (#[trigger] tables@[l]).is_projective_table_of(
                    match decoded(public_keys@[l]@) {
                        Some(a) => a,
                        None => identity(),
                    },
                ),
            forall|l: int|
                lane <= l < 8 ==> (#[trigger] tables@[l]).is_projective_table_of(identity()),
        decreases 8 - lane,
    {
        match EdwardsPoint::decompress(&public_keys[lane]) {
            Some(point) => {
                tables[lane] = PointTable::new(&point);
                valid[lane] = true;
            },
            None => {
                valid[lane] = false;
            },
        }
        lane += 1;
    }
    let mask = mask_from_flags(&valid);
    proof {
        assert forall|l: int| 0 <= l < 8 implies #[trigger] lane_bit(mask as int, l) == (decoded(
            public_keys@[l]@,
        ) is Some) by {
            assert(valid@[l] == lane_bit(mask as int, l));
        }
    }
    let (r_points, r_mask) = decompress_r_points(r_bytes);
    (tables, mask, r_points, r_mask)
}

/// The tables of the multiples by `2^127` of the points of all lanes.
pub fn build_promoted_split_tables(points: &[EdwardsPoint; SIMD_LANES]) -> (r: [PointTable;
    SIMD_LANES])
    requires
        forall|lane: int| 0 <= lane < 8 ==> (#[trigger] points@[lane]).wf(),
    ensures
        forall|lane: int|
            0 <= lane < 8 ==> (#[trigger] r@[lane]).is_table_of(
                smul(split_factor(), points@[lane].affine()),
            ),
{
    let mut r: [PointTable; SIMD_LANES] = [PointTable::new(&EdwardsPoint::identity()); 8];
    let mut lane: usize = 0;
    while lane < 8
        invariant
            lane <= 8,
            forall|l: int| 0 <= l < 8 ==> (#[trigger] points@[l]).wf(),
            forall|l: int|
                0 <= l < lane ==> (#[trigger] r@[l]).is_table_of(
                    smul(split_factor(), points@[l].affine()),
                ),
        decreases 8 - lane,
    {
        r[lane] = PointTable::new(&points[lane].mul_by_pow2_127());
        lane += 1;
    }
    r
}

/// Whether the cofactored equation holds of a recomputed point and of `R`.
fn cofactored_match(recomputed_r: &EdwardsPoint, r: &EdwardsPoint) -> (ok: bool)
    requires
        recomputed_r.wf(),
        r.wf(),
    ensures
        ok == (smul(8, padd(recomputed_r.affine(), neg(r.affine()))) == identity()),
{
    recomputed_r.subtract(r).mul_by_cofactor().same_point(&EdwardsPoint::identity())
}

/// Whether the encoding of a point is given bytes.
fn encodes_to(point: &EdwardsPoint, bytes: &[u8; 32]) -> (ok: bool)
    requires
        point.wf(),
    ensures
        ok == (le256(bytes@) == encoded(point.affine())),
{
    let own = point.compress();
    proof {
        if le256(bytes@) == encoded(point.affine()) {
            lemma_le256_injective(own@, bytes@);
        }
    }
    bytes_equal(&own, bytes)
}

/// The cofactored equation in every lane, by the full ladder.
pub fn verify_prepared_zip215(
    prepared: &PreparedBatch<'_>,
    r_points: &WideRPoints,
    base: &BasepointTable,
) -> (out: [bool; SIMD_LANES])
    requires
        prepared.wf(),
        r_points.wf(),
        base.is_table_of(basepoint()),
    ensures
        forall|lane: int|
            0 <= lane < 8 ==> #[trigger] out@[lane] == cofactored(
                prepared.s_value(lane),
                prepared.k_value(lane),
                prepared.key(lane),
                r_points.at(lane),
            ),
{
    let mut out: [bool; SIMD_LANES] = [false; 8];
    let mut lane: usize = 0;
    while lane < 8
        invariant
            lane <= 8,
            prepared.wf(),
            r_points.wf(),
            base.is_table_of(basepoint()),
            forall|l: int|
                0 <= l < lane ==> #[trigger] out@[l] == cofactored(
                    prepared.s_value(l),
                    prepared.k_value(l),
                    prepared.key(l),
                    r_points.at(l),
                ),
        decreases 8 - lane,
    {
        proof {
            assert(prepared.lane_wf(lane as int));
            assert(r_points.coordinates(lane as int).wf());
        }
        let point = ladder(
            &prepared.s_digits[lane],
            &prepared.k_digits[lane],
            prepared.public_key_tables[lane],
            base,
        );
        out[lane] = cofactored_match(&point, &r_points.points[lane]);
        lane += 1;
    }
    out
}

/// Whether `R` is the recomputed point in every lane, by the full ladder.
pub fn verify_prepared_dalek_projective(
    prepared: &PreparedBatch<'_>,
    r_points: &WideRPoints,
    base: &BasepointTable,
) -> (out: [bool; SIMD_LANES])
    requires
        prepared.wf(),
        r_points.wf(),
        base.is_table_of(basepoint()),
    ensures
        forall|lane: int|
            0 <= lane < 8 ==> #[trigger] out@[lane] == (recomputed(
                prepared.s_value(lane),
                prepared.k_value(lane),
                prepared.key(lane),
            ) == r_points.at(lane)),
{
    let mut out: [bool; SIMD_LANES] = [false; 8];
    let mut lane: usize = 0;
    while lane < 8
        invariant
            lane <= 8,
            prepared.wf(),
            r_points.wf(),
            base.is_table_of(basepoint()),
            forall|l: int|
                0 <= l < lane ==> #[trigger] out@[l] == (recomputed(
                    prepared.s_value(l),
                    prepared.k_value(l),
                    prepared.key(l),
                ) == r_points.at(l)),
        decreases 8 - lane,
    {
        proof {
            assert(prepared.lane_wf(lane as int));
            assert(r_points.coordinates(lane as int).wf());
        }
        let point = ladder(
            &prepared.s_digits[lane],
            &prepared.k_digits[lane],
            prepared.public_key_tables[lane],
            base,
        );
        out[lane] = point.same_point(&r_points.points[lane]);
        lane += 1;
    }
    out
}

/// Whether the encoded `R` is the encoding of the recomputed point in every
/// lane, by the full ladder.
pub fn verify_prepared_dalek(
    prepared: &PreparedBatch<'_>,
    r_bytes: &[[u8; 32]; SIMD_LANES],
    base: &BasepointTable,
) -> (out: [bool; SIMD_LANES])
    requires
        prepared.wf(),
        base.is_table_of(basepoint()),
    ensures
        forall|lane: int|
            0 <= lane < 8 ==> #[trigger] out@[lane] == (le256(r_bytes@[lane]@) == encoded(
                recomputed(
                    prepared.s_value(lane),
                    prepared.k_value(lane),
                    prepared.key(lane),
                ),
            )),
{
    let mut out: [bool; SIMD_LANES] = [false; 8];
    let mut lane: usize = 0;
    while lane < 8
        invariant
            lane <= 8,
            prepared.wf(),
            base.is_table_of(basepoint()),
            forall|l: int|
                0 <= l < lane ==> #[trigger] out@[l] == (le256(r_bytes@[l]@) == encoded(
                    recomputed(prepared.s_value(l), prepared.k_value(l), prepared.key(l)),
                )),
        decreases 8 - lane,
    {
        proof {
            assert(prepared.lane_wf(lane as int));
        }
        let point = ladder(
            &prepared.s_digits[lane],
            &prepared.k_digits[lane],
            prepared.public_key_tables[lane],
            base,
        );
        out[lane] = encodes_to(&point, &r_bytes[lane]);
        lane += 1;
    }
    out
}

/// The cofactored equation in every lane, by the split ladder, and the lanes
/// whose encoded `R` is a point.
pub fn verify_prepared_split_zip215(
    prepared: &PreparedSplitBatch<'_>,
    r_bytes: &[[u8; 32]; SIMD_LANES],
    base: &BasepointTable,
    base_hi: &BasepointTable,
) -> (out: ([bool; SIMD_LANES], [bool; SIMD_LANES]))
    requires
        prepared.wf(),
        base.is_table_of(basepoint()),
        base_hi.is_table_of(smul(split_factor(), basepoint())),
    ensures
        forall|lane: int|
            0 <= lane < 8 ==> #[trigger] out.1@[lane] == (decoded(r_bytes@[lane]@) is Some),
        forall|lane: int|
            0 <= lane < 8 ==> #[trigger] out.0@[lane] == (decoded(r_bytes@[lane]@) is Some
                && cofactored(
                prepared.s_value(lane),
                prepared.k_value(lane),
                prepared.key(lane),
                decoded(r_bytes@[lane]@)->0,
            )),
{
    let mut out: [bool; SIMD_LANES] = [false; 8];
    let mut valid: [bool; SIMD_LANES] = [false; 8];
    let mut lane: usize = 0;
    while lane < 8
        invariant
            lane <= 8,
            prepared.wf(),
            base.is_table_of(basepoint()),
            base_hi.is_table_of(smul(split_factor(), basepoint())),
            forall|l: int|
                0 <= l < lane ==> #[trigger] valid@[l] == (decoded(r_bytes@[l]@) is Some),
            forall|l: int|
                0 <= l < lane ==> #[trigger] out@[l] == (decoded(r_bytes@[l]@) is Some && cofactored(
                    prepared.s_value(l),
                    prepared.k_value(l),
                    prepared.key(l),
                    decoded(r_bytes@[l]@)->0,
                )),
        decreases 8 - lane,
    {
        match EdwardsPoint::decompress(&r_bytes[lane]) {
            Some(r) => {
                proof {
                    assert(prepared.lane_wf(lane as int));
                }
                let point = split_ladder(
                    &prepared.s0_digits[lane],
                    &prepared.s1_digits[lane],
                    &prepared.k0_digits[lane],
                    &prepared.k1_digits[lane],
                    prepared.a_tables[lane],
                    prepared.a_hi_tables[lane],
                    base,
                    base_hi,
                );
                valid[lane] = true;
                out[lane] = cofactored_match(&point, &r);
            },
            None => {
                valid[lane] = false;
                out[lane] = false;
            },
        }
        lane += 1;
    }
    (out, valid)
}

/// Whether the encoded `R` is the encoding of the recomputed point in every
/// lane, by the split ladder.
pub fn verify_prepared_split_dalek(
    prepared: &PreparedSplitBatch<'_>,
    r_bytes: &[[u8; 32]; SIMD_LANES],
    base: &BasepointTable,
    base_hi: &BasepointTable,
) -> (out: [bool; SIMD_LANES])
    requires
        prepared.wf(),
        base.is_table_of(basepoint()),
        base_hi.is_table_of(smul(split_factor(), basepoint())),
    ensures
        forall|lane: int|
            0 <= lane < 8 ==> #[trigger] out@[lane] == (le256(r_bytes@[lane]@) == encoded(
                recomputed(
                    prepared.s_value(lane),
                    prepared.k_value(lane),
                    prepared.key(lane),
                ),
            )),
{
    let mut out: [bool; SIMD_LANES] = [false; 8];
    let mut lane: usize = 0;
    while lane < 8
        invariant
            lane <= 8,
            prepared.wf(),
            base.is_table_of(basepoint()),
            base_hi.is_table_of(smul(split_factor(), basepoint())),
            forall|l: int|
                0 <= l < lane ==> #[trigger] out@[l] == (le256(r_bytes@[l]@) == encoded(
                    recomputed(prepared.s_value(l), prepared.k_value(l), prepared.key(l)),
                )),
        decreases 8 - lane,
    {
        proof {
            assert(prepared.lane_wf(lane as int));
        }
        let point = split_ladder(
            &prepared.s0_digits[lane],
            &prepared.s1_digits[lane],
            &prepared.k0_digits[lane],
            &prepared.k1_digits[lane],
            prepared.a_tables[lane],
            prepared.a_hi_tables[lane],
            base,
            base_hi,
        );
        out[lane] = encodes_to(&point, &r_bytes[lane]);
        lane += 1;
    }
    out
}

} // verus!
