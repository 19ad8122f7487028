//! What the curve, its points and their encodings are, in numbers.
use crate::base_order::lemma_base_order;
use crate::bytes::{le256, le512, le64, lemma_le_bounds};
use crate::edwards::{
    basepoint, decoded, encoded, is_decoding, lemma_basepoint, lemma_decoded, EdwardsPoint,
};
use crate::math::congruence::eqm;
use crate::math::curve::{
    lemma_add, lemma_neg_on_curve, lemma_smul_neg, lemma_smul_on_curve, lemma_smul_small,
    lemma_smul_step, neg, on_curve, padd, smul, Affine,
};
use crate::math::gf::{d, lemma_constants, lemma_p, p};
use crate::policy::has_canonical_y;
use crate::scalar::order;
use crate::signature::{signature_r, signature_s};
use vstd::arithmetic::div_mod::{
    lemma_fundamental_div_mod, lemma_fundamental_div_mod_converse, lemma_mod_multiples_basic,
};
use vstd::prelude::*;

verus! {

/// Eight bytes stand for a word, least significant byte first, wherever they are.
pub proof fn lemma_eight_bytes(b: Seq<u8>, i: int)
    ensures
        le64(b, i) == b[i] + 256 * (b[i + 1] + 256 * (b[i + 2] + 256 * (b[i + 3] + 256 * (b[i + 4] + 256
            * (b[i + 5] + 256 * (b[i + 6] + 256 * b[i + 7])))))),
        0 <= le64(b, i) < 0x1_0000000000000000,
{
}

/// Thirty-two bytes stand for an integer, least significant byte first.
pub proof fn lemma_thirty_two_bytes(b: Seq<u8>)
    requires
        b.len() == 32,
    ensures
        le256(b) == b[0] + 0x100 * b[1] + 0x1_0000 * b[2] + 0x100_0000 * b[3] + 0x1_0000_0000 * b[4]
            + 0x1_00_0000_0000 * b[5] + 0x1_0000_0000_0000 * b[6] + 0x1_00_0000_0000_0000 * b[7]
            + 0x1_0000000000000000int * (b[8] + 0x100 * b[9] + 0x1_0000 * b[10] + 0x100_0000 * b[11]
            + 0x1_0000_0000 * b[12] + 0x1_00_0000_0000 * b[13] + 0x1_0000_0000_0000 * b[14]
            + 0x1_00_0000_0000_0000 * b[15]) + 0x1_00000000000000000000000000000000int * (b[16] + 0x100
            * b[17] + 0x1_0000 * b[18] + 0x100_0000 * b[19] + 0x1_0000_0000 * b[20]
            + 0x1_00_0000_0000 * b[21] + 0x1_0000_0000_0000 * b[22] + 0x1_00_0000_0000_0000 * b[23])
            + 0x1_000000000000000000000000000000000000000000000000int * (b[24] + 0x100 * b[25] + 0x1_0000
            * b[26] + 0x100_0000 * b[27] + 0x1_0000_0000 * b[28] + 0x1_00_0000_0000 * b[29]
            + 0x1_0000_0000_0000 * b[30] + 0x1_00_0000_0000_0000 * b[31]),
        0 <= le256(b) < 0x1_0000000000000000000000000000000000000000000000000000000000000000int,
{
    lemma_le_bounds(b);
}

/// Sixty-four bytes stand for the integer of their first half and, above it,
/// that of their second half.
pub proof fn lemma_sixty_four_bytes(b: Seq<u8>)
    requires
        b.len() == 64,
    ensures
        le512(b) == le256(b.subrange(0, 32))
            + 0x1_0000000000000000000000000000000000000000000000000000000000000000int * le256(
            b.subrange(32, 64),
        ),
{
}

/// A signature is the encoding of `R`, and then the scalar.
pub proof fn lemma_signature_parts(signature: Seq<u8>, r: Seq<u8>, s: Seq<u8>)
    requires
        r.len() == 32,
        s.len() == 32,
        signature == r + s,
    ensures
        signature_r(signature) == r,
        signature_s(signature) == le256(s),
{
    assert(signature.subrange(0, 32) =~= r);
    assert(signature.subrange(32, 64) =~= s);
}

/// The field is that of `2^255 - 19`, the curve is `y^2 - x^2 = 1 + d x^2 y^2`
/// with `d = -121665/121666`, the base point is the one with `y = 4/5` and an
/// even `x`, and its multiple by the order is the neutral element.
pub proof fn lemma_the_curve()
    ensures
        p() == 0x8000000000000000000000000000000000000000000000000000000000000000int - 19,
        0 <= d() < p(),
        (121666 * d() + 121665) % p() == 0,
        0 <= basepoint().x < p(),
        0 <= basepoint().y < p(),
        (5 * basepoint().y - 4) % p() == 0,
        basepoint().x % 2 == 0,
        (basepoint().y * basepoint().y - basepoint().x * basepoint().x - 1 - d() * ((basepoint().x
            * basepoint().x) * (basepoint().y * basepoint().y))) % p() == 0,
        order() == 0x1000000000000000000000000000000014def9dea2f79cd65812631a5cf5d3edint,
        smul(order(), basepoint()) == (Affine { x: 0, y: 1 }),
{
    lemma_p();
    lemma_constants();
    lemma_basepoint();
    lemma_base_order();
    reveal(eqm);
    reveal(p);
    assert(121666 * d() + 121665 == d() * 121666 - (-121665));
}

/// The sum of two points solves the equations
/// `x (1 + d x1 x2 y1 y2) = x1 y2 + y1 x2` and
/// `y (1 - d x1 x2 y1 y2) = y1 y2 + x1 x2`.
pub proof fn lemma_sum_of_points(a: Affine, b: Affine)
    requires
        0 <= a.x < p(),
        0 <= a.y < p(),
        (a.y * a.y - a.x * a.x - 1 - d() * ((a.x * a.x) * (a.y * a.y))) % p() == 0,
        0 <= b.x < p(),
        0 <= b.y < p(),
        (b.y * b.y - b.x * b.x - 1 - d() * ((b.x * b.x) * (b.y * b.y))) % p() == 0,
    ensures
        0 <= padd(a, b).x < p(),
        0 <= padd(a, b).y < p(),
        (padd(a, b).x * (1 + d() * ((a.x * b.x) * (a.y * b.y))) - (a.x * b.y + a.y * b.x)) % p() == 0,
        (padd(a, b).y * (1 - d() * ((a.x * b.x) * (a.y * b.y))) - (a.y * b.y + a.x * b.x)) % p() == 0,
{
    reveal(eqm);
    lemma_add(a, b);
}

/// A multiple of a point is a sum of copies of it, or of its inverse; the
/// inverse has the opposite `x`.
pub proof fn lemma_multiples_of_a_point(n: int, a: Affine)
    requires
        on_curve(a),
    ensures
        smul(0, a) == (Affine { x: 0, y: 1 }),
        smul(1, a) == a,
        smul(n + 1, a) == padd(smul(n, a), a),
        (smul(-n, a).x + smul(n, a).x) % p() == 0,
        smul(-n, a).y == smul(n, a).y,
{
    lemma_smul_small(a);
    lemma_smul_step(n, a);
    lemma_smul_neg(n, a);
    lemma_smul_on_curve(n, a);
    lemma_neg_on_curve(smul(n, a));
    reveal(eqm);
    assert(neg(smul(n, a)).x - (-smul(n, a).x) == smul(-n, a).x + smul(n, a).x);
}

/// The bytes of an encoding: the top bit of the last one is the sign, the others
/// are those of `y`.
proof fn lemma_top_bit(b: Seq<u8>)
    requires
        b.len() == 32,
    ensures
        le256(b) / 0x8000000000000000000000000000000000000000000000000000000000000000int == b[31] / 128,
        le256(b) % 0x8000000000000000000000000000000000000000000000000000000000000000int == le256(b)
            - 0x8000000000000000000000000000000000000000000000000000000000000000int * (b[31] / 128),
        0 <= b[31] / 128 <= 1,
{
    lemma_le_bounds(b);
}

/// What an encoding stands for. A point is the one that 32 bytes stand for
/// exactly where it is a point of the curve, its `y` is that of the low 255 bits
/// modulo `p`, and its `x` is zero or has the parity that the top bit gives.
pub proof fn lemma_decoding_of_bytes(b: Seq<u8>, a: Affine)
    requires
        b.len() == 32,
    ensures
        decoded(b) == Some(a) <==> {
            &&& 0 <= a.x < p()
            &&& 0 <= a.y < p()
            &&& (a.y * a.y - a.x * a.x - 1 - d() * ((a.x * a.x) * (a.y * a.y))) % p() == 0
            &&& (le256(b) - 0x8000000000000000000000000000000000000000000000000000000000000000int * (
            b[31] / 128) - a.y) % p() == 0
            &&& a.x == 0 || a.x % 2 == b[31] / 128
        },
{
    reveal(eqm);
    lemma_p();
    lemma_top_bit(b);
    let low = le256(b) % 0x8000000000000000000000000000000000000000000000000000000000000000int;
    lemma_fundamental_div_mod(low, p());
    assert(a.y * a.y - a.x * a.x - 1 - d() * ((a.x * a.x) * (a.y * a.y)) - 0 == a.y * a.y - a.x * a.x
        - 1 - d() * ((a.x * a.x) * (a.y * a.y)));
    assert(0 <= a.y < p() ==> ((low - a.y) % p() == 0 <==> a.y == low % p())) by {
        lemma_remainder(low, a.y, p());
    }
    if decoded(b) == Some(a) {
        assert(is_decoding(b, a));
    }
    if is_decoding(b, a) {
        lemma_decoded(b, a);
    }
}

/// A remainder is what is left when a multiple is taken away.
pub proof fn lemma_remainder(v: int, r: int, n: int)
    requires
        0 < n,
    ensures
        0 <= r < n ==> ((v - r) % n == 0 <==> r == v % n),
{
    if 0 <= r < n {
        lemma_fundamental_div_mod(v, n);
        lemma_fundamental_div_mod(v - r, n);
        if (v - r) % n == 0 {
            let q = (v - r) / n;
            assert(n * q == q * n) by (nonlinear_arith);
            lemma_fundamental_div_mod_converse(v, n, q, r);
        }
        if r == v % n {
            assert(v - r == n * (v / n));
            assert(n * (v / n) == (v / n) * n) by (nonlinear_arith);
            lemma_mod_multiples_basic(v / n, n);
        }
    }
}

/// The encoding of a point: the top bit is the parity of `x`, the low 255 bits
/// are `y`.
pub proof fn lemma_bytes_of_encoding(b: Seq<u8>, a: Affine)
    requires
        b.len() == 32,
        on_curve(a),
    ensures
        le256(b) == encoded(a) <==> {
            &&& b[31] / 128 == a.x % 2
            &&& le256(b) - 0x8000000000000000000000000000000000000000000000000000000000000000int * (
            b[31] / 128) == a.y
        },
{
    lemma_p();
    lemma_top_bit(b);
}

/// The `y` of an encoding is canonical exactly where its low 255 bits are below
/// `p`.
pub proof fn lemma_canonical_y(b: Seq<u8>)
    requires
        b.len() == 32,
    ensures
        has_canonical_y(b) <==> le256(b)
            - 0x8000000000000000000000000000000000000000000000000000000000000000int * (b[31] / 128)
            < 0x8000000000000000000000000000000000000000000000000000000000000000int - 19,
{
    lemma_p();
    lemma_top_bit(b);
}

/// The coordinates of a point are those of the point that they stand for, times
/// a nonzero `Z`.
pub proof fn lemma_coordinates(point: EdwardsPoint)
    requires
        point.wf(),
    ensures
        point.zv() % p() != 0,
        (point.xv() - point.affine().x * point.zv()) % p() == 0,
        (point.yv() - point.affine().y * point.zv()) % p() == 0,
        (point.tv() - (point.affine().x * point.affine().y) * point.zv()) % p() == 0,
        0 <= point.affine().x < p(),
        0 <= point.affine().y < p(),
        (point.affine().y * point.affine().y - point.affine().x * point.affine().x - 1 - d() * ((
        point.affine().x * point.affine().x) * (point.affine().y * point.affine().y))) % p() == 0,
{
    reveal(eqm);
}

} // verus!
