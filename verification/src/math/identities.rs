//! The polynomial identities behind the associativity of the addition law.
//! The variables are, in order, the coordinates of three points and the curve
//! constant.
use crate::math::gf::{eq, lemma_comb2, lemma_comb3, lemma_comb4};
use crate::math::poly::{
    lemma_mon, lemma_product, lemma_variables, minus, plus, product, scaled, small_poly, val, zero, Poly, Vars,
};
use vstd::prelude::*;

verus! {

/// The curve equation of point 1: `y^2 - x^2 - 1 - d x^2 y^2`.
pub open spec fn curve1() -> Poly {
    minus(0x2200001, minus(0x2000000, plus(0x0200000, minus(0x0000000, zero()))))
}

/// The curve equation of point 2: `y^2 - x^2 - 1 - d x^2 y^2`.
pub open spec fn curve2() -> Poly {
    minus(0x0022001, minus(0x0020000, plus(0x0002000, minus(0x0000000, zero()))))
}

/// The curve equation of point 3: `y^2 - x^2 - 1 - d x^2 y^2`.
pub open spec fn curve3() -> Poly {
    minus(0x0000221, minus(0x0000200, plus(0x0000020, minus(0x0000000, zero()))))
}

/// Numerator of the x coordinate of `(P1 + P2) + P3`.
pub open spec fn left_x() -> Poly {
    plus(0x2121101, minus(0x2112011, minus(0x1221011, plus(0x1212101, plus(0x1010100, plus(0x1001010, plus(0x0110010, plus(0x0101100, zero()))))))))
}

/// Denominator of the x coordinate of `(P1 + P2) + P3`.
pub open spec fn left_xd() -> Poly {
    minus(0x2222002, plus(0x2011111, plus(0x1120111, plus(0x1102111, plus(0x0211111, plus(0x0000000, zero()))))))
}

/// Numerator of the x coordinate of `P1 + (P2 + P3)`.
pub open spec fn right_x() -> Poly {
    plus(0x1021211, plus(0x1012121, plus(0x1010100, plus(0x1001010, minus(0x0121121, minus(0x0112211, plus(0x0110010, plus(0x0101100, zero()))))))))
}

/// Denominator of the x coordinate of `P1 + (P2 + P3)`.
pub open spec fn right_xd() -> Poly {
    plus(0x1120111, plus(0x1111201, plus(0x1111021, plus(0x1102111, minus(0x0022222, plus(0x0000000, zero()))))))
}

/// Numerator of the y coordinate of `(P1 + P2) + P3`.
pub open spec fn left_y() -> Poly {
    plus(0x2121011, minus(0x2112101, minus(0x1221101, plus(0x1212011, plus(0x1010010, plus(0x1001100, plus(0x0110100, plus(0x0101010, zero()))))))))
}

/// Denominator of the y coordinate of `(P1 + P2) + P3`.
pub open spec fn left_yd() -> Poly {
    minus(0x2222002, minus(0x2011111, minus(0x1120111, minus(0x1102111, minus(0x0211111, plus(0x0000000, zero()))))))
}

/// Numerator of the y coordinate of `P1 + (P2 + P3)`.
pub open spec fn right_y() -> Poly {
    minus(0x1021121, minus(0x1012211, plus(0x1010010, plus(0x1001100, plus(0x0121211, plus(0x0112121, plus(0x0110100, plus(0x0101010, zero()))))))))
}

/// Denominator of the y coordinate of `P1 + (P2 + P3)`.
pub open spec fn right_yd() -> Poly {
    minus(0x1120111, minus(0x1111201, minus(0x1111021, minus(0x1102111, minus(0x0022222, plus(0x0000000, zero()))))))
}

/// A part of the x identity whose monomials are even in the coordinates.
spec fn x_part0() -> Poly {
    plus(0x2222202, plus(0x2220201, minus(0x2202021, plus(0x2202001, minus(0x2002221, minus(0x2000200, plus(0x0222222, plus(0x0220221, plus(0x0200020, minus(0x0200000, minus(0x0002221, minus(0x0000200, zero()))))))))))))
}

/// A part of the x identity whose monomials are even in the coordinates.
spec fn x_part1() -> Poly {
    plus(0x2222022, plus(0x2220201, plus(0x2220001, minus(0x2202021, minus(0x2020221, minus(0x2000020, minus(0x0222222, plus(0x0202221, plus(0x0200200, plus(0x0200000, minus(0x0020221, minus(0x0000020, zero()))))))))))))
}

/// A part of the x identity whose monomials are even in the coordinates.
spec fn x_part2() -> Poly {
    minus(0x2222022, minus(0x2220021, plus(0x2202201, plus(0x2202001, minus(0x2022222, minus(0x2020221, plus(0x2000200, plus(0x2000000, plus(0x0202221, minus(0x0200020, minus(0x0002221, plus(0x0000020, zero()))))))))))))
}

/// A part of the x identity whose monomials are even in the coordinates.
spec fn x_part3() -> Poly {
    minus(0x2222202, minus(0x2220021, plus(0x2220001, plus(0x2202201, plus(0x2022222, minus(0x2002221, plus(0x2000020, minus(0x2000000, plus(0x0220221, minus(0x0200200, minus(0x0020221, plus(0x0000200, zero()))))))))))))
}

/// A part of the y identity whose monomials are even in the coordinates.
spec fn y_part0() -> Poly {
    minus(0x2222022, minus(0x2220021, plus(0x2202201, plus(0x2202001, minus(0x2002221, plus(0x2000020, plus(0x0222222, plus(0x0220221, minus(0x0200200, minus(0x0200000, minus(0x0002221, plus(0x0000020, zero()))))))))))))
}

/// A part of the y identity whose monomials are even in the coordinates.
spec fn y_part1() -> Poly {
    minus(0x2222202, minus(0x2220021, plus(0x2220001, plus(0x2202201, minus(0x2020221, plus(0x2000200, minus(0x0222222, plus(0x0202221, minus(0x0200020, plus(0x0200000, minus(0x0020221, plus(0x0000200, zero()))))))))))))
}

/// A part of the y identity whose monomials are even in the coordinates.
spec fn y_part2() -> Poly {
    plus(0x2222202, plus(0x2220201, minus(0x2202021, plus(0x2202001, minus(0x2022222, minus(0x2020221, minus(0x2000020, plus(0x2000000, plus(0x0202221, plus(0x0200200, minus(0x0002221, minus(0x0000200, zero()))))))))))))
}

/// A part of the y identity whose monomials are even in the coordinates.
spec fn y_part3() -> Poly {
    plus(0x2222022, plus(0x2220201, plus(0x2220001, minus(0x2202021, plus(0x2022222, minus(0x2002221, minus(0x2000200, minus(0x2000000, plus(0x0220221, plus(0x0200020, minus(0x0020221, minus(0x0000020, zero()))))))))))))
}

/// The part lies in the ideal of the three curve equations.
proof fn lemma_x_part0(v: Vars)
    requires
        eq(val(v, curve1()), 0),
        eq(val(v, curve2()), 0),
        eq(val(v, curve3()), 0),
    ensures
        eq(val(v, x_part0()), 0),
{
    let k1 = minus(0x0002200, plus(0x0002020, minus(0x0002000, plus(0x0000200, zero()))));
    let k2 = minus(0x2200201, minus(0x0200221, zero()));
    let k3 = plus(0x2002000, minus(0x0202000, plus(0x0200000, plus(0x0002000, zero()))));
    assert(small_poly(k1) && small_poly(k2) && small_poly(k3) && small_poly(curve1())
        && small_poly(curve2()) && small_poly(curve3())) by {
        reveal_with_fuel(small_poly, 8);
    }
    lemma_product(v, k1, curve1());
    lemma_product(v, k2, curve2());
    lemma_product(v, k3, curve3());
    assert(val(v, x_part0()) == product(v, k1, curve1()) + product(v, k2, curve2())
        + product(v, k3, curve3())) by {
        reveal_with_fuel(val, 14);
        reveal_with_fuel(product, 6);
        reveal_with_fuel(scaled, 6);
    }
    lemma_comb3(
        val(v, x_part0()),
        0,
        val(v, k1),
        val(v, curve1()),
        0,
        val(v, k2),
        val(v, curve2()),
        0,
        val(v, k3),
        val(v, curve3()),
        0,
    );
}

/// The part lies in the ideal of the three curve equations.
proof fn lemma_x_part1(v: Vars)
    requires
        eq(val(v, curve1()), 0),
        eq(val(v, curve2()), 0),
        eq(val(v, curve3()), 0),
    ensures
        eq(val(v, x_part1()), 0),
{
    let k1 = minus(0x0020200, plus(0x0020020, minus(0x0020000, plus(0x0000020, zero()))));
    let k2 = minus(0x2200021, plus(0x0200221, zero()));
    let k3 = plus(0x2020000, minus(0x0220000, minus(0x0200000, plus(0x0020000, zero()))));
    assert(small_poly(k1) && small_poly(k2) && small_poly(k3) && small_poly(curve1())
        && small_poly(curve2()) && small_poly(curve3())) by {
        reveal_with_fuel(small_poly, 8);
    }
    lemma_product(v, k1, curve1());
    lemma_product(v, k2, curve2());
    lemma_product(v, k3, curve3());
    assert(val(v, x_part1()) == product(v, k1, curve1()) + product(v, k2, curve2())
        + product(v, k3, curve3())) by {
        reveal_with_fuel(val, 14);
        reveal_with_fuel(product, 6);
        reveal_with_fuel(scaled, 6);
    }
    lemma_comb3(
        val(v, x_part1()),
        0,
        val(v, k1),
        val(v, curve1()),
        0,
        val(v, k2),
        val(v, curve2()),
        0,
        val(v, k3),
        val(v, curve3()),
        0,
    );
}

/// The part lies in the ideal of the three curve equations.
proof fn lemma_x_part2(v: Vars)
    requires
        eq(val(v, curve1()), 0),
        eq(val(v, curve2()), 0),
        eq(val(v, curve3()), 0),
    ensures
        eq(val(v, x_part2()), 0),
{
    let k1 = minus(0x0002200, plus(0x0002020, minus(0x0002000, minus(0x0000020, zero()))));
    let k2 = plus(0x2200021, plus(0x2000221, zero()));
    let k3 = plus(0x2002000, minus(0x2000000, minus(0x0202000, plus(0x0002000, zero()))));
    assert(small_poly(k1) && small_poly(k2) && small_poly(k3) && small_poly(curve1())
        && small_poly(curve2()) && small_poly(curve3())) by {
        reveal_with_fuel(small_poly, 8);
    }
    lemma_product(v, k1, curve1());
    lemma_product(v, k2, curve2());
    lemma_product(v, k3, curve3());
    assert(val(v, x_part2()) == product(v, k1, curve1()) + product(v, k2, curve2())
        + product(v, k3, curve3())) by {
        reveal_with_fuel(val, 14);
        reveal_with_fuel(product, 6);
        reveal_with_fuel(scaled, 6);
    }
    lemma_comb3(
        val(v, x_part2()),
        0,
        val(v, k1),
        val(v, curve1()),
        0,
        val(v, k2),
        val(v, curve2()),
        0,
        val(v, k3),
        val(v, curve3()),
        0,
    );
}

/// The part lies in the ideal of the three curve equations.
proof fn lemma_x_part3(v: Vars)
    requires
        eq(val(v, curve1()), 0),
        eq(val(v, curve2()), 0),
        eq(val(v, curve3()), 0),
    ensures
        eq(val(v, x_part3()), 0),
{
    let k1 = minus(0x0020200, plus(0x0020020, minus(0x0020000, minus(0x0000200, zero()))));
    let k2 = plus(0x2200201, minus(0x2000221, zero()));
    let k3 = plus(0x2020000, plus(0x2000000, minus(0x0220000, plus(0x0020000, zero()))));
    assert(small_poly(k1) && small_poly(k2) && small_poly(k3) && small_poly(curve1())
        && small_poly(curve2()) && small_poly(curve3())) by {
        reveal_with_fuel(small_poly, 8);
    }
    lemma_product(v, k1, curve1());
    lemma_product(v, k2, curve2());
    lemma_product(v, k3, curve3());
    assert(val(v, x_part3()) == product(v, k1, curve1()) + product(v, k2, curve2())
        + product(v, k3, curve3())) by {
        reveal_with_fuel(val, 14);
        reveal_with_fuel(product, 6);
        reveal_with_fuel(scaled, 6);
    }
    lemma_comb3(
        val(v, x_part3()),
        0,
        val(v, k1),
        val(v, curve1()),
        0,
        val(v, k2),
        val(v, curve2()),
        0,
        val(v, k3),
        val(v, curve3()),
        0,
    );
}

/// The two ways to associate a sum have x coordinates with the same cross
/// product.
pub proof fn lemma_x_cross(v: Vars)
    requires
        eq(val(v, curve1()), 0),
        eq(val(v, curve2()), 0),
        eq(val(v, curve3()), 0),
    ensures
        eq(val(v, left_x()) * val(v, right_xd()), val(v, right_x()) * val(v, left_xd())),
{
    let f0 = plus(0x1021011, zero());
    let f1 = plus(0x1012101, zero());
    let f2 = plus(0x0121101, zero());
    let f3 = plus(0x0112011, zero());
    assert(small_poly(f0) && small_poly(f1) && small_poly(f2) && small_poly(f3) && small_poly(left_x())
        && small_poly(right_xd()) && small_poly(right_x()) && small_poly(left_xd())
        && small_poly(x_part0()) && small_poly(x_part1()) && small_poly(x_part2())
        && small_poly(x_part3())) by {
        reveal_with_fuel(small_poly, 14);
    }
    lemma_product(v, left_x(), right_xd());
    lemma_product(v, right_x(), left_xd());
    lemma_x_part0(v);
    lemma_product(v, f0, x_part0());
    lemma_x_part1(v);
    lemma_product(v, f1, x_part1());
    lemma_x_part2(v);
    lemma_product(v, f2, x_part2());
    lemma_x_part3(v);
    lemma_product(v, f3, x_part3());
    assert(product(v, left_x(), right_xd()) - product(v, right_x(), left_xd()) == product(v, f0, x_part0())
        + product(v, f1, x_part1()) + product(v, f2, x_part2()) + product(
        v,
        f3,
        x_part3(),
    )) by {
        reveal_with_fuel(product, 10);
        reveal_with_fuel(scaled, 14);
    }
    lemma_comb4(
        val(v, left_x()) * val(v, right_xd()),
        val(v, right_x()) * val(v, left_xd()),
        val(v, f0),
        val(v, x_part0()),
        0,
        val(v, f1),
        val(v, x_part1()),
        0,
        val(v, f2),
        val(v, x_part2()),
        0,
        val(v, f3),
        val(v, x_part3()),
        0,
    );
}

/// The part lies in the ideal of the three curve equations.
proof fn lemma_y_part0(v: Vars)
    requires
        eq(val(v, curve1()), 0),
        eq(val(v, curve2()), 0),
        eq(val(v, curve3()), 0),
    ensures
        eq(val(v, y_part0()), 0),
{
    let k1 = minus(0x0002200, plus(0x0002020, minus(0x0002000, minus(0x0000020, zero()))));
    let k2 = plus(0x2200021, minus(0x0200221, zero()));
    let k3 = plus(0x2002000, minus(0x0202000, plus(0x0200000, plus(0x0002000, zero()))));
    assert(small_poly(k1) && small_poly(k2) && small_poly(k3) && small_poly(curve1())
        && small_poly(curve2()) && small_poly(curve3())) by {
        reveal_with_fuel(small_poly, 8);
    }
    lemma_product(v, k1, curve1());
    lemma_product(v, k2, curve2());
    lemma_product(v, k3, curve3());
    assert(val(v, y_part0()) == product(v, k1, curve1()) + product(v, k2, curve2())
        + product(v, k3, curve3())) by {
        reveal_with_fuel(val, 14);
        reveal_with_fuel(product, 6);
        reveal_with_fuel(scaled, 6);
    }
    lemma_comb3(
        val(v, y_part0()),
        0,
        val(v, k1),
        val(v, curve1()),
        0,
        val(v, k2),
        val(v, curve2()),
        0,
        val(v, k3),
        val(v, curve3()),
        0,
    );
}

/// The part lies in the ideal of the three curve equations.
proof fn lemma_y_part1(v: Vars)
    requires
        eq(val(v, curve1()), 0),
        eq(val(v, curve2()), 0),
        eq(val(v, curve3()), 0),
    ensures
        eq(val(v, y_part1()), 0),
{
    let k1 = minus(0x0020200, plus(0x0020020, minus(0x0020000, minus(0x0000200, zero()))));
    let k2 = plus(0x2200201, plus(0x0200221, zero()));
    let k3 = plus(0x2020000, minus(0x0220000, minus(0x0200000, plus(0x0020000, zero()))));
    assert(small_poly(k1) && small_poly(k2) && small_poly(k3) && small_poly(curve1())
        && small_poly(curve2()) && small_poly(curve3())) by {
        reveal_with_fuel(small_poly, 8);
    }
    lemma_product(v, k1, curve1());
    lemma_product(v, k2, curve2());
    lemma_product(v, k3, curve3());
    assert(val(v, y_part1()) == product(v, k1, curve1()) + product(v, k2, curve2())
        + product(v, k3, curve3())) by {
        reveal_with_fuel(val, 14);
        reveal_with_fuel(product, 6);
        reveal_with_fuel(scaled, 6);
    }
    lemma_comb3(
        val(v, y_part1()),
        0,
        val(v, k1),
        val(v, curve1()),
        0,
        val(v, k2),
        val(v, curve2()),
        0,
        val(v, k3),
        val(v, curve3()),
        0,
    );
}

/// The part lies in the ideal of the three curve equations.
proof fn lemma_y_part2(v: Vars)
    requires
        eq(val(v, curve1()), 0),
        eq(val(v, curve2()), 0),
        eq(val(v, curve3()), 0),
    ensures
        eq(val(v, y_part2()), 0),
{
    let k1 = minus(0x0002200, plus(0x0002020, minus(0x0002000, plus(0x0000200, zero()))));
    let k2 = minus(0x2200201, plus(0x2000221, zero()));
    let k3 = plus(0x2002000, minus(0x2000000, minus(0x0202000, plus(0x0002000, zero()))));
    assert(small_poly(k1) && small_poly(k2) && small_poly(k3) && small_poly(curve1())
        && small_poly(curve2()) && small_poly(curve3())) by {
        reveal_with_fuel(small_poly, 8);
    }
    lemma_product(v, k1, curve1());
    lemma_product(v, k2, curve2());
    lemma_product(v, k3, curve3());
    assert(val(v, y_part2()) == product(v, k1, curve1()) + product(v, k2, curve2())
        + product(v, k3, curve3())) by {
        reveal_with_fuel(val, 14);
        reveal_with_fuel(product, 6);
        reveal_with_fuel(scaled, 6);
    }
    lemma_comb3(
        val(v, y_part2()),
        0,
        val(v, k1),
        val(v, curve1()),
        0,
        val(v, k2),
        val(v, curve2()),
        0,
        val(v, k3),
        val(v, curve3()),
        0,
    );
}

/// The part lies in the ideal of the three curve equations.
proof fn lemma_y_part3(v: Vars)
    requires
        eq(val(v, curve1()), 0),
        eq(val(v, curve2()), 0),
        eq(val(v, curve3()), 0),
    ensures
        eq(val(v, y_part3()), 0),
{
    let k1 = minus(0x0020200, plus(0x0020020, minus(0x0020000, plus(0x0000020, zero()))));
    let k2 = minus(0x2200021, minus(0x2000221, zero()));
    let k3 = plus(0x2020000, plus(0x2000000, minus(0x0220000, plus(0x0020000, zero()))));
    assert(small_poly(k1) && small_poly(k2) && small_poly(k3) && small_poly(curve1())
        && small_poly(curve2()) && small_poly(curve3())) by {
        reveal_with_fuel(small_poly, 8);
    }
    lemma_product(v, k1, curve1());
    lemma_product(v, k2, curve2());
    lemma_product(v, k3, curve3());
    assert(val(v, y_part3()) == product(v, k1, curve1()) + product(v, k2, curve2())
        + product(v, k3, curve3())) by {
        reveal_with_fuel(val, 14);
        reveal_with_fuel(product, 6);
        reveal_with_fuel(scaled, 6);
    }
    lemma_comb3(
        val(v, y_part3()),
        0,
        val(v, k1),
        val(v, curve1()),
        0,
        val(v, k2),
        val(v, curve2()),
        0,
        val(v, k3),
        val(v, curve3()),
        0,
    );
}

/// The two ways to associate a sum have y coordinates with the same cross
/// product.
pub proof fn lemma_y_cross(v: Vars)
    requires
        eq(val(v, curve1()), 0),
        eq(val(v, curve2()), 0),
        eq(val(v, curve3()), 0),
    ensures
        eq(val(v, left_y()) * val(v, right_yd()), val(v, right_y()) * val(v, left_yd())),
{
    let f0 = plus(0x1021101, zero());
    let f1 = plus(0x1012011, zero());
    let f2 = plus(0x0121011, zero());
    let f3 = plus(0x0112101, zero());
    assert(small_poly(f0) && small_poly(f1) && small_poly(f2) && small_poly(f3) && small_poly(left_y())
        && small_poly(right_yd()) && small_poly(right_y()) && small_poly(left_yd())
        && small_poly(y_part0()) && small_poly(y_part1()) && small_poly(y_part2())
        && small_poly(y_part3())) by {
        reveal_with_fuel(small_poly, 14);
    }
    lemma_product(v, left_y(), right_yd());
    lemma_product(v, right_y(), left_yd());
    lemma_y_part0(v);
    lemma_product(v, f0, y_part0());
    lemma_y_part1(v);
    lemma_product(v, f1, y_part1());
    lemma_y_part2(v);
    lemma_product(v, f2, y_part2());
    lemma_y_part3(v);
    lemma_product(v, f3, y_part3());
    assert(product(v, left_y(), right_yd()) - product(v, right_y(), left_yd()) == product(v, f0, y_part0())
        + product(v, f1, y_part1()) + product(v, f2, y_part2()) + product(
        v,
        f3,
        y_part3(),
    )) by {
        reveal_with_fuel(product, 10);
        reveal_with_fuel(scaled, 14);
    }
    lemma_comb4(
        val(v, left_y()) * val(v, right_yd()),
        val(v, right_y()) * val(v, left_yd()),
        val(v, f0),
        val(v, y_part0()),
        0,
        val(v, f1),
        val(v, y_part1()),
        0,
        val(v, f2),
        val(v, y_part2()),
        0,
        val(v, f3),
        val(v, y_part3()),
        0,
    );
}

/// Numerator of the x coordinate of a sum.
pub open spec fn nx(x1: int, y1: int, x2: int, y2: int) -> int {
    x1 * y2 + y1 * x2
}

/// Numerator of the y coordinate of a sum.
pub open spec fn ny(x1: int, y1: int, x2: int, y2: int) -> int {
    y1 * y2 + x1 * x2
}

/// What the denominators of a sum add to one and take from it.
pub open spec fn tt(d: int, x1: int, y1: int, x2: int, y2: int) -> int {
    d * ((x1 * x2) * (y1 * y2))
}

/// What the four polynomials of the left association stand for.
pub proof fn lemma_left(v: Vars)
    ensures
        ({
            let a = nx(v.a, v.b, v.c, v.d);
            let b = ny(v.a, v.b, v.c, v.d);
            let t = tt(v.g, v.a, v.b, v.c, v.d);
            &&& val(v, left_x()) == (a * (1 - t)) * v.f + (b * (1 + t)) * v.e
            &&& val(v, left_xd()) == (1 + t) * (1 - t) + v.g * ((a * b) * (v.e * v.f))
            &&& val(v, left_y()) == (b * (1 + t)) * v.f + (a * (1 - t)) * v.e
            &&& val(v, left_yd()) == (1 + t) * (1 - t) - v.g * ((a * b) * (v.e * v.f))
        }),
{
    lemma_variables(v);
    lemma_mon(v, 0x1000000, 0x0001000);
    lemma_mon(v, 0x0100000, 0x0010000);
    lemma_mon(v, 0x0100000, 0x0001000);
    lemma_mon(v, 0x1000000, 0x0010000);
    lemma_mon(v, 0x1010000, 0x0101000);
    lemma_mon(v, 0x0000001, 0x1111000);
    let pa = plus(0x1001000, plus(0x0110000, zero()));
    let pb = plus(0x1010000, plus(0x0101000, zero()));
    let pu = plus(0x1111001, plus(0x0000000, zero()));
    let pw = minus(0x1111001, plus(0x0000000, zero()));
    let a = nx(v.a, v.b, v.c, v.d);
    let b = ny(v.a, v.b, v.c, v.d);
    let t = tt(v.g, v.a, v.b, v.c, v.d);
    assert(val(v, pa) == a && val(v, pb) == b && val(v, pu) == 1 + t && val(v, pw) == 1 - t) by {
        reveal_with_fuel(val, 4);
    }
    let paw = minus(0x2112001, minus(0x1221001, plus(0x1001000, plus(0x0110000, zero()))));
    let pbu = plus(0x2121001, plus(0x1212001, plus(0x1010000, plus(0x0101000, zero()))));
    let puw = minus(0x2222002, plus(0x0000000, zero()));
    let pab = plus(0x2011000, plus(0x1120000, plus(0x1102000, plus(0x0211000, zero()))));
    assert(val(v, paw) == val(v, pa) * val(v, pw)) by {
        assert(small_poly(pa) && small_poly(pw)) by {
            reveal_with_fuel(small_poly, 4);
        }
        lemma_product(v, pa, pw);
        reveal_with_fuel(val, 6);
        reveal_with_fuel(product, 4);
        reveal_with_fuel(scaled, 4);
    }
    assert(val(v, pbu) == val(v, pb) * val(v, pu)) by {
        assert(small_poly(pb) && small_poly(pu)) by {
            reveal_with_fuel(small_poly, 4);
        }
        lemma_product(v, pb, pu);
        reveal_with_fuel(val, 6);
        reveal_with_fuel(product, 4);
        reveal_with_fuel(scaled, 4);
    }
    assert(val(v, puw) == val(v, pu) * val(v, pw)) by {
        assert(small_poly(pu) && small_poly(pw)) by {
            reveal_with_fuel(small_poly, 4);
        }
        lemma_product(v, pu, pw);
        reveal_with_fuel(val, 4);
        reveal_with_fuel(product, 4);
        reveal_with_fuel(scaled, 4);
    }
    assert(val(v, pab) == val(v, pa) * val(v, pb)) by {
        assert(small_poly(pa) && small_poly(pb)) by {
            reveal_with_fuel(small_poly, 4);
        }
        lemma_product(v, pa, pb);
        reveal_with_fuel(val, 6);
        reveal_with_fuel(product, 4);
        reveal_with_fuel(scaled, 4);
    }
    let px = plus(0x0000100, zero());
    let py = plus(0x0000010, zero());
    let pd = plus(0x0000001, zero());
    let pxy = plus(0x0000110, zero());
    lemma_mon(v, 0x0000100, 0x0000010);
    assert(val(v, px) == v.e && val(v, py) == v.f && val(v, pd) == v.g && val(v, pxy) == v.e * v.f) by {
        reveal_with_fuel(val, 3);
    }
    let pawy = minus(0x2112011, minus(0x1221011, plus(0x1001010, plus(0x0110010, zero()))));
    assert(val(v, pawy) == val(v, paw) * val(v, py)) by {
        assert(small_poly(paw) && small_poly(py)) by {
            reveal_with_fuel(small_poly, 6);
        }
        lemma_product(v, paw, py);
        reveal_with_fuel(val, 6);
        reveal_with_fuel(product, 6);
        reveal_with_fuel(scaled, 3);
    }
    let pbux = plus(0x2121101, plus(0x1212101, plus(0x1010100, plus(0x0101100, zero()))));
    assert(val(v, pbux) == val(v, pbu) * val(v, px)) by {
        assert(small_poly(pbu) && small_poly(px)) by {
            reveal_with_fuel(small_poly, 6);
        }
        lemma_product(v, pbu, px);
        reveal_with_fuel(val, 6);
        reveal_with_fuel(product, 6);
        reveal_with_fuel(scaled, 3);
    }
    let pbuy = plus(0x2121011, plus(0x1212011, plus(0x1010010, plus(0x0101010, zero()))));
    assert(val(v, pbuy) == val(v, pbu) * val(v, py)) by {
        assert(small_poly(pbu) && small_poly(py)) by {
            reveal_with_fuel(small_poly, 6);
        }
        lemma_product(v, pbu, py);
        reveal_with_fuel(val, 6);
        reveal_with_fuel(product, 6);
        reveal_with_fuel(scaled, 3);
    }
    let pawx = minus(0x2112101, minus(0x1221101, plus(0x1001100, plus(0x0110100, zero()))));
    assert(val(v, pawx) == val(v, paw) * val(v, px)) by {
        assert(small_poly(paw) && small_poly(px)) by {
            reveal_with_fuel(small_poly, 6);
        }
        lemma_product(v, paw, px);
        reveal_with_fuel(val, 6);
        reveal_with_fuel(product, 6);
        reveal_with_fuel(scaled, 3);
    }
    let pabxy = plus(0x2011110, plus(0x1120110, plus(0x1102110, plus(0x0211110, zero()))));
    assert(val(v, pabxy) == val(v, pab) * val(v, pxy)) by {
        assert(small_poly(pab) && small_poly(pxy)) by {
            reveal_with_fuel(small_poly, 6);
        }
        lemma_product(v, pab, pxy);
        reveal_with_fuel(val, 6);
        reveal_with_fuel(product, 6);
        reveal_with_fuel(scaled, 3);
    }
    let pdabxy = plus(0x2011111, plus(0x1120111, plus(0x1102111, plus(0x0211111, zero()))));
    assert(val(v, pdabxy) == val(v, pd) * val(v, pabxy)) by {
        assert(small_poly(pd) && small_poly(pabxy)) by {
            reveal_with_fuel(small_poly, 6);
        }
        lemma_product(v, pd, pabxy);
        reveal_with_fuel(val, 6);
        reveal_with_fuel(product, 3);
        reveal_with_fuel(scaled, 6);
    }
    assert(val(v, left_x()) == val(v, pawy) + val(v, pbux)) by {
        reveal_with_fuel(val, 10);
    }
    assert(val(v, left_y()) == val(v, pbuy) + val(v, pawx)) by {
        reveal_with_fuel(val, 10);
    }
    assert(val(v, left_xd()) == val(v, puw) + val(v, pdabxy)) by {
        reveal_with_fuel(val, 8);
    }
    assert(val(v, left_yd()) == val(v, puw) - val(v, pdabxy)) by {
        reveal_with_fuel(val, 8);
    }
}

/// What the four polynomials of the right association stand for.
pub proof fn lemma_right(v: Vars)
    ensures
        ({
            let a = nx(v.c, v.d, v.e, v.f);
            let b = ny(v.c, v.d, v.e, v.f);
            let t = tt(v.g, v.c, v.d, v.e, v.f);
            &&& val(v, right_x()) == (a * (1 - t)) * v.b + (b * (1 + t)) * v.a
            &&& val(v, right_xd()) == (1 + t) * (1 - t) + v.g * ((a * b) * (v.a * v.b))
            &&& val(v, right_y()) == (b * (1 + t)) * v.b + (a * (1 - t)) * v.a
            &&& val(v, right_yd()) == (1 + t) * (1 - t) - v.g * ((a * b) * (v.a * v.b))
        }),
{
    lemma_variables(v);
    lemma_mon(v, 0x0010000, 0x0000010);
    lemma_mon(v, 0x0001000, 0x0000100);
    lemma_mon(v, 0x0001000, 0x0000010);
    lemma_mon(v, 0x0010000, 0x0000100);
    lemma_mon(v, 0x0010100, 0x0001010);
    lemma_mon(v, 0x0000001, 0x0011110);
    let pa = plus(0x0010010, plus(0x0001100, zero()));
    let pb = plus(0x0010100, plus(0x0001010, zero()));
    let pu = plus(0x0011111, plus(0x0000000, zero()));
    let pw = minus(0x0011111, plus(0x0000000, zero()));
    let a = nx(v.c, v.d, v.e, v.f);
    let b = ny(v.c, v.d, v.e, v.f);
    let t = tt(v.g, v.c, v.d, v.e, v.f);
    assert(val(v, pa) == a && val(v, pb) == b && val(v, pu) == 1 + t && val(v, pw) == 1 - t) by {
        reveal_with_fuel(val, 4);
    }
    let paw = minus(0x0021121, minus(0x0012211, plus(0x0010010, plus(0x0001100, zero()))));
    let pbu = plus(0x0021211, plus(0x0012121, plus(0x0010100, plus(0x0001010, zero()))));
    let puw = minus(0x0022222, plus(0x0000000, zero()));
    let pab = plus(0x0020110, plus(0x0011200, plus(0x0011020, plus(0x0002110, zero()))));
    assert(val(v, paw) == val(v, pa) * val(v, pw)) by {
        assert(small_poly(pa) && small_poly(pw)) by {
            reveal_with_fuel(small_poly, 4);
        }
        lemma_product(v, pa, pw);
        reveal_with_fuel(val, 6);
        reveal_with_fuel(product, 4);
        reveal_with_fuel(scaled, 4);
    }
    assert(val(v, pbu) == val(v, pb) * val(v, pu)) by {
        assert(small_poly(pb) && small_poly(pu)) by {
            reveal_with_fuel(small_poly, 4);
        }
        lemma_product(v, pb, pu);
        reveal_with_fuel(val, 6);
        reveal_with_fuel(product, 4);
        reveal_with_fuel(scaled, 4);
    }
    assert(val(v, puw) == val(v, pu) * val(v, pw)) by {
        assert(small_poly(pu) && small_poly(pw)) by {
            reveal_with_fuel(small_poly, 4);
        }
        lemma_product(v, pu, pw);
        reveal_with_fuel(val, 4);
        reveal_with_fuel(product, 4);
        reveal_with_fuel(scaled, 4);
    }
    assert(val(v, pab) == val(v, pa) * val(v, pb)) by {
        assert(small_poly(pa) && small_poly(pb)) by {
            reveal_with_fuel(small_poly, 4);
        }
        lemma_product(v, pa, pb);
        reveal_with_fuel(val, 6);
        reveal_with_fuel(product, 4);
        reveal_with_fuel(scaled, 4);
    }
    let px = plus(0x1000000, zero());
    let py = plus(0x0100000, zero());
    let pd = plus(0x0000001, zero());
    let pxy = plus(0x1100000, zero());
    lemma_mon(v, 0x1000000, 0x0100000);
    assert(val(v, px) == v.a && val(v, py) == v.b && val(v, pd) == v.g && val(v, pxy) == v.a * v.b) by {
        reveal_with_fuel(val, 3);
    }
    let pawy = minus(0x0121121, minus(0x0112211, plus(0x0110010, plus(0x0101100, zero()))));
    assert(val(v, pawy) == val(v, paw) * val(v, py)) by {
        assert(small_poly(paw) && small_poly(py)) by {
            reveal_with_fuel(small_poly, 6);
        }
        lemma_product(v, paw, py);
        reveal_with_fuel(val, 6);
        reveal_with_fuel(product, 6);
        reveal_with_fuel(scaled, 3);
    }
    let pbux = plus(0x1021211, plus(0x1012121, plus(0x1010100, plus(0x1001010, zero()))));
    assert(val(v, pbux) == val(v, pbu) * val(v, px)) by {
        assert(small_poly(pbu) && small_poly(px)) by {
            reveal_with_fuel(small_poly, 6);
        }
        lemma_product(v, pbu, px);
        reveal_with_fuel(val, 6);
        reveal_with_fuel(product, 6);
        reveal_with_fuel(scaled, 3);
    }
    let pbuy = plus(0x0121211, plus(0x0112121, plus(0x0110100, plus(0x0101010, zero()))));
    assert(val(v, pbuy) == val(v, pbu) * val(v, py)) by {
        assert(small_poly(pbu) && small_poly(py)) by {
            reveal_with_fuel(small_poly, 6);
        }
        lemma_product(v, pbu, py);
        reveal_with_fuel(val, 6);
        reveal_with_fuel(product, 6);
        reveal_with_fuel(scaled, 3);
    }
    let pawx = minus(0x1021121, minus(0x1012211, plus(0x1010010, plus(0x1001100, zero()))));
    assert(val(v, pawx) == val(v, paw) * val(v, px)) by {
        assert(small_poly(paw) && small_poly(px)) by {
            reveal_with_fuel(small_poly, 6);
        }
        lemma_product(v, paw, px);
        reveal_with_fuel(val, 6);
        reveal_with_fuel(product, 6);
        reveal_with_fuel(scaled, 3);
    }
    let pabxy = plus(0x1120110, plus(0x1111200, plus(0x1111020, plus(0x1102110, zero()))));
    assert(val(v, pabxy) == val(v, pab) * val(v, pxy)) by {
        assert(small_poly(pab) && small_poly(pxy)) by {
            reveal_with_fuel(small_poly, 6);
        }
        lemma_product(v, pab, pxy);
        reveal_with_fuel(val, 6);
        reveal_with_fuel(product, 6);
        reveal_with_fuel(scaled, 3);
    }
    let pdabxy = plus(0x1120111, plus(0x1111201, plus(0x1111021, plus(0x1102111, zero()))));
    assert(val(v, pdabxy) == val(v, pd) * val(v, pabxy)) by {
        assert(small_poly(pd) && small_poly(pabxy)) by {
            reveal_with_fuel(small_poly, 6);
        }
        lemma_product(v, pd, pabxy);
        reveal_with_fuel(val, 6);
        reveal_with_fuel(product, 3);
        reveal_with_fuel(scaled, 6);
    }
    assert(val(v, right_x()) == val(v, pawy) + val(v, pbux)) by {
        reveal_with_fuel(val, 10);
    }
    assert(val(v, right_y()) == val(v, pbuy) + val(v, pawx)) by {
        reveal_with_fuel(val, 10);
    }
    assert(val(v, right_xd()) == val(v, puw) + val(v, pdabxy)) by {
        reveal_with_fuel(val, 8);
    }
    assert(val(v, right_yd()) == val(v, puw) - val(v, pdabxy)) by {
        reveal_with_fuel(val, 8);
    }
}

/// The curve equations as polynomials.
pub proof fn lemma_curves(v: Vars)
    ensures
        val(v, curve1()) == v.b * v.b - v.a * v.a - 1 - v.g * ((v.a * v.a) * (v.b * v.b)),
        val(v, curve2()) == v.d * v.d - v.c * v.c - 1 - v.g * ((v.c * v.c) * (v.d * v.d)),
        val(v, curve3()) == v.f * v.f - v.e * v.e - 1 - v.g * ((v.e * v.e) * (v.f * v.f)),
{
    lemma_variables(v);
    lemma_mon(v, 0x1000000, 0x1000000);
    lemma_mon(v, 0x0100000, 0x0100000);
    lemma_mon(v, 0x2000000, 0x0200000);
    lemma_mon(v, 1, 0x2200000);
    lemma_mon(v, 0x0010000, 0x0010000);
    lemma_mon(v, 0x0001000, 0x0001000);
    lemma_mon(v, 0x0020000, 0x0002000);
    lemma_mon(v, 1, 0x0022000);
    lemma_mon(v, 0x0000100, 0x0000100);
    lemma_mon(v, 0x0000010, 0x0000010);
    lemma_mon(v, 0x0000200, 0x0000020);
    lemma_mon(v, 1, 0x0000220);
    reveal_with_fuel(val, 6);
}

/// The sum of two points of the curve satisfies the curve equation, with
/// denominators cleared.
pub proof fn lemma_closure(v: Vars)
    requires
        eq(val(v, curve1()), 0),
        eq(val(v, curve2()), 0),
    ensures
        ({
            let a = nx(v.a, v.b, v.c, v.d);
            let b = ny(v.a, v.b, v.c, v.d);
            let t = tt(v.g, v.a, v.b, v.c, v.d);
            let bu = b * (1 + t);
            let aw = a * (1 - t);
            let uw = (1 + t) * (1 - t);
            let ab = a * b;
            eq(bu * bu - aw * aw - uw * uw - v.g * (ab * ab), 0)
        }),
{
    lemma_variables(v);
    lemma_mon(v, 0x1000000, 0x0001000);
    lemma_mon(v, 0x0100000, 0x0010000);
    lemma_mon(v, 0x0100000, 0x0001000);
    lemma_mon(v, 0x1000000, 0x0010000);
    lemma_mon(v, 0x1010000, 0x0101000);
    lemma_mon(v, 0x0000001, 0x1111000);
    let pa = plus(0x1001000, plus(0x0110000, zero()));
    let pb = plus(0x1010000, plus(0x0101000, zero()));
    let pu = plus(0x1111001, plus(0x0000000, zero()));
    let pw = minus(0x1111001, plus(0x0000000, zero()));
    let a = nx(v.a, v.b, v.c, v.d);
    let b = ny(v.a, v.b, v.c, v.d);
    let t = tt(v.g, v.a, v.b, v.c, v.d);
    assert(val(v, pa) == a && val(v, pb) == b && val(v, pu) == 1 + t && val(v, pw) == 1 - t) by {
        reveal_with_fuel(val, 4);
    }
    let paw = minus(0x2112001, minus(0x1221001, plus(0x1001000, plus(0x0110000, zero()))));
    let pbu = plus(0x2121001, plus(0x1212001, plus(0x1010000, plus(0x0101000, zero()))));
    let puw = minus(0x2222002, plus(0x0000000, zero()));
    let pab = plus(0x2011000, plus(0x1120000, plus(0x1102000, plus(0x0211000, zero()))));
    assert(val(v, paw) == val(v, pa) * val(v, pw)) by {
        assert(small_poly(pa) && small_poly(pw)) by {
            reveal_with_fuel(small_poly, 4);
        }
        lemma_product(v, pa, pw);
        reveal_with_fuel(val, 6);
        reveal_with_fuel(product, 4);
        reveal_with_fuel(scaled, 4);
    }
    assert(val(v, pbu) == val(v, pb) * val(v, pu)) by {
        assert(small_poly(pb) && small_poly(pu)) by {
            reveal_with_fuel(small_poly, 4);
        }
        lemma_product(v, pb, pu);
        reveal_with_fuel(val, 6);
        reveal_with_fuel(product, 4);
        reveal_with_fuel(scaled, 4);
    }
    assert(val(v, puw) == val(v, pu) * val(v, pw)) by {
        assert(small_poly(pu) && small_poly(pw)) by {
            reveal_with_fuel(small_poly, 4);
        }
        lemma_product(v, pu, pw);
        reveal_with_fuel(val, 4);
        reveal_with_fuel(product, 4);
        reveal_with_fuel(scaled, 4);
    }
    assert(val(v, pab) == val(v, pa) * val(v, pb)) by {
        assert(small_poly(pa) && small_poly(pb)) by {
            reveal_with_fuel(small_poly, 4);
        }
        lemma_product(v, pa, pb);
        reveal_with_fuel(val, 6);
        reveal_with_fuel(product, 4);
        reveal_with_fuel(scaled, 4);
    }
    let pbu2 = plus(0x4242002, plus(0x3333002, plus(0x3333002, plus(0x3131001, plus(0x3131001, plus(0x2424002, plus(0x2222001, plus(0x2222001, plus(0x2222001, plus(0x2222001, plus(0x2020000, plus(0x1313001, plus(0x1313001, plus(0x1111000, plus(0x1111000, plus(0x0202000, zero()))))))))))))))));
    assert(val(v, pbu2) == val(v, pbu) * val(v, pbu)) by {
        assert(small_poly(pbu) && small_poly(pbu)) by {
            reveal_with_fuel(small_poly, 6);
        }
        lemma_product(v, pbu, pbu);
        reveal_with_fuel(val, 18);
        reveal_with_fuel(product, 6);
        reveal_with_fuel(scaled, 6);
    }
    let paw2 = plus(0x4224002, plus(0x3333002, plus(0x3333002, minus(0x3113001, minus(0x3113001, plus(0x2442002, minus(0x2222001, minus(0x2222001, minus(0x2222001, minus(0x2222001, plus(0x2002000, minus(0x1331001, minus(0x1331001, plus(0x1111000, plus(0x1111000, plus(0x0220000, zero()))))))))))))))));
    assert(val(v, paw2) == val(v, paw) * val(v, paw)) by {
        assert(small_poly(paw) && small_poly(paw)) by {
            reveal_with_fuel(small_poly, 6);
        }
        lemma_product(v, paw, paw);
        reveal_with_fuel(val, 18);
        reveal_with_fuel(product, 6);
        reveal_with_fuel(scaled, 6);
    }
    let puw2 = plus(0x4444004, minus(0x2222002, minus(0x2222002, plus(0x0000000, zero()))));
    assert(val(v, puw2) == val(v, puw) * val(v, puw)) by {
        assert(small_poly(puw) && small_poly(puw)) by {
            reveal_with_fuel(small_poly, 4);
        }
        lemma_product(v, puw, puw);
        reveal_with_fuel(val, 6);
        reveal_with_fuel(product, 4);
        reveal_with_fuel(scaled, 4);
    }
    let pab2 = plus(0x4022000, plus(0x3131000, plus(0x3131000, plus(0x3113000, plus(0x3113000, plus(0x2240000, plus(0x2222000, plus(0x2222000, plus(0x2222000, plus(0x2222000, plus(0x2204000, plus(0x1331000, plus(0x1331000, plus(0x1313000, plus(0x1313000, plus(0x0422000, zero()))))))))))))))));
    assert(val(v, pab2) == val(v, pab) * val(v, pab)) by {
        assert(small_poly(pab) && small_poly(pab)) by {
            reveal_with_fuel(small_poly, 6);
        }
        lemma_product(v, pab, pab);
        reveal_with_fuel(val, 18);
        reveal_with_fuel(product, 6);
        reveal_with_fuel(scaled, 6);
    }
    let pd = plus(0x0000001, zero());
    assert(val(v, pd) == v.g) by {
        reveal_with_fuel(val, 3);
    }
    let pdab2 = plus(0x4022001, plus(0x3131001, plus(0x3131001, plus(0x3113001, plus(0x3113001, plus(0x2240001, plus(0x2222001, plus(0x2222001, plus(0x2222001, plus(0x2222001, plus(0x2204001, plus(0x1331001, plus(0x1331001, plus(0x1313001, plus(0x1313001, plus(0x0422001, zero()))))))))))))))));
    assert(val(v, pdab2) == val(v, pd) * val(v, pab2)) by {
        assert(small_poly(pd) && small_poly(pab2)) by {
            reveal_with_fuel(small_poly, 18);
        }
        lemma_product(v, pd, pab2);
        reveal_with_fuel(val, 18);
        reveal_with_fuel(product, 3);
        reveal_with_fuel(scaled, 18);
    }
    let k1 = plus(0x2244003, minus(0x2044002, minus(0x2042001, plus(0x2024001, plus(0x0244002, plus(0x0242001, minus(0x0224001, minus(0x0044002, minus(0x0044001, minus(0x0044001, minus(0x0042000, minus(0x0042000, plus(0x0040000, plus(0x0024000, plus(0x0024000, minus(0x0022001, minus(0x0022001, minus(0x0022000, minus(0x0022000, minus(0x0022000, minus(0x0022000, plus(0x0004000, zero()))))))))))))))))))))));
    let k2 = plus(0x4022001, plus(0x2022001, plus(0x2022001, plus(0x2022000, plus(0x2022000, minus(0x2020000, plus(0x2002000, plus(0x0422001, minus(0x0222001, minus(0x0222001, minus(0x0222000, minus(0x0222000, plus(0x0220000, minus(0x0202000, plus(0x0022001, plus(0x0022000, plus(0x0022000, minus(0x0020000, plus(0x0002000, plus(0x0000000, zero()))))))))))))))))))));
    assert(small_poly(k1) && small_poly(k2) && small_poly(curve1()) && small_poly(curve2())) by {
        reveal_with_fuel(small_poly, 26);
    }
    lemma_product(v, k1, curve1());
    lemma_product(v, k2, curve2());
    let l = val(v, pbu2) - val(v, paw2) - val(v, puw2) - val(v, pdab2);
    assert(l == product(v, k1, curve1()) + product(v, k2, curve2())) by {
        reveal_with_fuel(val, 20);
        reveal_with_fuel(product, 26);
        reveal_with_fuel(scaled, 6);
    }
    lemma_comb2(l, 0, val(v, k1), val(v, curve1()), 0, val(v, k2), val(v, curve2()), 0);
}

} // verus!
