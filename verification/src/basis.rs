//! The orthonormal basis that `Vec3::make_two_perpendicular` makes for a
//! unit vector: what it is, up to rounding.

use crate::fixed::lemma_nought_and_one;
use crate::fixed::lemma_product_is_smaller;
use crate::fixed::lemma_product_rounding;
use crate::fixed::lemma_product_with_one_or_zero;
use crate::fixed::lemma_ratio_rounding;
use crate::fixed::lemma_root_between;
use crate::fixed::lemma_root_exists;
use crate::fixed::magnitude;
use crate::fixed::product_error;
use crate::fixed::ratio_error;
use crate::fixed::root;
use crate::fixed::Fixed;
use crate::fixed::ONE;
use crate::fixed::PRODUCT_BOUND;
use crate::vec::is_bounded;
use crate::vec::is_unit;
use crate::vec::lemma_component_is_shorter;
use crate::vec::lemma_normalized_is_unit;
use crate::vec::lemma_stretched_length;
use crate::vec::lemma_unit_is_bounded;
use crate::vec::squares;
use crate::vec::Vec3;
use crate::vec::UNIT_TOLERANCE;
use vstd::prelude::*;

verus! {

/// How far, in raw steps, a dot product of two vectors of the basis of a
/// unit vector can be from zero.
pub const DOT_TOLERANCE: i64 = 8;

/// The exact dot product of the raw components of two vectors.
pub open spec fn exact_dot(u: Vec3, v: Vec3) -> int {
    u.x@ * v.x@ + u.y@ * v.y@ + u.z@ * v.z@
}

/// Whether no component of `v` is beyond `PRODUCT_BOUND`, so that no
/// product of components saturates.
pub open spec fn is_small(v: Vec3) -> bool {
    &&& -PRODUCT_BOUND <= v.x@ <= PRODUCT_BOUND
    &&& -PRODUCT_BOUND <= v.y@ <= PRODUCT_BOUND
    &&& -PRODUCT_BOUND <= v.z@ <= PRODUCT_BOUND
}

/// A product of two small numbers is at most `2^60` in magnitude.
pub proof fn lemma_small_product(a: Fixed, b: Fixed)
    requires
        -PRODUCT_BOUND <= a@ <= PRODUCT_BOUND,
        -PRODUCT_BOUND <= b@ <= PRODUCT_BOUND,
    ensures
        magnitude((a * b)@) <= 0x1000_0000_0000_0000,
{
    lemma_product_rounding(a, b);
    let p = magnitude((a * b)@);
    let x = magnitude(a@);
    let y = magnitude(b@);
    assert(p <= 0x1000_0000_0000_0000) by (nonlinear_arith)
        requires
            p * ONE <= x * y,
            0 <= x <= 0x4000_0000_0000,
            0 <= y <= 0x4000_0000_0000,
            ONE == 4_294_967_296,
    ;
}

/// A dot product loses less than three raw steps to rounding.
pub proof fn lemma_dot_rounding(u: Vec3, v: Vec3)
    requires
        is_small(u),
        is_small(v),
    ensures
        -3 * ONE < exact_dot(u, v) - u.spec_dot(v)@ * ONE < 3 * ONE,
{
    lemma_product_rounding(u.x, v.x);
    lemma_product_rounding(u.y, v.y);
    lemma_product_rounding(u.z, v.z);
    let p = (u.x * v.x)@;
    let q = (u.y * v.y)@;
    let r = (u.z * v.z)@;
    lemma_small_product(u.x, v.x);
    lemma_small_product(u.y, v.y);
    lemma_small_product(u.z, v.z);
    assert(u.spec_dot(v)@ == p + q + r);
    assert((p + q + r) * ONE == p * ONE + q * ONE + r * ONE) by (nonlinear_arith);
}

/// The first vector of the basis of a unit vector: it is a unit vector
/// in the xy plane, and its exact dot product with the vector that it was
/// made for is at most the sum of the magnitudes of that vector's x and y
/// components.
pub proof fn lemma_first_of_basis(v: Vec3)
    requires
        is_unit(v),
    ensures
        ({
            let first = v.spec_first_perpendicular().spec_normalized();
            &&& is_unit(first)
            &&& first.z@ == 0
            &&& -ONE <= first.x@ <= ONE
            &&& -ONE <= first.y@ <= ONE
            &&& -2 * (ONE + UNIT_TOLERANCE) <= exact_dot(v, first) <= 2 * (ONE + UNIT_TOLERANCE)
        }),
{
    lemma_unit_is_bounded(v);
    lemma_nought_and_one();
    let flat = v.spec_first_perpendicular();
    assert(is_bounded(flat));
    assert(flat.x@ != 0 || flat.y@ != 0 || flat.z@ != 0);
    assert(flat.z@ == 0);
    lemma_normalized_is_unit(flat);
    lemma_stretched_length(flat);
    let w = flat.spec_stretched();
    let length = w.spec_magnitude();
    let m = length@;
    let first = flat.spec_normalized();
    assert(first.x == w.x / length && first.y == w.y / length && first.z == w.z / length);
    lemma_ratio_rounding(w.x, length);
    lemma_ratio_rounding(w.y, length);
    lemma_ratio_rounding(w.z, length);
    let e1 = ratio_error(w.x, length);
    let e2 = ratio_error(w.y, length);
    assert(w.z@ == 0);
    assert(0int * ONE == 0) by (nonlinear_arith);
    assert(first.z@ == 0) by (nonlinear_arith)
        requires
            -m < 0 - first.z@ * m < m,
            m > 0,
    ;
    let x = v.x@;
    let y = v.y@;
    assert(x * w.x@ + y * w.y@ == 0) by (nonlinear_arith)
        requires
            (w.x@ == -y && w.y@ == x) || (w.x@ == (-y) * 1_073_741_824 && w.y@ == x * 1_073_741_824)
                || (x == 0 && y == 0),
    ;
    let d = x * first.x@ + y * first.y@;
    assert(x * (first.x@ * m) == x * (w.x@ * ONE) - x * e1) by (nonlinear_arith)
        requires
            first.x@ * m == w.x@ * ONE - e1,
    ;
    assert(y * (first.y@ * m) == y * (w.y@ * ONE) - y * e2) by (nonlinear_arith)
        requires
            first.y@ * m == w.y@ * ONE - e2,
    ;
    assert(x * (w.x@ * ONE) + y * (w.y@ * ONE) == (x * w.x@ + y * w.y@) * ONE)
        by (nonlinear_arith);
    assert(d * m == x * (first.x@ * m) + y * (first.y@ * m)) by (nonlinear_arith)
        requires
            d == x * first.x@ + y * first.y@,
    ;
    assert((x * w.x@ + y * w.y@) * ONE == 0) by (nonlinear_arith)
        requires
            x * w.x@ + y * w.y@ == 0,
    ;
    assert(d * m == -(x * e1) - y * e2);
    let bound = magnitude(x) + magnitude(y);
    assert(-(bound * m) <= -(x * e1) - y * e2 <= bound * m) by (nonlinear_arith)
        requires
            -m < e1 < m,
            -m < e2 < m,
            bound == magnitude(x) + magnitude(y),
    ;
    assert(-bound <= d <= bound) by (nonlinear_arith)
        requires
            -(bound * m) <= d * m <= bound * m,
            m > 0,
    ;
    assert(first.z@ * v.z@ == 0) by (nonlinear_arith)
        requires
            first.z@ == 0,
    ;
    assert(v.z@ * first.z@ == 0) by (nonlinear_arith)
        requires
            first.z@ == 0,
    ;
}

/// The second vector of the basis of a unit vector, by its components,
/// and how far its exact dot products with the other two vectors can be from
/// zero.
pub proof fn lemma_second_of_basis(v: Vec3)
    requires
        is_unit(v),
    ensures
        ({
            let first = v.spec_first_perpendicular().spec_normalized();
            let second = v.spec_cross(first);
            &&& second.x@ == -(v.z * first.y)@
            &&& second.y@ == (v.z * first.x)@
            &&& second.z@ == (v.x * first.y)@ - (v.y * first.x)@
            &&& is_small(second)
            &&& -2 * ONE <= exact_dot(first, second) <= 2 * ONE
            &&& -4 * (ONE + UNIT_TOLERANCE) <= exact_dot(v, second) <= 4 * (ONE + UNIT_TOLERANCE)
        }),
{
    lemma_unit_is_bounded(v);
    lemma_first_of_basis(v);
    let first = v.spec_first_perpendicular().spec_normalized();
    let second = v.spec_cross(first);
    let x = v.x@;
    let y = v.y@;
    let z = v.z@;
    let a = first.x@;
    let b = first.y@;
    assert(first.z == Fixed::of(0));
    lemma_product_with_one_or_zero(v.x);
    lemma_product_with_one_or_zero(v.y);
    lemma_product_rounding(v.z, first.y);
    lemma_product_rounding(v.z, first.x);
    lemma_product_rounding(v.x, first.y);
    lemma_product_rounding(v.y, first.x);
    let p = (v.z * first.y)@;
    let q = (v.z * first.x)@;
    let s = (v.x * first.y)@;
    let t = (v.y * first.x)@;
    let limit = ONE + UNIT_TOLERANCE;
    assert(magnitude(p) <= limit && magnitude(q) <= limit && magnitude(s) <= limit && magnitude(t)
        <= limit) by (nonlinear_arith)
        requires
            magnitude(p) * ONE <= magnitude(z) * magnitude(b),
            magnitude(q) * ONE <= magnitude(z) * magnitude(a),
            magnitude(s) * ONE <= magnitude(x) * magnitude(b),
            magnitude(t) * ONE <= magnitude(y) * magnitude(a),
            magnitude(x) <= limit,
            magnitude(y) <= limit,
            magnitude(z) <= limit,
            magnitude(a) <= ONE,
            magnitude(b) <= ONE,
            ONE == 4_294_967_296,
            limit >= 0,
    ;
    assert(second.x@ == -p);
    assert(second.y@ == q);
    assert(second.z@ == s - t);
    let ep = product_error(v.z, first.y);
    let eq = product_error(v.z, first.x);
    let es = product_error(v.x, first.y);
    let et = product_error(v.y, first.x);
    let between = a * (-p) + b * q;
    assert(a * (p * ONE) == a * (z * b) - a * ep) by (nonlinear_arith)
        requires
            p * ONE == z * b - ep,
    ;
    assert(b * (q * ONE) == b * (z * a) - b * eq) by (nonlinear_arith)
        requires
            q * ONE == z * a - eq,
    ;
    assert(a * (z * b) == b * (z * a)) by (nonlinear_arith);
    assert((a * (-p)) * ONE == -(a * (p * ONE))) by (nonlinear_arith);
    assert((b * q) * ONE == b * (q * ONE)) by (nonlinear_arith);
    assert(between * ONE == (a * (-p)) * ONE + (b * q) * ONE) by (nonlinear_arith)
        requires
            between == a * (-p) + b * q,
    ;
    assert(between * ONE == a * ep - b * eq);
    assert(-(2 * ONE) * ONE <= a * ep - b * eq <= (2 * ONE) * ONE) by (nonlinear_arith)
        requires
            -ONE <= a <= ONE,
            -ONE <= b <= ONE,
            -ONE < ep < ONE,
            -ONE < eq < ONE,
    ;
    assert(-2 * ONE <= between <= 2 * ONE) by (nonlinear_arith)
        requires
            -(2 * ONE) * ONE <= between * ONE <= (2 * ONE) * ONE,
            ONE > 0,
    ;
    assert(first.z@ * second.z@ == 0) by (nonlinear_arith)
        requires
            first.z@ == 0,
    ;
    let along = x * (-p) + y * q + z * (s - t);
    assert(x * (p * ONE) == x * (z * b) - x * ep) by (nonlinear_arith)
        requires
            p * ONE == z * b - ep,
    ;
    assert(y * (q * ONE) == y * (z * a) - y * eq) by (nonlinear_arith)
        requires
            q * ONE == z * a - eq,
    ;
    assert(z * (s * ONE) == z * (x * b) - z * es) by (nonlinear_arith)
        requires
            s * ONE == x * b - es,
    ;
    assert(z * (t * ONE) == z * (y * a) - z * et) by (nonlinear_arith)
        requires
            t * ONE == y * a - et,
    ;
    assert(x * (z * b) == z * (x * b)) by (nonlinear_arith);
    assert(y * (z * a) == z * (y * a)) by (nonlinear_arith);
    assert((x * (-p)) * ONE == -(x * (p * ONE))) by (nonlinear_arith);
    assert((y * q) * ONE == y * (q * ONE)) by (nonlinear_arith);
    assert((z * (s - t)) * ONE == z * (s * ONE) - z * (t * ONE)) by (nonlinear_arith);
    assert(along * ONE == (x * (-p)) * ONE + (y * q) * ONE + (z * (s - t)) * ONE)
        by (nonlinear_arith)
        requires
            along == x * (-p) + y * q + z * (s - t),
    ;
    assert(along * ONE == x * ep - y * eq - z * es + z * et);
    assert(-(4 * limit) * ONE <= x * ep - y * eq - z * es + z * et <= (4 * limit) * ONE)
        by (nonlinear_arith)
        requires
            -limit <= x <= limit,
            -limit <= y <= limit,
            -limit <= z <= limit,
            -ONE < ep < ONE,
            -ONE < eq < ONE,
            -ONE < es < ONE,
            -ONE < et < ONE,
            limit >= 0,
    ;
    assert(-4 * limit <= along <= 4 * limit) by (nonlinear_arith)
        requires
            -(4 * limit) * ONE <= along * ONE <= (4 * limit) * ONE,
            ONE > 0,
    ;
}

/// `Vec3::make_two_perpendicular` makes, for a unit vector, two vectors
/// that form an orthonormal basis with it, up to rounding: the first is a
/// unit vector, and the dot product of any two of the three vectors is at
/// most `DOT_TOLERANCE` raw steps from zero.
pub proof fn lemma_basis_is_perpendicular(v: Vec3)
    requires
        is_unit(v),
    ensures
        ({
            let first = v.spec_first_perpendicular().spec_normalized();
            let second = v.spec_cross(first);
            &&& is_unit(first)
            &&& -DOT_TOLERANCE <= v.spec_dot(first)@ <= DOT_TOLERANCE
            &&& -DOT_TOLERANCE <= v.spec_dot(second)@ <= DOT_TOLERANCE
            &&& -DOT_TOLERANCE <= first.spec_dot(second)@ <= DOT_TOLERANCE
        }),
{
    lemma_unit_is_bounded(v);
    lemma_first_of_basis(v);
    lemma_second_of_basis(v);
    let first = v.spec_first_perpendicular().spec_normalized();
    let second = v.spec_cross(first);
    lemma_dot_rounding(v, first);
    lemma_dot_rounding(v, second);
    lemma_dot_rounding(first, second);
    lemma_dot_is_small(exact_dot(v, first), v.spec_dot(first)@);
    lemma_dot_is_small(exact_dot(v, second), v.spec_dot(second)@);
    lemma_dot_is_small(exact_dot(first, second), first.spec_dot(second)@);
}

/// A dot product whose exact value is at most a little over four times
/// one, and that has lost less than three raw steps to rounding, is at most
/// `DOT_TOLERANCE` raw steps from zero.
proof fn lemma_dot_is_small(exact: int, dot: int)
    requires
        -4 * (ONE + UNIT_TOLERANCE) <= exact <= 4 * (ONE + UNIT_TOLERANCE),
        -3 * ONE < exact - dot * ONE < 3 * ONE,
    ensures
        -DOT_TOLERANCE <= dot <= DOT_TOLERANCE,
{
    assert(-8 <= dot <= 8) by (nonlinear_arith)
        requires
            -4 * (ONE + 4) <= exact <= 4 * (ONE + 4),
            -3 * ONE < exact - dot * ONE < 3 * ONE,
            ONE == 4_294_967_296,
    ;
}

/// How far, in raw steps, the length of the second vector of the basis of
/// a unit vector can be from one.
pub const BASIS_TOLERANCE: i64 = 16;

/// The square of a number that is off by an error: it is the square of
/// the number, up to twice the product of the bounds and the square of the
/// bound of the error.
proof fn lemma_shifted_square(w: int, e: int, bw: int, be: int)
    requires
        -bw <= w <= bw,
        -be <= e <= be,
    ensures
        w * w - 2 * (bw * be) <= (w - e) * (w - e) <= w * w + 2 * (bw * be) + be * be,
{
    assert(-(bw * be) <= w * e <= bw * be) by (nonlinear_arith)
        requires
            -bw <= w <= bw,
            -be <= e <= be,
    ;
    assert(0 <= e * e <= be * be) by (nonlinear_arith)
        requires
            -be <= e <= be,
    ;
    assert((w - e) * (w - e) == w * w - 2 * (w * e) + e * e) by (nonlinear_arith);
}

/// The identity of Lagrange in the plane.
proof fn lemma_lagrange(x: int, y: int, a: int, b: int)
    ensures
        (x * b - y * a) * (x * b - y * a) + (x * a + y * b) * (x * a + y * b) == (x * x + y * y) * (a
            * a + b * b),
{
    let xb = x * b;
    let ya = y * a;
    let xa = x * a;
    let yb = y * b;
    assert((xb - ya) * (xb - ya) == xb * xb - 2 * (xb * ya) + ya * ya) by (nonlinear_arith);
    assert((xa + yb) * (xa + yb) == xa * xa + 2 * (xa * yb) + yb * yb) by (nonlinear_arith);
    assert(xb * ya == xa * yb) by (nonlinear_arith)
        requires
            xb == x * b,
            ya == y * a,
            xa == x * a,
            yb == y * b,
    ;
    assert(xb * xb == (x * x) * (b * b) && ya * ya == (y * y) * (a * a) && xa * xa == (x * x) * (a
        * a) && yb * yb == (y * y) * (b * b)) by (nonlinear_arith)
        requires
            xb == x * b,
            ya == y * a,
            xa == x * a,
            yb == y * b,
    ;
    assert((x * x + y * y) * (a * a + b * b) == (x * x) * (a * a) + (x * x) * (b * b) + (y * y) * (a
        * a) + (y * y) * (b * b)) by (nonlinear_arith);
}

/// The product of two squared lengths of unit vectors lies between the
/// fourth powers of the bounds.
proof fn lemma_unit_squares(s: int, a: int)
    requires
        18_446_744_039_349_813_264int <= s <= 18_446_744_116_659_224_600int,
        18_446_744_039_349_813_264int <= a <= 18_446_744_116_659_224_600int,
    ensures
        340_282_365_653_287_865_006_032_635_911_670_333_696int <= s * a <= 340_282_368_505_501_716_478_779_484_273_245_160_000int,
{
    assert(18_446_744_039_349_813_264int * 18_446_744_039_349_813_264int <= s * a && s * a <= 18_446_744_116_659_224_600int * 18_446_744_116_659_224_600int) by (nonlinear_arith)
        requires
            18_446_744_039_349_813_264int <= s <= 18_446_744_116_659_224_600int,
            18_446_744_039_349_813_264int <= a <= 18_446_744_116_659_224_600int,
    ;
    assert(18_446_744_039_349_813_264int * 18_446_744_039_349_813_264int == 340_282_365_653_287_865_006_032_635_911_670_333_696int);
    assert(18_446_744_116_659_224_600int * 18_446_744_116_659_224_600int == 340_282_368_505_501_716_478_779_484_273_245_160_000int);
}

/// The squared length of a vector lies between the squares of the bounds
/// of a unit vector, if the vector is one.
pub proof fn lemma_unit_square(v: Vec3)
    requires
        is_unit(v),
    ensures
        18_446_744_039_349_813_264int <= squares(v.x@, v.y@, v.z@) <= 18_446_744_116_659_224_600int,
{
    let total = squares(v.x@, v.y@, v.z@);
    lemma_root_exists(total);
    let m = root(total) as int;
    assert(m * m >= 18_446_744_039_349_813_264int && (m + 1) * (m + 1) <= 18_446_744_116_659_224_601int) by (nonlinear_arith)
        requires
            4_294_967_292 <= m <= 4_294_967_300,
    ;
}

/// The second vector of the basis of a unit vector is a unit vector, up
/// to `BASIS_TOLERANCE` raw steps.
pub proof fn lemma_second_is_unit(v: Vec3)
    requires
        is_unit(v),
    ensures
        ({
            let first = v.spec_first_perpendicular().spec_normalized();
            let second = v.spec_cross(first);
            ONE - BASIS_TOLERANCE <= second.spec_magnitude()@ <= ONE + BASIS_TOLERANCE
        }),
{
    lemma_unit_is_bounded(v);
    lemma_first_of_basis(v);
    lemma_second_of_basis(v);
    let first = v.spec_first_perpendicular().spec_normalized();
    let second = v.spec_cross(first);
    let x = v.x@;
    let y = v.y@;
    let z = v.z@;
    let a = first.x@;
    let b = first.y@;
    lemma_product_rounding(v.z, first.y);
    lemma_product_rounding(v.z, first.x);
    lemma_product_rounding(v.x, first.y);
    lemma_product_rounding(v.y, first.x);
    let ep = product_error(v.z, first.y);
    let eq = product_error(v.z, first.x);
    let er = product_error(v.x, first.y) - product_error(v.y, first.x);
    let w1 = z * b;
    let w2 = z * a;
    let w3 = x * b - y * a;
    let d = x * a + y * b;
    // the three components, times one
    assert(second.x@ * ONE == -(w1 - ep)) by (nonlinear_arith)
        requires
            second.x@ == -(v.z * first.y)@,
            ep == w1 - (v.z * first.y)@ * ONE,
    ;
    assert(second.y@ * ONE == w2 - eq);
    assert(second.z@ * ONE == w3 - er) by (nonlinear_arith)
        requires
            second.z@ == (v.x * first.y)@ - (v.y * first.x)@,
            er == (x * b - (v.x * first.y)@ * ONE) - (y * a - (v.y * first.x)@ * ONE),
            w3 == x * b - y * a,
    ;
    // the exact vector has the squared length of the two unit vectors
    // multiplied, less the square of their dot product
    lemma_lagrange(x, y, a, b);
    let sv = x * x + y * y + z * z;
    let sa = a * a + b * b;
    assert(w1 * w1 + w2 * w2 == (z * z) * sa) by (nonlinear_arith)
        requires
            w1 == z * b,
            w2 == z * a,
            sa == a * a + b * b,
    ;
    assert(sv * sa == (x * x + y * y) * sa + (z * z) * sa) by (nonlinear_arith)
        requires
            sv == x * x + y * y + z * z,
    ;
    let ww = w1 * w1 + w2 * w2 + w3 * w3;
    assert(ww == sv * sa - d * d);
    lemma_unit_square(v);
    lemma_unit_square(first);
    assert(first.z@ * first.z@ == 0) by (nonlinear_arith)
        requires
            first.z@ == 0,
    ;
    assert(x * x >= 0 && y * y >= 0 && z * z >= 0 && a * a >= 0 && b * b >= 0)
        by (nonlinear_arith);
    assert(sv == squares(v.x@, v.y@, v.z@));
    assert(sa == squares(first.x@, first.y@, first.z@));
    lemma_unit_squares(sv, sa);
    assert(0 <= d * d <= 73_786_976_432_277_160_000int) by (nonlinear_arith)
        requires
            -8_589_934_600int <= d <= 8_589_934_600int,
    ;
    // rounding moves each component by little
    let limit = ONE + UNIT_TOLERANCE;
    assert(-(limit * ONE) <= w1 <= limit * ONE && -(limit * ONE) <= w2 <= limit * ONE && -(2 * (
    limit * ONE)) <= w3 <= 2 * (limit * ONE)) by (nonlinear_arith)
        requires
            w1 == z * b,
            w2 == z * a,
            w3 == x * b - y * a,
            -limit <= x <= limit,
            -limit <= y <= limit,
            -limit <= z <= limit,
            -ONE <= a <= ONE,
            -ONE <= b <= ONE,
            limit >= 0,
            ONE > 0,
    ;
    let bw = limit * ONE;
    assert(bw == 18_446_744_090_889_420_800int);
    lemma_shifted_square(w1, ep, bw, ONE as int);
    lemma_shifted_square(w2, eq, bw, ONE as int);
    lemma_shifted_square(w3, er, 2 * bw, 2 * ONE);
    assert(bw * ONE == 79_228_162_588_051_313_888_382_156_800int);
    assert((2 * bw) * (2 * ONE) == 316_912_650_352_205_255_553_528_627_200int);
    assert(ONE * ONE == 18_446_744_073_709_551_616int);
    assert((2 * ONE) * (2 * ONE) == 73_786_976_294_838_206_464int);
    let p = second.x@ * ONE;
    let q = second.y@ * ONE;
    let r = second.z@ * ONE;
    assert(p * p == (w1 - ep) * (w1 - ep)) by (nonlinear_arith)
        requires
            p == -(w1 - ep),
    ;
    let long = p * p + q * q + r * r;
    assert(340_282_364_702_549_913_875_629_892_818_807_292_096int <= long <= 340_282_369_456_239_667_646_075_715_376_088_351_296int);
    let length = squares(second.x@, second.y@, second.z@);
    assert(second.x@ * second.x@ >= 0 && second.y@ * second.y@ >= 0 && second.z@ * second.z@ >= 0)
        by (nonlinear_arith);
    assert(length == second.x@ * second.x@ + second.y@ * second.y@ + second.z@ * second.z@);
    assert(long == length * 18_446_744_073_709_551_616int) by (nonlinear_arith)
        requires
            long == p * p + q * q + r * r,
            p == second.x@ * 4_294_967_296,
            q == second.y@ * 4_294_967_296,
            r == second.z@ * 4_294_967_296,
            length == second.x@ * second.x@ + second.y@ * second.y@ + second.z@ * second.z@,
    ;
    assert(18_446_743_936_270_598_400int <= length < 18_446_744_219_738_439_969int);
    assert((4_294_967_280int) * (4_294_967_280int) == 18_446_743_936_270_598_400int);
    assert((4_294_967_313int) * (4_294_967_313int) == 18_446_744_219_738_439_969int);
    lemma_root_between(length, (ONE - 16) as nat, (ONE + 16) as nat);
}

/// `Vec3::make_two_perpendicular` makes an orthonormal basis. For a unit
/// vector, the two vectors that it returns are unit vectors, the first up to
/// `UNIT_TOLERANCE` and the second up to `BASIS_TOLERANCE` raw steps, and the
/// dot product of any two of the three vectors is at most `DOT_TOLERANCE`
/// raw steps from zero.
pub proof fn lemma_basis_is_orthonormal(v: Vec3)
    requires
        is_unit(v),
    ensures
        ({
            let first = v.spec_first_perpendicular().spec_normalized();
            let second = v.spec_cross(first);
            &&& is_unit(first)
            &&& ONE - BASIS_TOLERANCE <= second.spec_magnitude()@ <= ONE + BASIS_TOLERANCE
            &&& -DOT_TOLERANCE <= v.spec_dot(first)@ <= DOT_TOLERANCE
            &&& -DOT_TOLERANCE <= v.spec_dot(second)@ <= DOT_TOLERANCE
            &&& -DOT_TOLERANCE <= first.spec_dot(second)@ <= DOT_TOLERANCE
        }),
{
    lemma_basis_is_perpendicular(v);
    lemma_second_is_unit(v);
}

/// The second vector of the basis of a unit vector has no component
/// beyond one plus `BASIS_TOLERANCE`, and its squared length lies between the
/// squares of its bounds.
pub proof fn lemma_second_square(v: Vec3)
    requires
        is_unit(v),
    ensures
        ({
            let second = v.spec_cross(v.spec_first_perpendicular().spec_normalized());
            &&& 18_446_743_936_270_598_400int <= squares(second.x@, second.y@, second.z@) <= 18_446_744_219_738_439_968int
            &&& -(ONE + BASIS_TOLERANCE) <= second.x@ <= ONE + BASIS_TOLERANCE
            &&& -(ONE + BASIS_TOLERANCE) <= second.y@ <= ONE + BASIS_TOLERANCE
            &&& -(ONE + BASIS_TOLERANCE) <= second.z@ <= ONE + BASIS_TOLERANCE
        }),
{
    lemma_second_is_unit(v);
    let second = v.spec_cross(v.spec_first_perpendicular().spec_normalized());
    let total = squares(second.x@, second.y@, second.z@);
    lemma_root_exists(total);
    let m = root(total) as int;
    assert(m * m >= 18_446_743_936_270_598_400int && (m + 1) * (m + 1) <= 18_446_744_219_738_439_969int) by (nonlinear_arith)
        requires
            4_294_967_280 <= m <= 4_294_967_312,
    ;
    let a = magnitude(second.x@);
    let b = magnitude(second.y@);
    let c = magnitude(second.z@);
    assert(a * a == second.x@ * second.x@ && b * b == second.y@ * second.y@ && c * c == second.z@
        * second.z@ && a * a >= 0 && b * b >= 0 && c * c >= 0) by (nonlinear_arith)
        requires
            a == magnitude(second.x@),
            b == magnitude(second.y@),
            c == magnitude(second.z@),
    ;
    lemma_component_is_shorter(a, b * b + c * c, m);
    lemma_component_is_shorter(b, a * a + c * c, m);
    lemma_component_is_shorter(c, a * a + b * b, m);
}

/// One component of a vector in the plane of the basis: the first
/// vector's component times `c` plus the second's times `s`, and what it
/// loses to rounding.
proof fn lemma_plane_component(f: Fixed, g: Fixed, c: Fixed, s: Fixed, d: int)
    requires
        -ONE <= f@ <= ONE,
        -(ONE + BASIS_TOLERANCE) <= g@ <= ONE + BASIS_TOLERANCE,
        -ONE <= c@ <= ONE,
        -ONE <= s@ <= ONE,
        -(ONE + UNIT_TOLERANCE) <= d <= ONE + UNIT_TOLERANCE,
    ensures
        ({
            let w = (f * c + g * s)@;
            let exact = f@ * c@ + g@ * s@;
            let lost = exact - w * ONE;
            &&& -2 * ONE < lost < 2 * ONE
            &&& -(2 * (ONE + BASIS_TOLERANCE)) <= w <= 2 * (ONE + BASIS_TOLERANCE)
            &&& -36_893_488_216_138_579_968int <= exact <= 36_893_488_216_138_579_968int
            &&& d * (w * ONE) == c@ * (d * f@) + s@ * (d * g@) - d * lost
            &&& -(2 * ((ONE + UNIT_TOLERANCE) * ONE)) <= d * lost <= 2 * ((ONE + UNIT_TOLERANCE)
                * ONE)
            &&& (w * ONE) * (w * ONE) >= exact * exact - 633_825_301_294_706_321_465_762_906_112int
            &&& exact * exact == (f@ * f@) * (c@ * c@) + 2 * ((f@ * g@) * (c@ * s@)) + (g@ * g@) * (
            s@ * s@)
        }),
{
    lemma_product_rounding(f, c);
    lemma_product_rounding(g, s);
    lemma_product_is_smaller(f, c);
    lemma_product_is_smaller(g, s);
    let p = (f * c)@;
    let q = (g * s)@;
    let w = (f * c + g * s)@;
    assert(w == p + q);
    let exact = f@ * c@ + g@ * s@;
    let lost = exact - w * ONE;
    assert(w * ONE == p * ONE + q * ONE) by (nonlinear_arith)
        requires
            w == p + q,
    ;
    assert(lost == product_error(f, c) + product_error(g, s));
    assert(-(ONE * ONE) <= f@ * c@ <= ONE * ONE && -((ONE + 16) * ONE) <= g@ * s@ <= (ONE + 16)
        * ONE) by (nonlinear_arith)
        requires
            -ONE <= f@ <= ONE,
            -(ONE + 16) <= g@ <= ONE + 16,
            -ONE <= c@ <= ONE,
            -ONE <= s@ <= ONE,
            ONE > 0,
    ;
    assert(ONE * ONE == 18_446_744_073_709_551_616int && (ONE + 16) * ONE == 18_446_744_142_429_028_352int);
    assert(d * (w * ONE) == d * exact - d * lost) by (nonlinear_arith)
        requires
            w * ONE == exact - lost,
    ;
    assert(d * exact == c@ * (d * f@) + s@ * (d * g@)) by (nonlinear_arith)
        requires
            exact == f@ * c@ + g@ * s@,
    ;
    let limit = ONE + UNIT_TOLERANCE;
    assert(-(2 * (limit * ONE)) <= d * lost <= 2 * (limit * ONE)) by (nonlinear_arith)
        requires
            -limit <= d <= limit,
            -2 * ONE < lost < 2 * ONE,
            limit > 0,
            ONE > 0,
    ;
    lemma_shifted_square(exact, lost, 36_893_488_216_138_579_968int, 2 * ONE);
    assert(36_893_488_216_138_579_968int * (2 * ONE) == 316_912_650_647_353_160_732_881_453_056int);
    let fc = f@ * c@;
    let gs = g@ * s@;
    assert((fc + gs) * (fc + gs) == fc * fc + 2 * (fc * gs) + gs * gs) by (nonlinear_arith);
    assert(fc * fc == (f@ * f@) * (c@ * c@) && gs * gs == (g@ * g@) * (s@ * s@) && fc * gs == (f@
        * g@) * (c@ * s@)) by (nonlinear_arith)
        requires
            fc == f@ * c@,
            gs == g@ * s@,
    ;
}

/// A point of the unit circle, carried into the plane of the basis of a
/// unit vector, is nearly perpendicular to that vector and at least half as
/// long as a unit vector: its exact dot product with the vector is at most
/// twelve times one plus `UNIT_TOLERANCE`, and its squared length is at
/// least a quarter of the square of one.
pub proof fn lemma_plane_vector(v: Vec3, c: Fixed, s: Fixed)
    requires
        is_unit(v),
        -ONE <= c@ <= ONE,
        -ONE <= s@ <= ONE,
        c@ * c@ + s@ * s@ >= 18_446_744_039_349_813_264int,
    ensures
        ({
            let first = v.spec_first_perpendicular().spec_normalized();
            let second = v.spec_cross(first);
            let w = first.scaled_by(c) + second.scaled_by(s);
            &&& is_small(w)
            &&& -12 * (ONE + UNIT_TOLERANCE) <= exact_dot(v, w) <= 12 * (ONE + UNIT_TOLERANCE)
            &&& squares(w.x@, w.y@, w.z@) >= 0x4000_0000_0000_0000
        }),
{
    lemma_unit_is_bounded(v);
    lemma_first_of_basis(v);
    lemma_second_of_basis(v);
    lemma_second_square(v);
    let first = v.spec_first_perpendicular().spec_normalized();
    let second = v.spec_cross(first);
    let w = first.scaled_by(c) + second.scaled_by(s);
    lemma_plane_component(first.x, second.x, c, s, v.x@);
    lemma_plane_component(first.y, second.y, c, s, v.y@);
    lemma_plane_component(first.z, second.z, c, s, v.z@);
    assert(w.x == first.x * c + second.x * s);
    assert(w.y == first.y * c + second.y * s);
    assert(w.z == first.z * c + second.z * s);
    let limit = ONE + UNIT_TOLERANCE;
    // the dot product with the vector
    let e1 = exact_dot(v, first);
    let e2 = exact_dot(v, second);
    let t = exact_dot(v, w);
    assert(t * ONE == v.x@ * (w.x@ * ONE) + v.y@ * (w.y@ * ONE) + v.z@ * (w.z@ * ONE))
        by (nonlinear_arith)
        requires
            t == v.x@ * w.x@ + v.y@ * w.y@ + v.z@ * w.z@,
    ;
    assert(c@ * (v.x@ * first.x@) + c@ * (v.y@ * first.y@) + c@ * (v.z@ * first.z@) == c@ * e1)
        by (nonlinear_arith)
        requires
            e1 == v.x@ * first.x@ + v.y@ * first.y@ + v.z@ * first.z@,
    ;
    assert(s@ * (v.x@ * second.x@) + s@ * (v.y@ * second.y@) + s@ * (v.z@ * second.z@) == s@ * e2)
        by (nonlinear_arith)
        requires
            e2 == v.x@ * second.x@ + v.y@ * second.y@ + v.z@ * second.z@,
    ;
    assert(-(2 * limit) * ONE <= c@ * e1 <= (2 * limit) * ONE && -(4 * limit) * ONE <= s@ * e2 <= (
    4 * limit) * ONE) by (nonlinear_arith)
        requires
            -ONE <= c@ <= ONE,
            -ONE <= s@ <= ONE,
            -2 * limit <= e1 <= 2 * limit,
            -4 * limit <= e2 <= 4 * limit,
            limit > 0,
    ;
    let lx = v.x@ * ((first.x@ * c@ + second.x@ * s@) - w.x@ * ONE);
    let ly = v.y@ * ((first.y@ * c@ + second.y@ * s@) - w.y@ * ONE);
    let lz = v.z@ * ((first.z@ * c@ + second.z@ * s@) - w.z@ * ONE);
    assert(t * ONE == c@ * e1 + s@ * e2 - lx - ly - lz);
    assert(2 * (limit * ONE) + 4 * (limit * ONE) + 6 * (limit * ONE) == (12 * limit) * ONE)
        by (nonlinear_arith);
    assert((2 * limit) * ONE == 2 * (limit * ONE) && (4 * limit) * ONE == 4 * (limit * ONE))
        by (nonlinear_arith);
    assert(-(12 * limit) * ONE <= t * ONE <= (12 * limit) * ONE);
    assert(-12 * limit <= t <= 12 * limit) by (nonlinear_arith)
        requires
            -(12 * limit) * ONE <= t * ONE <= (12 * limit) * ONE,
            ONE > 0,
    ;
    // the length
    let cc = c@ * c@;
    let ss = s@ * s@;
    let cs = c@ * s@;
    let a2 = first.x@ * first.x@ + first.y@ * first.y@ + first.z@ * first.z@;
    let b2 = second.x@ * second.x@ + second.y@ * second.y@ + second.z@ * second.z@;
    let g = exact_dot(first, second);
    let wx = first.x@ * c@ + second.x@ * s@;
    let wy = first.y@ * c@ + second.y@ * s@;
    let wz = first.z@ * c@ + second.z@ * s@;
    let exact = wx * wx + wy * wy + wz * wz;
    let f1 = first.x@ * first.x@;
    let f2 = first.y@ * first.y@;
    let f3 = first.z@ * first.z@;
    let g1 = first.x@ * second.x@;
    let g2 = first.y@ * second.y@;
    let g3 = first.z@ * second.z@;
    let h1 = second.x@ * second.x@;
    let h2 = second.y@ * second.y@;
    let h3 = second.z@ * second.z@;
    assert((f1 + f2 + f3) * cc == f1 * cc + f2 * cc + f3 * cc) by (nonlinear_arith);
    assert((g1 + g2 + g3) * cs == g1 * cs + g2 * cs + g3 * cs) by (nonlinear_arith);
    assert((h1 + h2 + h3) * ss == h1 * ss + h2 * ss + h3 * ss) by (nonlinear_arith);
    assert(wx * wx == f1 * cc + 2 * (g1 * cs) + h1 * ss);
    assert(wy * wy == f2 * cc + 2 * (g2 * cs) + h2 * ss);
    assert(wz * wz == f3 * cc + 2 * (g3 * cs) + h3 * ss);
    assert(exact == a2 * cc + 2 * (g * cs) + b2 * ss);
    lemma_unit_square(first);
    assert(first.x@ * first.x@ >= 0 && first.y@ * first.y@ >= 0 && first.z@ * first.z@ >= 0
        && second.x@ * second.x@ >= 0 && second.y@ * second.y@ >= 0 && second.z@ * second.z@ >= 0
        && cc >= 0 && ss >= 0) by (nonlinear_arith)
        requires
            cc == c@ * c@,
            ss == s@ * s@,
    ;
    assert(a2 == squares(first.x@, first.y@, first.z@));
    assert(b2 == squares(second.x@, second.y@, second.z@));
    assert(a2 * cc + b2 * ss >= 18_446_743_936_270_598_400int * (cc + ss)) by (nonlinear_arith)
        requires
            a2 >= 18_446_743_936_270_598_400int,
            b2 >= 18_446_743_936_270_598_400int,
            cc >= 0,
            ss >= 0,
    ;
    assert(18_446_743_936_270_598_400int * (cc + ss) >= 340_282_363_751_811_972_632_681_963_613_537_177_600int) by (nonlinear_arith)
        requires
            cc + ss >= 18_446_744_039_349_813_264int,
    ;
    assert(-158_456_325_028_528_675_187_087_900_672int <= g * cs) by (nonlinear_arith)
        requires
            -2 * ONE <= g <= 2 * ONE,
            cs == c@ * s@,
            -ONE <= c@ <= ONE,
            -ONE <= s@ <= ONE,
            ONE == 4_294_967_296,
    ;
    let px = w.x@ * ONE;
    let py = w.y@ * ONE;
    let pz = w.z@ * ONE;
    let long = px * px + py * py + pz * pz;
    assert(long >= 340_282_361_533_423_418_691_505_648_842_072_657_920int);
    let length = squares(w.x@, w.y@, w.z@);
    assert(w.x@ * w.x@ >= 0 && w.y@ * w.y@ >= 0 && w.z@ * w.z@ >= 0) by (nonlinear_arith);
    assert(long == length * 18_446_744_073_709_551_616int) by (nonlinear_arith)
        requires
            long == px * px + py * py + pz * pz,
            px == w.x@ * 4_294_967_296,
            py == w.y@ * 4_294_967_296,
            pz == w.z@ * 4_294_967_296,
            length == w.x@ * w.x@ + w.y@ * w.y@ + w.z@ * w.z@,
    ;
}

/// The square of a multiple.
proof fn lemma_square_of_multiple(a: int, factor: int, multiple: int)
    requires
        multiple == a * factor,
    ensures
        multiple * multiple == (a * a) * (factor * factor),
{
    assert(multiple * multiple == (a * a) * (factor * factor)) by (nonlinear_arith)
        requires
            multiple == a * factor,
    ;
}

/// The product of a number and a multiple, times one.
proof fn lemma_product_of_multiple(d: int, a: int, factor: int, multiple: int, scale: int)
    requires
        multiple == a * factor,
        scale == factor * ONE,
    ensures
        d * (multiple * ONE) == (d * a) * scale,
{
    assert(d * (multiple * ONE) == (d * a) * scale) by (nonlinear_arith)
        requires
            multiple == a * factor,
            scale == factor * ONE,
    ;
}

/// Normalizing a vector that is at least half as long as a unit vector
/// at most doubles its exact dot product with a vector that is no longer than
/// a unit vector, up to what the rounding of three components adds.
pub proof fn lemma_normalized_dot(d: Vec3, w: Vec3, x: int)
    requires
        d.spec_magnitude()@ <= ONE + UNIT_TOLERANCE,
        is_small(w),
        squares(w.x@, w.y@, w.z@) >= 0x4000_0000_0000_0000,
        -x <= exact_dot(d, w) <= x,
    ensures
        -(2 * x + 3 * (ONE + UNIT_TOLERANCE)) <= exact_dot(d, w.spec_normalized()) <= 2 * x + 3 * (
        ONE + UNIT_TOLERANCE),
        -ONE <= w.spec_normalized().x@ <= ONE,
        -ONE <= w.spec_normalized().y@ <= ONE,
        -ONE <= w.spec_normalized().z@ <= ONE,
{
    lemma_unit_is_bounded(d);
    if w.x@ == 0 && w.y@ == 0 && w.z@ == 0 {
        assert(squares(w.x@, w.y@, w.z@) == 0) by (nonlinear_arith)
            requires
                w.x@ == 0,
                w.y@ == 0,
                w.z@ == 0,
        ;
    }
    lemma_normalized_is_unit(w);
    lemma_stretched_length(w);
    let long = w.spec_stretched();
    let length = long.spec_magnitude();
    let m = length@;
    let u = w.spec_normalized();
    let factor: int = if w.is_short() {
        1_073_741_824
    } else {
        1
    };
    assert(long.x@ == w.x@ * factor && long.y@ == w.y@ * factor && long.z@ == w.z@ * factor);
    let total = squares(w.x@, w.y@, w.z@) as int;
    let stretched = squares(long.x@, long.y@, long.z@) as int;
    assert(w.x@ * w.x@ >= 0 && w.y@ * w.y@ >= 0 && w.z@ * w.z@ >= 0 && long.x@ * long.x@ >= 0
        && long.y@ * long.y@ >= 0 && long.z@ * long.z@ >= 0) by (nonlinear_arith);
    lemma_square_of_multiple(w.x@, factor, long.x@);
    lemma_square_of_multiple(w.y@, factor, long.y@);
    lemma_square_of_multiple(w.z@, factor, long.z@);
    let ff = factor * factor;
    assert((w.x@ * w.x@ + w.y@ * w.y@ + w.z@ * w.z@) * ff == (w.x@ * w.x@) * ff + (w.y@ * w.y@) * ff
        + (w.z@ * w.z@) * ff) by (nonlinear_arith);
    assert(stretched == total * ff);
    let half = factor * 0x8000_0000;
    assert(half * half == ff * 0x4000_0000_0000_0000) by (nonlinear_arith)
        requires
            ff == factor * factor,
            half == factor * 0x8000_0000,
    ;
    assert(total * ff >= 0x4000_0000_0000_0000 * ff) by (nonlinear_arith)
        requires
            total >= 0x4000_0000_0000_0000,
            ff > 0,
    ;
    lemma_component_is_shorter(half, stretched - half * half, m);
    assert(u.x == long.x / length && u.y == long.y / length && u.z == long.z / length);
    lemma_ratio_rounding(long.x, length);
    lemma_ratio_rounding(long.y, length);
    lemma_ratio_rounding(long.z, length);
    let e1 = ratio_error(long.x, length);
    let e2 = ratio_error(long.y, length);
    let e3 = ratio_error(long.z, length);
    let t = exact_dot(d, w);
    let r = exact_dot(d, u);
    assert(d.x@ * (u.x@ * m) == d.x@ * (long.x@ * ONE) - d.x@ * e1) by (nonlinear_arith)
        requires
            u.x@ * m == long.x@ * ONE - e1,
    ;
    assert(d.y@ * (u.y@ * m) == d.y@ * (long.y@ * ONE) - d.y@ * e2) by (nonlinear_arith)
        requires
            u.y@ * m == long.y@ * ONE - e2,
    ;
    assert(d.z@ * (u.z@ * m) == d.z@ * (long.z@ * ONE) - d.z@ * e3) by (nonlinear_arith)
        requires
            u.z@ * m == long.z@ * ONE - e3,
    ;
    assert(r * m == d.x@ * (u.x@ * m) + d.y@ * (u.y@ * m) + d.z@ * (u.z@ * m)) by (nonlinear_arith)
        requires
            r == d.x@ * u.x@ + d.y@ * u.y@ + d.z@ * u.z@,
    ;
    let scale = factor * ONE;
    lemma_product_of_multiple(d.x@, w.x@, factor, long.x@, scale);
    lemma_product_of_multiple(d.y@, w.y@, factor, long.y@, scale);
    lemma_product_of_multiple(d.z@, w.z@, factor, long.z@, scale);
    assert((d.x@ * w.x@ + d.y@ * w.y@ + d.z@ * w.z@) * scale == (d.x@ * w.x@) * scale + (d.y@
        * w.y@) * scale + (d.z@ * w.z@) * scale) by (nonlinear_arith);
    assert(r * m == t * scale - d.x@ * e1 - d.y@ * e2 - d.z@ * e3);
    let limit = ONE + UNIT_TOLERANCE;
    assert(scale <= 2 * m);
    assert(-((2 * x) * m) <= t * scale <= (2 * x) * m) by (nonlinear_arith)
        requires
            -x <= t <= x,
            0 < scale <= 2 * m,
    ;
    assert(-(limit * m) <= d.x@ * e1 <= limit * m && -(limit * m) <= d.y@ * e2 <= limit * m && -(
    limit * m) <= d.z@ * e3 <= limit * m) by (nonlinear_arith)
        requires
            -limit <= d.x@ <= limit,
            -limit <= d.y@ <= limit,
            -limit <= d.z@ <= limit,
            -m < e1 < m,
            -m < e2 < m,
            -m < e3 < m,
            limit > 0,
    ;
    let bound = 2 * x + 3 * limit;
    assert(bound * m == (2 * x) * m + 3 * (limit * m)) by (nonlinear_arith)
        requires
            bound == 2 * x + 3 * limit,
    ;
    assert(-bound <= r <= bound) by (nonlinear_arith)
        requires
            -(bound * m) <= r * m <= bound * m,
            m > 0,
    ;
}

/// Multiplying a vector with no component beyond one by a factor between
/// nought and one does not enlarge its exact dot product with a vector that
/// is no longer than a unit vector, up to what the rounding of three
/// components adds.
pub proof fn lemma_scaled_dot(d: Vec3, u: Vec3, f: Fixed, y: int)
    requires
        d.spec_magnitude()@ <= ONE + UNIT_TOLERANCE,
        -ONE <= u.x@ <= ONE,
        -ONE <= u.y@ <= ONE,
        -ONE <= u.z@ <= ONE,
        0 <= f@ <= ONE,
        -y <= exact_dot(d, u) <= y,
    ensures
        -(y + 3 * (ONE + UNIT_TOLERANCE)) <= exact_dot(d, u.scaled_by(f)) <= y + 3 * (ONE
            + UNIT_TOLERANCE),
        is_small(u.scaled_by(f)),
{
    lemma_unit_is_bounded(d);
    let v = u.scaled_by(f);
    lemma_product_rounding(u.x, f);
    lemma_product_rounding(u.y, f);
    lemma_product_rounding(u.z, f);
    lemma_product_is_smaller(u.x, f);
    lemma_product_is_smaller(u.y, f);
    lemma_product_is_smaller(u.z, f);
    let e1 = product_error(u.x, f);
    let e2 = product_error(u.y, f);
    let e3 = product_error(u.z, f);
    let t = exact_dot(d, u);
    let r = exact_dot(d, v);
    assert(d.x@ * (v.x@ * ONE) == (d.x@ * u.x@) * f@ - d.x@ * e1) by (nonlinear_arith)
        requires
            v.x@ * ONE == u.x@ * f@ - e1,
    ;
    assert(d.y@ * (v.y@ * ONE) == (d.y@ * u.y@) * f@ - d.y@ * e2) by (nonlinear_arith)
        requires
            v.y@ * ONE == u.y@ * f@ - e2,
    ;
    assert(d.z@ * (v.z@ * ONE) == (d.z@ * u.z@) * f@ - d.z@ * e3) by (nonlinear_arith)
        requires
            v.z@ * ONE == u.z@ * f@ - e3,
    ;
    assert(r * ONE == d.x@ * (v.x@ * ONE) + d.y@ * (v.y@ * ONE) + d.z@ * (v.z@ * ONE))
        by (nonlinear_arith)
        requires
            r == d.x@ * v.x@ + d.y@ * v.y@ + d.z@ * v.z@,
    ;
    assert((d.x@ * u.x@ + d.y@ * u.y@ + d.z@ * u.z@) * f@ == (d.x@ * u.x@) * f@ + (d.y@ * u.y@) * f@
        + (d.z@ * u.z@) * f@) by (nonlinear_arith);
    assert(r * ONE == t * f@ - d.x@ * e1 - d.y@ * e2 - d.z@ * e3);
    let limit = ONE + UNIT_TOLERANCE;
    assert(-(y * ONE) <= t * f@ <= y * ONE) by (nonlinear_arith)
        requires
            -y <= t <= y,
            0 <= f@ <= ONE,
    ;
    assert(-(limit * ONE) <= d.x@ * e1 <= limit * ONE && -(limit * ONE) <= d.y@ * e2 <= limit * ONE
        && -(limit * ONE) <= d.z@ * e3 <= limit * ONE) by (nonlinear_arith)
        requires
            -limit <= d.x@ <= limit,
            -limit <= d.y@ <= limit,
            -limit <= d.z@ <= limit,
            -ONE < e1 < ONE,
            -ONE < e2 < ONE,
            -ONE < e3 < ONE,
            limit > 0,
    ;
    let bound = y + 3 * limit;
    assert(bound * ONE == y * ONE + 3 * (limit * ONE)) by (nonlinear_arith)
        requires
            bound == y + 3 * limit,
    ;
    assert(-bound <= r <= bound) by (nonlinear_arith)
        requires
            -(bound * ONE) <= r * ONE <= bound * ONE,
            ONE > 0,
    ;
}

} // verus!
