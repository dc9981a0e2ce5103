//! Three-component vectors of fixed-point numbers.

use crate::basis::lemma_basis_is_orthonormal;
use crate::basis::BASIS_TOLERANCE;
use crate::basis::DOT_TOLERANCE;
use crate::fixed::integer_root;
use crate::fixed::is_root;
use crate::fixed::lemma_nought_and_one;
use crate::fixed::lemma_ratio_of_itself;
use crate::fixed::lemma_root_between;
use crate::fixed::lemma_root_exists;
use crate::fixed::lemma_root_of_square;
use crate::fixed::magnitude;
use crate::fixed::root;
use crate::fixed::saturate;
use crate::fixed::Fixed;
use crate::fixed::ONE;
use crate::fixed::RAW_MAX;
use crate::random::uniform_raw;
use std::ops::Neg;
use vstd::arithmetic::div_mod::lemma_fundamental_div_mod;
use vstd::arithmetic::div_mod::lemma_mod_bound;
use vstd::prelude::*;

verus! {

/// How often `Vec3::random_unit_vec` draws before it gives up and returns
/// the fallback direction.
pub const MAX_DRAWS: u32 = 64;

/// A point, a direction or a colour.
#[derive(Clone, Copy, Debug, PartialEq, Eq, Structural)]
pub struct Vec3 {
    pub x: Fixed,
    pub y: Fixed,
    pub z: Fixed,
}

/// The sum of the squares of three raw values.
pub open spec fn squares(x: int, y: int, z: int) -> nat {
    (x * x + y * y + z * z) as nat
}

impl Vec3 {
    /// The vector with all three components equal to `s`, in specifications.
    pub open spec fn splat(s: Fixed) -> Vec3 {
        Vec3 { x: s, y: s, z: s }
    }

    /// The vector of three whole numbers, in specifications.
    pub open spec fn whole(x: int, y: int, z: int) -> Vec3 {
        Vec3 { x: Fixed::spec_from_int(x), y: Fixed::spec_from_int(y), z: Fixed::spec_from_int(z) }
    }

    /// What `+` means in specifications: the component-wise sum.
    pub open spec fn spec_add(self, rhs: Vec3) -> Vec3 {
        Vec3 { x: self.x + rhs.x, y: self.y + rhs.y, z: self.z + rhs.z }
    }

    /// What `-` means in specifications: the component-wise difference.
    pub open spec fn spec_sub(self, rhs: Vec3) -> Vec3 {
        Vec3 { x: self.x - rhs.x, y: self.y - rhs.y, z: self.z - rhs.z }
    }

    /// What `*` means in specifications: the component-wise product.
    pub open spec fn spec_mul(self, rhs: Vec3) -> Vec3 {
        Vec3 { x: self.x * rhs.x, y: self.y * rhs.y, z: self.z * rhs.z }
    }

    /// What `/` means in specifications: the component-wise ratio.
    pub open spec fn spec_euclidean_or_real_div(self, rhs: Vec3) -> Vec3 {
        Vec3 { x: self.x / rhs.x, y: self.y / rhs.y, z: self.z / rhs.z }
    }

    /// What `%` means in specifications: the component-wise remainder.
    pub open spec fn spec_euclidean_mod(self, rhs: Vec3) -> Vec3 {
        Vec3 { x: self.x % rhs.x, y: self.y % rhs.y, z: self.z % rhs.z }
    }

    /// Each component times `s`, in specifications.
    pub open spec fn scaled_by(self, s: Fixed) -> Vec3 {
        self * Vec3::splat(s)
    }

    /// Each component over `s`, in specifications.
    pub open spec fn divided_by(self, s: Fixed) -> Vec3 {
        self / Vec3::splat(s)
    }

    /// The dot product, in specifications.
    pub open spec fn spec_dot(self, other: Vec3) -> Fixed {
        self.x * other.x + self.y * other.y + self.z * other.z
    }

    /// The cross product, in specifications.
    pub open spec fn spec_cross(self, other: Vec3) -> Vec3 {
        Vec3 {
            x: self.y * other.z - self.z * other.y,
            y: self.z * other.x - self.x * other.z,
            z: self.x * other.y - self.y * other.x,
        }
    }

    /// The first of the two vectors of `make_two_perpendicular` before it
    /// is normalized, in specifications.
    pub open spec fn spec_first_perpendicular(self) -> Vec3 {
        if self.x@ == 0 && self.y@ == 0 {
            Vec3::whole(0, 1, 0)
        } else {
            Vec3 { x: -self.y, y: self.x, z: Fixed::of(0) }
        }
    }

    /// The Euclidean length, in specifications: the integer square root of
    /// the exact sum of the squared raw components, clamped into the
    /// representable range.
    pub open spec fn spec_magnitude(self) -> Fixed {
        Fixed::of(saturate(root(squares(self.x@, self.y@, self.z@)) as int))
    }

    /// Every component is less than one in magnitude.
    pub open spec fn is_short(self) -> bool {
        &&& -ONE < self.x@ < ONE
        &&& -ONE < self.y@ < ONE
        &&& -ONE < self.z@ < ONE
    }

    /// The vector made long enough to take its length without loss: a
    /// short vector times `2^30`, any other as it is.
    pub open spec fn spec_stretched(self) -> Vec3 {
        if self.is_short() {
            Vec3 {
                x: Fixed::of(self.x@ * 1_073_741_824),
                y: Fixed::of(self.y@ * 1_073_741_824),
                z: Fixed::of(self.z@ * 1_073_741_824),
            }
        } else {
            self
        }
    }

    /// The vector over its own length, in specifications. The length is
    /// taken of the stretched vector, so that a short vector loses nothing
    /// to the rounding of its length.
    pub open spec fn spec_normalized(self) -> Vec3 {
        self.spec_stretched().divided_by(self.spec_stretched().spec_magnitude())
    }

    /// The component-wise absolute value, in specifications.
    pub open spec fn spec_abs(self) -> Vec3 {
        Vec3 { x: self.x.spec_abs(), y: self.y.spec_abs(), z: self.z.spec_abs() }
    }

    /// The sum of the components, in specifications.
    pub open spec fn spec_sum(self) -> Fixed {
        self.x + self.y + self.z
    }

    /// Each component clamped into `[0, 1]`, in specifications.
    pub open spec fn spec_saturated(self) -> Vec3 {
        Vec3 {
            x: self.x.spec_saturated(),
            y: self.y.spec_saturated(),
            z: self.z.spec_saturated(),
        }
    }

    /// Every component lies in `[-1, 1)`: what one draw of
    /// `random_unit_vec` can be.
    pub open spec fn in_unit_cube(self) -> bool {
        &&& -ONE <= self.x@ < ONE
        &&& -ONE <= self.y@ < ONE
        &&& -ONE <= self.z@ < ONE
    }

    /// A draw is kept if it lies inside the unit ball and is not the origin.
    pub open spec fn is_kept(self) -> bool {
        0 < self.spec_magnitude()@ <= ONE
    }

    /// The direction returned when every draw was thrown away.
    pub open spec fn fallback_direction() -> Vec3 {
        Vec3::whole(0, 0, 1)
    }

    /// `self` is a possible result of `random_unit_vec`: a kept draw from
    /// the cube `[-1, 1)^3`, normalized, or the fallback direction.
    pub open spec fn is_unit_sample(self) -> bool {
        self == Vec3::fallback_direction() || exists|v: Vec3|
            v.in_unit_cube() && v.is_kept() && self == #[trigger] v.spec_normalized()
    }

    pub fn new(x: Fixed, y: Fixed, z: Fixed) -> (r: Vec3)
        ensures
            r == (Vec3 { x, y, z }),
    {
        Vec3 { x, y, z }
    }

    /// Turns one draw from the cube `[-1, 1)^3` into a direction: the draw
    /// normalized if it is kept, nothing if it is thrown away.
    pub fn direction_from_draw(draw: Vec3) -> (r: Option<Vec3>)
        ensures
            r == if draw.is_kept() {
                Some(draw.spec_normalized())
            } else {
                None::<Vec3>
            },
            r matches Some(direction) ==> is_unit(direction),
    {
        proof {
            if draw.is_kept() {
                lemma_unit_is_bounded(draw);
                if draw.x@ == 0 && draw.y@ == 0 && draw.z@ == 0 {
                    lemma_nought_and_one();
                    lemma_zero_stays_zero();
                }
                lemma_normalized_is_unit(draw);
            }
        }
        let length = draw.magnitude();
        if length.raw > 0 && length.raw <= ONE {
            Some(draw.normalized())
        } else {
            None
        }
    }

    /// A random direction: a unit vector. Draws points from the cube
    /// `[-1, 1)^3` until one falls inside the unit ball, away from the
    /// origin, and normalizes it, so that all directions are equally likely.
    /// After `MAX_DRAWS` failed draws it returns the fallback direction.
    pub fn random_unit_vec() -> (r: Vec3)
        ensures
            r.is_unit_sample(),
            is_unit(r),
    {
        proof {
            lemma_nought_and_one();
            lemma_unit_sample_is_unit(Vec3::fallback_direction());
        }
        let mut attempt: u32 = 0;
        while attempt < MAX_DRAWS
            invariant
                attempt <= MAX_DRAWS,
            decreases MAX_DRAWS - attempt,
        {
            let draw = Vec3 {
                x: Fixed { raw: uniform_raw(-ONE, ONE) },
                y: Fixed { raw: uniform_raw(-ONE, ONE) },
                z: Fixed { raw: uniform_raw(-ONE, ONE) },
            };
            match Vec3::direction_from_draw(draw) {
                Some(direction) => {
                    return direction;
                },
                None => {},
            }
            attempt = attempt + 1;
        }
        Vec3 { x: Fixed::from_int(0), y: Fixed::from_int(0), z: Fixed::from_int(1) }
    }

    /// The dot product.
    pub fn dot(self, other: Vec3) -> (r: Fixed)
        ensures
            r == self.spec_dot(other),
    {
        self.x * other.x + self.y * other.y + self.z * other.z
    }

    /// The cross product.
    pub fn cross(self, other: Vec3) -> (r: Vec3)
        ensures
            r == self.spec_cross(other),
    {
        Vec3 {
            x: self.y * other.z - self.z * other.y,
            y: self.z * other.x - self.x * other.z,
            z: self.x * other.y - self.y * other.x,
        }
    }

    /// Two vectors that form, with a unit vector `self`, an orthonormal
    /// basis: the first is `self` turned a quarter around the z axis and
    /// flattened (or the y axis where that would be zero), normalized; the
    /// second is the cross product of `self` and the first.
    pub fn make_two_perpendicular(self) -> (r: (Vec3, Vec3))
        ensures
            r.0 == self.spec_first_perpendicular().spec_normalized(),
            r.1 == self.spec_cross(r.0),
            is_unit(self) ==> {
                &&& is_unit(r.0)
                &&& ONE - BASIS_TOLERANCE <= r.1.spec_magnitude()@ <= ONE + BASIS_TOLERANCE
                &&& -DOT_TOLERANCE <= self.spec_dot(r.0)@ <= DOT_TOLERANCE
                &&& -DOT_TOLERANCE <= self.spec_dot(r.1)@ <= DOT_TOLERANCE
                &&& -DOT_TOLERANCE <= r.0.spec_dot(r.1)@ <= DOT_TOLERANCE
            },
    {
        proof {
            if is_unit(self) {
                lemma_basis_is_orthonormal(self);
            }
        }
        let flat = if self.x.raw == 0 && self.y.raw == 0 {
            Vec3 { x: Fixed::from_int(0), y: Fixed::from_int(1), z: Fixed::from_int(0) }
        } else {
            Vec3 { x: self.y.neg(), y: self.x, z: Fixed::zero() }
        };
        let v1 = flat.normalized();
        let v2 = self.cross(v1);
        (v1, v2)
    }

    /// The Euclidean length.
    pub fn magnitude(self) -> (r: Fixed)
        ensures
            r == self.spec_magnitude(),
            r@ >= 0,
    {
        let x = self.x.abs_wide();
        let y = self.y.abs_wide();
        let z = self.z.abs_wide();
        assert(x * x <= 0x4000_0000_0000_0000_0000_0000_0000_0000 && y * y
            <= 0x4000_0000_0000_0000_0000_0000_0000_0000 && z * z
            <= 0x4000_0000_0000_0000_0000_0000_0000_0000) by (nonlinear_arith)
            requires
                x <= 0x8000_0000_0000_0000,
                y <= 0x8000_0000_0000_0000,
                z <= 0x8000_0000_0000_0000,
        ;
        assert(x * x == self.x@ * self.x@ && y * y == self.y@ * self.y@ && z * z == self.z@
            * self.z@) by (nonlinear_arith)
            requires
                x == magnitude(self.x@),
                y == magnitude(self.y@),
                z == magnitude(self.z@),
        ;
        let r = integer_root(x * x + y * y + z * z);
        if r > RAW_MAX as u64 {
            Fixed { raw: RAW_MAX }
        } else {
            Fixed { raw: r as i64 }
        }
    }

    /// The distance between two points.
    pub fn distance(self, other: Vec3) -> (r: Fixed)
        ensures
            r == (self - other).spec_magnitude(),
    {
        (self - other).magnitude()
    }

    /// The vector made long enough to take its length without loss.
    pub fn stretched(self) -> (r: Vec3)
        ensures
            r == self.spec_stretched(),
    {
        if -ONE < self.x.raw && self.x.raw < ONE && -ONE < self.y.raw && self.y.raw < ONE && -ONE
            < self.z.raw && self.z.raw < ONE {
            Vec3 {
                x: Fixed { raw: self.x.raw * 1_073_741_824 },
                y: Fixed { raw: self.y.raw * 1_073_741_824 },
                z: Fixed { raw: self.z.raw * 1_073_741_824 },
            }
        } else {
            self
        }
    }

    /// The vector over its own length. The zero vector stays zero.
    pub fn normalized(self) -> (r: Vec3)
        ensures
            r == self.spec_normalized(),
    {
        let long = self.stretched();
        long / long.magnitude()
    }

    /// The component-wise absolute value.
    pub fn abs(self) -> (r: Vec3)
        ensures
            r == self.spec_abs(),
    {
        Vec3 { x: self.x.abs(), y: self.y.abs(), z: self.z.abs() }
    }

    /// The sum of the components.
    pub fn sum(self) -> (r: Fixed)
        ensures
            r == self.spec_sum(),
    {
        self.x + self.y + self.z
    }

    /// Each component clamped into `[0, 1]`.
    pub fn saturated(self) -> (r: Vec3)
        ensures
            r == self.spec_saturated(),
            0 <= r.x@ <= ONE,
            0 <= r.y@ <= ONE,
            0 <= r.z@ <= ONE,
    {
        Vec3 { x: self.x.saturated(), y: self.y.saturated(), z: self.z.saturated() }
    }
}

/// The largest raw magnitude of a component for which
/// `lemma_first_perpendicular` holds: `2^47`, which stands for 32768.
pub const PERPENDICULAR_BOUND: i64 = 0x8000_0000_0000;

/// The first vector of `make_two_perpendicular`, before it is normalized,
/// is exactly perpendicular to the vector that it was made for: their dot
/// product is zero. This holds as long as the x and y components are small
/// enough for their product not to saturate.
pub proof fn lemma_first_perpendicular(v: Vec3)
    requires
        -PERPENDICULAR_BOUND <= v.x@ <= PERPENDICULAR_BOUND,
        -PERPENDICULAR_BOUND <= v.y@ <= PERPENDICULAR_BOUND,
    ensures
        v.spec_dot(v.spec_first_perpendicular()) == Fixed::of(0),
{
    let none = Fixed::of(0);
    crate::fixed::lemma_product_with_one_or_zero(v.x);
    crate::fixed::lemma_product_with_one_or_zero(v.y);
    crate::fixed::lemma_product_with_one_or_zero(v.z);
    if v.x@ == 0 && v.y@ == 0 {
        lemma_nought_and_one();
        assert(Vec3::whole(0, 1, 0) == Vec3 { x: none, y: Fixed::of(ONE as int), z: none });
    } else {
        let x = v.x@;
        let y = v.y@;
        assert(-0x4000_0000_0000_0000_0000_0000 <= x * y <= 0x4000_0000_0000_0000_0000_0000)
            by (nonlinear_arith)
            requires
                -0x8000_0000_0000 <= x <= 0x8000_0000_0000,
                -0x8000_0000_0000 <= y <= 0x8000_0000_0000,
        ;
        assert(magnitude(x * y) / (ONE as int) <= 0x4000_0000_0000_0000) by {
            assert(magnitude(x * y) <= 0x4000_0000_0000_0000_0000_0000);
        }
        crate::fixed::lemma_product_negates(v.x, v.y);
        crate::fixed::lemma_product_commutes(v.x, v.y);
    }
}

/// How far, in raw steps, the length of a normalized vector can be from
/// one.
pub const UNIT_TOLERANCE: i64 = 4;

/// The largest raw magnitude of a component for which the laws of
/// normalization hold: `2^62`.
pub const LENGTH_BOUND: i64 = 0x4000_0000_0000_0000;

/// Whether every component of `v` is at most `LENGTH_BOUND` in magnitude.
pub open spec fn is_bounded(v: Vec3) -> bool {
    &&& -LENGTH_BOUND <= v.x@ <= LENGTH_BOUND
    &&& -LENGTH_BOUND <= v.y@ <= LENGTH_BOUND
    &&& -LENGTH_BOUND <= v.z@ <= LENGTH_BOUND
}

/// Whether the length of `v` is one, up to `UNIT_TOLERANCE` raw steps.
pub open spec fn is_unit(v: Vec3) -> bool {
    ONE - UNIT_TOLERANCE <= v.spec_magnitude()@ <= ONE + UNIT_TOLERANCE
}

/// One component of a vector over the length `m` of the vector: its
/// magnitude `c`, times `m`, is the magnitude `a` of the component times one,
/// less a remainder below `m`.
proof fn lemma_component_over_length(a: int, m: int, c: int)
    requires
        0 <= a <= m,
        m > 0,
        c == (a * ONE) / m,
    ensures
        0 <= c <= ONE,
        (c * m) * (c * m) <= (a * a) * (ONE * ONE),
        (c * m) * (c * m) >= (a * a) * (ONE * ONE) - 2 * (ONE * (m * m)),
{
    let n = a * ONE;
    assert(0 <= n <= m * ONE) by (nonlinear_arith)
        requires
            0 <= a <= m,
            n == a * ONE,
            ONE == 4_294_967_296,
    ;
    lemma_fundamental_div_mod(n, m);
    lemma_mod_bound(n, m);
    let r = n % m;
    assert(c * m == n - r) by (nonlinear_arith)
        requires
            n == m * c + r,
    ;
    assert(c <= ONE) by (nonlinear_arith)
        requires
            c * m <= m * ONE,
            m > 0,
    ;
    assert(c >= 0) by (nonlinear_arith)
        requires
            c * m == n - r,
            0 <= r < m,
            n >= 0,
            m > 0,
    ;
    assert((c * m) * (c * m) <= n * n && (c * m) * (c * m) >= n * n - 2 * (n * m))
        by (nonlinear_arith)
        requires
            c * m == n - r,
            0 <= r < m,
            0 <= n,
            r <= n,
    ;
    assert(n * n == (a * a) * (ONE * ONE)) by (nonlinear_arith)
        requires
            n == a * ONE,
    ;
    assert(n * m <= ONE * (m * m)) by (nonlinear_arith)
        requires
            0 <= n <= m * ONE,
            m > 0,
    ;
}

/// A component of a vector is no longer than the vector.
pub proof fn lemma_component_is_shorter(a: int, rest: int, m: int)
    requires
        0 <= a,
        0 <= rest,
        0 <= m,
        a * a + rest < (m + 1) * (m + 1),
    ensures
        a <= m,
{
    if a > m {
        assert(a * a >= (m + 1) * (m + 1)) by (nonlinear_arith)
            requires
                a >= m + 1,
                m >= 0,
        ;
    }
}

/// A normalized vector is a unit vector: its length is one, up to
/// `UNIT_TOLERANCE` raw steps. This holds of every vector but the zero
/// vector, short or long, as long as its components are at most
/// `LENGTH_BOUND` in magnitude.
pub proof fn lemma_normalized_is_unit(v: Vec3)
    requires
        v.x@ != 0 || v.y@ != 0 || v.z@ != 0,
        is_bounded(v),
    ensures
        is_unit(v.spec_normalized()),
        is_bounded(v.spec_normalized()),
        -ONE <= v.spec_normalized().x@ <= ONE,
        -ONE <= v.spec_normalized().y@ <= ONE,
        -ONE <= v.spec_normalized().z@ <= ONE,
{
    let w = v.spec_stretched();
    let a = magnitude(w.x@);
    let b = magnitude(w.y@);
    let c = magnitude(w.z@);
    assert(a * a == w.x@ * w.x@ && b * b == w.y@ * w.y@ && c * c == w.z@ * w.z@)
        by (nonlinear_arith)
        requires
            a == magnitude(w.x@),
            b == magnitude(w.y@),
            c == magnitude(w.z@),
    ;
    let total = squares(w.x@, w.y@, w.z@);
    assert(total == a * a + b * b + c * c);
    // the stretched vector is at least 2^30 and less than 2^63 long
    assert(a * a <= 0x1000_0000_0000_0000_0000_0000_0000_0000 && b * b
        <= 0x1000_0000_0000_0000_0000_0000_0000_0000 && c * c
        <= 0x1000_0000_0000_0000_0000_0000_0000_0000 && a * a >= 0 && b * b >= 0 && c * c >= 0)
        by (nonlinear_arith)
        requires
            0 <= a <= 0x4000_0000_0000_0000,
            0 <= b <= 0x4000_0000_0000_0000,
            0 <= c <= 0x4000_0000_0000_0000,
    ;
    assert(a * a + b * b + c * c >= 0x1000_0000_0000_0000) by (nonlinear_arith)
        requires
            a >= 0x4000_0000 || b >= 0x4000_0000 || c >= 0x4000_0000,
            a >= 0,
            b >= 0,
            c >= 0,
    ;
    assert(0x4000_0000int * 0x4000_0000int == 0x1000_0000_0000_0000int);
    assert(0x8000_0000_0000_0000int * 0x8000_0000_0000_0000int
        == 0x4000_0000_0000_0000_0000_0000_0000_0000int);
    lemma_root_between(total, 0x4000_0000, 0x7fff_ffff_ffff_ffff);
    lemma_root_exists(total);
    let m = root(total) as int;
    assert(w.spec_magnitude()@ == m);
    lemma_component_is_shorter(a, b * b + c * c, m);
    lemma_component_is_shorter(b, a * a + c * c, m);
    lemma_component_is_shorter(c, a * a + b * b, m);
    let p = (a * ONE) / m;
    let q = (b * ONE) / m;
    let r = (c * ONE) / m;
    lemma_component_over_length(a, m, p);
    lemma_component_over_length(b, m, q);
    lemma_component_over_length(c, m, r);
    let u = v.spec_normalized();
    assert(magnitude(w.x@ * ONE) == a * ONE && magnitude(w.y@ * ONE) == b * ONE && magnitude(
        w.z@ * ONE,
    ) == c * ONE && ((w.x@ * ONE < 0) == (w.x@ < 0)) && ((w.y@ * ONE < 0) == (w.y@ < 0)) && ((w.z@
        * ONE < 0) == (w.z@ < 0))) by (nonlinear_arith)
        requires
            a == magnitude(w.x@),
            b == magnitude(w.y@),
            c == magnitude(w.z@),
            ONE == 4_294_967_296,
    ;
    assert(magnitude(u.x@) == p);
    assert(magnitude(u.y@) == q);
    assert(magnitude(u.z@) == r);
    assert(u.x@ * u.x@ == p * p && u.y@ * u.y@ == q * q && u.z@ * u.z@ == r * r)
        by (nonlinear_arith)
        requires
            p == magnitude(u.x@),
            q == magnitude(u.y@),
            r == magnitude(u.z@),
    ;
    let length = p * p + q * q + r * r;
    assert(squares(u.x@, u.y@, u.z@) == length);
    // times m * m, the squared length lies between the bounds
    let mm = m * m;
    assert((p * m) * (p * m) == mm * (p * p)) by (nonlinear_arith)
        requires
            mm == m * m,
    ;
    assert((q * m) * (q * m) == mm * (q * q)) by (nonlinear_arith)
        requires
            mm == m * m,
    ;
    assert((r * m) * (r * m) == mm * (r * r)) by (nonlinear_arith)
        requires
            mm == m * m,
    ;
    let pp = p * p;
    let qq = q * q;
    let rr = r * r;
    assert(mm * (pp + qq + rr) == mm * pp + mm * qq + mm * rr) by (nonlinear_arith);
    let one2 = ONE * ONE;
    assert((a * a) * one2 + (b * b) * one2 + (c * c) * one2 == total * one2) by (nonlinear_arith)
        requires
            total == a * a + b * b + c * c,
    ;
    assert(mm * length <= total * one2);
    assert(mm * length >= total * one2 - 6 * (ONE * mm));
    assert(mm <= total < (m + 1) * (m + 1));
    lemma_squeeze(mm, m, total as int, length);
    lemma_root_between(length as nat, (ONE - 4) as nat, (ONE + 4) as nat);
}

/// The last step of `lemma_normalized_is_unit`: from the bounds on the
/// squared length times the square of `m` to the bounds on the squared
/// length.
proof fn lemma_squeeze(mm: int, m: int, total: int, length: int)
    requires
        m >= 0x4000_0000,
        mm == m * m,
        mm <= total < (m + 1) * (m + 1),
        length >= 0,
        mm * length <= total * (ONE * ONE),
        mm * length >= total * (ONE * ONE) - 6 * (ONE * mm),
    ensures
        (ONE - 4) * (ONE - 4) <= length < (ONE + 4 + 1) * (ONE + 4 + 1),
{
    let one = 4_294_967_296int;
    assert(ONE == one);
    assert(mm > 0) by (nonlinear_arith)
        requires
            mm == m * m,
            m >= 0x4000_0000,
    ;
    // above
    assert(mm * length < mm * ((one + 5) * (one + 5))) by (nonlinear_arith)
        requires
            mm * length <= total * (one * one),
            total < (m + 1) * (m + 1),
            mm == m * m,
            m >= 0x4000_0000,
            one == 4_294_967_296,
    ;
    assert(length < (one + 5) * (one + 5)) by (nonlinear_arith)
        requires
            mm * length < mm * ((one + 5) * (one + 5)),
            mm > 0,
    ;
    // below
    assert(mm * length >= mm * ((one - 4) * (one - 4))) by (nonlinear_arith)
        requires
            mm * length >= total * (one * one) - 6 * (one * mm),
            total >= mm,
            mm > 0,
            one == 4_294_967_296,
    ;
    assert(length >= (one - 4) * (one - 4)) by (nonlinear_arith)
        requires
            mm * length >= mm * ((one - 4) * (one - 4)),
            mm > 0,
    ;
}

/// Every possible result of `random_unit_vec` is a unit vector.
pub proof fn lemma_unit_sample_is_unit(r: Vec3)
    requires
        r.is_unit_sample(),
    ensures
        is_unit(r),
        is_bounded(r),
{
    if r == Vec3::fallback_direction() {
        lemma_nought_and_one();
        assert(squares(0, 0, ONE as int) == (ONE as nat) * (ONE as nat)) by (nonlinear_arith)
            requires
                ONE > 0,
        ;
        lemma_root_of_square(ONE as nat);
    } else {
        let v = choose|v: Vec3|
            v.in_unit_cube() && v.is_kept() && r == #[trigger] v.spec_normalized();
        if v.x@ == 0 && v.y@ == 0 && v.z@ == 0 {
            assert(squares(0, 0, 0) == 0nat * 0nat) by (nonlinear_arith);
            lemma_root_of_square(0);
        }
        lemma_normalized_is_unit(v);
    }
}

/// A vector along the z axis, upwards, is normalized to the unit vector
/// of the z axis.
pub proof fn lemma_normalized_along_z(length: Fixed)
    requires
        length@ > 0,
    ensures
        (Vec3 { x: Fixed::of(0), y: Fixed::of(0), z: length }).spec_normalized() == Vec3::whole(
            0,
            0,
            1,
        ),
{
    let v = Vec3 { x: Fixed::of(0), y: Fixed::of(0), z: length };
    let w = v.spec_stretched();
    let long = w.z;
    assert(long@ > 0);
    assert(w == Vec3 { x: Fixed::of(0), y: Fixed::of(0), z: long });
    assert(squares(0, 0, long@) == (long@ as nat) * (long@ as nat)) by (nonlinear_arith)
        requires
            long@ > 0,
    ;
    lemma_root_of_square(long@ as nat);
    assert(w.spec_magnitude() == long);
    lemma_ratio_of_itself(long);
    lemma_nought_and_one();
}

/// The largest raw value of a factor for which `lemma_scaled_length`
/// holds: `2^61`.
pub const FACTOR_BOUND: i64 = 0x2000_0000_0000_0000;

/// A vector that is no longer than a unit vector, times a factor that is
/// not negative, is no longer than the factor, up to the tolerance of a unit
/// vector: its length times one is at most the factor times one plus
/// `UNIT_TOLERANCE` plus one raw step.
pub proof fn lemma_scaled_length(u: Vec3, s: Fixed)
    requires
        u.spec_magnitude()@ <= ONE + UNIT_TOLERANCE,
        0 <= s@ <= FACTOR_BOUND,
    ensures
        u.scaled_by(s).spec_magnitude()@ * ONE <= s@ * (ONE + UNIT_TOLERANCE + 1),
{
    let a = magnitude(u.x@);
    let b = magnitude(u.y@);
    let c = magnitude(u.z@);
    assert(a * a == u.x@ * u.x@ && b * b == u.y@ * u.y@ && c * c == u.z@ * u.z@)
        by (nonlinear_arith)
        requires
            a == magnitude(u.x@),
            b == magnitude(u.y@),
            c == magnitude(u.z@),
    ;
    let total = squares(u.x@, u.y@, u.z@);
    lemma_root_exists(total);
    let m = root(total) as int;
    assert(m <= ONE + 4);
    assert((m + 1) * (m + 1) <= (ONE + 5) * (ONE + 5)) by (nonlinear_arith)
        requires
            0 <= m <= ONE + 4,
    ;
    assert(a * a >= 0 && b * b >= 0 && c * c >= 0) by (nonlinear_arith);
    lemma_component_is_shorter(a, b * b + c * c, m);
    lemma_component_is_shorter(b, a * a + c * c, m);
    lemma_component_is_shorter(c, a * a + b * b, m);
    let f = s@;
    let p = (a * f) / (ONE as int);
    let q = (b * f) / (ONE as int);
    let r = (c * f) / (ONE as int);
    lemma_scaled_component(a, f, p);
    lemma_scaled_component(b, f, q);
    lemma_scaled_component(c, f, r);
    let v = u.scaled_by(s);
    assert(magnitude(u.x@ * f) == a * f && magnitude(u.y@ * f) == b * f && magnitude(u.z@ * f)
        == c * f) by (nonlinear_arith)
        requires
            a == magnitude(u.x@),
            b == magnitude(u.y@),
            c == magnitude(u.z@),
            f >= 0,
    ;
    assert(magnitude(v.x@) == p);
    assert(magnitude(v.y@) == q);
    assert(magnitude(v.z@) == r);
    assert(v.x@ * v.x@ == p * p && v.y@ * v.y@ == q * q && v.z@ * v.z@ == r * r)
        by (nonlinear_arith)
        requires
            p == magnitude(v.x@),
            q == magnitude(v.y@),
            r == magnitude(v.z@),
    ;
    let length = squares(v.x@, v.y@, v.z@);
    assert(length == p * p + q * q + r * r);
    lemma_root_exists(length);
    let n = root(length) as int;
    let one2 = ONE * ONE;
    let ff = f * f;
    assert((p * p) * one2 <= (a * a) * ff && (q * q) * one2 <= (b * b) * ff && (r * r) * one2 <= (c
        * c) * ff);
    assert((p * p + q * q + r * r) * one2 == (p * p) * one2 + (q * q) * one2 + (r * r) * one2)
        by (nonlinear_arith);
    assert((a * a + b * b + c * c) * ff == (a * a) * ff + (b * b) * ff + (c * c) * ff)
        by (nonlinear_arith);
    assert(length * one2 <= total * ff);
    lemma_scaled_squeeze(n, length as int, total as int, f);
    assert(n <= 0x7fff_ffff_ffff_ffff) by (nonlinear_arith)
        requires
            n * ONE <= f * (ONE + 5),
            0 <= f <= 0x2000_0000_0000_0000,
            ONE == 4_294_967_296,
    ;
}

/// One component of a scaled vector: its magnitude `p`, times one, is at
/// most the magnitude `a` of the component times the factor `f`.
proof fn lemma_scaled_component(a: int, f: int, p: int)
    requires
        0 <= a <= ONE + 4,
        0 <= f <= FACTOR_BOUND,
        p == (a * f) / (ONE as int),
    ensures
        0 <= p <= 0x7fff_ffff_ffff_ffff,
        (p * p) * (ONE * ONE) <= (a * a) * (f * f),
{
    let n = a * f;
    assert(0 <= n <= (ONE + 4) * f) by (nonlinear_arith)
        requires
            0 <= a <= ONE + 4,
            0 <= f,
            n == a * f,
    ;
    lemma_fundamental_div_mod(n, ONE as int);
    lemma_mod_bound(n, ONE as int);
    let r = n % (ONE as int);
    assert(p * ONE == n - r) by (nonlinear_arith)
        requires
            n == ONE * p + r,
    ;
    assert(0 <= p && p <= 2 * f) by (nonlinear_arith)
        requires
            p * ONE == n - r,
            0 <= r < ONE,
            0 <= n <= (ONE + 4) * f,
            ONE == 4_294_967_296,
            f >= 0,
    ;
    assert((p * ONE) * (p * ONE) <= n * n) by (nonlinear_arith)
        requires
            p * ONE == n - r,
            0 <= r,
            r <= n,
    ;
    assert((p * ONE) * (p * ONE) == (p * p) * (ONE * ONE)) by (nonlinear_arith);
    assert(n * n == (a * a) * (f * f)) by (nonlinear_arith)
        requires
            n == a * f,
    ;
}

/// The last step of `lemma_scaled_length`.
proof fn lemma_scaled_squeeze(n: int, length: int, total: int, f: int)
    requires
        n >= 0,
        f >= 0,
        n * n <= length,
        0 <= total < (ONE + 5) * (ONE + 5),
        length * (ONE * ONE) <= total * (f * f),
    ensures
        n * ONE <= f * (ONE + 5),
{
    let lhs = n * ONE;
    let rhs = f * (ONE + 5);
    assert(lhs * lhs <= length * (ONE * ONE)) by (nonlinear_arith)
        requires
            lhs == n * ONE,
            n * n <= length,
    ;
    assert(total * (f * f) <= rhs * rhs) by (nonlinear_arith)
        requires
            rhs == f * (ONE + 5),
            0 <= total < (ONE + 5) * (ONE + 5),
    ;
    assert(lhs <= rhs) by (nonlinear_arith)
        requires
            lhs * lhs <= rhs * rhs,
            lhs >= 0,
            rhs >= 0,
    ;
}

/// The zero vector has no length, and normalizing it leaves it as it is.
pub proof fn lemma_zero_stays_zero()
    ensures
        Vec3::whole(0, 0, 0).spec_magnitude()@ == 0,
        Vec3::whole(0, 0, 0).spec_normalized() == Vec3::whole(0, 0, 0),
        Vec3::whole(0, 0, 0) == (Vec3 { x: Fixed::of(0), y: Fixed::of(0), z: Fixed::of(0) }),
{
    lemma_nought_and_one();
    assert(squares(0, 0, 0) == 0nat * 0nat) by (nonlinear_arith);
    lemma_root_of_square(0);
}

/// A vector that is no longer than a unit vector has no component beyond
/// one plus `UNIT_TOLERANCE`.
pub proof fn lemma_unit_is_bounded(v: Vec3)
    requires
        v.spec_magnitude()@ <= ONE + UNIT_TOLERANCE,
    ensures
        -(ONE + UNIT_TOLERANCE) <= v.x@ <= ONE + UNIT_TOLERANCE,
        -(ONE + UNIT_TOLERANCE) <= v.y@ <= ONE + UNIT_TOLERANCE,
        -(ONE + UNIT_TOLERANCE) <= v.z@ <= ONE + UNIT_TOLERANCE,
        is_bounded(v),
{
    let a = magnitude(v.x@);
    let b = magnitude(v.y@);
    let c = magnitude(v.z@);
    assert(a * a == v.x@ * v.x@ && b * b == v.y@ * v.y@ && c * c == v.z@ * v.z@ && a * a >= 0 && b
        * b >= 0 && c * c >= 0) by (nonlinear_arith)
        requires
            a == magnitude(v.x@),
            b == magnitude(v.y@),
            c == magnitude(v.z@),
    ;
    let total = squares(v.x@, v.y@, v.z@);
    lemma_root_exists(total);
    let m = root(total) as int;
    lemma_component_is_shorter(a, b * b + c * c, m);
    lemma_component_is_shorter(b, a * a + c * c, m);
    lemma_component_is_shorter(c, a * a + b * b, m);
}

/// The length of a stretched vector is at least `2^30` raw steps, and no
/// component of the stretched vector is longer than it. This holds of every
/// vector but the zero vector whose components are at most `LENGTH_BOUND` in
/// magnitude.
pub proof fn lemma_stretched_length(v: Vec3)
    requires
        v.x@ != 0 || v.y@ != 0 || v.z@ != 0,
        is_bounded(v),
    ensures
        v.spec_stretched().spec_magnitude()@ >= 0x4000_0000,
        magnitude(v.spec_stretched().x@) <= v.spec_stretched().spec_magnitude()@,
        magnitude(v.spec_stretched().y@) <= v.spec_stretched().spec_magnitude()@,
        magnitude(v.spec_stretched().z@) <= v.spec_stretched().spec_magnitude()@,
        is_bounded(v.spec_stretched()),
        is_root(
            squares(v.spec_stretched().x@, v.spec_stretched().y@, v.spec_stretched().z@),
            v.spec_stretched().spec_magnitude()@ as nat,
        ),
{
    let w = v.spec_stretched();
    let a = magnitude(w.x@);
    let b = magnitude(w.y@);
    let c = magnitude(w.z@);
    assert(a * a == w.x@ * w.x@ && b * b == w.y@ * w.y@ && c * c == w.z@ * w.z@)
        by (nonlinear_arith)
        requires
            a == magnitude(w.x@),
            b == magnitude(w.y@),
            c == magnitude(w.z@),
    ;
    let total = squares(w.x@, w.y@, w.z@);
    assert(a * a <= 0x1000_0000_0000_0000_0000_0000_0000_0000 && b * b
        <= 0x1000_0000_0000_0000_0000_0000_0000_0000 && c * c
        <= 0x1000_0000_0000_0000_0000_0000_0000_0000 && a * a >= 0 && b * b >= 0 && c * c >= 0)
        by (nonlinear_arith)
        requires
            0 <= a <= 0x4000_0000_0000_0000,
            0 <= b <= 0x4000_0000_0000_0000,
            0 <= c <= 0x4000_0000_0000_0000,
    ;
    assert(a * a + b * b + c * c >= 0x1000_0000_0000_0000) by (nonlinear_arith)
        requires
            a >= 0x4000_0000 || b >= 0x4000_0000 || c >= 0x4000_0000,
            a >= 0,
            b >= 0,
            c >= 0,
    ;
    assert(0x4000_0000int * 0x4000_0000int == 0x1000_0000_0000_0000int);
    assert(0x8000_0000_0000_0000int * 0x8000_0000_0000_0000int
        == 0x4000_0000_0000_0000_0000_0000_0000_0000int);
    lemma_root_between(total, 0x4000_0000, 0x7fff_ffff_ffff_ffff);
    lemma_root_exists(total);
    let m = root(total) as int;
    lemma_component_is_shorter(a, b * b + c * c, m);
    lemma_component_is_shorter(b, a * a + c * c, m);
    lemma_component_is_shorter(c, a * a + b * b, m);
}

} // verus!
