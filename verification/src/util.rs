//! Constants of the marching algorithm and the bounce direction.

use crate::fixed::magnitude;
use crate::fixed::ONE;
use crate::vec::is_bounded;
use crate::vec::is_unit;
use crate::vec::lemma_normalized_is_unit;
use crate::vec::lemma_unit_is_bounded;
use crate::vec::lemma_unit_sample_is_unit;
use crate::vec::Vec3;
use vstd::prelude::*;

verus! {

/// The raw value of the distance beyond which a ray has left the scene:
/// one hundred thousand.
pub const MAX_SDF_DISTANCE: i64 = 429_496_729_600_000;

/// The raw value of the distance below which a ray has hit a surface: one
/// hundred-thousandth, rounded up to the next raw value.
pub const MIN_SDF_DISTANCE: i64 = 42_950;

/// The direction in which light bounces off a surface with the given
/// normal, for a given random direction: their sum, normalized. Where the
/// two cancel, or where rounding would turn the sum into the surface, the
/// light bounces straight off, along the normal.
pub open spec fn bounce_direction(normal: Vec3, unit: Vec3) -> Vec3 {
    let sum = unit + normal;
    let direction = sum.spec_normalized();
    if (sum.x@ == 0 && sum.y@ == 0 && sum.z@ == 0) || direction.spec_dot(normal)@ < 0 {
        normal
    } else {
        direction
    }
}

/// `direction` is a possible result of `random_bounce_direction(normal)`.
pub open spec fn is_bounce_direction(normal: Vec3, direction: Vec3) -> bool {
    exists|unit: Vec3| unit.is_unit_sample() && direction == #[trigger] bounce_direction(normal, unit)
}

/// The direction in which light bounces off a surface with the given
/// normal, for a given random direction.
pub fn bounce_from(normal: Vec3, unit: Vec3) -> (r: Vec3)
    ensures
        r == bounce_direction(normal, unit),
        is_unit(normal) && is_unit(unit) ==> is_unit(r) && r.spec_dot(normal)@ >= 0,
{
    proof {
        if is_unit(normal) && is_unit(unit) {
            lemma_bounce_leaves_surface(normal, unit);
        }
    }
    let sum = unit + normal;
    let direction = sum.normalized();
    if (sum.x.raw == 0 && sum.y.raw == 0 && sum.z.raw == 0) || direction.dot(normal).raw < 0 {
        normal
    } else {
        direction
    }
}

/// A random direction in which light bounces off a surface with the given
/// normal: a random direction plus the normal, normalized. Off a surface
/// with a unit normal it is a unit vector that does not point into the
/// surface.
pub fn random_bounce_direction(normal: Vec3) -> (r: Vec3)
    ensures
        is_bounce_direction(normal, r),
        is_unit(normal) ==> is_unit(r) && r.spec_dot(normal)@ >= 0,
{
    let unit = Vec3::random_unit_vec();
    bounce_from(normal, unit)
}

/// The dot product of a vector with itself is not negative.
pub proof fn lemma_dot_with_itself(v: Vec3)
    ensures
        v.spec_dot(v)@ >= 0,
{
    let x = v.x@;
    let y = v.y@;
    let z = v.z@;
    assert(x * x >= 0 && y * y >= 0 && z * z >= 0) by (nonlinear_arith);
    assert(magnitude(x * x) / (ONE as int) >= 0 && magnitude(y * y) / (ONE as int) >= 0
        && magnitude(z * z) / (ONE as int) >= 0) by (nonlinear_arith)
        requires
            ONE == 4_294_967_296,
            magnitude(x * x) >= 0,
            magnitude(y * y) >= 0,
            magnitude(z * z) >= 0,
    ;
}

/// A bounce leaves the surface. Off a surface with a unit normal, for a
/// unit random direction, the bounce direction is a unit vector, and its dot
/// product with the normal is not negative.
pub proof fn lemma_bounce_leaves_surface(normal: Vec3, unit: Vec3)
    requires
        is_unit(normal),
        is_unit(unit),
    ensures
        is_unit(bounce_direction(normal, unit)),
        bounce_direction(normal, unit).spec_dot(normal)@ >= 0,
{
    let sum = unit + normal;
    lemma_unit_is_bounded(normal);
    lemma_unit_is_bounded(unit);
    assert(is_bounded(sum));
    if sum.x@ == 0 && sum.y@ == 0 && sum.z@ == 0 {
        lemma_dot_with_itself(normal);
    } else {
        lemma_normalized_is_unit(sum);
        if sum.spec_normalized().spec_dot(normal)@ < 0 {
            lemma_dot_with_itself(normal);
        }
    }
}

/// Every possible result of `random_bounce_direction`, for a unit
/// normal, is a unit vector whose dot product with the normal is not
/// negative.
pub proof fn lemma_random_bounce_leaves_surface(normal: Vec3, direction: Vec3)
    requires
        is_unit(normal),
        is_bounce_direction(normal, direction),
    ensures
        is_unit(direction),
        direction.spec_dot(normal)@ >= 0,
{
    let unit = choose|unit: Vec3|
        unit.is_unit_sample() && direction == #[trigger] bounce_direction(normal, unit);
    lemma_unit_sample_is_unit(unit);
    lemma_bounce_leaves_surface(normal, unit);
}

} // verus!
