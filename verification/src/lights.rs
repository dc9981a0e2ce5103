//! Lights: where to aim a shadow ray, and how much light arrives.
//!
//! Sampling a light is random, which is what makes shadows soft. Each light
//! has a `sample_with` that takes the random numbers as arguments and is an
//! exact function of them, and a `sample` that draws them.
//!
//! A directional light pushes each sample off its direction, within the
//! plane perpendicular to it, by less than its size; the laws at the end of
//! this file say how exactly.

use crate::basis::exact_dot;
use crate::basis::lemma_dot_rounding;
use crate::basis::lemma_normalized_dot;
use crate::basis::lemma_plane_vector;
use crate::basis::lemma_scaled_dot;
use crate::basis::lemma_unit_square;
use crate::fixed::lemma_nought_and_one;
use crate::fixed::lemma_product_is_smaller;
use crate::fixed::lemma_root_of_square;
use crate::fixed::raw_ratio;
use crate::fixed::Fixed;
use crate::fixed::ONE;
use crate::random::uniform_raw;
use crate::util::MAX_SDF_DISTANCE;
use crate::vec::is_bounded;
use crate::vec::is_unit;
use crate::vec::lemma_normalized_is_unit;
use crate::vec::lemma_scaled_length;
use crate::vec::lemma_unit_is_bounded;
use crate::vec::lemma_zero_stays_zero;
use crate::vec::squares;
use crate::vec::Vec3;
use crate::vec::FACTOR_BOUND;
use crate::vec::UNIT_TOLERANCE;
use crate::vec::MAX_DRAWS;
use vstd::arithmetic::div_mod::lemma_div_is_ordered_by_denominator;
use vstd::prelude::*;
use vstd::std_specs::convert::FromSpecImpl;

verus! {

/// One sample of a light, as seen from a point.
#[derive(Clone, Copy, Debug, PartialEq, Eq, Structural)]
pub struct LightSample {
    /// The point to aim the shadow ray at.
    pub shadow_ray_target: Vec3,
    /// The light that arrives if nothing is in the way.
    pub color: Vec3,
}

/// A light that can be sampled from any point.
pub trait ImmediateLight {
    /// Whether `sample` is one of the samples that the light can give from
    /// the point `from`.
    spec fn may_sample(&self, from: Vec3, sample: LightSample) -> bool;

    /// Draws one sample of the light as seen from `from`.
    fn sample(&self, from: Vec3) -> (s: LightSample)
        ensures
            self.may_sample(from, s),
    ;
}

/// A point of the unit circle in the xy plane, or what stands for one: a
/// kept draw from the square `[-1, 1)^2`, normalized, or the x axis, which
/// `random_turn` returns when every draw was thrown away.
pub open spec fn is_turn(turn: Vec3) -> bool {
    turn == Vec3::whole(1, 0, 0) || exists|v: Vec3|
        v.in_unit_cube() && v.z@ == 0 && v.is_kept() && turn == #[trigger] v.spec_normalized()
}

/// A random point of the unit circle in the xy plane: the cosine and the
/// sine of an angle of which all values are equally likely.
fn random_turn() -> (turn: Vec3)
    ensures
        is_turn(turn),
{
    let mut attempt: u32 = 0;
    while attempt < MAX_DRAWS
        invariant
            attempt <= MAX_DRAWS,
        decreases MAX_DRAWS - attempt,
    {
        let draw = Vec3 {
            x: Fixed { raw: uniform_raw(-ONE, ONE) },
            y: Fixed { raw: uniform_raw(-ONE, ONE) },
            z: Fixed::zero(),
        };
        match Vec3::direction_from_draw(draw) {
            Some(turn) => {
                return turn;
            },
            None => {},
        }
        attempt = attempt + 1;
    }
    Vec3 { x: Fixed::from_int(1), y: Fixed::from_int(0), z: Fixed::from_int(0) }
}

/// A light so far away that its rays are parallel, like the sun.
#[derive(Clone, Copy, Debug)]
pub struct DirectionalLight {
    /// The direction in which the light travels.
    pub direction: Vec3,
    /// How big the light appears in the sky, which sets how soft its
    /// shadows are.
    pub percent_size: Fixed,
    pub color: Vec3,
}

impl DirectionalLight {
    /// Whether `offset` is a distance by which a sample may be off the
    /// light's centre: below the size of the light, and zero for a light
    /// without size.
    pub open spec fn is_offset(&self, offset: Fixed) -> bool {
        if self.percent_size@ > 0 {
            0 <= offset@ < self.percent_size@
        } else {
            offset@ == 0
        }
    }

    /// The push that a sample gets off the light's direction: the point
    /// `turn` of the unit circle, carried into the plane perpendicular to the
    /// direction, normalized, times `offset`.
    pub open spec fn spec_push(&self, turn: Vec3, offset: Fixed) -> Vec3 {
        let vx = self.direction.spec_first_perpendicular().spec_normalized();
        let vy = self.direction.spec_cross(vx);
        (vx.scaled_by(turn.x) + vy.scaled_by(turn.y)).spec_normalized().scaled_by(offset)
    }

    /// The direction of the light, pushed by `offset` towards the point
    /// `turn` of the circle around it.
    pub open spec fn spec_direction_with(&self, turn: Vec3, offset: Fixed) -> Vec3 {
        self.direction + self.spec_push(turn, offset)
    }

    /// The sample for given random numbers: the target lies against the
    /// pushed direction, as far away as a ray can go.
    pub open spec fn spec_sample_with(&self, from: Vec3, turn: Vec3, offset: Fixed) -> LightSample {
        LightSample {
            shadow_ray_target: from - self.spec_direction_with(turn, offset).scaled_by(
                Fixed::of(MAX_SDF_DISTANCE as int),
            ),
            color: self.color,
        }
    }

    /// The push that a sample gets off the light's direction, for given
    /// random numbers.
    pub fn push(&self, turn: Vec3, offset: Fixed) -> (r: Vec3)
        ensures
            r == self.spec_push(turn, offset),
            is_unit(self.direction) && is_turn(turn) && 0 <= offset@ <= ONE ==> r.spec_magnitude()@
                * ONE <= offset@ * (ONE + UNIT_TOLERANCE + 1) && -PUSH_TOLERANCE
                <= self.direction.spec_dot(r)@ <= PUSH_TOLERANCE,
    {
        proof {
            if is_unit(self.direction) && is_turn(turn) && 0 <= offset@ <= ONE {
                lemma_unit_is_bounded(self.direction);
                lemma_push_within(*self, turn, offset);
                lemma_push_is_perpendicular(*self, turn, offset);
            }
        }
        let (vx, vy) = self.direction.make_two_perpendicular();
        (vx * turn.x + vy * turn.y).normalized() * offset
    }

    /// The sample for given random numbers: `turn` is a point of the unit
    /// circle, `offset` a distance from the light's centre.
    pub fn sample_with(&self, from: Vec3, turn: Vec3, offset: Fixed) -> (s: LightSample)
        ensures
            s == self.spec_sample_with(from, turn, offset),
    {
        let real_direction = self.direction + self.push(turn, offset);
        LightSample {
            shadow_ray_target: from - real_direction * Fixed::from_raw(MAX_SDF_DISTANCE),
            color: self.color,
        }
    }
}

impl DirectionalLight {
    /// Whether `sample` is one of the samples that the light can give from
    /// the point `from`.
    pub open spec fn gives(&self, from: Vec3, sample: LightSample) -> bool {
        exists|turn: Vec3, offset: Fixed|
            is_turn(turn) && self.is_offset(offset) && sample == #[trigger] self.spec_sample_with(
                from,
                turn,
                offset,
            )
    }

    /// Draws one sample of the light as seen from `from`: a random point
    /// of the circle around the light's direction, at a random distance
    /// from its centre below the size of the light.
    pub fn draw(&self, from: Vec3) -> (s: LightSample)
        ensures
            self.gives(from, s),
    {
        let turn = random_turn();
        let offset = if self.percent_size.raw > 0 {
            Fixed { raw: uniform_raw(0, self.percent_size.raw) }
        } else {
            Fixed::zero()
        };
        self.sample_with(from, turn, offset)
    }
}

impl ImmediateLight for DirectionalLight {
    open spec fn may_sample(&self, from: Vec3, sample: LightSample) -> bool {
        self.gives(from, sample)
    }

    fn sample(&self, from: Vec3) -> (s: LightSample) {
        self.draw(from)
    }
}

/// A glowing ball.
#[derive(Clone, Copy, Debug)]
pub struct PointLight {
    pub origin: Vec3,
    pub radius: Fixed,
    pub color: Vec3,
}

impl PointLight {
    /// The sample for a given random direction: the target lies on the
    /// ball in that direction, and the light falls off with the distance
    /// `d` from the centre as `1 / (d - radius + 1)`.
    pub open spec fn spec_sample_with(&self, from: Vec3, unit: Vec3) -> LightSample {
        LightSample {
            shadow_ray_target: self.origin + unit.scaled_by(self.radius),
            color: self.color.divided_by(
                (from - self.origin).spec_magnitude() - self.radius + Fixed::of(ONE as int),
            ),
        }
    }

    /// The sample for a given random direction.
    pub fn sample_with(&self, from: Vec3, unit: Vec3) -> (s: LightSample)
        ensures
            s == self.spec_sample_with(from, unit),
    {
        let shadow_ray_target = self.origin + unit * self.radius;
        let distance = (from - self.origin).magnitude();
        LightSample {
            shadow_ray_target,
            color: self.color / (distance - self.radius + Fixed::one()),
        }
    }
}

impl PointLight {
    /// Whether `sample` is one of the samples that the light can give from
    /// the point `from`.
    pub open spec fn gives(&self, from: Vec3, sample: LightSample) -> bool {
        exists|unit: Vec3|
            unit.is_unit_sample() && sample == #[trigger] self.spec_sample_with(from, unit)
    }

    /// Draws one sample of the light as seen from `from`: a random point
    /// on the ball.
    pub fn draw(&self, from: Vec3) -> (s: LightSample)
        ensures
            self.gives(from, s),
    {
        let unit = Vec3::random_unit_vec();
        self.sample_with(from, unit)
    }
}

impl ImmediateLight for PointLight {
    open spec fn may_sample(&self, from: Vec3, sample: LightSample) -> bool {
        self.gives(from, sample)
    }

    fn sample(&self, from: Vec3) -> (s: LightSample) {
        self.draw(from)
    }
}

/// Either kind of light: the closed set of lights that a scene can hold
/// side by side.
#[derive(Clone, Copy, Debug)]
pub enum Light {
    Directional(DirectionalLight),
    Point(PointLight),
}

impl ImmediateLight for Light {
    open spec fn may_sample(&self, from: Vec3, sample: LightSample) -> bool {
        match self {
            Light::Directional(l) => l.gives(from, sample),
            Light::Point(l) => l.gives(from, sample),
        }
    }

    fn sample(&self, from: Vec3) -> (s: LightSample) {
        match self {
            Light::Directional(l) => l.draw(from),
            Light::Point(l) => l.draw(from),
        }
    }
}

impl From<DirectionalLight> for Light {
    fn from(l: DirectionalLight) -> (r: Light) {
        Light::Directional(l)
    }
}

impl FromSpecImpl<DirectionalLight> for Light {
    open spec fn obeys_from_spec() -> bool {
        true
    }

    open spec fn from_spec(l: DirectionalLight) -> Light {
        Light::Directional(l)
    }
}

impl From<PointLight> for Light {
    fn from(l: PointLight) -> (r: Light) {
        Light::Point(l)
    }
}

impl FromSpecImpl<PointLight> for Light {
    open spec fn obeys_from_spec() -> bool {
        true
    }

    open spec fn from_spec(l: PointLight) -> Light {
        Light::Point(l)
    }
}

/// The light of a point light does not grow with the distance. Of two
/// points, the one that is no nearer to the centre of the light gets no more
/// light on any channel, as long as the colour of the light is not negative
/// and the nearer point is not so deep inside the ball that the falloff
/// `1 / (d - radius + 1)` has no positive divisor.
pub proof fn lemma_falloff_decreases(light: PointLight, near: Vec3, far: Vec3, unit: Vec3)
    requires
        light.color.x@ >= 0,
        light.color.y@ >= 0,
        light.color.z@ >= 0,
        (near - light.origin).spec_magnitude()@ <= (far - light.origin).spec_magnitude()@,
        ((near - light.origin).spec_magnitude() - light.radius + Fixed::of(ONE as int))@ > 0,
    ensures
        light.spec_sample_with(far, unit).color.x@ <= light.spec_sample_with(near, unit).color.x@,
        light.spec_sample_with(far, unit).color.y@ <= light.spec_sample_with(near, unit).color.y@,
        light.spec_sample_with(far, unit).color.z@ <= light.spec_sample_with(near, unit).color.z@,
        light.spec_sample_with(far, unit).shadow_ray_target == light.spec_sample_with(
            near,
            unit,
        ).shadow_ray_target,
{
    let one = Fixed::of(ONE as int);
    let by_near = ((near - light.origin).spec_magnitude() - light.radius + one)@;
    let by_far = ((far - light.origin).spec_magnitude() - light.radius + one)@;
    assert(by_near <= by_far);
    lemma_ratio_decreases(light.color.x@, by_near, by_far);
    lemma_ratio_decreases(light.color.y@, by_near, by_far);
    lemma_ratio_decreases(light.color.z@, by_near, by_far);
}

/// A ratio of a number that is not negative does not grow with a positive
/// divisor.
proof fn lemma_ratio_decreases(a: int, small: int, large: int)
    requires
        a >= 0,
        0 < small <= large,
    ensures
        raw_ratio(a, large) <= raw_ratio(a, small),
{
    assert(a * ONE >= 0) by (nonlinear_arith)
        requires
            a >= 0,
            ONE == 4_294_967_296,
    ;
    lemma_div_is_ordered_by_denominator(a * ONE, small, large);
}

/// The largest raw magnitude of a component of a light's direction for
/// which `lemma_push_is_short` holds: `2^60`.
pub const DIRECTION_BOUND: i64 = 0x1000_0000_0000_0000;

/// Every turn is a unit vector in the xy plane, with no component beyond
/// one.
pub proof fn lemma_turn_is_unit(turn: Vec3)
    requires
        is_turn(turn),
    ensures
        is_unit(turn),
        -ONE <= turn.x@ <= ONE,
        -ONE <= turn.y@ <= ONE,
        turn.z@ == 0,
{
    if turn == Vec3::whole(1, 0, 0) {
        lemma_nought_and_one();
        assert(squares(ONE as int, 0, 0) == (ONE as nat) * (ONE as nat)) by (nonlinear_arith)
            requires
                ONE > 0,
        ;
        lemma_root_of_square(ONE as nat);
    } else {
        let v = choose|v: Vec3|
            v.in_unit_cube() && v.z@ == 0 && v.is_kept() && turn == #[trigger] v.spec_normalized();
        if v.x@ == 0 && v.y@ == 0 {
            assert(squares(0, 0, 0) == 0nat * 0nat) by (nonlinear_arith);
            lemma_root_of_square(0);
        }
        lemma_normalized_is_unit(v);
    }
}

/// The push for any offset that is not negative is no longer than the
/// offset, up to the tolerance of a unit vector.
pub proof fn lemma_push_within(light: DirectionalLight, turn: Vec3, offset: Fixed)
    requires
        is_turn(turn),
        0 <= offset@ <= FACTOR_BOUND,
        -DIRECTION_BOUND <= light.direction.x@ <= DIRECTION_BOUND,
        -DIRECTION_BOUND <= light.direction.y@ <= DIRECTION_BOUND,
        -DIRECTION_BOUND <= light.direction.z@ <= DIRECTION_BOUND,
    ensures
        light.spec_push(turn, offset).spec_magnitude()@ * ONE <= offset@ * (ONE + UNIT_TOLERANCE
            + 1),
{
    let wide = DirectionalLight {
        direction: light.direction,
        percent_size: Fixed::of(FACTOR_BOUND as int),
        color: light.color,
    };
    if offset@ < FACTOR_BOUND {
        lemma_push_is_short(wide, turn, offset);
        assert(wide.spec_push(turn, offset) == light.spec_push(turn, offset));
    } else {
        let vx = light.direction.spec_first_perpendicular().spec_normalized();
        let vy = light.direction.spec_cross(vx);
        lemma_basis_is_bounded(light.direction);
        lemma_turn_is_unit(turn);
        lemma_in_plane_is_bounded(vx, vy, turn);
        let w = vx.scaled_by(turn.x) + vy.scaled_by(turn.y);
        if w.x@ == 0 && w.y@ == 0 && w.z@ == 0 {
            lemma_zero_stays_zero();
        } else {
            lemma_normalized_is_unit(w);
        }
        lemma_scaled_length(w.spec_normalized(), offset);
    }
}

/// The push of a sample off the light's direction is no longer than the
/// offset, up to the tolerance of a unit vector: its length times one is at
/// most the offset times one plus `UNIT_TOLERANCE` plus one raw step. So a
/// sample of a light with a positive size is pushed by less than that size,
/// up to the same tolerance, and a sample of a light without size is not
/// pushed at all.
pub proof fn lemma_push_is_short(light: DirectionalLight, turn: Vec3, offset: Fixed)
    requires
        is_turn(turn),
        light.is_offset(offset),
        light.percent_size@ <= FACTOR_BOUND,
        -DIRECTION_BOUND <= light.direction.x@ <= DIRECTION_BOUND,
        -DIRECTION_BOUND <= light.direction.y@ <= DIRECTION_BOUND,
        -DIRECTION_BOUND <= light.direction.z@ <= DIRECTION_BOUND,
    ensures
        light.spec_push(turn, offset).spec_magnitude()@ * ONE <= offset@ * (ONE + UNIT_TOLERANCE
            + 1),
        light.percent_size@ > 0 ==> light.spec_push(turn, offset).spec_magnitude()@ * ONE
            < light.percent_size@ * (ONE + UNIT_TOLERANCE + 1),
        light.percent_size@ <= 0 ==> light.spec_push(turn, offset).spec_magnitude()@ == 0,
{
    let vx = light.direction.spec_first_perpendicular().spec_normalized();
    let vy = light.direction.spec_cross(vx);
    lemma_basis_is_bounded(light.direction);
    lemma_turn_is_unit(turn);
    lemma_in_plane_is_bounded(vx, vy, turn);
    let w = vx.scaled_by(turn.x) + vy.scaled_by(turn.y);
    let u = w.spec_normalized();
    assert(light.spec_push(turn, offset) == u.scaled_by(offset));
    if w.x@ == 0 && w.y@ == 0 && w.z@ == 0 {
        lemma_zero_stays_zero();
    } else {
        lemma_normalized_is_unit(w);
    }
    lemma_scaled_length(u, offset);
    let pushed = u.scaled_by(offset).spec_magnitude()@;
    let slack = ONE + UNIT_TOLERANCE + 1;
    if light.percent_size@ > 0 {
        assert(offset@ * slack < light.percent_size@ * slack) by (nonlinear_arith)
            requires
                offset@ < light.percent_size@,
                slack > 0,
        ;
    } else {
        assert(pushed == 0) by (nonlinear_arith)
            requires
                pushed * ONE <= offset@ * slack,
                offset@ == 0,
                pushed >= 0,
                ONE > 0,
        ;
    }
}

/// How far, in raw steps, the dot product of the push of a sample and
/// the direction of the light can be from zero.
pub const PUSH_TOLERANCE: i64 = 40;

/// The push of a sample is perpendicular to the direction of the light,
/// up to rounding: for a light with a unit direction and an offset of at
/// most one, the dot product of the direction and the push is at most
/// `PUSH_TOLERANCE` raw steps from zero.
pub proof fn lemma_push_is_perpendicular(light: DirectionalLight, turn: Vec3, offset: Fixed)
    requires
        is_unit(light.direction),
        is_turn(turn),
        0 <= offset@ <= ONE,
    ensures
        -PUSH_TOLERANCE <= light.direction.spec_dot(light.spec_push(turn, offset))@
            <= PUSH_TOLERANCE,
{
    let d = light.direction;
    lemma_unit_is_bounded(d);
    lemma_turn_is_unit(turn);
    lemma_unit_square(turn);
    assert(turn.z@ * turn.z@ == 0) by (nonlinear_arith)
        requires
            turn.z@ == 0,
    ;
    assert(turn.x@ * turn.x@ >= 0 && turn.y@ * turn.y@ >= 0) by (nonlinear_arith);
    lemma_plane_vector(d, turn.x, turn.y);
    let vx = d.spec_first_perpendicular().spec_normalized();
    let vy = d.spec_cross(vx);
    let w = vx.scaled_by(turn.x) + vy.scaled_by(turn.y);
    let limit = ONE + UNIT_TOLERANCE;
    lemma_normalized_dot(d, w, 12 * limit);
    let u = w.spec_normalized();
    lemma_scaled_dot(d, u, offset, 27 * limit);
    let push = u.scaled_by(offset);
    assert(push == light.spec_push(turn, offset));
    lemma_dot_rounding(d, push);
    let exact = exact_dot(d, push);
    let dot = d.spec_dot(push)@;
    assert(-40 <= dot <= 40) by (nonlinear_arith)
        requires
            -30 * (4_294_967_296int + 4) <= exact <= 30 * (4_294_967_296int + 4),
            -3 * 4_294_967_296int < exact - dot * 4_294_967_296int < 3 * 4_294_967_296int,
    ;
}

/// Every sample that a directional light gives has the colour of the
/// light, and aims as far as a ray can go against the direction of the
/// light plus a push that is shorter than the size of the light, up to the
/// tolerance of a unit vector; a light without size is not pushed at all.
pub proof fn lemma_sample_stays_within_size(light: DirectionalLight, from: Vec3, sample: LightSample)
    requires
        light.gives(from, sample),
        light.percent_size@ <= FACTOR_BOUND,
        -DIRECTION_BOUND <= light.direction.x@ <= DIRECTION_BOUND,
        -DIRECTION_BOUND <= light.direction.y@ <= DIRECTION_BOUND,
        -DIRECTION_BOUND <= light.direction.z@ <= DIRECTION_BOUND,
    ensures
        sample.color == light.color,
        exists|push: Vec3|
            {
                &&& #[trigger] is_push_within_size(light, push)
                &&& sample.shadow_ray_target == from - (light.direction + push).scaled_by(
                    Fixed::of(MAX_SDF_DISTANCE as int),
                )
            },
{
    let (turn, offset) = choose|turn: Vec3, offset: Fixed|
        is_turn(turn) && light.is_offset(offset) && sample == #[trigger] light.spec_sample_with(
            from,
            turn,
            offset,
        );
    lemma_push_is_short(light, turn, offset);
    assert(is_push_within_size(light, light.spec_push(turn, offset)));
}

/// Whether `push` is shorter than the size of the light, up to the
/// tolerance of a unit vector, and has no length at all for a light without
/// size.
pub open spec fn is_push_within_size(light: DirectionalLight, push: Vec3) -> bool {
    if light.percent_size@ > 0 {
        push.spec_magnitude()@ * ONE < light.percent_size@ * (ONE + UNIT_TOLERANCE + 1)
    } else {
        push.spec_magnitude()@ == 0
    }
}

/// The basis that is made for the direction of a light stays in range:
/// the first vector has no component beyond one, the second none beyond
/// twice `DIRECTION_BOUND`.
proof fn lemma_basis_is_bounded(d: Vec3)
    requires
        -DIRECTION_BOUND <= d.x@ <= DIRECTION_BOUND,
        -DIRECTION_BOUND <= d.y@ <= DIRECTION_BOUND,
        -DIRECTION_BOUND <= d.z@ <= DIRECTION_BOUND,
    ensures
        ({
            let vx = d.spec_first_perpendicular().spec_normalized();
            let vy = d.spec_cross(vx);
            &&& -ONE <= vx.x@ <= ONE
            &&& -ONE <= vx.y@ <= ONE
            &&& -ONE <= vx.z@ <= ONE
            &&& -2 * DIRECTION_BOUND <= vy.x@ <= 2 * DIRECTION_BOUND
            &&& -2 * DIRECTION_BOUND <= vy.y@ <= 2 * DIRECTION_BOUND
            &&& -2 * DIRECTION_BOUND <= vy.z@ <= 2 * DIRECTION_BOUND
        }),
{
    let flat = d.spec_first_perpendicular();
    lemma_nought_and_one();
    assert(is_bounded(flat));
    assert(flat.x@ != 0 || flat.y@ != 0 || flat.z@ != 0);
    lemma_normalized_is_unit(flat);
    let vx = flat.spec_normalized();
    lemma_product_is_smaller(d.y, vx.z);
    lemma_product_is_smaller(d.z, vx.y);
    lemma_product_is_smaller(d.z, vx.x);
    lemma_product_is_smaller(d.x, vx.z);
    lemma_product_is_smaller(d.x, vx.y);
    lemma_product_is_smaller(d.y, vx.x);
}

/// A point of the unit circle, carried into the plane of a basis that is
/// in range, is in range.
proof fn lemma_in_plane_is_bounded(vx: Vec3, vy: Vec3, turn: Vec3)
    requires
        -ONE <= vx.x@ <= ONE,
        -ONE <= vx.y@ <= ONE,
        -ONE <= vx.z@ <= ONE,
        -2 * DIRECTION_BOUND <= vy.x@ <= 2 * DIRECTION_BOUND,
        -2 * DIRECTION_BOUND <= vy.y@ <= 2 * DIRECTION_BOUND,
        -2 * DIRECTION_BOUND <= vy.z@ <= 2 * DIRECTION_BOUND,
        -ONE <= turn.x@ <= ONE,
        -ONE <= turn.y@ <= ONE,
    ensures
        is_bounded(vx.scaled_by(turn.x) + vy.scaled_by(turn.y)),
{
    lemma_product_is_smaller(vx.x, turn.x);
    lemma_product_is_smaller(vx.y, turn.x);
    lemma_product_is_smaller(vx.z, turn.x);
    lemma_product_is_smaller(vy.x, turn.y);
    lemma_product_is_smaller(vy.y, turn.y);
    lemma_product_is_smaller(vy.z, turn.y);
}

} // verus!
