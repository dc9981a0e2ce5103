//! A fixed showcase: two spheres and a row of small ones on a floor, in
//! the light of a low sun, seen through a camera at the origin.
//!
//! The scene is written out as one distance function, and the picture has a
//! fixed size, sample count and exposure. The functions here do for this one
//! scene what `Scene` and `Renderer` do for any.

use crate::fixed::Fixed;
use crate::util::bounce_direction;
use crate::util::bounce_from;
use crate::util::MAX_SDF_DISTANCE;
use crate::util::MIN_SDF_DISTANCE;
use crate::vec::Vec3;
use std::ops::Neg;
use vstd::prelude::*;

verus! {

/// The width of the picture, in pixels.
pub const X: u32 = 200;

/// The height of the picture, in pixels.
pub const Y: u32 = 200;

/// The number of bounces over which light is followed.
pub const MAX_BOUNCES: u32 = 5;

/// The number of samples that are averaged into one pixel.
pub const NUM_SAMPLES: u32 = 128;

/// The number of small spheres in the row.
pub const ROW_LENGTH: u32 = 11;

/// The most steps that `shoot_ray` takes.
pub const MAX_STEPS: u32 = 1024;

/// The raw value of the step of the finite differences that estimate a
/// normal: one ten-thousandth.
pub const EPSILON: i64 = 429_497;

/// A sphere.
pub struct Sphere {
    pub origin: Vec3,
    pub radius: Fixed,
}

impl Sphere {
    /// The signed distance from `point` to the sphere.
    pub open spec fn distance(&self, point: Vec3) -> Fixed {
        (self.origin - point).spec_magnitude() - self.radius
    }

    /// The signed distance from `point` to the sphere.
    pub fn distance_to(&self, point: Vec3) -> (d: Fixed)
        ensures
            d == self.distance(point),
    {
        self.origin.distance(point) - self.radius
    }
}

/// A box with its sides along the axes.
pub struct Cube {
    pub origin: Vec3,
    pub size: Vec3,
}

impl Cube {
    /// The signed distance from `point` to the box: the largest of the
    /// distances to its three pairs of faces.
    pub open spec fn distance(&self, point: Vec3) -> Fixed {
        let faces = (point - self.origin).spec_abs() - self.size;
        faces.x.spec_max(faces.y.spec_max(faces.z))
    }

    /// The signed distance from `point` to the box.
    pub fn distance_to(&self, point: Vec3) -> (d: Fixed)
        ensures
            d == self.distance(point),
    {
        let distance = (point - self.origin).abs();
        let distance = distance - self.size;
        distance.x.max(distance.y.max(distance.z))
    }
}

/// The vector of three decimal fractions with one digit after the point.
pub open spec fn decimal(x: int, y: int, z: int) -> Vec3 {
    Vec3 { x: Fixed::spec_ratio(x, 10), y: Fixed::spec_ratio(y, 10), z: Fixed::spec_ratio(z, 10) }
}

/// The vector of three decimal fractions with one digit after the point.
pub fn tenths(x: i64, y: i64, z: i64) -> (r: Vec3)
    ensures
        r == decimal(x as int, y as int, z as int),
{
    Vec3 { x: Fixed::ratio(x, 10), y: Fixed::ratio(y, 10), z: Fixed::ratio(z, 10) }
}

/// The big sphere in the middle.
pub open spec fn big_sphere() -> Sphere {
    Sphere { origin: decimal(0, 0, 100), radius: Fixed::spec_ratio(10, 10) }
}

/// The smaller sphere that sticks out of its side.
pub open spec fn side_sphere() -> Sphere {
    Sphere { origin: decimal(10, 0, 100), radius: Fixed::spec_ratio(5, 10) }
}

/// The floor.
pub open spec fn floor() -> Cube {
    Cube { origin: decimal(0, 10, 100), size: decimal(50, 1, 50) }
}

/// The small sphere with the number `n` of the row in front.
pub open spec fn row_sphere(n: int) -> Sphere {
    Sphere {
        origin: Vec3 {
            x: Fixed::spec_from_int(n) * Fixed::spec_ratio(5, 10) - Fixed::spec_ratio(25, 10),
            y: Fixed::spec_ratio(9, 10),
            z: Fixed::spec_ratio(90, 10),
        },
        radius: Fixed::spec_ratio(3, 10),
    }
}

/// The smaller of `start` and the distances from `point` to the first `n`
/// spheres of the row.
pub open spec fn with_row(point: Vec3, start: Fixed, n: int) -> Fixed
    decreases n,
{
    if n <= 0 {
        start
    } else {
        with_row(point, start, n - 1).spec_min(row_sphere(n - 1).distance(point))
    }
}

/// The distance field of the showcase.
pub open spec fn field(point: Vec3) -> Fixed {
    with_row(
        point,
        big_sphere().distance(point).spec_min(side_sphere().distance(point)).spec_min(
            floor().distance(point),
        ),
        ROW_LENGTH as int,
    )
}

/// The distance field of the showcase.
pub fn distance_field(point: Vec3) -> (d: Fixed)
    ensures
        d == field(point),
{
    let sphere = Sphere { origin: tenths(0, 0, 100), radius: Fixed::ratio(10, 10) };
    let sphere2 = Sphere { origin: tenths(10, 0, 100), radius: Fixed::ratio(5, 10) };
    let floor = Cube { origin: tenths(0, 10, 100), size: tenths(50, 1, 50) };
    let mut min = sphere.distance_to(point).min(sphere2.distance_to(point)).min(
        floor.distance_to(point),
    );
    let start = min;
    let mut n: u32 = 0;
    while n < ROW_LENGTH
        invariant
            n <= ROW_LENGTH,
            min == with_row(point, start, n as int),
        decreases ROW_LENGTH - n,
    {
        let dist = (Sphere {
            origin: Vec3 {
                x: Fixed::from_int(n as i64) * Fixed::ratio(5, 10) - Fixed::ratio(25, 10),
                y: Fixed::ratio(9, 10),
                z: Fixed::ratio(90, 10),
            },
            radius: Fixed::ratio(3, 10),
        }).distance_to(point);
        min = min.min(dist);
        n = n + 1;
    }
    min
}

/// The estimated surface normal at `point`: the forward differences of
/// the distance field along the three axes, normalized.
pub open spec fn normal(point: Vec3) -> Vec3 {
    let step = Fixed::of(EPSILON as int);
    let none = Fixed::of(0);
    let center = field(point);
    (Vec3 {
        x: field(point + Vec3 { x: step, y: none, z: none }) - center,
        y: field(point + Vec3 { x: none, y: step, z: none }) - center,
        z: field(point + Vec3 { x: none, y: none, z: step }) - center,
    }).spec_normalized()
}

/// The estimated surface normal at `point`.
pub fn normal_at(point: Vec3) -> (n: Vec3)
    ensures
        n == normal(point),
{
    let step = Fixed::from_raw(EPSILON);
    let none = Fixed::zero();
    let df_center = distance_field(point);
    let df_x = distance_field(point + Vec3 { x: step, y: none, z: none });
    let df_y = distance_field(point + Vec3 { x: none, y: step, z: none });
    let df_z = distance_field(point + Vec3 { x: none, y: none, z: step });
    (Vec3 { x: df_x - df_center, y: df_y - df_center, z: df_z - df_center }).normalized()
}

/// Where a ray from `origin` along `direction` stops within `steps`
/// steps: on a surface, out of the scene, or where the steps run out.
pub open spec fn ray_end_within(origin: Vec3, direction: Vec3, steps: nat) -> Vec3
    decreases steps,
{
    if steps == 0 {
        origin
    } else {
        let distance = field(origin);
        if distance@ >= MAX_SDF_DISTANCE || distance@ <= MIN_SDF_DISTANCE {
            origin
        } else {
            ray_end_within(origin + direction.scaled_by(distance), direction, (steps - 1) as nat)
        }
    }
}

/// Where a ray from `origin` along `direction` stops.
pub open spec fn ray_end(origin: Vec3, direction: Vec3) -> Vec3 {
    ray_end_within(origin, direction, MAX_STEPS as nat)
}

/// Follows a ray from `origin` along `direction` and returns where it
/// stops: where the distance field is at most `MIN_SDF_DISTANCE` or at
/// least `MAX_SDF_DISTANCE`, or after `MAX_STEPS` steps.
pub fn shoot_ray(origin: Vec3, direction: Vec3) -> (end: Vec3)
    ensures
        end == ray_end(origin, direction),
{
    let mut position = origin;
    let mut steps: u32 = MAX_STEPS;
    while steps > 0
        invariant
            ray_end(origin, direction) == ray_end_within(position, direction, steps as nat),
        decreases steps,
    {
        let distance = distance_field(position);
        if distance.raw >= MAX_SDF_DISTANCE || distance.raw <= MIN_SDF_DISTANCE {
            return position;
        }
        position = position + direction * distance;
        steps = steps - 1;
    }
    position
}

/// The direction in which the light of the sun travels.
pub open spec fn sun() -> Vec3 {
    decimal(10, 10, 5).spec_normalized()
}

/// The point from which a surface point is shaded: a little above the
/// surface.
pub open spec fn shading_origin(point: Vec3) -> Vec3 {
    point + normal(point).scaled_by(Fixed::of(MIN_SDF_DISTANCE as int) * Fixed::spec_from_int(2))
}

/// The colour of `point` in plain sunlight: magenta, dimmed by the angle
/// to the sun, and black in the shadow.
pub open spec fn plain_color(point: Vec3) -> Vec3 {
    let facing = -sun().spec_dot(normal(point));
    let end = ray_end(shading_origin(point), sun().scaled_by(Fixed::spec_from_int(-1)));
    let brightness = if facing@ < 0 || field(end)@ <= MIN_SDF_DISTANCE {
        Fixed::of(0)
    } else {
        facing
    };
    decimal(10, 0, 10).scaled_by(brightness)
}

/// The colour of `point` in plain sunlight.
pub fn color_at(point: Vec3) -> (c: Vec3)
    ensures
        c == plain_color(point),
{
    let sun_dir = tenths(10, 10, 5).normalized();
    let normal = normal_at(point);
    let mut brightness = sun_dir.dot(normal).neg();
    if brightness.raw < 0 {
        brightness = Fixed::zero();
    }
    let ray_dir = sun_dir * Fixed::from_int(-1);
    let ray_origin = point + normal * (Fixed::from_raw(MIN_SDF_DISTANCE) * Fixed::from_int(2));
    let hit_point = shoot_ray(ray_origin, ray_dir);
    if distance_field(hit_point).raw <= MIN_SDF_DISTANCE {
        brightness = Fixed::zero();
    }
    tenths(10, 0, 10) * brightness
}

/// The colour of every surface.
pub open spec fn surface_color() -> Vec3 {
    decimal(10, 9, 7)
}

/// The colour of the sky that a bounce sees.
pub open spec fn bounce_sky() -> Vec3 {
    decimal(4, 7, 10)
}

/// The sunlight that a surface with the given normal sends on, shaded
/// from `origin`: the colour of the surface, dimmed by the angle to the sun,
/// if the sun is in front of the surface and nothing is in the way; else
/// none.
pub open spec fn sunlight(normal: Vec3, origin: Vec3) -> Vec3 {
    let end = ray_end(origin, sun().scaled_by(Fixed::spec_from_int(-1)));
    let brightness = -normal.spec_dot(sun());
    if field(end)@ >= MAX_SDF_DISTANCE && brightness@ > 0 {
        Vec3::whole(0, 0, 0) + surface_color().scaled_by(brightness)
    } else {
        Vec3::whole(0, 0, 0)
    }
}

/// The sunlight that a surface with the given normal sends on, shaded
/// from `origin`.
pub fn sunlight_from(normal: Vec3, origin: Vec3) -> (c: Vec3)
    ensures
        c == sunlight(normal, origin),
{
    // Start with no light being received.
    let mut color = Vec3 { x: Fixed::from_int(0), y: Fixed::from_int(0), z: Fixed::from_int(0) };
    let surface_color = tenths(10, 9, 7);
    // Check if we get sunlight.
    let sun_dir = tenths(10, 10, 5).normalized();
    let sun_ray_dir = sun_dir * Fixed::from_int(-1);
    let sun_hit = shoot_ray(origin, sun_ray_dir);
    if distance_field(sun_hit).raw >= MAX_SDF_DISTANCE {
        // We reached the sky, so nothing is causing us to shadow the sun.
        let brightness = normal.dot(sun_dir).neg();
        if brightness.raw > 0 {
            color = color + surface_color * brightness;
        }
    }
    color
}

/// The light that a surface with the given normal sends on of the light
/// `incoming` that arrives from `direction`; none if the direction points
/// into the surface.
pub open spec fn bounced(normal: Vec3, direction: Vec3, incoming: Vec3) -> Vec3 {
    let brightness = normal.spec_dot(direction);
    if brightness@ > 0 {
        (incoming * surface_color()).scaled_by(brightness)
    } else {
        Vec3::whole(0, 0, 0)
    }
}

/// The light that a surface with the given normal sends on of the light
/// `incoming` that arrives from `direction`.
pub fn bounced_from(normal: Vec3, direction: Vec3, incoming: Vec3) -> (c: Vec3)
    ensures
        c == bounced(normal, direction, incoming),
{
    let brightness = normal.dot(direction);
    if brightness.raw > 0 {
        incoming * tenths(10, 9, 7) * brightness
    } else {
        Vec3 { x: Fixed::from_int(0), y: Fixed::from_int(0), z: Fixed::from_int(0) }
    }
}

/// The colour of `point` for given random numbers: the sunlight and, if
/// a bounce is left, the light `incoming` that arrives along the bounce for
/// the random direction `unit`.
pub open spec fn shade(point: Vec3, bounces: nat, unit: Vec3, incoming: Vec3) -> Vec3 {
    let direct = sunlight(normal(point), shading_origin(point));
    if bounces > 0 {
        direct + bounced(normal(point), bounce_direction(normal(point), unit), incoming)
    } else {
        direct
    }
}

/// Whether `color` is a colour that `point` can have with `bounces`
/// bounces left: whether there are, if a bounce is left, a random direction
/// and a colour that the bounce can bring in, that shade the point in
/// `color`. A bounce that leaves the scene brings in the colour of the sky;
/// any other brings in a colour that the point where it stops can have.
pub open spec fn may_color(point: Vec3, bounces: nat, color: Vec3) -> bool
    decreases bounces,
{
    exists|unit: Vec3, incoming: Vec3|
        {
            &&& bounces > 0 ==> {
                let end = ray_end(
                    shading_origin(point),
                    bounce_direction(normal(point), unit),
                );
                &&& unit.is_unit_sample()
                &&& if field(end)@ >= MAX_SDF_DISTANCE {
                    incoming == bounce_sky()
                } else {
                    may_color(end, (bounces - 1) as nat, incoming)
                }
            }
            &&& color == #[trigger] shade(point, bounces, unit, incoming)
        }
}

/// The colour of `point`: the sunlight that reaches it and, while
/// bounces are left, the light that arrives along one random bounce.
pub fn realistic_color_at(point: Vec3, extra_bounces: u32) -> (c: Vec3)
    ensures
        may_color(point, extra_bounces as nat, c),
    decreases extra_bounces,
{
    let normal = normal_at(point);
    let ray_origin = point + normal * (Fixed::from_raw(MIN_SDF_DISTANCE) * Fixed::from_int(2));
    let mut color = sunlight_from(normal, ray_origin);
    let mut unit = color;
    let mut light = color;
    // Do bounce lighting
    if extra_bounces > 0 {
        unit = Vec3::random_unit_vec();
        let bounce_ray_dir = bounce_from(normal, unit);
        let bounce_hit = shoot_ray(ray_origin, bounce_ray_dir);
        light = if distance_field(bounce_hit).raw >= MAX_SDF_DISTANCE {
            tenths(4, 7, 10)
        } else {
            realistic_color_at(bounce_hit, extra_bounces - 1)
        };
        color = color + bounced_from(normal, bounce_ray_dir, light);
    }
    assert(color == shade(point, extra_bounces as nat, unit, light));
    color
}

/// One component of the direction through a pixel: the pixel's number
/// plus the jitter, as a fraction of the picture, centred and scaled to the
/// picture plane.
pub open spec fn ray_component(pixel: u32, jitter: Fixed, pixels: u32) -> Fixed {
    ((Fixed::spec_from_int(pixel as int) + jitter) / Fixed::spec_from_int(pixels as int)
        - Fixed::spec_ratio(5, 10)) * Fixed::spec_from_int(2) * Fixed::spec_ratio(3, 10)
}

/// The direction of the ray from the camera through the pixel `(x, y)`,
/// moved off the pixel's corner by `(dx, dy)`.
pub open spec fn ray_direction(x: u32, y: u32, dx: Fixed, dy: Fixed) -> Vec3 {
    (Vec3 {
        x: ray_component(x, dx, X),
        y: ray_component(y, dy, Y),
        z: Fixed::spec_from_int(1),
    }).spec_normalized()
}

/// Whether `color` is a colour that a sample of the pixel `(x, y)` can
/// have for the jitter `(dx, dy)`: a colour that the point can have where
/// the ray through the pixel stops on a surface, and blue where it does not.
pub open spec fn may_sample(x: u32, y: u32, dx: Fixed, dy: Fixed, color: Vec3) -> bool {
    let end = ray_end(Vec3::whole(0, 0, 0), ray_direction(x, y, dx, dy));
    if field(end)@ <= MIN_SDF_DISTANCE {
        may_color(end, MAX_BOUNCES as nat, color)
    } else {
        color == Vec3::whole(0, 0, 1)
    }
}

/// One sample of the pixel `(x, y)`: the colour that is seen from the
/// camera through the pixel moved by `(dx, dy)`.
pub fn sample(x: u32, y: u32, dx: Fixed, dy: Fixed) -> (c: Vec3)
    ensures
        may_sample(x, y, dx, dy, c),
{
    let half = Fixed::ratio(5, 10);
    let two = Fixed::from_int(2);
    let camera_size = Fixed::ratio(3, 10);
    let ray_dir_x = ((Fixed::from_int(x as i64) + dx) / Fixed::from_int(X as i64) - half) * two
        * camera_size;
    let ray_dir_y = ((Fixed::from_int(y as i64) + dy) / Fixed::from_int(Y as i64) - half) * two
        * camera_size;
    let ray_dir_z = Fixed::from_int(1);
    let ray_dir = (Vec3 { x: ray_dir_x, y: ray_dir_y, z: ray_dir_z }).normalized();
    let origin = Vec3 { x: Fixed::from_int(0), y: Fixed::from_int(0), z: Fixed::from_int(0) };
    let result = shoot_ray(origin, ray_dir);
    let hit_sphere = distance_field(result).raw <= MIN_SDF_DISTANCE;
    if hit_sphere {
        realistic_color_at(result, MAX_BOUNCES)
    } else {
        Vec3 { x: Fixed::from_int(0), y: Fixed::from_int(0), z: Fixed::from_int(1) }
    }
}

/// The bytes of a pixel whose samples add up to `total`: the sum times
/// the exposure of eight tenths over the number of samples, each channel
/// clamped into `[0, 1]` and scaled to a byte.
pub open spec fn encode(total: Vec3) -> (u8, u8, u8) {
    let color = total.scaled_by(
        Fixed::spec_ratio(8, 10) / Fixed::spec_from_int(NUM_SAMPLES as int),
    );
    (color.x.spec_to_byte(), color.y.spec_to_byte(), color.z.spec_to_byte())
}

/// The bytes of a pixel whose samples add up to `total`.
pub fn resolve(total: Vec3) -> (rgb: (u8, u8, u8))
    ensures
        rgb == encode(total),
{
    let color = total * (Fixed::ratio(8, 10) / Fixed::from_int(NUM_SAMPLES as i64));
    (color.x.to_byte(), color.y.to_byte(), color.z.to_byte())
}

} // verus!
