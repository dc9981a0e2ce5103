//! The scene: objects, lights and a sky, and the light that travels
//! through them.
//!
//! The distance field of a scene is the smallest of the distances of its
//! objects. Rays are marched through that field by sphere tracing: a ray
//! steps forward by the value of the field, which is never farther than the
//! nearest surface. Where a ray hits, the surface is shaded by the lights
//! that it can see and by one random bounce.
//!
//! Shading is random. Its result is stated by the relations `may_see` and
//! `may_shade`: they hold of exactly the colours that some choice of random
//! numbers produces.

use crate::fixed::lemma_nought_and_one;
use crate::fixed::lemma_product_with_one_or_zero;
use crate::fixed::lemma_root_of_square;
use crate::fixed::Fixed;
use crate::fixed::ONE;
use crate::fixed::RAW_MAX;
use crate::lights::ImmediateLight;
use crate::lights::LightSample;
use crate::material::MaterialSample;
use crate::objects::ball_distance;
use crate::objects::RenderedObject;
use crate::util::bounce_direction;
use crate::util::bounce_from;
use crate::util::MAX_SDF_DISTANCE;
use crate::util::MIN_SDF_DISTANCE;
use crate::vec::lemma_normalized_along_z;
use crate::vec::squares;
use crate::vec::Vec3;
use vstd::prelude::*;

verus! {

/// The most steps that `march_until_hit` takes before it reports a miss.
pub const MAX_MARCH_STEPS: u32 = 1024;

/// The raw value of the step of the finite differences that estimate a
/// normal: one ten-thousandth, rounded to the nearest raw value.
pub const NORMAL_STEP: i64 = 429_497;

/// Objects, lights and the colour of the sky.
pub struct Scene<O: RenderedObject, L: ImmediateLight> {
    objects: Vec<O>,
    lights: Vec<L>,
    sky_color: Vec3,
}

/// The cosine of the angle between the normal and the way from `origin`
/// to `target`.
pub open spec fn brightness(origin: Vec3, normal: Vec3, target: Vec3) -> Fixed {
    (target - origin).spec_normalized().spec_dot(normal)
}

/// The light that a surface of the given colour and normal sends on, of
/// the light `incoming` that arrives from the direction `direction`.
pub open spec fn bounce_light(
    normal: Vec3,
    surface_color: Vec3,
    direction: Vec3,
    incoming: Vec3,
) -> Vec3 {
    (incoming * surface_color).scaled_by(direction.spec_dot(normal))
}

/// The light that a surface of the given colour and normal sends on, of
/// the light `incoming` that arrives from the direction `direction`.
pub fn bounce_light_from(normal: Vec3, surface_color: Vec3, direction: Vec3, incoming: Vec3) -> (r:
    Vec3)
    ensures
        r == bounce_light(normal, surface_color, direction, incoming),
{
    incoming * surface_color * direction.dot(normal)
}

impl<O: RenderedObject, L: ImmediateLight> Scene<O, L> {
    /// The objects, in the order in which they were added.
    pub closed spec fn objects(&self) -> Seq<O> {
        self.objects@
    }

    /// The lights, in the order in which they were added.
    pub closed spec fn lights(&self) -> Seq<L> {
        self.lights@
    }

    /// The colour of the sky.
    pub closed spec fn sky(&self) -> Vec3 {
        self.sky_color
    }

    /// The smallest distance from `point` to the first `n` objects; the
    /// largest number if there are none.
    pub open spec fn field_of(&self, n: int, point: Vec3) -> Fixed
        decreases n,
    {
        if n <= 0 {
            Fixed::of(RAW_MAX as int)
        } else {
            self.field_of(n - 1, point).spec_min(self.objects()[n - 1].distance(point))
        }
    }

    /// The distance field of the scene: the smallest distance from `point`
    /// to any object.
    pub open spec fn field(&self, point: Vec3) -> Fixed {
        self.field_of(self.objects().len() as int, point)
    }

    /// The estimated surface normal at `point`: the forward differences of
    /// the distance field along the three axes, normalized.
    pub open spec fn normal(&self, point: Vec3) -> Vec3 {
        let step = Fixed::of(NORMAL_STEP as int);
        let none = Fixed::of(0);
        let center = self.field(point);
        (Vec3 {
            x: self.field(point + Vec3 { x: step, y: none, z: none }) - center,
            y: self.field(point + Vec3 { x: none, y: step, z: none }) - center,
            z: self.field(point + Vec3 { x: none, y: none, z: step }) - center,
        }).spec_normalized()
    }

    /// Whether a march from `pos` along `dir` covers the length
    /// `remaining` before it runs into a surface.
    pub open spec fn reaches(&self, pos: Vec3, dir: Vec3, remaining: Fixed) -> bool
        decreases remaining@,
    {
        let df = self.field(pos);
        if df@ <= MIN_SDF_DISTANCE {
            false
        } else {
            let rest = remaining - df;
            if rest@ <= 0 {
                true
            } else {
                self.reaches(pos + dir.scaled_by(df), dir, rest)
            }
        }
    }

    /// Whether `target` can be seen from `start`: whether a march from the
    /// one towards the other arrives before it runs into a surface.
    pub open spec fn can_reach(&self, start: Vec3, target: Vec3) -> bool {
        self.reaches(
            start,
            (target - start).spec_normalized(),
            (target - start).spec_magnitude(),
        )
    }

    /// Where a march from `pos` along `dir` hits a surface within `steps`
    /// steps, if it does.
    pub open spec fn hit_within(&self, pos: Vec3, dir: Vec3, steps: nat) -> Option<Vec3>
        decreases steps,
    {
        if steps == 0 {
            None
        } else {
            let df = self.field(pos);
            if df@ <= MIN_SDF_DISTANCE {
                Some(pos)
            } else if df@ >= MAX_SDF_DISTANCE {
                None
            } else {
                self.hit_within(pos + dir.scaled_by(df), dir, (steps - 1) as nat)
            }
        }
    }

    /// Where the ray from `origin` along `dir` hits a surface, if it does.
    pub open spec fn hit(&self, origin: Vec3, dir: Vec3) -> Option<Vec3> {
        self.hit_within(origin, dir, MAX_MARCH_STEPS as nat)
    }

    /// The index of the first object, from `from` on, whose surface is at
    /// `point`; the number of objects if there is none.
    pub open spec fn touching_from(&self, from: int, point: Vec3) -> int
        decreases self.objects().len() - from,
    {
        if from < 0 || from >= self.objects().len() {
            self.objects().len() as int
        } else if self.objects()[from].distance(point)@ <= MIN_SDF_DISTANCE {
            from
        } else {
            self.touching_from(from + 1, point)
        }
    }

    /// The material at a point of a surface: that of the first object whose
    /// surface is there.
    pub open spec fn material(&self, point: Vec3) -> MaterialSample {
        self.objects()[self.touching_from(0, point)].material(point)
    }

    /// The point from which a surface point is shaded: a little above the
    /// surface, so that its own surface does not shadow it.
    pub open spec fn shading_origin(&self, point: Vec3) -> Vec3 {
        point + self.normal(point).scaled_by(Fixed::of(MIN_SDF_DISTANCE as int)).scaled_by(
            Fixed::spec_from_int(2),
        )
    }

    /// The light that one sample of a light adds at a surface: the sample's
    /// colour, filtered by the surface and dimmed by the angle, if the light
    /// is in front of the surface and nothing is in the way; else none.
    pub open spec fn direct_light(
        &self,
        origin: Vec3,
        normal: Vec3,
        surface_color: Vec3,
        sample: LightSample,
    ) -> Vec3 {
        let b = brightness(origin, normal, sample.shadow_ray_target);
        if b@ > 0 && self.can_reach(origin, sample.shadow_ray_target) {
            (sample.color * surface_color).scaled_by(b)
        } else {
            Vec3::whole(0, 0, 0)
        }
    }

    /// The light that the given samples add at a surface, one after the
    /// other.
    pub open spec fn direct_total(
        &self,
        origin: Vec3,
        normal: Vec3,
        surface_color: Vec3,
        samples: Seq<LightSample>,
    ) -> Vec3
        decreases samples.len(),
    {
        if samples.len() == 0 {
            Vec3::whole(0, 0, 0)
        } else {
            self.direct_total(origin, normal, surface_color, samples.drop_last())
                + self.direct_light(origin, normal, surface_color, samples.last())
        }
    }

    /// The colour of the surface at `point` for given random numbers: one
    /// sample of each light, and, if a bounce is left, the random direction
    /// `unit` and the light `incoming` that arrives along the bounce.
    pub open spec fn shade(
        &self,
        point: Vec3,
        samples: Seq<LightSample>,
        bounces: nat,
        unit: Vec3,
        incoming: Vec3,
    ) -> Vec3 {
        let normal = self.normal(point);
        let origin = self.shading_origin(point);
        let surface_color = self.material(point).base_color;
        let direct = self.direct_total(origin, normal, surface_color, samples);
        if bounces > 0 {
            direct + bounce_light(normal, surface_color, bounce_direction(normal, unit), incoming)
        } else {
            direct
        }
    }

    /// Whether `color` is a colour that the surface at `point` can have
    /// with `bounces` bounces left: whether there are samples of the lights
    /// and, if a bounce is left, a random direction and a colour that can
    /// be seen along the bounce, that shade the point in `color`.
    pub open spec fn may_shade(&self, point: Vec3, bounces: nat, color: Vec3) -> bool
        decreases bounces, 0int,
    {
        exists|samples: Seq<LightSample>, unit: Vec3, incoming: Vec3|
            {
                &&& samples.len() == self.lights().len()
                &&& forall|i: int|
                    0 <= i < samples.len() ==> #[trigger] self.lights()[i].may_sample(
                        self.shading_origin(point),
                        samples[i],
                    )
                &&& bounces > 0 ==> {
                    &&& unit.is_unit_sample()
                    &&& self.may_see(
                        self.shading_origin(point),
                        bounce_direction(self.normal(point), unit),
                        (bounces - 1) as nat,
                        incoming,
                    )
                }
                &&& color == #[trigger] self.shade(point, samples, bounces, unit, incoming)
            }
    }

    /// Whether `color` is a colour that can be seen from `origin` in the
    /// direction `dir` with `bounces` bounces left: the colour of the sky
    /// where the ray hits nothing, else a colour that the surface can have
    /// where the ray hits.
    pub open spec fn may_see(&self, origin: Vec3, dir: Vec3, bounces: nat, color: Vec3) -> bool
        decreases bounces, 1int,
    {
        match self.hit(origin, dir) {
            Some(point) => self.may_shade(point, bounces, color),
            None => color == self.sky(),
        }
    }

    /// The empty scene under a blue sky.
    pub fn new() -> (s: Self)
        ensures
            s.objects().len() == 0,
            s.lights().len() == 0,
            s.sky() == Vec3::whole(0, 0, 1),
    {
        Scene {
            objects: Vec::new(),
            lights: Vec::new(),
            sky_color: Vec3 {
                x: Fixed::from_int(0),
                y: Fixed::from_int(0),
                z: Fixed::from_int(1),
            },
        }
    }

    /// Adds an object after those that are there.
    pub fn add_object(&mut self, obj: O)
        ensures
            final(self).objects() == old(self).objects().push(obj),
            final(self).lights() == old(self).lights(),
            final(self).sky() == old(self).sky(),
    {
        self.objects.push(obj);
    }

    /// Adds a light after those that are there.
    pub fn add_light(&mut self, light: L)
        ensures
            final(self).lights() == old(self).lights().push(light),
            final(self).objects() == old(self).objects(),
            final(self).sky() == old(self).sky(),
    {
        self.lights.push(light);
    }

    /// Sets the colour that a ray sees where it hits nothing.
    pub fn set_sky_color(&mut self, color: Vec3)
        ensures
            final(self).sky() == color,
            final(self).objects() == old(self).objects(),
            final(self).lights() == old(self).lights(),
    {
        self.sky_color = color;
    }

    /// The distance field of the scene at `point`.
    pub fn distance_field_at(&self, point: Vec3) -> (d: Fixed)
        ensures
            d == self.field(point),
    {
        let mut value = Fixed::max_value();
        let mut i: usize = 0;
        while i < self.objects.len()
            invariant
                i <= self.objects.len(),
                value == self.field_of(i as int, point),
            decreases self.objects.len() - i,
        {
            value = value.min(self.objects[i].distance_to(point));
            i = i + 1;
        }
        value
    }

    /// The estimated surface normal at `point`.
    pub fn normal_at(&self, point: Vec3) -> (n: Vec3)
        ensures
            n == self.normal(point),
    {
        let step = Fixed::from_raw(NORMAL_STEP);
        let none = Fixed::zero();
        let df_center = self.distance_field_at(point);
        let df_x = self.distance_field_at(point + Vec3 { x: step, y: none, z: none });
        let df_y = self.distance_field_at(point + Vec3 { x: none, y: step, z: none });
        let df_z = self.distance_field_at(point + Vec3 { x: none, y: none, z: step });
        (Vec3 { x: df_x - df_center, y: df_y - df_center, z: df_z - df_center }).normalized()
    }

    /// Whether `target` can be seen from `ray_start`. Marches from the one
    /// towards the other and keeps track of the length that is left: true
    /// once nothing is left, false as soon as a surface is hit.
    pub fn march_can_reach(&self, ray_start: Vec3, target: Vec3) -> (r: bool)
        ensures
            r == self.can_reach(ray_start, target),
    {
        let mut remaining_len = (target - ray_start).magnitude();
        let dir = (target - ray_start).normalized();
        let mut pos = ray_start;
        loop
            invariant
                self.can_reach(ray_start, target) == self.reaches(pos, dir, remaining_len),
            decreases remaining_len@,
        {
            let df = self.distance_field_at(pos);
            if df.raw <= MIN_SDF_DISTANCE {
                return false;
            }
            remaining_len = remaining_len - df;
            if remaining_len.raw <= 0 {
                return true;
            }
            pos = pos + dir * df;
        }
    }

    /// Where the ray from `ray_start` along `ray_dir` hits a surface, if
    /// it does. Steps forward by the value of the distance field: a hit
    /// where the field is at most `MIN_SDF_DISTANCE`, a miss where it is at
    /// least `MAX_SDF_DISTANCE`, and a miss after `MAX_MARCH_STEPS` steps.
    pub fn march_until_hit(&self, ray_start: Vec3, ray_dir: Vec3) -> (r: Option<Vec3>)
        ensures
            r == self.hit(ray_start, ray_dir),
    {
        let mut pos = ray_start;
        let mut steps: u32 = MAX_MARCH_STEPS;
        while steps > 0
            invariant
                self.hit(ray_start, ray_dir) == self.hit_within(pos, ray_dir, steps as nat),
            decreases steps,
        {
            let df = self.distance_field_at(pos);
            if df.raw <= MIN_SDF_DISTANCE {
                return Some(pos);
            } else if df.raw >= MAX_SDF_DISTANCE {
                return None;
            }
            pos = pos + ray_dir * df;
            steps = steps - 1;
        }
        None
    }

    /// Where the distance field is small, some object is near: an object
    /// touches every point at which the field is at most
    /// `MIN_SDF_DISTANCE`.
    pub proof fn lemma_touching(&self, n: int, point: Vec3)
        requires
            0 <= n <= self.objects().len(),
            self.field_of(n, point)@ <= MIN_SDF_DISTANCE,
        ensures
            0 <= self.touching_from(0, point) < n,
        decreases n,
    {
        if n > 0 {
            if self.field_of(n - 1, point)@ <= MIN_SDF_DISTANCE {
                self.lemma_touching(n - 1, point);
            } else {
                self.lemma_touching_at(0, n - 1, point);
            }
        }
    }

    /// An object that touches a point bounds the index of the first one
    /// that does.
    pub proof fn lemma_touching_at(&self, from: int, at: int, point: Vec3)
        requires
            0 <= from <= at < self.objects().len(),
            self.objects()[at].distance(point)@ <= MIN_SDF_DISTANCE,
        ensures
            from <= self.touching_from(from, point) <= at,
        decreases at - from,
    {
        if from < at && self.objects()[from].distance(point)@ > MIN_SDF_DISTANCE {
            self.lemma_touching_at(from + 1, at, point);
        }
    }

    /// The material at a point of a surface: that of the first object whose
    /// surface is there.
    pub fn material_on_surface(&self, surface_pos: Vec3) -> (m: MaterialSample)
        requires
            self.field(surface_pos)@ <= MIN_SDF_DISTANCE,
        ensures
            m == self.material(surface_pos),
    {
        proof {
            self.lemma_touching(self.objects().len() as int, surface_pos);
        }
        let mut i: usize = 0;
        loop
            invariant
                0 <= i < self.objects.len(),
                self.touching_from(0, surface_pos) == self.touching_from(i as int, surface_pos),
                self.touching_from(0, surface_pos) < self.objects().len(),
            decreases self.objects.len() - i,
        {
            if self.objects[i].distance_to(surface_pos).raw <= MIN_SDF_DISTANCE {
                return self.objects[i].material_at(surface_pos);
            }
            i = i + 1;
            assert(i < self.objects.len()) by {
                if i >= self.objects.len() {
                    assert(self.touching_from(i as int, surface_pos) == self.objects().len());
                }
            }
        }
    }

    /// The light that one sample of a light adds at a surface.
    pub fn direct_light_from(
        &self,
        origin: Vec3,
        normal: Vec3,
        surface_color: Vec3,
        sample: LightSample,
    ) -> (r: Vec3)
        ensures
            r == self.direct_light(origin, normal, surface_color, sample),
    {
        let brightness = (sample.shadow_ray_target - origin).normalized().dot(normal);
        if brightness.raw > 0 && self.march_can_reach(origin, sample.shadow_ray_target) {
            sample.color * surface_color * brightness
        } else {
            Vec3 { x: Fixed::from_int(0), y: Fixed::from_int(0), z: Fixed::from_int(0) }
        }
    }

    /// The colour of the surface at `surface_pos`: the light of every
    /// light that the point can see, and, while bounces are left, the
    /// light that arrives along one random bounce.
    pub fn color_on_surface(&self, surface_pos: Vec3, remaining_bounces: u32) -> (c: Vec3)
        requires
            self.field(surface_pos)@ <= MIN_SDF_DISTANCE,
        ensures
            self.may_shade(surface_pos, remaining_bounces as nat, c),
        decreases remaining_bounces, 0int,
    {
        let mut result = Vec3 {
            x: Fixed::from_int(0),
            y: Fixed::from_int(0),
            z: Fixed::from_int(0),
        };
        let normal = self.normal_at(surface_pos);
        let ray_start = surface_pos + normal * Fixed::from_raw(MIN_SDF_DISTANCE) * Fixed::from_int(
            2,
        );
        let mat = self.material_on_surface(surface_pos);
        let surface_color = mat.base_color;
        let ghost mut samples: Seq<LightSample> = Seq::empty();
        let mut i: usize = 0;
        while i < self.lights.len()
            invariant
                i <= self.lights.len(),
                samples.len() == i,
                forall|j: int|
                    0 <= j < i ==> #[trigger] self.lights()[j].may_sample(ray_start, samples[j]),
                result == self.direct_total(ray_start, normal, surface_color, samples),
            decreases self.lights.len() - i,
        {
            let sample = self.lights[i].sample(ray_start);
            let light = self.direct_light_from(ray_start, normal, surface_color, sample);
            proof {
                assert(samples.push(sample).drop_last() == samples);
                samples = samples.push(sample);
            }
            result = result + light;
            i = i + 1;
        }
        let mut unit = Vec3 { x: Fixed::zero(), y: Fixed::zero(), z: Fixed::zero() };
        let mut incoming = unit;
        if remaining_bounces > 0 {
            unit = Vec3::random_unit_vec();
            let dir = bounce_from(normal, unit);
            incoming = self.do_camera_ray(ray_start, dir, remaining_bounces - 1);
            result = result + bounce_light_from(normal, surface_color, dir, incoming);
        }
        assert(result == self.shade(surface_pos, samples, remaining_bounces as nat, unit, incoming));
        result
    }

    /// The colour that is seen from `origin` in the direction `direction`:
    /// the colour of the sky where the ray hits nothing, else the colour of
    /// the surface that it hits. Light is followed over at most
    /// `remaining_bounces` bounces.
    pub fn do_camera_ray(&self, origin: Vec3, direction: Vec3, remaining_bounces: u32) -> (c: Vec3)
        ensures
            self.may_see(origin, direction, remaining_bounces as nat, c),
            self.hit(origin, direction) is None ==> c == self.sky(),
        decreases remaining_bounces, 1int,
    {
        match self.march_until_hit(origin, direction) {
            Some(hit_point) => {
                proof {
                    self.lemma_hit_is_on_surface(origin, direction, MAX_MARCH_STEPS as nat);
                }
                self.color_on_surface(hit_point, remaining_bounces)
            },
            None => self.sky_color,
        }
    }

    /// A march ends only where the distance field is small: the point of a
    /// hit is at most `MIN_SDF_DISTANCE` from a surface.
    pub proof fn lemma_hit_is_on_surface(&self, pos: Vec3, dir: Vec3, steps: nat)
        ensures
            self.hit_within(pos, dir, steps) matches Some(point) ==> self.field(point)@
                <= MIN_SDF_DISTANCE,
        decreases steps,
    {
        if steps > 0 {
            let df = self.field(pos);
            if df@ > MIN_SDF_DISTANCE && df@ < MAX_SDF_DISTANCE {
                self.lemma_hit_is_on_surface(pos + dir.scaled_by(df), dir, (steps - 1) as nat);
            }
        }
    }

    /// The distance field is the smallest distance: none of the first `n`
    /// objects is nearer to `point` than `field_of` says, and unless `n` is
    /// zero one of them is exactly that near.
    pub proof fn lemma_field_of_is_smallest(&self, n: int, point: Vec3)
        requires
            0 <= n <= self.objects().len(),
        ensures
            forall|i: int|
                0 <= i < n ==> self.field_of(n, point)@ <= (#[trigger] self.objects()[i]).distance(
                    point,
                )@,
            n == 0 ==> self.field_of(n, point)@ == RAW_MAX,
            n > 0 ==> exists|i: int|
                0 <= i < n && self.field_of(n, point) == (#[trigger] self.objects()[i]).distance(
                    point,
                ),
        decreases n,
    {
        if n > 0 {
            self.lemma_field_of_is_smallest(n - 1, point);
            let last = self.objects()[n - 1].distance(point);
            if n == 1 || last@ < self.field_of(n - 1, point)@ {
                assert(self.field_of(n, point) == self.objects()[n - 1].distance(point));
            } else {
                let i = choose|i: int|
                    0 <= i < n - 1 && self.field_of(n - 1, point) == (
                    #[trigger] self.objects()[i]).distance(point);
                assert(self.field_of(n, point) == self.objects()[i].distance(point));
            }
        }
    }

    /// The distance field is the smallest distance: no object is nearer
    /// to `point` than the field says, and unless the scene is empty some
    /// object is exactly that near.
    pub proof fn lemma_field_is_smallest(&self, point: Vec3)
        ensures
            forall|i: int|
                0 <= i < self.objects().len() ==> self.field(point)@ <= (
                #[trigger] self.objects()[i]).distance(point)@,
            self.objects().len() == 0 ==> self.field(point)@ == RAW_MAX,
            self.objects().len() > 0 ==> exists|i: int|
                0 <= i < self.objects().len() && self.field(point) == (
                #[trigger] self.objects()[i]).distance(point),
    {
        self.lemma_field_of_is_smallest(self.objects().len() as int, point);
    }

    /// A ray that hits nothing sees the sky, and nothing else.
    pub proof fn lemma_miss_shows_sky(&self, origin: Vec3, dir: Vec3, bounces: nat, color: Vec3)
        requires
            self.hit(origin, dir) is None,
        ensures
            self.may_see(origin, dir, bounces, color) <==> color == self.sky(),
    {
    }

    /// In a scene without objects every ray misses and sees the sky.
    pub proof fn lemma_empty_scene_shows_sky(
        &self,
        origin: Vec3,
        dir: Vec3,
        bounces: nat,
        color: Vec3,
    )
        requires
            self.objects().len() == 0,
        ensures
            self.hit(origin, dir) is None,
            self.may_see(origin, dir, bounces, color) <==> color == self.sky(),
    {
    }

    /// In a scene without objects every point can be seen from every
    /// other.
    pub proof fn lemma_empty_scene_reaches(&self, start: Vec3, target: Vec3)
        requires
            self.objects().len() == 0,
        ensures
            self.can_reach(start, target),
    {
    }

    /// A point on a surface sees nothing: a march that starts where the
    /// distance field is at most `MIN_SDF_DISTANCE` is stopped at once.
    pub proof fn lemma_surface_blocks(&self, start: Vec3, target: Vec3)
        requires
            self.field(start)@ <= MIN_SDF_DISTANCE,
        ensures
            !self.can_reach(start, target),
            self.hit(start, target) == Some(start),
    {
    }

    /// A march does not get past a surface that the distance field never
    /// oversteps. Let `left` measure, for the points on the way, how far it is
    /// to the surface, and be negative elsewhere. If the field at a point on
    /// the way is never more than what is left, and a step along `dir` that
    /// is no longer than what is left stays on the way and uses up at least
    /// its own length, then a march from a point on the way that has more to
    /// cover than what is left is stopped.
    pub proof fn lemma_march_is_blocked(
        &self,
        pos: Vec3,
        dir: Vec3,
        remaining: Fixed,
        left: spec_fn(Vec3) -> int,
    )
        requires
            0 <= left(pos) < remaining@,
            forall|p: Vec3| left(p) >= 0 ==> (#[trigger] self.field(p))@ <= left(p),
            forall|p: Vec3, d: Fixed|
                0 < d@ <= left(p) ==> 0 <= left(#[trigger] step(p, dir, d)) <= left(p) - d@,
        ensures
            !self.reaches(pos, dir, remaining),
        decreases remaining@,
    {
        let df = self.field(pos);
        if df@ > MIN_SDF_DISTANCE {
            let rest = remaining - df;
            let next = step(pos, dir, df);
            assert(0 <= left(next) <= left(pos) - df@);
            self.lemma_march_is_blocked(next, dir, rest, left);
        }
    }

    /// A surface in between blocks the view, for any start and target.
    /// Let `left` measure, for the points on the way from `start` towards
    /// `target`, how far it is to the surface, and be negative elsewhere. If
    /// the surface is nearer to `start` than `target` is, and the distance
    /// field never oversteps the surface, and every step of the march uses up
    /// at least its own length of the way, then `target` cannot be reached
    /// from `start`.
    pub proof fn lemma_surface_in_between_blocks(
        &self,
        start: Vec3,
        target: Vec3,
        left: spec_fn(Vec3) -> int,
    )
        requires
            0 <= left(start) < (target - start).spec_magnitude()@,
            forall|p: Vec3| left(p) >= 0 ==> (#[trigger] self.field(p))@ <= left(p),
            forall|p: Vec3, d: Fixed|
                0 < d@ <= left(p) ==> 0 <= left(
                    #[trigger] step(p, (target - start).spec_normalized(), d),
                ) <= left(p) - d@,
        ensures
            !self.can_reach(start, target),
    {
        self.lemma_march_is_blocked(
            start,
            (target - start).spec_normalized(),
            (target - start).spec_magnitude(),
            left,
        );
    }

    /// A surface in between blocks the view, for a view straight along
    /// the z axis. If `target` lies straight above `start`, and the way from
    /// the one to the other crosses the height `surface` before it arrives,
    /// and the distance field never oversteps that height on the way, then
    /// `target` cannot be reached from `start`.
    pub proof fn lemma_surface_between_blocks(&self, start: Vec3, target: Vec3, surface: Fixed)
        requires
            target.x == start.x,
            target.y == start.y,
            start.z@ <= surface@ < target.z@,
            target.z@ - start.z@ <= RAW_MAX,
            forall|w: Fixed|
                start.z@ <= w@ <= surface@ ==> (#[trigger] self.field(along_z(start, w)))@
                    <= surface@ - w@,
        ensures
            !self.can_reach(start, target),
    {
        let delta = target - start;
        let length = target.z - start.z;
        assert(delta == Vec3 { x: Fixed::of(0), y: Fixed::of(0), z: length });
        assert(squares(0, 0, length@) == (length@ as nat) * (length@ as nat)) by (nonlinear_arith)
            requires
                length@ > 0,
        ;
        lemma_root_of_square(length@ as nat);
        assert(delta.spec_magnitude() == length);
        lemma_normalized_along_z(length);
        let up = Vec3::whole(0, 0, 1);
        assert(delta.spec_normalized() == up);
        let left = |p: Vec3|
            if p.x == start.x && p.y == start.y && start.z@ <= p.z@ <= surface@ {
                surface@ - p.z@
            } else {
                -1int
            };
        assert forall|p: Vec3| left(p) >= 0 implies (#[trigger] self.field(p))@ <= left(p) by {
            assert(p == along_z(start, p.z));
        }
        assert forall|p: Vec3, d: Fixed| 0 < d@ <= left(p) implies 0 <= left(
            #[trigger] step(p, up, d),
        ) <= left(p) - d@ by {
            lemma_nought_and_one();
            lemma_product_with_one_or_zero(d);
            assert(step(p, up, d) == along_z(start, p.z + d));
        }
        self.lemma_surface_in_between_blocks(start, target, left);
    }

    /// A sphere straight ahead is hit at its near pole, and hides what is
    /// behind it. In a scene whose only object is the sphere of radius one
    /// about `centre`, which lies straight above `start` on the z axis: the
    /// ray from `start` along the axis hits the sphere where the axis enters
    /// it, if that pole is farther than `MIN_SDF_DISTANCE` and nearer than
    /// `MAX_SDF_DISTANCE`; and no point straight above the pole can be
    /// reached from `start`.
    pub proof fn lemma_sphere_straight_ahead(&self, start: Vec3, centre: Vec3, target: Vec3)
        requires
            self.objects().len() == 1,
            forall|p: Vec3| #[trigger] self.objects()[0].distance(p) == ball_distance(p - centre),
            centre.x == start.x,
            centre.y == start.y,
            -STRAIGHT_BOUND <= start.z@ <= STRAIGHT_BOUND,
            -STRAIGHT_BOUND <= centre.z@ <= STRAIGHT_BOUND,
            start.z@ <= centre.z@ - ONE,
            target.x == start.x,
            target.y == start.y,
            centre.z@ - ONE < target.z@ <= STRAIGHT_BOUND,
        ensures
            !self.can_reach(start, target),
            MIN_SDF_DISTANCE < centre.z@ - ONE - start.z@ < MAX_SDF_DISTANCE ==> self.hit(
                start,
                Vec3::whole(0, 0, 1),
            ) == Some(along_z(start, Fixed::of(centre.z@ - ONE))),
    {
        let pole = Fixed::of(centre.z@ - ONE);
        assert forall|w: Fixed| start.z@ <= w@ <= pole@ implies (#[trigger] self.field(
            along_z(start, w),
        ))@ == pole@ - w@ by {
            self.lemma_lone_sphere_on_axis(start, centre, w);
        }
        self.lemma_surface_between_blocks(start, target, pole);
        if MIN_SDF_DISTANCE < centre.z@ - ONE - start.z@ < MAX_SDF_DISTANCE {
            let dir = Vec3::whole(0, 0, 1);
            let df = self.field(start);
            assert(start == along_z(start, start.z));
            assert(df@ == pole@ - start.z@);
            lemma_nought_and_one();
            lemma_product_with_one_or_zero(df);
            assert(start + dir.scaled_by(df) == along_z(start, pole));
            assert(self.field(along_z(start, pole))@ == 0);
            assert(self.hit_within(along_z(start, pole), dir, (MAX_MARCH_STEPS - 1) as nat)
                == Some(along_z(start, pole)));
        }
    }

    /// The distance field of a lone sphere, on the axis through its
    /// centre, below the centre: the distance to the centre less the radius.
    proof fn lemma_lone_sphere_on_axis(&self, start: Vec3, centre: Vec3, w: Fixed)
        requires
            self.objects().len() == 1,
            forall|p: Vec3| #[trigger] self.objects()[0].distance(p) == ball_distance(p - centre),
            centre.x == start.x,
            centre.y == start.y,
            -STRAIGHT_BOUND <= centre.z@ <= STRAIGHT_BOUND,
            -STRAIGHT_BOUND <= w@ <= centre.z@,
        ensures
            self.field(along_z(start, w))@ == centre.z@ - w@ - ONE,
    {
        let p = along_z(start, w);
        let gap = centre.z@ - w@;
        assert(p - centre == Vec3 { x: Fixed::of(0), y: Fixed::of(0), z: Fixed::of(-gap) });
        assert(squares(0, 0, -gap) == (gap as nat) * (gap as nat)) by (nonlinear_arith)
            requires
                gap >= 0,
        ;
        lemma_root_of_square(gap as nat);
        assert((p - centre).spec_magnitude()@ == gap);
        assert(self.field_of(0, p)@ == RAW_MAX);
        assert(self.field(p) == self.field_of(0, p).spec_min(self.objects()[0].distance(p)));
    }
}

/// Where one step of a march leads: from `pos` along `dir` by the length
/// `length`.
pub open spec fn step(pos: Vec3, dir: Vec3, length: Fixed) -> Vec3 {
    pos + dir.scaled_by(length)
}

/// The point straight above or below `start` at the height `z`.
pub open spec fn along_z(start: Vec3, z: Fixed) -> Vec3 {
    Vec3 { x: start.x, y: start.y, z }
}

/// The largest raw magnitude of a height for which
/// `lemma_sphere_straight_ahead` holds: `2^61`.
pub const STRAIGHT_BOUND: i64 = 0x2000_0000_0000_0000;

} // verus!
