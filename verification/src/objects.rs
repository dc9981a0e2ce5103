//! Renderable objects: primitives and the decorators that move and resize
//! them.
//!
//! An object is a signed distance function together with a material. The
//! primitives sit at the origin in a fixed size; `Translated` and `Scaled`
//! wrap another object and carry the query point into its local space.

use crate::fixed::lemma_root_between;
use crate::fixed::Fixed;
use crate::fixed::ONE;
use crate::material::Material;
use crate::material::MaterialSample;
use crate::vec::squares;
use crate::vec::Vec3;
use vstd::prelude::*;
use vstd::std_specs::convert::FromSpecImpl;

verus! {

/// What the renderer asks of an object.
pub trait RenderedObject {
    /// The signed distance from `point` to the surface: negative inside,
    /// zero on the surface, positive outside.
    spec fn distance(&self, point: Vec3) -> Fixed;

    /// The material of the object at `point`.
    spec fn material(&self, point: Vec3) -> MaterialSample;

    /// The signed distance from `point` to the surface.
    fn distance_to(&self, point: Vec3) -> (d: Fixed)
        ensures
            d == self.distance(point),
    ;

    /// The material of the object at `point`.
    fn material_at(&self, point: Vec3) -> (m: MaterialSample)
        ensures
            m == self.material(point),
    ;
}

/// The builders that every object has.
pub trait Object: RenderedObject + Sized {
    /// The object moved by `offset`.
    fn translated(self, offset: Vec3) -> (r: Translated<Self>)
        ensures
            r.object == self,
            r.translation == offset,
    {
        Translated { object: self, translation: offset }
    }

    /// The object resized by the factor `scale` about the origin. A factor
    /// that is not positive is rejected.
    fn scaled(self, scale: Fixed) -> (r: Option<Scaled<Self>>)
        ensures
            match r {
                Some(s) => scale@ > 0 && s.inner() == self && s.factor() == scale,
                None => scale@ <= 0,
            },
    {
        if scale.raw > 0 {
            Some(Scaled { object: self, scale })
        } else {
            None
        }
    }
}

impl<T: RenderedObject + Sized> Object for T {

}

/// An object moved by a fixed offset.
pub struct Translated<T: RenderedObject> {
    pub object: T,
    pub translation: Vec3,
}

impl<T: RenderedObject> RenderedObject for Translated<T> {
    open spec fn distance(&self, point: Vec3) -> Fixed {
        self.object.distance(point - self.translation)
    }

    open spec fn material(&self, point: Vec3) -> MaterialSample {
        self.object.material(point - self.translation)
    }

    fn distance_to(&self, point: Vec3) -> (d: Fixed) {
        self.object.distance_to(point - self.translation)
    }

    fn material_at(&self, point: Vec3) -> (m: MaterialSample) {
        self.object.material_at(point - self.translation)
    }
}

/// An object resized by a fixed positive factor about the origin. It is
/// made by `Object::scaled`, which rejects a factor that is not positive.
pub struct Scaled<T: RenderedObject> {
    object: T,
    scale: Fixed,
}

impl<T: RenderedObject> Scaled<T> {
    /// The factor is positive.
    #[verifier::type_invariant]
    spec fn positive(&self) -> bool {
        self.scale@ > 0
    }

    /// The object that is resized.
    pub closed spec fn inner(&self) -> T {
        self.object
    }

    /// The factor by which the object is resized.
    pub closed spec fn factor(&self) -> Fixed {
        self.scale
    }

    /// The object that is resized.
    pub fn object(&self) -> (r: &T)
        ensures
            *r == self.inner(),
    {
        &self.object
    }

    /// The factor by which the object is resized, which is positive.
    pub fn scale(&self) -> (r: Fixed)
        ensures
            r == self.factor(),
            r@ > 0,
    {
        proof {
            use_type_invariant(self);
        }
        self.scale
    }
}

impl<T: RenderedObject> RenderedObject for Scaled<T> {
    open spec fn distance(&self, point: Vec3) -> Fixed {
        self.inner().distance(point.divided_by(self.factor())) * self.factor()
    }

    open spec fn material(&self, point: Vec3) -> MaterialSample {
        self.inner().material(point.divided_by(self.factor()))
    }

    fn distance_to(&self, point: Vec3) -> (d: Fixed) {
        self.object.distance_to(point / self.scale) * self.scale
    }

    fn material_at(&self, point: Vec3) -> (m: MaterialSample) {
        self.object.material_at(point / self.scale)
    }
}

/// The sphere of radius one about the origin.
pub struct Sphere<M: Material> {
    pub mat: M,
}

/// The sphere of radius one about the origin, made of `mat`.
pub fn sphere<M: Material>(mat: M) -> (r: Sphere<M>)
    ensures
        r.mat == mat,
{
    Sphere { mat }
}

/// The distance from `point` to the sphere of radius one about the origin.
pub open spec fn ball_distance(point: Vec3) -> Fixed {
    point.spec_magnitude() - Fixed::of(ONE as int)
}

/// The distance from `point` to the sphere of radius one about the origin.
pub fn ball_distance_to(point: Vec3) -> (d: Fixed)
    ensures
        d == ball_distance(point),
{
    point.magnitude() - Fixed::one()
}

impl<M: Material> RenderedObject for Sphere<M> {
    open spec fn distance(&self, point: Vec3) -> Fixed {
        ball_distance(point)
    }

    open spec fn material(&self, point: Vec3) -> MaterialSample {
        self.mat.sampled(point)
    }

    fn distance_to(&self, point: Vec3) -> (d: Fixed) {
        ball_distance_to(point)
    }

    fn material_at(&self, point: Vec3) -> (m: MaterialSample) {
        self.mat.sample(point)
    }
}

/// The box about the origin that reaches `size` along each axis, in both
/// directions.
pub struct Cube<M: Material> {
    pub size: Vec3,
    pub mat: M,
}

/// The box about the origin with the half-extents `size`, made of `mat`.
pub fn cube<M: Material>(mat: M, size: Vec3) -> (r: Cube<M>)
    ensures
        r.mat == mat,
        r.size == size,
{
    Cube { mat, size }
}

/// The distance from `point` to the box with the half-extents `size`: the
/// largest of the distances to its three pairs of faces.
pub open spec fn box_distance(size: Vec3, point: Vec3) -> Fixed {
    let faces = point.spec_abs() - size;
    faces.x.spec_max(faces.y.spec_max(faces.z))
}

/// The distance from `point` to the box with the half-extents `size`.
pub fn box_distance_to(size: Vec3, point: Vec3) -> (d: Fixed)
    ensures
        d == box_distance(size, point),
{
    let face_distances = point.abs() - size;
    face_distances.x.max(face_distances.y.max(face_distances.z))
}

impl<M: Material> RenderedObject for Cube<M> {
    open spec fn distance(&self, point: Vec3) -> Fixed {
        box_distance(self.size, point)
    }

    open spec fn material(&self, point: Vec3) -> MaterialSample {
        self.mat.sampled(point)
    }

    fn distance_to(&self, point: Vec3) -> (d: Fixed) {
        box_distance_to(self.size, point)
    }

    fn material_at(&self, point: Vec3) -> (m: MaterialSample) {
        self.mat.sample(point)
    }
}

/// Any object that is built from the primitives and decorators of this
/// module: the closed set of shapes that a scene can hold side by side.
pub enum Shape<M: Material> {
    Sphere(Sphere<M>),
    Cube(Cube<M>),
    Translated(Box<Translated<Shape<M>>>),
    Scaled(Box<Scaled<Shape<M>>>),
}

impl<M: Material> Shape<M> {
    /// The signed distance from `point` to the surface of the shape; see
    /// `lemma_shape_field`.
    pub closed spec fn field(&self, point: Vec3) -> Fixed
        decreases self,
    {
        match self {
            Shape::Sphere(_) => ball_distance(point),
            Shape::Cube(c) => box_distance(c.size, point),
            Shape::Translated(t) => t.object.field(point - t.translation),
            Shape::Scaled(s) => s.object.field(point.divided_by(s.scale)) * s.scale,
        }
    }

    /// The material of the shape at `point`; see `lemma_shape_field`.
    pub closed spec fn surface(&self, point: Vec3) -> MaterialSample
        decreases self,
    {
        match self {
            Shape::Sphere(s) => s.mat.sampled(point),
            Shape::Cube(c) => c.mat.sampled(point),
            Shape::Translated(t) => t.object.surface(point - t.translation),
            Shape::Scaled(s) => s.object.surface(point.divided_by(s.scale)),
        }
    }

    /// The signed distance from `point` to the surface of the shape.
    pub fn field_at(&self, point: Vec3) -> (d: Fixed)
        ensures
            d == self.field(point),
        decreases self,
    {
        match self {
            Shape::Sphere(_) => ball_distance_to(point),
            Shape::Cube(c) => box_distance_to(c.size, point),
            Shape::Translated(t) => t.object.field_at(point - t.translation),
            Shape::Scaled(s) => s.object.field_at(point / s.scale) * s.scale,
        }
    }

    /// The material of the shape at `point`.
    pub fn surface_at(&self, point: Vec3) -> (m: MaterialSample)
        ensures
            m == self.surface(point),
        decreases self,
    {
        match self {
            Shape::Sphere(s) => s.mat.sample(point),
            Shape::Cube(c) => c.mat.sample(point),
            Shape::Translated(t) => t.object.surface_at(point - t.translation),
            Shape::Scaled(s) => s.object.surface_at(point / s.scale),
        }
    }
}

impl<M: Material> RenderedObject for Shape<M> {
    open spec fn distance(&self, point: Vec3) -> Fixed {
        self.field(point)
    }

    open spec fn material(&self, point: Vec3) -> MaterialSample {
        self.surface(point)
    }

    fn distance_to(&self, point: Vec3) -> (d: Fixed) {
        self.field_at(point)
    }

    fn material_at(&self, point: Vec3) -> (m: MaterialSample) {
        self.surface_at(point)
    }
}

impl<M: Material> From<Sphere<M>> for Shape<M> {
    fn from(s: Sphere<M>) -> (r: Shape<M>) {
        Shape::Sphere(s)
    }
}

impl<M: Material> FromSpecImpl<Sphere<M>> for Shape<M> {
    open spec fn obeys_from_spec() -> bool {
        true
    }

    open spec fn from_spec(s: Sphere<M>) -> Shape<M> {
        Shape::Sphere(s)
    }
}

impl<M: Material> From<Cube<M>> for Shape<M> {
    fn from(c: Cube<M>) -> (r: Shape<M>) {
        Shape::Cube(c)
    }
}

impl<M: Material> FromSpecImpl<Cube<M>> for Shape<M> {
    open spec fn obeys_from_spec() -> bool {
        true
    }

    open spec fn from_spec(c: Cube<M>) -> Shape<M> {
        Shape::Cube(c)
    }
}

impl<M: Material> From<Translated<Shape<M>>> for Shape<M> {
    fn from(t: Translated<Shape<M>>) -> (r: Shape<M>) {
        Shape::Translated(Box::new(t))
    }
}

impl<M: Material> FromSpecImpl<Translated<Shape<M>>> for Shape<M> {
    open spec fn obeys_from_spec() -> bool {
        true
    }

    open spec fn from_spec(t: Translated<Shape<M>>) -> Shape<M> {
        Shape::Translated(Box::new(t))
    }
}

impl<M: Material> From<Scaled<Shape<M>>> for Shape<M> {
    fn from(s: Scaled<Shape<M>>) -> (r: Shape<M>) {
        Shape::Scaled(Box::new(s))
    }
}

impl<M: Material> FromSpecImpl<Scaled<Shape<M>>> for Shape<M> {
    open spec fn obeys_from_spec() -> bool {
        true
    }

    open spec fn from_spec(s: Scaled<Shape<M>>) -> Shape<M> {
        Shape::Scaled(Box::new(s))
    }
}

/// A moved object is as far from a point as the object itself is from the
/// point moved back.
pub proof fn lemma_translated_distance<T: RenderedObject>(object: T, offset: Vec3, point: Vec3)
    ensures
        (Translated { object, translation: offset }).distance(point) == object.distance(
            point - offset,
        ),
        (Translated { object, translation: offset }).material(point) == object.material(
            point - offset,
        ),
{
}

/// A resized object is as far from a point as the object itself is from
/// the point shrunk back, times the factor.
pub proof fn lemma_scaled_distance<T: RenderedObject>(resized: Scaled<T>, point: Vec3)
    ensures
        resized.distance(point) == resized.inner().distance(point.divided_by(resized.factor()))
            * resized.factor(),
        resized.material(point) == resized.inner().material(point.divided_by(resized.factor())),
{
}

/// What the distance and the material of a shape are, kind by kind.
pub proof fn lemma_shape_field<M: Material>(shape: Shape<M>, point: Vec3)
    ensures
        match shape {
            Shape::Sphere(s) => shape.field(point) == ball_distance(point) && shape.surface(point)
                == s.mat.sampled(point),
            Shape::Cube(c) => shape.field(point) == box_distance(c.size, point) && shape.surface(
                point,
            ) == c.mat.sampled(point),
            Shape::Translated(t) => shape.field(point) == t.object.field(point - t.translation)
                && shape.surface(point) == t.object.surface(point - t.translation),
            Shape::Scaled(s) => shape.field(point) == s.inner().field(
                point.divided_by(s.factor()),
            ) * s.factor() && shape.surface(point) == s.inner().surface(
                point.divided_by(s.factor()),
            ),
        },
{
}

/// A shape is the primitive or decorator that it wraps: it has the same
/// distance and the same material everywhere.
pub proof fn lemma_shape_is_what_it_wraps<M: Material>(
    ball: Sphere<M>,
    block: Cube<M>,
    moved: Translated<Shape<M>>,
    resized: Scaled<Shape<M>>,
    point: Vec3,
)
    ensures
        Shape::Sphere(ball).distance(point) == ball.distance(point),
        Shape::Sphere(ball).material(point) == ball.material(point),
        Shape::Cube(block).distance(point) == block.distance(point),
        Shape::Cube(block).material(point) == block.material(point),
        Shape::Translated(Box::new(moved)).distance(point) == moved.distance(point),
        Shape::Translated(Box::new(moved)).material(point) == moved.material(point),
        Shape::Scaled(Box::new(resized)).distance(point) == resized.distance(point),
        Shape::Scaled(Box::new(resized)).material(point) == resized.material(point),
{
}

/// A point whose squared raw components sum to the square of one lies on
/// the unit sphere: its distance to the sphere is exactly zero.
pub proof fn lemma_sphere_surface<M: Material>(s: Sphere<M>, point: Vec3)
    requires
        squares(point.x@, point.y@, point.z@) == ONE * ONE,
    ensures
        s.distance(point)@ == 0,
{
    assert((ONE - 0) * (ONE - 0) == ONE * ONE && ONE * ONE < (ONE + 0 + 1) * (ONE + 0 + 1))
        by (nonlinear_arith);
    lemma_sphere_near_surface(s, point, 0);
}

/// A point near the unit sphere has a distance near zero. If the squared
/// raw components of the point sum to no less than the square of one less
/// `slack`, and to less than the square of one plus `slack` plus one raw
/// step, then its distance to the sphere is at most `slack` raw steps from
/// zero.
pub proof fn lemma_sphere_near_surface<M: Material>(s: Sphere<M>, point: Vec3, slack: nat)
    requires
        slack <= ONE,
        (ONE - slack) * (ONE - slack) <= squares(point.x@, point.y@, point.z@) < (ONE + slack
            + 1) * (ONE + slack + 1),
    ensures
        -slack <= s.distance(point)@ <= slack,
{
    lemma_root_between(
        squares(point.x@, point.y@, point.z@),
        (ONE - slack) as nat,
        (ONE + slack) as nat,
    );
}

/// A point on a face of a box has distance exactly zero to the box: it is
/// no farther out than the half-extents along every axis, and reaches one
/// of them.
pub proof fn lemma_cube_surface<M: Material>(c: Cube<M>, point: Vec3)
    requires
        point.spec_abs().x@ <= c.size.x@,
        point.spec_abs().y@ <= c.size.y@,
        point.spec_abs().z@ <= c.size.z@,
        point.spec_abs().x == c.size.x || point.spec_abs().y == c.size.y || point.spec_abs().z
            == c.size.z,
    ensures
        c.distance(point)@ == 0,
{
}

} // verus!
