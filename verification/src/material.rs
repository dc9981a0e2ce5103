//! Materials: what a surface looks like at a point.

use crate::fixed::Fixed;
use crate::vec::Vec3;
use vstd::prelude::*;

verus! {

/// The appearance of a surface at one point.
#[derive(Clone, Copy, Debug, PartialEq, Eq, Structural)]
pub struct MaterialSample {
    /// The fraction of incoming light that the surface reflects, by channel.
    pub base_color: Vec3,
    /// The light that the surface gives off by itself.
    pub emission: Vec3,
}

/// Something that says what a surface looks like at each point.
pub trait Material {
    /// The appearance at `pos`.
    spec fn sampled(&self, pos: Vec3) -> MaterialSample;

    /// The appearance at `pos`.
    fn sample(&self, pos: Vec3) -> (s: MaterialSample)
        ensures
            s == self.sampled(pos),
    ;
}

/// A material that looks the same everywhere.
#[derive(Clone, Copy, Debug)]
pub struct BasicMaterial {
    pub base_color: Vec3,
    pub emission: Vec3,
}

impl Default for BasicMaterial {
    /// A light grey that reflects nine tenths of the light and gives off
    /// none.
    fn default() -> (r: BasicMaterial)
        ensures
            r.base_color == Vec3::splat(Fixed::spec_ratio(9, 10)),
            r.emission == Vec3::whole(0, 0, 0),
    {
        let grey = Fixed::ratio(9, 10);
        let none = Fixed::from_int(0);
        BasicMaterial {
            base_color: Vec3 { x: grey, y: grey, z: grey },
            emission: Vec3 { x: none, y: none, z: none },
        }
    }
}

impl Material for BasicMaterial {
    open spec fn sampled(&self, pos: Vec3) -> MaterialSample {
        MaterialSample { base_color: self.base_color, emission: self.emission }
    }

    fn sample(&self, pos: Vec3) -> (s: MaterialSample) {
        MaterialSample { base_color: self.base_color, emission: self.emission }
    }
}

} // verus!
