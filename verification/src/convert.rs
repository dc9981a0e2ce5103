//! Conversions into [`Fixed`] and [`Vec3`].
//!
//! A whole number becomes the fixed-point number of the same value, or the
//! nearest extreme if it is out of range. A single number becomes the vector
//! with that number in all three components; a pair gets a zero `z`.

use crate::fixed::Fixed;
use crate::vec::Vec3;
use vstd::prelude::*;
use vstd::std_specs::convert::FromSpecImpl;

verus! {

impl From<i32> for Fixed {
    fn from(n: i32) -> (r: Fixed) {
        Fixed::from_int(n as i64)
    }
}

impl FromSpecImpl<i32> for Fixed {
    open spec fn obeys_from_spec() -> bool {
        true
    }

    open spec fn from_spec(n: i32) -> Fixed {
        Fixed::spec_from_int(n as int)
    }
}

impl From<i32> for Vec3 {
    fn from(n: i32) -> (r: Vec3) {
        let s: Fixed = Fixed::from(n);
        Vec3 { x: s, y: s, z: s }
    }
}

impl FromSpecImpl<i32> for Vec3 {
    open spec fn obeys_from_spec() -> bool {
        true
    }

    open spec fn from_spec(n: i32) -> Vec3 {
        Vec3::whole(n as int, n as int, n as int)
    }
}

impl From<u32> for Fixed {
    fn from(n: u32) -> (r: Fixed) {
        Fixed::from_int(n as i64)
    }
}

impl FromSpecImpl<u32> for Fixed {
    open spec fn obeys_from_spec() -> bool {
        true
    }

    open spec fn from_spec(n: u32) -> Fixed {
        Fixed::spec_from_int(n as int)
    }
}

impl From<u32> for Vec3 {
    fn from(n: u32) -> (r: Vec3) {
        let s: Fixed = Fixed::from(n);
        Vec3 { x: s, y: s, z: s }
    }
}

impl FromSpecImpl<u32> for Vec3 {
    open spec fn obeys_from_spec() -> bool {
        true
    }

    open spec fn from_spec(n: u32) -> Vec3 {
        Vec3::whole(n as int, n as int, n as int)
    }
}

impl From<i64> for Fixed {
    fn from(n: i64) -> (r: Fixed) {
        Fixed::from_int(n as i64)
    }
}

impl FromSpecImpl<i64> for Fixed {
    open spec fn obeys_from_spec() -> bool {
        true
    }

    open spec fn from_spec(n: i64) -> Fixed {
        Fixed::spec_from_int(n as int)
    }
}

impl From<i64> for Vec3 {
    fn from(n: i64) -> (r: Vec3) {
        let s: Fixed = Fixed::from(n);
        Vec3 { x: s, y: s, z: s }
    }
}

impl FromSpecImpl<i64> for Vec3 {
    open spec fn obeys_from_spec() -> bool {
        true
    }

    open spec fn from_spec(n: i64) -> Vec3 {
        Vec3::whole(n as int, n as int, n as int)
    }
}

impl From<u64> for Fixed {
    fn from(n: u64) -> (r: Fixed) {
        if n > 0x7fff_ffff_ffff_ffff {
            Fixed::max_value()
        } else {
            Fixed::from_int(n as i64)
        }
    }
}

impl FromSpecImpl<u64> for Fixed {
    open spec fn obeys_from_spec() -> bool {
        true
    }

    open spec fn from_spec(n: u64) -> Fixed {
        Fixed::spec_from_int(n as int)
    }
}

impl From<u64> for Vec3 {
    fn from(n: u64) -> (r: Vec3) {
        let s: Fixed = Fixed::from(n);
        Vec3 { x: s, y: s, z: s }
    }
}

impl FromSpecImpl<u64> for Vec3 {
    open spec fn obeys_from_spec() -> bool {
        true
    }

    open spec fn from_spec(n: u64) -> Vec3 {
        Vec3::whole(n as int, n as int, n as int)
    }
}

impl From<isize> for Fixed {
    fn from(n: isize) -> (r: Fixed) {
        Fixed::from_int(n as i64)
    }
}

impl FromSpecImpl<isize> for Fixed {
    open spec fn obeys_from_spec() -> bool {
        true
    }

    open spec fn from_spec(n: isize) -> Fixed {
        Fixed::spec_from_int(n as int)
    }
}

impl From<isize> for Vec3 {
    fn from(n: isize) -> (r: Vec3) {
        let s: Fixed = Fixed::from(n);
        Vec3 { x: s, y: s, z: s }
    }
}

impl FromSpecImpl<isize> for Vec3 {
    open spec fn obeys_from_spec() -> bool {
        true
    }

    open spec fn from_spec(n: isize) -> Vec3 {
        Vec3::whole(n as int, n as int, n as int)
    }
}

impl From<usize> for Fixed {
    fn from(n: usize) -> (r: Fixed) {
        Fixed::from(n as u64)
    }
}

impl FromSpecImpl<usize> for Fixed {
    open spec fn obeys_from_spec() -> bool {
        true
    }

    open spec fn from_spec(n: usize) -> Fixed {
        Fixed::spec_from_int(n as int)
    }
}

impl From<usize> for Vec3 {
    fn from(n: usize) -> (r: Vec3) {
        let s: Fixed = Fixed::from(n);
        Vec3 { x: s, y: s, z: s }
    }
}

impl FromSpecImpl<usize> for Vec3 {
    open spec fn obeys_from_spec() -> bool {
        true
    }

    open spec fn from_spec(n: usize) -> Vec3 {
        Vec3::whole(n as int, n as int, n as int)
    }
}

impl From<Fixed> for Vec3 {
    fn from(s: Fixed) -> (r: Vec3) {
        Vec3 { x: s, y: s, z: s }
    }
}

impl FromSpecImpl<Fixed> for Vec3 {
    open spec fn obeys_from_spec() -> bool {
        true
    }

    open spec fn from_spec(s: Fixed) -> Vec3 {
        Vec3::splat(s)
    }
}

impl From<(Fixed, Fixed, Fixed)> for Vec3 {
    fn from(t: (Fixed, Fixed, Fixed)) -> (r: Vec3) {
        Vec3 { x: t.0, y: t.1, z: t.2 }
    }
}

impl FromSpecImpl<(Fixed, Fixed, Fixed)> for Vec3 {
    open spec fn obeys_from_spec() -> bool {
        true
    }

    open spec fn from_spec(t: (Fixed, Fixed, Fixed)) -> Vec3 {
        Vec3 { x: t.0, y: t.1, z: t.2 }
    }
}

impl From<(Fixed, Fixed)> for Vec3 {
    fn from(t: (Fixed, Fixed)) -> (r: Vec3) {
        Vec3 { x: t.0, y: t.1, z: Fixed::zero() }
    }
}

impl FromSpecImpl<(Fixed, Fixed)> for Vec3 {
    open spec fn obeys_from_spec() -> bool {
        true
    }

    open spec fn from_spec(t: (Fixed, Fixed)) -> Vec3 {
        Vec3 { x: t.0, y: t.1, z: Fixed::of(0) }
    }
}

impl From<[Fixed; 3]> for Vec3 {
    fn from(a: [Fixed; 3]) -> (r: Vec3) {
        Vec3 { x: a[0], y: a[1], z: a[2] }
    }
}

impl FromSpecImpl<[Fixed; 3]> for Vec3 {
    open spec fn obeys_from_spec() -> bool {
        true
    }

    open spec fn from_spec(a: [Fixed; 3]) -> Vec3 {
        Vec3 { x: a[0], y: a[1], z: a[2] }
    }
}

impl From<[Fixed; 2]> for Vec3 {
    fn from(a: [Fixed; 2]) -> (r: Vec3) {
        Vec3 { x: a[0], y: a[1], z: Fixed::zero() }
    }
}

impl FromSpecImpl<[Fixed; 2]> for Vec3 {
    open spec fn obeys_from_spec() -> bool {
        true
    }

    open spec fn from_spec(a: [Fixed; 2]) -> Vec3 {
        Vec3 { x: a[0], y: a[1], z: Fixed::of(0) }
    }
}

impl From<(i32, i32, i32)> for Vec3 {
    fn from(t: (i32, i32, i32)) -> (r: Vec3) {
        Vec3 { x: Fixed::from(t.0), y: Fixed::from(t.1), z: Fixed::from(t.2) }
    }
}

impl FromSpecImpl<(i32, i32, i32)> for Vec3 {
    open spec fn obeys_from_spec() -> bool {
        true
    }

    open spec fn from_spec(t: (i32, i32, i32)) -> Vec3 {
        Vec3::whole(t.0 as int, t.1 as int, t.2 as int)
    }
}

impl From<(i32, i32)> for Vec3 {
    fn from(t: (i32, i32)) -> (r: Vec3) {
        Vec3 { x: Fixed::from(t.0), y: Fixed::from(t.1), z: Fixed::zero() }
    }
}

impl FromSpecImpl<(i32, i32)> for Vec3 {
    open spec fn obeys_from_spec() -> bool {
        true
    }

    open spec fn from_spec(t: (i32, i32)) -> Vec3 {
        Vec3::whole(t.0 as int, t.1 as int, 0)
    }
}

} // verus!
