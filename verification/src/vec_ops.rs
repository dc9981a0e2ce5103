//! The arithmetic operators of [`Vec3`].
//!
//! Every operator works component by component. With a [`Fixed`] on the
//! right-hand side, the scalar is applied to all three components.

use crate::fixed::Fixed;
use crate::vec::Vec3;
use std::ops::Add;
use std::ops::AddAssign;
use std::ops::Sub;
use std::ops::SubAssign;
use std::ops::Mul;
use std::ops::MulAssign;
use std::ops::Div;
use std::ops::DivAssign;
use std::ops::Rem;
use std::ops::RemAssign;
use vstd::prelude::*;
use vstd::std_specs::ops::AddSpecImpl;
use vstd::std_specs::ops::SubSpecImpl;
use vstd::std_specs::ops::MulSpecImpl;
use vstd::std_specs::ops::DivSpecImpl;
use vstd::std_specs::ops::RemSpecImpl;

verus! {

impl Add<Vec3> for Vec3 {
    type Output = Vec3;

    /// The component-wise sum.
    fn add(self, rhs: Vec3) -> (r: Vec3) {
        Vec3 { x: self.x + rhs.x, y: self.y + rhs.y, z: self.z + rhs.z }
    }
}

impl AddSpecImpl<Vec3> for Vec3 {
    open spec fn obeys_add_spec() -> bool {
        true
    }

    open spec fn add_req(self, rhs: Vec3) -> bool {
        true
    }

    open spec fn add_spec(self, rhs: Vec3) -> Vec3 {
        self + rhs
    }
}

impl Add<Fixed> for Vec3 {
    type Output = Vec3;

    /// The sum of each component and `rhs`.
    fn add(self, rhs: Fixed) -> (r: Vec3) {
        Vec3 { x: self.x + rhs, y: self.y + rhs, z: self.z + rhs }
    }
}

impl AddSpecImpl<Fixed> for Vec3 {
    open spec fn obeys_add_spec() -> bool {
        true
    }

    open spec fn add_req(self, rhs: Fixed) -> bool {
        true
    }

    open spec fn add_spec(self, rhs: Fixed) -> Vec3 {
        self + Vec3::splat(rhs)
    }
}

impl AddAssign<Vec3> for Vec3 {
    /// Replaces `self` by the component-wise sum.
    fn add_assign(&mut self, rhs: Vec3)
        ensures
            *final(self) == *old(self) + rhs,
    {
        self.x = self.x + rhs.x;
        self.y = self.y + rhs.y;
        self.z = self.z + rhs.z;
    }
}

impl AddAssign<Fixed> for Vec3 {
    /// Replaces `self` by the sum of each component and `rhs`.
    fn add_assign(&mut self, rhs: Fixed)
        ensures
            *final(self) == *old(self) + Vec3::splat(rhs),
    {
        self.x = self.x + rhs;
        self.y = self.y + rhs;
        self.z = self.z + rhs;
    }
}

impl Sub<Vec3> for Vec3 {
    type Output = Vec3;

    /// The component-wise difference.
    fn sub(self, rhs: Vec3) -> (r: Vec3) {
        Vec3 { x: self.x - rhs.x, y: self.y - rhs.y, z: self.z - rhs.z }
    }
}

impl SubSpecImpl<Vec3> for Vec3 {
    open spec fn obeys_sub_spec() -> bool {
        true
    }

    open spec fn sub_req(self, rhs: Vec3) -> bool {
        true
    }

    open spec fn sub_spec(self, rhs: Vec3) -> Vec3 {
        self - rhs
    }
}

impl Sub<Fixed> for Vec3 {
    type Output = Vec3;

    /// The difference of each component and `rhs`.
    fn sub(self, rhs: Fixed) -> (r: Vec3) {
        Vec3 { x: self.x - rhs, y: self.y - rhs, z: self.z - rhs }
    }
}

impl SubSpecImpl<Fixed> for Vec3 {
    open spec fn obeys_sub_spec() -> bool {
        true
    }

    open spec fn sub_req(self, rhs: Fixed) -> bool {
        true
    }

    open spec fn sub_spec(self, rhs: Fixed) -> Vec3 {
        self - Vec3::splat(rhs)
    }
}

impl SubAssign<Vec3> for Vec3 {
    /// Replaces `self` by the component-wise difference.
    fn sub_assign(&mut self, rhs: Vec3)
        ensures
            *final(self) == *old(self) - rhs,
    {
        self.x = self.x - rhs.x;
        self.y = self.y - rhs.y;
        self.z = self.z - rhs.z;
    }
}

impl SubAssign<Fixed> for Vec3 {
    /// Replaces `self` by the difference of each component and `rhs`.
    fn sub_assign(&mut self, rhs: Fixed)
        ensures
            *final(self) == *old(self) - Vec3::splat(rhs),
    {
        self.x = self.x - rhs;
        self.y = self.y - rhs;
        self.z = self.z - rhs;
    }
}

impl Mul<Vec3> for Vec3 {
    type Output = Vec3;

    /// The component-wise product.
    fn mul(self, rhs: Vec3) -> (r: Vec3) {
        Vec3 { x: self.x * rhs.x, y: self.y * rhs.y, z: self.z * rhs.z }
    }
}

impl MulSpecImpl<Vec3> for Vec3 {
    open spec fn obeys_mul_spec() -> bool {
        true
    }

    open spec fn mul_req(self, rhs: Vec3) -> bool {
        true
    }

    open spec fn mul_spec(self, rhs: Vec3) -> Vec3 {
        self * rhs
    }
}

impl Mul<Fixed> for Vec3 {
    type Output = Vec3;

    /// The product of each component and `rhs`.
    fn mul(self, rhs: Fixed) -> (r: Vec3) {
        Vec3 { x: self.x * rhs, y: self.y * rhs, z: self.z * rhs }
    }
}

impl MulSpecImpl<Fixed> for Vec3 {
    open spec fn obeys_mul_spec() -> bool {
        true
    }

    open spec fn mul_req(self, rhs: Fixed) -> bool {
        true
    }

    open spec fn mul_spec(self, rhs: Fixed) -> Vec3 {
        self * Vec3::splat(rhs)
    }
}

impl MulAssign<Vec3> for Vec3 {
    /// Replaces `self` by the component-wise product.
    fn mul_assign(&mut self, rhs: Vec3)
        ensures
            *final(self) == *old(self) * rhs,
    {
        self.x = self.x * rhs.x;
        self.y = self.y * rhs.y;
        self.z = self.z * rhs.z;
    }
}

impl MulAssign<Fixed> for Vec3 {
    /// Replaces `self` by the product of each component and `rhs`.
    fn mul_assign(&mut self, rhs: Fixed)
        ensures
            *final(self) == *old(self) * Vec3::splat(rhs),
    {
        self.x = self.x * rhs;
        self.y = self.y * rhs;
        self.z = self.z * rhs;
    }
}

impl Div<Vec3> for Vec3 {
    type Output = Vec3;

    /// The component-wise ratio.
    fn div(self, rhs: Vec3) -> (r: Vec3) {
        Vec3 { x: self.x / rhs.x, y: self.y / rhs.y, z: self.z / rhs.z }
    }
}

impl DivSpecImpl<Vec3> for Vec3 {
    open spec fn obeys_div_spec() -> bool {
        true
    }

    open spec fn div_req(self, rhs: Vec3) -> bool {
        true
    }

    open spec fn div_spec(self, rhs: Vec3) -> Vec3 {
        self / rhs
    }
}

impl Div<Fixed> for Vec3 {
    type Output = Vec3;

    /// The ratio of each component and `rhs`.
    fn div(self, rhs: Fixed) -> (r: Vec3) {
        Vec3 { x: self.x / rhs, y: self.y / rhs, z: self.z / rhs }
    }
}

impl DivSpecImpl<Fixed> for Vec3 {
    open spec fn obeys_div_spec() -> bool {
        true
    }

    open spec fn div_req(self, rhs: Fixed) -> bool {
        true
    }

    open spec fn div_spec(self, rhs: Fixed) -> Vec3 {
        self / Vec3::splat(rhs)
    }
}

impl DivAssign<Vec3> for Vec3 {
    /// Replaces `self` by the component-wise ratio.
    fn div_assign(&mut self, rhs: Vec3)
        ensures
            *final(self) == *old(self) / rhs,
    {
        self.x = self.x / rhs.x;
        self.y = self.y / rhs.y;
        self.z = self.z / rhs.z;
    }
}

impl DivAssign<Fixed> for Vec3 {
    /// Replaces `self` by the ratio of each component and `rhs`.
    fn div_assign(&mut self, rhs: Fixed)
        ensures
            *final(self) == *old(self) / Vec3::splat(rhs),
    {
        self.x = self.x / rhs;
        self.y = self.y / rhs;
        self.z = self.z / rhs;
    }
}

impl Rem<Vec3> for Vec3 {
    type Output = Vec3;

    /// The component-wise remainder.
    fn rem(self, rhs: Vec3) -> (r: Vec3) {
        Vec3 { x: self.x % rhs.x, y: self.y % rhs.y, z: self.z % rhs.z }
    }
}

impl RemSpecImpl<Vec3> for Vec3 {
    open spec fn obeys_rem_spec() -> bool {
        true
    }

    open spec fn rem_req(self, rhs: Vec3) -> bool {
        true
    }

    open spec fn rem_spec(self, rhs: Vec3) -> Vec3 {
        self % rhs
    }
}

impl Rem<Fixed> for Vec3 {
    type Output = Vec3;

    /// The remainder of each component and `rhs`.
    fn rem(self, rhs: Fixed) -> (r: Vec3) {
        Vec3 { x: self.x % rhs, y: self.y % rhs, z: self.z % rhs }
    }
}

impl RemSpecImpl<Fixed> for Vec3 {
    open spec fn obeys_rem_spec() -> bool {
        true
    }

    open spec fn rem_req(self, rhs: Fixed) -> bool {
        true
    }

    open spec fn rem_spec(self, rhs: Fixed) -> Vec3 {
        self % Vec3::splat(rhs)
    }
}

impl RemAssign<Vec3> for Vec3 {
    /// Replaces `self` by the component-wise remainder.
    fn rem_assign(&mut self, rhs: Vec3)
        ensures
            *final(self) == *old(self) % rhs,
    {
        self.x = self.x % rhs.x;
        self.y = self.y % rhs.y;
        self.z = self.z % rhs.z;
    }
}

impl RemAssign<Fixed> for Vec3 {
    /// Replaces `self` by the remainder of each component and `rhs`.
    fn rem_assign(&mut self, rhs: Fixed)
        ensures
            *final(self) == *old(self) % Vec3::splat(rhs),
    {
        self.x = self.x % rhs;
        self.y = self.y % rhs;
        self.z = self.z % rhs;
    }
}

} // verus!
