//! Points and directions in space.

use vstd::prelude::*;
use crate::maths::scalar;

verus! {

/// A vector of three single-precision numbers, each held as its bit pattern.
///
/// `==` on two vectors compares the patterns; `equals` compares the numbers.
#[derive(Clone, Copy, Debug, PartialEq, Eq, Structural)]
pub struct Vec3d {
    pub x: u32,
    pub y: u32,
    pub z: u32,
}

impl Vec3d {
    /// The three components are equal as numbers.
    pub open spec fn coincides(self, other: Vec3d) -> bool {
        scalar::same(self.x, other.x) && scalar::same(self.y, other.y) && scalar::same(self.z, other.z)
    }

    /// Some component is not a number.
    pub open spec fn has_nan(self) -> bool {
        scalar::nan(self.x) || scalar::nan(self.y) || scalar::nan(self.z)
    }

    /// The vector of the halves of the components.
    pub open spec fn halved(self) -> Vec3d {
        Vec3d {
            x: scalar::halved(self.x),
            y: scalar::halved(self.y),
            z: scalar::halved(self.z),
        }
    }

    /// Construct a vector from its components.
    pub fn new(x: u32, y: u32, z: u32) -> (v: Vec3d)
        ensures
            v == (Vec3d { x, y, z }),
    {
        Vec3d { x, y, z }
    }

    /// Construct the vector whose components all are `k`.
    pub fn diag(k: u32) -> (v: Vec3d)
        ensures
            v == (Vec3d { x: k, y: k, z: k }),
    {
        Vec3d::new(k, k, k)
    }

    /// A copy of this vector.
    pub fn copy(&self) -> (v: Vec3d)
        ensures
            v == *self,
    {
        Vec3d::new(self.x, self.y, self.z)
    }

    /// The origin.
    pub fn origin() -> (v: Vec3d)
        ensures
            v == (Vec3d { x: scalar::ZERO, y: scalar::ZERO, z: scalar::ZERO }),
    {
        Vec3d::new(scalar::ZERO, scalar::ZERO, scalar::ZERO)
    }

    /// The vector of ones.
    pub fn unit() -> (v: Vec3d)
        ensures
            v == (Vec3d { x: scalar::ONE, y: scalar::ONE, z: scalar::ONE }),
    {
        Vec3d::new(scalar::ONE, scalar::ONE, scalar::ONE)
    }

    /// The unit vector along the first axis.
    pub fn unit_x() -> (v: Vec3d)
        ensures
            v == (Vec3d { x: scalar::ONE, y: scalar::ZERO, z: scalar::ZERO }),
    {
        Vec3d::new(scalar::ONE, scalar::ZERO, scalar::ZERO)
    }

    /// The unit vector along the second axis.
    pub fn unit_y() -> (v: Vec3d)
        ensures
            v == (Vec3d { x: scalar::ZERO, y: scalar::ONE, z: scalar::ZERO }),
    {
        Vec3d::new(scalar::ZERO, scalar::ONE, scalar::ZERO)
    }

    /// The unit vector along the third axis.
    pub fn unit_z() -> (v: Vec3d)
        ensures
            v == (Vec3d { x: scalar::ZERO, y: scalar::ZERO, z: scalar::ONE }),
    {
        Vec3d::new(scalar::ZERO, scalar::ZERO, scalar::ONE)
    }

    /// Half the vector: each component halved.
    pub fn half(&self) -> (v: Vec3d)
        ensures
            v == self.halved(),
    {
        Vec3d::new(scalar::halve(self.x), scalar::halve(self.y), scalar::halve(self.z))
    }

    /// Exact numeric equality, component by component. A vector with a
    /// component that is not a number equals nothing, itself included.
    pub fn equals(&self, other: &Vec3d) -> (r: bool)
        ensures
            r == self.coincides(*other),
    {
        scalar::equals(self.x, other.x) && scalar::equals(self.y, other.y) && scalar::equals(
            self.z,
            other.z,
        )
    }

    /// Equality of numbers is symmetric and transitive, and holds of a vector
    /// and itself exactly when all its components are numbers.
    pub proof fn coincides_is_partial_equivalence(a: Vec3d, b: Vec3d, c: Vec3d)
        ensures
            a.coincides(a) == !a.has_nan(),
            a.coincides(b) == b.coincides(a),
            a.coincides(b) && b.coincides(c) ==> a.coincides(c),
    {
    }
}

} // verus!
