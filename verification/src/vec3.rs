//! Three-component fixed-point vectors and their mathematical image.

use vstd::prelude::*;
use crate::fixed::{iabs, sat64};

verus! {

/// A vector of three fixed-point coordinates (multiples of
/// 1/[`crate::fixed::SCALE`] of a world unit).
#[derive(Clone, Copy, Debug, PartialEq, Eq, Structural)]
pub struct Vec3 {
    pub x: i64,
    pub y: i64,
    pub z: i64,
}

/// The mathematical image of a [`Vec3`]: the same three components as
/// unbounded integers.
pub ghost struct SpecVec3 {
    pub x: int,
    pub y: int,
    pub z: int,
}

impl View for Vec3 {
    type V = SpecVec3;

    open spec fn view(&self) -> SpecVec3 {
        SpecVec3 { x: self.x as int, y: self.y as int, z: self.z as int }
    }
}

impl Vec3 {
    /// Build a vector from its components.
    pub fn new(x: i64, y: i64, z: i64) -> (v: Vec3)
        ensures
            v@ == (SpecVec3 { x: x as int, y: y as int, z: z as int }),
    {
        Vec3 { x, y, z }
    }

    /// The zero vector.
    pub fn zero() -> (v: Vec3)
        ensures
            v@ == SpecVec3::zero(),
    {
        Vec3 { x: 0, y: 0, z: 0 }
    }
}

impl SpecVec3 {
    /// The zero vector.
    pub open spec fn zero() -> SpecVec3 {
        SpecVec3 { x: 0, y: 0, z: 0 }
    }

    /// Componentwise sum.
    pub open spec fn plus(self, o: SpecVec3) -> SpecVec3 {
        SpecVec3 { x: self.x + o.x, y: self.y + o.y, z: self.z + o.z }
    }

    /// Componentwise difference.
    pub open spec fn minus(self, o: SpecVec3) -> SpecVec3 {
        SpecVec3 { x: self.x - o.x, y: self.y - o.y, z: self.z - o.z }
    }

    /// Squared Euclidean length, in squared sub-units.
    pub open spec fn len_sq(self) -> int {
        self.x * self.x + self.y * self.y + self.z * self.z
    }

    /// Every component has magnitude at most `m`.
    pub open spec fn within(self, m: int) -> bool {
        iabs(self.x) <= m && iabs(self.y) <= m && iabs(self.z) <= m
    }
}

/// Squared distance between two points, in squared sub-units.
pub open spec fn dist_sq(a: SpecVec3, b: SpecVec3) -> int {
    a.minus(b).len_sq()
}

/// Each component clipped to the `i64` range.
pub open spec fn sat_v3(v: SpecVec3) -> SpecVec3 {
    SpecVec3 { x: sat64(v.x), y: sat64(v.y), z: sat64(v.z) }
}

/// A squared length is non-negative, and bounded when the components are.
pub proof fn lemma_len_sq_bounds(v: SpecVec3, m: int)
    requires
        v.within(m),
    ensures
        0 <= v.len_sq(),
        v.len_sq() <= 3 * (m * m),
        v.x * v.x <= v.len_sq(),
        v.y * v.y <= v.len_sq(),
        v.z * v.z <= v.len_sq(),
{
    assert(0 <= v.x * v.x && (iabs(v.x) <= m ==> v.x * v.x <= m * m)) by (nonlinear_arith);
    assert(0 <= v.y * v.y && (iabs(v.y) <= m ==> v.y * v.y <= m * m)) by (nonlinear_arith);
    assert(0 <= v.z * v.z && (iabs(v.z) <= m ==> v.z * v.z <= m * m)) by (nonlinear_arith);
}

} // verus!
