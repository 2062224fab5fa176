//! Fixed-point 3D vectors and transforms.
//!
//! All spatial quantities in this crate are stored in signed fixed-point
//! milli-units: a component value of 1000 stands for one world unit (or one
//! degree, for rotations).  Arithmetic saturates at the `i64` range instead of
//! wrapping or panicking.

use vstd::prelude::*;

verus! {

/// Number of fixed-point steps per world unit.
pub const SCALE_ONE: i64 = 1000;

/// A three-component vector in fixed-point milli-units.
#[derive(Clone, Copy, Debug, PartialEq, Eq, Structural)]
pub struct Vec3 {
    pub x: i64,
    pub y: i64,
    pub z: i64,
}

/// Position, rotation (Euler degrees) and scale of an entity or body.
#[derive(Clone, Copy, Debug, PartialEq, Eq, Structural)]
pub struct Transform {
    pub position: Vec3,
    pub rotation: Vec3,
    pub scale: Vec3,
}

/// Clamps a mathematical integer into the `i64` range.
pub open spec fn clamp_i64(v: int) -> int {
    if v < i64::MIN as int {
        i64::MIN as int
    } else if v > i64::MAX as int {
        i64::MAX as int
    } else {
        v
    }
}

/// Division by `SCALE_ONE` that truncates toward zero, as the executable
/// fixed-point code does.
pub open spec fn trunc_div_scale(v: int) -> int {
    if v >= 0 {
        v / (SCALE_ONE as int)
    } else {
        -((-v) / (SCALE_ONE as int))
    }
}

/// Saturating fixed-point addition of two components.
pub open spec fn spec_sat_add(a: int, b: int) -> int {
    clamp_i64(a + b)
}

/// Saturating fixed-point product of two components, rescaled so that
/// `SCALE_ONE` acts as the multiplicative unit.
pub open spec fn spec_fixed_mul(a: int, b: int) -> int {
    clamp_i64(trunc_div_scale(a * b))
}

/// Componentwise saturating vector addition.
pub open spec fn spec_vec_add(a: Vec3, b: Vec3) -> Vec3 {
    Vec3 {
        x: spec_sat_add(a.x as int, b.x as int) as i64,
        y: spec_sat_add(a.y as int, b.y as int) as i64,
        z: spec_sat_add(a.z as int, b.z as int) as i64,
    }
}

/// Componentwise saturating fixed-point vector product.
pub open spec fn spec_vec_mul(a: Vec3, b: Vec3) -> Vec3 {
    Vec3 {
        x: spec_fixed_mul(a.x as int, b.x as int) as i64,
        y: spec_fixed_mul(a.y as int, b.y as int) as i64,
        z: spec_fixed_mul(a.z as int, b.z as int) as i64,
    }
}

/// Composition of a parent world transform with a local transform: positions
/// and rotations add, scales multiply.
pub open spec fn spec_compose(parent: Transform, local: Transform) -> Transform {
    Transform {
        position: spec_vec_add(parent.position, local.position),
        rotation: spec_vec_add(parent.rotation, local.rotation),
        scale: spec_vec_mul(parent.scale, local.scale),
    }
}

/// The transform every entity starts from: zero position and rotation, unit
/// scale.
pub open spec fn spec_default_transform() -> Transform {
    Transform {
        position: Vec3 { x: 0, y: 0, z: 0 },
        rotation: Vec3 { x: 0, y: 0, z: 0 },
        scale: Vec3 { x: SCALE_ONE, y: SCALE_ONE, z: SCALE_ONE },
    }
}

/// Saturating addition of two fixed-point components.
pub fn sat_add(a: i64, b: i64) -> (r: i64)
    ensures
        r as int == spec_sat_add(a as int, b as int),
{
    let s: i128 = a as i128 + b as i128;
    if s < i64::MIN as i128 {
        i64::MIN
    } else if s > i64::MAX as i128 {
        i64::MAX
    } else {
        s as i64
    }
}

/// Saturating fixed-point multiplication of two components.
pub fn fixed_mul(a: i64, b: i64) -> (r: i64)
    ensures
        r as int == spec_fixed_mul(a as int, b as int),
{
    proof {
        assert((a as int) * (b as int) <= 0x4000_0000_0000_0000_0000_0000_0000_0000int
            && (a as int) * (b as int) >= -0x4000_0000_0000_0000_0000_0000_0000_0000int)
            by (nonlinear_arith)
            requires
                i64::MIN as int <= a as int <= i64::MAX as int,
                i64::MIN as int <= b as int <= i64::MAX as int,
        ;
    }
    let p: i128 = (a as i128) * (b as i128);
    if p >= 0 {
        let q: i128 = p / (SCALE_ONE as i128);
        if q > i64::MAX as i128 {
            i64::MAX
        } else {
            q as i64
        }
    } else {
        let m: i128 = -p;
        let q: i128 = m / (SCALE_ONE as i128);
        if -q < i64::MIN as i128 {
            i64::MIN
        } else {
            (-q) as i64
        }
    }
}

impl Vec3 {
    /// The zero vector.
    pub fn zero() -> (r: Vec3)
        ensures
            r == (Vec3 { x: 0, y: 0, z: 0 }),
    {
        Vec3 { x: 0, y: 0, z: 0 }
    }

    /// Builds a vector from its three components.
    pub fn new(x: i64, y: i64, z: i64) -> (r: Vec3)
        ensures
            r == (Vec3 { x, y, z }),
    {
        Vec3 { x, y, z }
    }

    /// Componentwise saturating addition.
    pub fn add(self, other: Vec3) -> (r: Vec3)
        ensures
            r == spec_vec_add(self, other),
    {
        Vec3 {
            x: sat_add(self.x, other.x),
            y: sat_add(self.y, other.y),
            z: sat_add(self.z, other.z),
        }
    }

    /// Componentwise saturating fixed-point product.
    pub fn mul(self, other: Vec3) -> (r: Vec3)
        ensures
            r == spec_vec_mul(self, other),
    {
        Vec3 {
            x: fixed_mul(self.x, other.x),
            y: fixed_mul(self.y, other.y),
            z: fixed_mul(self.z, other.z),
        }
    }
}

impl Transform {
    /// Composes a parent world transform with this local transform.
    pub fn compose_with(self, parent: Transform) -> (r: Transform)
        ensures
            r == spec_compose(parent, self),
    {
        Transform {
            position: parent.position.add(self.position),
            rotation: parent.rotation.add(self.rotation),
            scale: parent.scale.mul(self.scale),
        }
    }
}

impl Default for Transform {
    /// Zero position and rotation, unit scale.
    fn default() -> (r: Transform)
        ensures
            r == spec_default_transform(),
    {
        Transform {
            position: Vec3 { x: 0, y: 0, z: 0 },
            rotation: Vec3 { x: 0, y: 0, z: 0 },
            scale: Vec3 { x: SCALE_ONE, y: SCALE_ONE, z: SCALE_ONE },
        }
    }
}

} // verus!
