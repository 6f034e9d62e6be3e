//! Vectors whose components are IEEE-754 single-precision values held as bit patterns.
//!
//! For such a value, clearing the sign bit gives its absolute value, and the absolute
//! values of non-NaN floats are ordered as their bit patterns are. So `|x| < c`, for a
//! finite positive `c`, holds exactly when `(bits & 0x7fff_ffff) < bits(c)`; a NaN
//! fails it, as it fails the floating-point comparison.

use vstd::prelude::*;

verus! {

/// Clears the sign bit of a bit pattern.
pub const MAGNITUDE_MASK: u32 = 0x7fff_ffff;

/// The bit pattern of the dead-zone threshold `1e-5`.
pub const EPSILON_BITS: u32 = 0x3727_c5ac;

/// The bit pattern of `0.0`.
pub const ZERO_BITS: u32 = 0;

/// The bit pattern of the absolute value.
pub open spec fn magnitude(bits: u32) -> u32 {
    bits & MAGNITUDE_MASK
}

/// The component's absolute value is below the threshold.
pub open spec fn approx_zero(bits: u32) -> bool {
    magnitude(bits) < EPSILON_BITS
}

/// The component snapped to `0.0` when its absolute value is below the threshold.
pub open spec fn collapse(bits: u32) -> u32 {
    if approx_zero(bits) {
        ZERO_BITS
    } else {
        bits
    }
}

/// Every component is approximately zero.
pub open spec fn all_approx_zero(c: Seq<u32>) -> bool {
    forall|i: int| 0 <= i < c.len() ==> approx_zero(#[trigger] c[i])
}

/// A vector in space; each component is the bit pattern of an `f32`.
#[derive(Clone, Copy, Debug, PartialEq, Eq, Structural)]
pub struct Vec3 {
    pub x: u32,
    pub y: u32,
    pub z: u32,
}

/// A vector in the plane; each component is the bit pattern of an `f32`.
#[derive(Clone, Copy, Debug, PartialEq, Eq, Structural)]
pub struct Vec2 {
    pub x: u32,
    pub y: u32,
}

impl Vec3 {
    pub open spec fn components(self) -> Seq<u32> {
        seq![self.x, self.y, self.z]
    }

    pub fn new(x: u32, y: u32, z: u32) -> (r: Vec3)
        ensures
            r == (Vec3 { x, y, z }),
    {
        Vec3 { x, y, z }
    }
}

impl Vec2 {
    pub open spec fn components(self) -> Seq<u32> {
        seq![self.x, self.y]
    }

    pub fn new(x: u32, y: u32) -> (r: Vec2)
        ensures
            r == (Vec2 { x, y }),
    {
        Vec2 { x, y }
    }
}

/// The vector with every component snapped as [`collapse`] does.
pub open spec fn collapsed(v: Vec3) -> Vec3 {
    Vec3 { x: collapse(v.x), y: collapse(v.y), z: collapse(v.z) }
}

/// Whether one component's absolute value is below the threshold.
pub fn component_is_approx_zero(bits: u32) -> (r: bool)
    ensures
        r == approx_zero(bits),
{
    (bits & MAGNITUDE_MASK) < EPSILON_BITS
}

/// One component snapped to `0.0` when its absolute value is below the threshold.
pub fn collapse_component(bits: u32) -> (r: u32)
    ensures
        r == collapse(bits),
{
    if component_is_approx_zero(bits) {
        ZERO_BITS
    } else {
        bits
    }
}

pub trait Vec3Ext: Sized {
    /// The vector that `self` stands for.
    spec fn as_vec3(self) -> Vec3;

    /// Whether every component's absolute value is below `1e-5`.
    fn is_approx_zero(self) -> (r: bool)
        ensures
            r == all_approx_zero(self.as_vec3().components()),
    ;

    /// The vector with its `y` component set to `0.0`.
    fn x0z(self) -> (r: Vec3)
        ensures
            r == (Vec3 { x: self.as_vec3().x, y: ZERO_BITS, z: self.as_vec3().z }),
    ;

    /// The vector with every component whose absolute value is below `1e-5` set to `0.0`.
    fn collapse_approx_zero(self) -> (r: Vec3)
        ensures
            r == collapsed(self.as_vec3()),
    ;
}

impl Vec3Ext for Vec3 {
    open spec fn as_vec3(self) -> Vec3 {
        self
    }

    fn is_approx_zero(self) -> (r: bool) {
        let r = component_is_approx_zero(self.x) && component_is_approx_zero(self.y)
            && component_is_approx_zero(self.z);
        proof {
            let c = self.components();
            if r {
                assert forall|i: int| 0 <= i < c.len() implies approx_zero(#[trigger] c[i]) by {
                    assert(i == 0 || i == 1 || i == 2);
                }
            } else {
                assert(!approx_zero(c[0]) || !approx_zero(c[1]) || !approx_zero(c[2]));
            }
        }
        r
    }

    fn x0z(self) -> (r: Vec3) {
        Vec3::new(self.x, ZERO_BITS, self.z)
    }

    fn collapse_approx_zero(self) -> (r: Vec3) {
        Vec3::new(
            collapse_component(self.x),
            collapse_component(self.y),
            collapse_component(self.z),
        )
    }
}

pub trait Vec2Ext: Sized {
    /// The vector that `self` stands for.
    spec fn as_vec2(self) -> Vec2;

    /// Whether every component's absolute value is below `1e-5`.
    fn is_approx_zero(self) -> (r: bool)
        ensures
            r == all_approx_zero(self.as_vec2().components()),
    ;

    /// The vector lifted into space: `x` stays, `0.0` becomes `y`, and `y` becomes `z`.
    fn x0y(self) -> (r: Vec3)
        ensures
            r == (Vec3 { x: self.as_vec2().x, y: ZERO_BITS, z: self.as_vec2().y }),
    ;
}

impl Vec2Ext for Vec2 {
    open spec fn as_vec2(self) -> Vec2 {
        self
    }

    fn is_approx_zero(self) -> (r: bool) {
        let r = component_is_approx_zero(self.x) && component_is_approx_zero(self.y);
        proof {
            let c = self.components();
            if r {
                assert forall|i: int| 0 <= i < c.len() implies approx_zero(#[trigger] c[i]) by {
                    assert(i == 0 || i == 1);
                }
            } else {
                assert(!approx_zero(c[0]) || !approx_zero(c[1]));
            }
        }
        r
    }

    fn x0y(self) -> (r: Vec3) {
        Vec3::new(self.x, ZERO_BITS, self.y)
    }
}

/// Snapping near-zero components is idempotent: a second pass changes nothing.
pub proof fn lemma_collapse_idempotent(v: Vec3)
    ensures
        collapsed(collapsed(v)) == collapsed(v),
{
    assert(0u32 & 0x7fff_ffffu32 == 0u32) by (bit_vector);
}

} // verus!
