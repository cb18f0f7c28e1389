//! Positions around the listener: spherical directions as the dataset gives
//! them, and the cartesian frame in which distances are taken.
//!
//! Lengths and trigonometric ratios are fixed-point numbers in units of
//! `1 / ONE`.

use vstd::prelude::*;
use crate::fixed::{div_toward_zero, lemma_trunc_div_bound, trunc_div, ONE};

verus! {

/// The largest magnitude of a coordinate that stands for a finite value.
/// A coordinate beyond it marks a value that is not finite or is too large to
/// be held.
pub const COORD_LIMIT: i64 = 0x1_0000_0000_0000;

/// An angle, given by its sine and cosine.
#[derive(Clone, Copy, Debug, PartialEq, Eq, Structural)]
pub struct Angle {
    pub sin: i32,
    pub cos: i32,
}

impl Angle {
    /// Both ratios lie between -1 and 1.
    pub open spec fn is_unit(&self) -> bool {
        &&& -ONE <= self.sin <= ONE
        &&& -ONE <= self.cos <= ONE
    }
}

/// A direction and distance as seen from the origin. Azimuth 0 is straight
/// ahead and grows toward the left; elevation 0 is the horizontal plane.
#[derive(Clone, Copy, Debug, PartialEq, Eq, Structural)]
pub struct SphericalPosition {
    pub azimuth: Angle,
    pub elevation: Angle,
    pub radius: i32,
}

/// A point in space: `x` to the right, `y` ahead, `z` up.
#[derive(Clone, Copy, Debug, PartialEq, Eq, Structural)]
pub struct CartesianVector {
    pub x: i64,
    pub y: i64,
    pub z: i64,
}

impl CartesianVector {
    /// Every coordinate stands for a finite value.
    pub open spec fn in_range(&self) -> bool {
        &&& -COORD_LIMIT <= self.x <= COORD_LIMIT
        &&& -COORD_LIMIT <= self.y <= COORD_LIMIT
        &&& -COORD_LIMIT <= self.z <= COORD_LIMIT
    }

    /// A vector that stands for one with a coordinate that is not finite.
    pub fn unbounded() -> (v: CartesianVector)
        ensures
            v == (CartesianVector { x: i64::MAX, y: i64::MAX, z: i64::MAX }),
            !v.in_range(),
    {
        CartesianVector { x: i64::MAX, y: i64::MAX, z: i64::MAX }
    }

    /// Tells whether every coordinate stands for a finite value.
    pub fn is_in_range(&self) -> (ok: bool)
        ensures
            ok == self.in_range(),
    {
        -COORD_LIMIT <= self.x && self.x <= COORD_LIMIT && -COORD_LIMIT <= self.y && self.y
            <= COORD_LIMIT && -COORD_LIMIT <= self.z && self.z <= COORD_LIMIT
    }
}

impl SphericalPosition {
    /// Both angles have ratios between -1 and 1.
    pub open spec fn is_unit(&self) -> bool {
        self.azimuth.is_unit() && self.elevation.is_unit()
    }

    /// radius * cos(elevation) * -sin(azimuth)
    pub open spec fn x(&self) -> int {
        trunc_div(self.radius * self.elevation.cos * (0 - self.azimuth.sin), ONE * ONE)
    }

    /// radius * cos(elevation) * cos(azimuth)
    pub open spec fn y(&self) -> int {
        trunc_div(self.radius * self.elevation.cos * self.azimuth.cos, ONE * ONE)
    }

    /// radius * sin(elevation)
    pub open spec fn z(&self) -> int {
        trunc_div(self.radius * self.elevation.sin, ONE as int)
    }

    /// The position that stands for one with a part that is not finite.
    pub open spec fn unbounded_position() -> SphericalPosition {
        SphericalPosition {
            azimuth: Angle { sin: i32::MIN, cos: i32::MIN },
            elevation: Angle { sin: i32::MIN, cos: i32::MIN },
            radius: i32::MIN,
        }
    }

    /// A position that stands for one with a part that is not finite. Its
    /// cartesian coordinates lie out of range, so that a selection which
    /// meets it is refused.
    pub fn unbounded() -> (position: SphericalPosition)
        ensures
            position == Self::unbounded_position(),
            !position.cartesian().in_range(),
    {
        let position = SphericalPosition {
            azimuth: Angle { sin: i32::MIN, cos: i32::MIN },
            elevation: Angle { sin: i32::MIN, cos: i32::MIN },
            radius: i32::MIN,
        };
        proof {
            let product = position.radius * position.elevation.cos * (0 - position.azimuth.sin);
            assert(product == 0x2000_0000_0000_0000 * 0x1_0000_0000) by (nonlinear_arith)
                requires
                    product == (-0x8000_0000) * (-0x8000_0000) * (0 - (-0x8000_0000)),
            ;
            crate::fixed::lemma_trunc_div_multiple(0x2000_0000_0000_0000, ONE * ONE);
            assert(position.x() == 0x2000_0000_0000_0000);
        }
        position
    }

    /// The same point in cartesian coordinates.
    pub open spec fn cartesian(&self) -> CartesianVector {
        CartesianVector { x: self.x() as i64, y: self.y() as i64, z: self.z() as i64 }
    }
}

/// The product of a length and two ratios, with its bounds.
fn product3(length: i32, first: i32, second: i128) -> (product: i128)
    requires
        -0x8000_0000 <= second <= 0x8000_0000,
    ensures
        product == length * first * second,
        -(0x2000_0000_0000_0000 * (ONE * ONE)) <= product <= 0x2000_0000_0000_0000 * (ONE * ONE),
        (-ONE <= first <= ONE && -ONE <= second <= ONE) ==> -(0x8000_0000 * (ONE * ONE))
            <= product <= 0x8000_0000 * (ONE * ONE),
{
    let wide_length: i128 = length as i128;
    let wide_first: i128 = first as i128;
    assert(-0x4000_0000_0000_0000 <= wide_length * wide_first <= 0x4000_0000_0000_0000)
        by (nonlinear_arith)
        requires
            -0x8000_0000 <= wide_length <= 0x8000_0000,
            -0x8000_0000 <= wide_first <= 0x8000_0000,
    ;
    let partial: i128 = wide_length * wide_first;
    assert(-0x2000_0000_0000_0000_0000_0000 <= partial * second
        <= 0x2000_0000_0000_0000_0000_0000) by (nonlinear_arith)
        requires
            -0x4000_0000_0000_0000 <= partial <= 0x4000_0000_0000_0000,
            -0x8000_0000 <= second <= 0x8000_0000,
    ;
    proof {
        if -ONE <= first <= ONE && -ONE <= second <= ONE {
            assert(-0x8000_0000_0000 <= wide_length * wide_first <= 0x8000_0000_0000)
                by (nonlinear_arith)
                requires
                    -0x8000_0000 <= wide_length <= 0x8000_0000,
                    -0x1_0000 <= wide_first <= 0x1_0000,
            ;
            assert(-0x8000_0000_0000_0000 <= partial * second <= 0x8000_0000_0000_0000)
                by (nonlinear_arith)
                requires
                    -0x8000_0000_0000 <= partial <= 0x8000_0000_0000,
                    -0x1_0000 <= second <= 0x1_0000,
            ;
        }
    }
    partial * second
}

/// The product of a length and one ratio, with its bounds.
fn product2(length: i32, ratio: i32) -> (product: i128)
    ensures
        product == length * ratio,
        -(0x4000_0000_0000 * ONE) <= product <= 0x4000_0000_0000 * ONE,
        -ONE <= ratio <= ONE ==> -(0x8000_0000 * ONE) <= product <= 0x8000_0000 * ONE,
{
    let wide_length: i128 = length as i128;
    let wide_ratio: i128 = ratio as i128;
    assert(-0x4000_0000_0000_0000 <= wide_length * wide_ratio <= 0x4000_0000_0000_0000)
        by (nonlinear_arith)
        requires
            -0x8000_0000 <= wide_length <= 0x8000_0000,
            -0x8000_0000 <= wide_ratio <= 0x8000_0000,
    ;
    proof {
        if -ONE <= ratio <= ONE {
            assert(-0x8000_0000_0000 <= wide_length * wide_ratio <= 0x8000_0000_0000)
                by (nonlinear_arith)
                requires
                    -0x8000_0000 <= wide_length <= 0x8000_0000,
                    -0x1_0000 <= wide_ratio <= 0x1_0000,
            ;
        }
    }
    wide_length * wide_ratio
}

/// Converts a spherical position to cartesian coordinates about the same
/// origin:
///
/// - x = radius * cos(elevation) * -sin(azimuth)
/// - y = radius * cos(elevation) * cos(azimuth)
/// - z = radius * sin(elevation)
///
/// Each product is formed exactly and then brought back to the fixed-point
/// unit by a division that rounds toward zero, so the result depends on the
/// position alone. Every position is accepted; where its ratios lie between
/// -1 and 1 the result is in range.
pub fn to_cartesian(position: &SphericalPosition) -> (v: CartesianVector)
    ensures
        v == position.cartesian(),
        v.x == position.x(),
        v.y == position.y(),
        v.z == position.z(),
        position.is_unit() ==> v.in_range(),
{
    let unit: i128 = ONE as i128;
    let square: i128 = unit * unit;
    let sin_azimuth: i128 = position.azimuth.sin as i128;
    let cos_azimuth: i128 = position.azimuth.cos as i128;
    let px: i128 = product3(position.radius, position.elevation.cos, -sin_azimuth);
    let py: i128 = product3(position.radius, position.elevation.cos, cos_azimuth);
    let pz: i128 = product2(position.radius, position.elevation.sin);
    proof {
        lemma_trunc_div_bound(px as int, square as int, 0x2000_0000_0000_0000);
        lemma_trunc_div_bound(py as int, square as int, 0x2000_0000_0000_0000);
        lemma_trunc_div_bound(pz as int, unit as int, 0x4000_0000_0000);
        if position.is_unit() {
            lemma_trunc_div_bound(px as int, square as int, 0x8000_0000);
            lemma_trunc_div_bound(py as int, square as int, 0x8000_0000);
            lemma_trunc_div_bound(pz as int, unit as int, 0x8000_0000);
        }
    }
    let x: i128 = div_toward_zero(px, square);
    let y: i128 = div_toward_zero(py, square);
    let z: i128 = div_toward_zero(pz, unit);
    CartesianVector { x: x as i64, y: y as i64, z: z as i64 }
}

} // verus!
