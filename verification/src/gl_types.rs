//! Plain vector records shared by the scene buffers and the grid stages.
//!
//! Positions are fixed-point world units held in `i64`; index triples and
//! grid-cell coordinates are `u32` triples, matching the flat buffer layout
//! the device kernels consume.

use vstd::prelude::*;

verus! {

/// A three-component position in fixed-point world units.
#[verifier::ext_equal]
#[derive(Clone, Copy, Debug)]
pub struct Vec3 {
    pub position: [i64; 3],
}

/// A two-component unsigned record.
#[verifier::ext_equal]
#[derive(Clone, Copy, Debug)]
pub struct UVec2 {
    pub position: [u32; 2],
}

/// A three-component unsigned record: an index triple or a cell coordinate.
#[verifier::ext_equal]
#[derive(Clone, Copy, Debug)]
pub struct UVec3 {
    pub position: [u32; 3],
}

/// Construction of a three-component record from a plain array.
pub trait FromArr3<T>: Sized {
    fn from_arr3(position: [T; 3]) -> Self;
}

/// Construction of a two-component record from a plain array.
pub trait FromArr2<T>: Sized {
    fn from_arr2(position: [T; 2]) -> Self;
}

impl FromArr3<i64> for Vec3 {
    fn from_arr3(position: [i64; 3]) -> Self {
        Vec3 { position }
    }
}

impl FromArr3<u32> for UVec3 {
    fn from_arr3(position: [u32; 3]) -> Self {
        UVec3 { position }
    }
}

impl FromArr2<u32> for UVec2 {
    fn from_arr2(position: [u32; 2]) -> Self {
        UVec2 { position }
    }
}

/// The componentwise minimum of two positions.
pub fn vec3_min(x: &Vec3, y: &Vec3) -> (r: Vec3)
    ensures
        forall|a: int| 0 <= a < 3 ==> r.position[a] == spec_min_i64(x.position[a], y.position[a]),
{
    Vec3 {
        position: [
            min_i64(x.position[0], y.position[0]),
            min_i64(x.position[1], y.position[1]),
            min_i64(x.position[2], y.position[2]),
        ],
    }
}

/// The componentwise maximum of two positions.
pub fn vec3_max(x: &Vec3, y: &Vec3) -> (r: Vec3)
    ensures
        forall|a: int| 0 <= a < 3 ==> r.position[a] == spec_max_i64(x.position[a], y.position[a]),
{
    Vec3 {
        position: [
            max_i64(x.position[0], y.position[0]),
            max_i64(x.position[1], y.position[1]),
            max_i64(x.position[2], y.position[2]),
        ],
    }
}

/// The smaller of two coordinates.
pub open spec fn spec_min_i64(x: i64, y: i64) -> i64 {
    if x <= y {
        x
    } else {
        y
    }
}

/// The larger of two coordinates.
pub open spec fn spec_max_i64(x: i64, y: i64) -> i64 {
    if x >= y {
        x
    } else {
        y
    }
}

fn min_i64(x: i64, y: i64) -> (r: i64)
    ensures
        r == spec_min_i64(x, y),
{
    if x <= y {
        x
    } else {
        y
    }
}

fn max_i64(x: i64, y: i64) -> (r: i64)
    ensures
        r == spec_max_i64(x, y),
{
    if x >= y {
        x
    } else {
        y
    }
}

} // verus!
