//! Four-component vectors and 4x4 matrices of fixed-point scalars.

use vstd::prelude::*;
use crate::fixed::{div_floor, lemma_mul_bounded, saturate, saturate_fixed, Fixed};

verus! {

#[derive(Debug, Copy, Clone, PartialEq, Eq, Structural)]
pub struct Vec4 {
    pub x: Fixed,
    pub y: Fixed,
    pub z: Fixed,
    pub w: Fixed,
}

/// A 4x4 matrix, held as its four rows.
#[derive(Debug, Copy, Clone, PartialEq, Eq, Structural)]
pub struct Mat4 {
    pub r0: Vec4,
    pub r1: Vec4,
    pub r2: Vec4,
    pub r3: Vec4,
}

impl Vec4 {
    pub fn new(x: Fixed, y: Fixed, z: Fixed, w: Fixed) -> (v: Vec4)
        ensures
            v == (Vec4 { x, y, z, w }),
    {
        Vec4 { x, y, z, w }
    }

    /// The dot product, rounded down and saturated.
    pub open spec fn dot_spec(self, other: Vec4) -> int {
        saturate(
            (self.x as int * other.x as int + self.y as int * other.y as int + self.z as int
                * other.z as int + self.w as int * other.w as int) / 65536,
        )
    }

    pub fn dot(&self, other: &Vec4) -> (d: Fixed)
        ensures
            d == self.dot_spec(*other),
    {
        proof {
            lemma_mul_bounded(self.x as int, other.x as int, 2147483648, 2147483648);
            lemma_mul_bounded(self.y as int, other.y as int, 2147483648, 2147483648);
            lemma_mul_bounded(self.z as int, other.z as int, 2147483648, 2147483648);
            lemma_mul_bounded(self.w as int, other.w as int, 2147483648, 2147483648);
        }
        let n: i128 = (self.x as i128) * (other.x as i128) + (self.y as i128) * (other.y as i128)
            + (self.z as i128) * (other.z as i128) + (self.w as i128) * (other.w as i128);
        saturate_fixed(div_floor(n, 65536))
    }
}

impl Mat4 {
    /// The matrix with the given entries, written row by row.
    pub fn new(
        m00: Fixed,
        m01: Fixed,
        m02: Fixed,
        m03: Fixed,
        m10: Fixed,
        m11: Fixed,
        m12: Fixed,
        m13: Fixed,
        m20: Fixed,
        m21: Fixed,
        m22: Fixed,
        m23: Fixed,
        m30: Fixed,
        m31: Fixed,
        m32: Fixed,
        m33: Fixed,
    ) -> (m: Mat4)
        ensures
            m == (Mat4 {
                r0: Vec4 { x: m00, y: m01, z: m02, w: m03 },
                r1: Vec4 { x: m10, y: m11, z: m12, w: m13 },
                r2: Vec4 { x: m20, y: m21, z: m22, w: m23 },
                r3: Vec4 { x: m30, y: m31, z: m32, w: m33 },
            }),
    {
        Mat4 {
            r0: Vec4 { x: m00, y: m01, z: m02, w: m03 },
            r1: Vec4 { x: m10, y: m11, z: m12, w: m13 },
            r2: Vec4 { x: m20, y: m21, z: m22, w: m23 },
            r3: Vec4 { x: m30, y: m31, z: m32, w: m33 },
        }
    }

    pub open spec fn identity_spec() -> Mat4 {
        Mat4 {
            r0: Vec4 { x: 65536, y: 0, z: 0, w: 0 },
            r1: Vec4 { x: 0, y: 65536, z: 0, w: 0 },
            r2: Vec4 { x: 0, y: 0, z: 65536, w: 0 },
            r3: Vec4 { x: 0, y: 0, z: 0, w: 65536 },
        }
    }

    pub fn identity() -> (m: Mat4)
        ensures
            m == Mat4::identity_spec(),
    {
        Mat4 {
            r0: Vec4 { x: 65536, y: 0, z: 0, w: 0 },
            r1: Vec4 { x: 0, y: 65536, z: 0, w: 0 },
            r2: Vec4 { x: 0, y: 0, z: 65536, w: 0 },
            r3: Vec4 { x: 0, y: 0, z: 0, w: 65536 },
        }
    }

    pub open spec fn c0(self) -> Vec4 {
        Vec4 { x: self.r0.x, y: self.r1.x, z: self.r2.x, w: self.r3.x }
    }

    pub open spec fn c1(self) -> Vec4 {
        Vec4 { x: self.r0.y, y: self.r1.y, z: self.r2.y, w: self.r3.y }
    }

    pub open spec fn c2(self) -> Vec4 {
        Vec4 { x: self.r0.z, y: self.r1.z, z: self.r2.z, w: self.r3.z }
    }

    pub open spec fn c3(self) -> Vec4 {
        Vec4 { x: self.r0.w, y: self.r1.w, z: self.r2.w, w: self.r3.w }
    }

    /// The product of the matrix with a column vector.
    pub open spec fn apply_spec(self, v: Vec4) -> Vec4 {
        Vec4 {
            x: self.r0.dot_spec(v) as i32,
            y: self.r1.dot_spec(v) as i32,
            z: self.r2.dot_spec(v) as i32,
            w: self.r3.dot_spec(v) as i32,
        }
    }

    /// One row of a matrix product: the row times each column of `other`.
    pub open spec fn row_times(row: Vec4, other: Mat4) -> Vec4 {
        Vec4 {
            x: row.dot_spec(other.c0()) as i32,
            y: row.dot_spec(other.c1()) as i32,
            z: row.dot_spec(other.c2()) as i32,
            w: row.dot_spec(other.c3()) as i32,
        }
    }

    /// The matrix product `self * other`.
    pub open spec fn mul_spec(self, other: Mat4) -> Mat4 {
        Mat4 {
            r0: Mat4::row_times(self.r0, other),
            r1: Mat4::row_times(self.r1, other),
            r2: Mat4::row_times(self.r2, other),
            r3: Mat4::row_times(self.r3, other),
        }
    }

    pub fn apply(&self, v: &Vec4) -> (r: Vec4)
        ensures
            r == self.apply_spec(*v),
    {
        Vec4 { x: self.r0.dot(v), y: self.r1.dot(v), z: self.r2.dot(v), w: self.r3.dot(v) }
    }

    fn row_product(row: &Vec4, other: &Mat4) -> (r: Vec4)
        ensures
            r == Mat4::row_times(*row, *other),
    {
        let c0: Vec4 = Vec4 { x: other.r0.x, y: other.r1.x, z: other.r2.x, w: other.r3.x };
        let c1: Vec4 = Vec4 { x: other.r0.y, y: other.r1.y, z: other.r2.y, w: other.r3.y };
        let c2: Vec4 = Vec4 { x: other.r0.z, y: other.r1.z, z: other.r2.z, w: other.r3.z };
        let c3: Vec4 = Vec4 { x: other.r0.w, y: other.r1.w, z: other.r2.w, w: other.r3.w };
        Vec4 { x: row.dot(&c0), y: row.dot(&c1), z: row.dot(&c2), w: row.dot(&c3) }
    }

    /// The matrix product `self * other`, each entry rounded down and saturated.
    pub fn multiply(&self, other: &Mat4) -> (m: Mat4)
        ensures
            m == self.mul_spec(*other),
    {
        Mat4 {
            r0: Mat4::row_product(&self.r0, other),
            r1: Mat4::row_product(&self.r1, other),
            r2: Mat4::row_product(&self.r2, other),
            r3: Mat4::row_product(&self.r3, other),
        }
    }
}

} // verus!
