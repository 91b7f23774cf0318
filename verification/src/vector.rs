//! Two- and three-component vectors of fixed-point scalars.

use vstd::prelude::*;
use crate::fixed::{
    div_floor, floor_sqrt, is_floor_sqrt, isqrt, isqrt_wide, lemma_mul_bounded,
    lemma_square_monotonic, saturate, saturate_fixed, Fixed,
};

verus! {

#[derive(Debug, Copy, Clone, PartialEq, Eq, Structural)]
pub struct Vec2 {
    pub x: Fixed,
    pub y: Fixed,
}

#[derive(Debug, Copy, Clone, PartialEq, Eq, Structural)]
pub struct Vec3 {
    pub x: Fixed,
    pub y: Fixed,
    pub z: Fixed,
}

/// One component of a unit vector: `x` over a length given in units of
/// 2^-32, rounded to the nearest fixed-point value.
pub open spec fn unit_component(x: int, root: int) -> int {
    (2 * (x * 0x1_0000_0000) + root) / (2 * root)
}

/// A square is at most the sum of itself and two other squares.
proof fn lemma_component_square(x: int, y: int, z: int)
    by (nonlinear_arith)
    ensures
        0 <= x * x <= x * x + y * y + z * z,
{
}

/// A component of a non-zero vector, divided by the vector's length, has
/// magnitude at most one, and the square of the rounded quotient is close
/// to the square of the exact one.
pub proof fn lemma_unit_component(x: int, s: int, root: int)
    requires
        x * x <= s,
        s >= 1,
        is_floor_sqrt(s * 0x1_0000_0000, root),
    ensures
        root >= 65536,
        -65536 <= unit_component(x, root) <= 65536,
        ({
            let p = x * 0x1_0000_0000;
            let u = unit_component(x, root);
            &&& u * u * (root * root) >= p * p - 65537 * (root * root)
            &&& u * u * (root * root) <= p * p + 65536 * (root * root)
        }),
{
    let p = x * 0x1_0000_0000;
    let u = unit_component(x, root);
    // the root is at least one
    if root < 65536 {
        lemma_square_monotonic(root + 1, 65536);
    }
    // |x| * 2^16 <= root
    let m = if x >= 0 {
        x
    } else {
        -x
    };
    assert(m * m == x * x) by (nonlinear_arith)
        requires
            m == x || m == -x,
    ;
    assert((m * 65536) * (m * 65536) == (m * m) * 0x1_0000_0000) by (nonlinear_arith);
    assert((m * m) * 0x1_0000_0000 <= s * 0x1_0000_0000) by (nonlinear_arith)
        requires
            m * m <= s,
    ;
    if m * 65536 > root {
        lemma_square_monotonic(root + 1, m * 65536);
    }
    assert(m * 65536 <= root);
    assert(p == x * 65536 * 65536) by (nonlinear_arith)
        requires
            p == x * 0x1_0000_0000,
    ;
    assert(-(root * 65536) <= p <= root * 65536) by (nonlinear_arith)
        requires
            p == x * 65536 * 65536,
            m * 65536 <= root,
            m == x || m == -x,
            m >= 0,
    ;
    // the rounded quotient and its remainder
    let n = 2 * p + root;
    let t = n % (2 * root);
    assert(n == (2 * root) * u + t && 0 <= t < 2 * root) by (nonlinear_arith)
        requires
            root > 0,
            u == n / (2 * root),
            t == n % (2 * root),
    ;
    assert(-65536 <= u <= 65536) by (nonlinear_arith)
        requires
            n == (2 * root) * u + t,
            0 <= t < 2 * root,
            n == 2 * p + root,
            -(root * 65536) <= p <= root * 65536,
            root > 0,
    ;
    // 2 * (p - root * u) == t - root, which lies in [-root, root)
    let d = t - root;
    assert(2 * p == 2 * (root * u) + d) by (nonlinear_arith)
        requires
            n == (2 * root) * u + t,
            n == 2 * p + root,
            d == t - root,
    ;
    assert(4 * (p * p) == 4 * (u * u * (root * root)) + 4 * (u * root * d) + d * d)
        by (nonlinear_arith)
        requires
            2 * p == 2 * (root * u) + d,
    ;
    assert(-(65536 * (root * root)) <= u * root * d <= 65536 * (root * root)) by (nonlinear_arith)
        requires
            -65536 <= u <= 65536,
            -root <= d < root,
            root > 0,
    ;
    assert(0 <= d * d <= root * root) by (nonlinear_arith)
        requires
            -root <= d < root,
            root > 0,
    ;
}

/// A normalised non-zero vector is within three units of precision of unit
/// length.
pub proof fn lemma_normalize_length(v: Vec3)
    requires
        v.norm_squared() != 0,
    ensures
        65534 * 65534 <= v.normalize_spec().norm_squared() <= 65539 * 65539,
{
    let s = v.norm_squared();
    let x = v.x as int;
    let y = v.y as int;
    let z = v.z as int;
    lemma_component_square(x, y, z);
    lemma_component_square(y, x, z);
    lemma_component_square(z, x, y);
    lemma_mul_bounded(x, x, 2147483648, 2147483648);
    lemma_mul_bounded(y, y, 2147483648, 2147483648);
    lemma_mul_bounded(z, z, 2147483648, 2147483648);
    let root = v.fine_length_spec();
    lemma_fine_length_exists(s);
    lemma_unit_component(x, s, root);
    lemma_unit_component(y, s, root);
    lemma_unit_component(z, s, root);
    let ux = unit_component(x, root);
    let uy = unit_component(y, root);
    let uz = unit_component(z, root);
    let n = v.normalize_spec();
    assert(n.x == ux && n.y == uy && n.z == uz);
    let total = ux * ux + uy * uy + uz * uz;
    assert(n.norm_squared() == total);
    let rr = root * root;
    let px = x * 0x1_0000_0000;
    let py = y * 0x1_0000_0000;
    let pz = z * 0x1_0000_0000;
    let big = s * 0x1_0000_0000;
    assert(px * px + py * py + pz * pz == big * 0x1_0000_0000) by (nonlinear_arith)
        requires
            px == x * 0x1_0000_0000,
            py == y * 0x1_0000_0000,
            pz == z * 0x1_0000_0000,
            big == (x * x + y * y + z * z) * 0x1_0000_0000,
    ;
    assert(total * rr == ux * ux * rr + uy * uy * rr + uz * uz * rr) by (nonlinear_arith)
        requires
            total == ux * ux + uy * uy + uz * uz,
    ;
    // rr <= big < (root + 1)^2 <= rr + 131073 * rr / 2^32
    assert((root + 1) * (root + 1) * 0x1_0000_0000 <= rr * 0x1_0000_0000 + 131073 * rr)
        by (nonlinear_arith)
        requires
            root >= 65536,
            rr == root * root,
    ;
    assert(big * 0x1_0000_0000 >= rr * 0x1_0000_0000 && big * 0x1_0000_0000 < (root + 1) * (root
        + 1) * 0x1_0000_0000) by (nonlinear_arith)
        requires
            rr <= big,
            big < (root + 1) * (root + 1),
    ;
    let squares = px * px + py * py + pz * pz;
    assert(total * rr >= squares - 196611 * rr);
    assert(total * rr <= squares + 196608 * rr);
    assert(squares >= rr * 0x1_0000_0000);
    assert(squares < rr * 0x1_0000_0000 + 131073 * rr);
    assert(total * rr >= (0x1_0000_0000 - 196611) * rr) by (nonlinear_arith)
        requires
            total * rr >= squares - 196611 * rr,
            squares >= rr * 0x1_0000_0000,
    ;
    assert(total * rr <= (0x1_0000_0000 + 131073 + 196608) * rr) by (nonlinear_arith)
        requires
            total * rr <= squares + 196608 * rr,
            squares < rr * 0x1_0000_0000 + 131073 * rr,
    ;
    assert(total >= 0x1_0000_0000 - 196611 && total <= 0x1_0000_0000 + 327681) by (nonlinear_arith)
        requires
            total * rr >= (0x1_0000_0000 - 196611) * rr,
            total * rr <= (0x1_0000_0000 + 131073 + 196608) * rr,
            rr > 0,
    ;
}

/// Every non-negative number has an integer square root.
proof fn lemma_fine_length_exists(s: int)
    requires
        1 <= s < 0x1_0000_0000_0000_0000,
    ensures
        is_floor_sqrt(s * 0x1_0000_0000, floor_sqrt(s * 0x1_0000_0000)),
{
    let n = s * 0x1_0000_0000;
    lemma_root_exists(n, 0x1_0000_0000_0000);
}

/// A number below the square of `bound` has an integer square root.
proof fn lemma_root_exists(n: int, bound: int)
    requires
        0 <= n < bound * bound,
        bound >= 1,
    ensures
        is_floor_sqrt(n, floor_sqrt(n)),
    decreases bound,
{
    if bound == 1 {
        assert(is_floor_sqrt(n, 0));
    } else if n >= (bound - 1) * (bound - 1) {
        assert(is_floor_sqrt(n, bound - 1));
    } else {
        lemma_root_exists(n, bound - 1);
    }
}

fn nearest_unit(x: Fixed, root: u128) -> (u: Fixed)
    requires
        65536 <= root < 0x1_0000_0000_0000,
        -65536 <= unit_component(x as int, root as int) <= 65536,
    ensures
        u == unit_component(x as int, root as int),
{
    let n: i128 = 2 * ((x as i128) * 0x1_0000_0000) + root as i128;
    div_floor(n, 2 * (root as i128)) as i32
}

impl Vec2 {
    pub fn new(x: Fixed, y: Fixed) -> (v: Vec2)
        ensures
            v == (Vec2 { x, y }),
    {
        Vec2 { x, y }
    }
}

impl Vec3 {
    pub fn new(x: Fixed, y: Fixed, z: Fixed) -> (v: Vec3)
        ensures
            v == (Vec3 { x, y, z }),
    {
        Vec3 { x, y, z }
    }

    /// The squared length, in units of 2^-32.
    pub open spec fn norm_squared(self) -> int {
        self.x as int * self.x as int + self.y as int * self.y as int + self.z as int
            * self.z as int
    }

    /// The length, rounded down.
    pub open spec fn length_spec(self) -> int {
        floor_sqrt(self.norm_squared())
    }

    /// The dot product, rounded down and saturated.
    pub open spec fn dot_spec(self, other: Vec3) -> int {
        saturate(
            (self.x as int * other.x as int + self.y as int * other.y as int + self.z as int
                * other.z as int) / 65536,
        )
    }

    /// The length in units of 2^-32, rounded down.
    pub open spec fn fine_length_spec(self) -> int {
        floor_sqrt(self.norm_squared() * 0x1_0000_0000)
    }

    /// The vector scaled to unit length, each component rounded to the
    /// nearest fixed-point value; the zero vector stays zero.
    pub open spec fn normalize_spec(self) -> Vec3 {
        if self.norm_squared() == 0 {
            Vec3 { x: 0, y: 0, z: 0 }
        } else {
            Vec3 {
                x: unit_component(self.x as int, self.fine_length_spec()) as i32,
                y: unit_component(self.y as int, self.fine_length_spec()) as i32,
                z: unit_component(self.z as int, self.fine_length_spec()) as i32,
            }
        }
    }

    /// The component-wise difference, saturated.
    pub open spec fn sub_spec(self, other: Vec3) -> Vec3 {
        Vec3 {
            x: saturate(self.x as int - other.x as int) as i32,
            y: saturate(self.y as int - other.y as int) as i32,
            z: saturate(self.z as int - other.z as int) as i32,
        }
    }

    fn norm_squared_exec(&self) -> (n: u64)
        ensures
            n == self.norm_squared(),
    {
        proof {
            lemma_mul_bounded(self.x as int, self.x as int, 2147483648, 2147483648);
            lemma_mul_bounded(self.y as int, self.y as int, 2147483648, 2147483648);
            lemma_mul_bounded(self.z as int, self.z as int, 2147483648, 2147483648);
            assert(self.x as int * self.x as int >= 0) by (nonlinear_arith);
            assert(self.y as int * self.y as int >= 0) by (nonlinear_arith);
            assert(self.z as int * self.z as int >= 0) by (nonlinear_arith);
        }
        let x: i128 = self.x as i128;
        let y: i128 = self.y as i128;
        let z: i128 = self.z as i128;
        (x * x + y * y + z * z) as u64
    }

    /// The length, rounded down.
    pub fn length(&self) -> (len: u64)
        ensures
            len == self.length_spec(),
    {
        isqrt(self.norm_squared_exec())
    }

    pub fn dot(&self, other: &Vec3) -> (d: Fixed)
        ensures
            d == self.dot_spec(*other),
    {
        proof {
            lemma_mul_bounded(self.x as int, other.x as int, 2147483648, 2147483648);
            lemma_mul_bounded(self.y as int, other.y as int, 2147483648, 2147483648);
            lemma_mul_bounded(self.z as int, other.z as int, 2147483648, 2147483648);
        }
        let n: i128 = (self.x as i128) * (other.x as i128) + (self.y as i128) * (other.y as i128)
            + (self.z as i128) * (other.z as i128);
        saturate_fixed(div_floor(n, 65536))
    }

    /// Scales the vector to unit length. Only the zero vector gives the
    /// zero vector; every other result is within three units of precision
    /// of unit length.
    pub fn normalize(&self) -> (v: Vec3)
        ensures
            v == self.normalize_spec(),
            self.norm_squared() != 0 ==> 65534 * 65534 <= v.norm_squared() <= 65539 * 65539,
    {
        let squared: u64 = self.norm_squared_exec();
        if squared == 0 {
            Vec3 { x: 0, y: 0, z: 0 }
        } else {
            let root: u128 = isqrt_wide((squared as u128) * 0x1_0000_0000);
            proof {
                lemma_normalize_length(*self);
                lemma_component_square(self.x as int, self.y as int, self.z as int);
                lemma_component_square(self.y as int, self.x as int, self.z as int);
                lemma_component_square(self.z as int, self.x as int, self.y as int);
                lemma_unit_component(self.x as int, self.norm_squared(), root as int);
                lemma_unit_component(self.y as int, self.norm_squared(), root as int);
                lemma_unit_component(self.z as int, self.norm_squared(), root as int);
            }
            Vec3 {
                x: nearest_unit(self.x, root),
                y: nearest_unit(self.y, root),
                z: nearest_unit(self.z, root),
            }
        }
    }

    pub fn sub(&self, other: &Vec3) -> (v: Vec3)
        ensures
            v == self.sub_spec(*other),
    {
        Vec3 {
            x: saturate_fixed(self.x as i128 - other.x as i128),
            y: saturate_fixed(self.y as i128 - other.y as i128),
            z: saturate_fixed(self.z as i128 - other.z as i128),
        }
    }
}

} // verus!
