//! The rasterizer: lines, wireframe triangles and filled triangles.
//!
//! Coverage of a filled triangle is decided on exact integer edge functions
//! at pixel centres: a pixel belongs to the triangle exactly when no edge
//! function has the sign opposite to the triangle's area, so pixels whose
//! centre lies on an edge are included. Triangles of either winding are
//! drawn, and a triangle of zero area produces nothing.
//!
//! Attributes are interpolated with exact weights: over a triangle by the
//! edge functions over the area, along a line by the step over the number
//! of steps. Each interpolated value is rounded once, so a value that is
//! representable comes out exactly, and the result does not depend on the
//! order of the corners.

use vstd::prelude::*;
use crate::color::Color;
use crate::fixed::{
    ceil_sqrt, clamp_int, div_floor, isqrt_ceil, lemma_div_unique, lemma_mul_bounded, saturate,
    saturate_fixed, Fixed,
};
use crate::fragment::Fragment;
use crate::framebuffer::lemma_index_in_range;
use crate::vector::{Vec2, Vec3};
use crate::vertex::Vertex;

verus! {

/// The edge function `(c - a) x (b - a)`: twice the signed area of the
/// triangle `a, b, c`, in units of 2^-32.
pub open spec fn edge_spec(a: Vec3, b: Vec3, c: Vec3) -> int {
    (c.x as int - a.x as int) * (b.y as int - a.y as int) - (c.y as int - a.y as int) * (b.x as int
        - a.x as int)
}

/// Whether the triangle `a, b, c` covers the point `p`: the triangle has
/// area, and no edge function at `p` has the sign opposite to the area.
pub open spec fn covers(p: Vec3, a: Vec3, b: Vec3, c: Vec3) -> bool {
    let area = edge_spec(a, b, c);
    let e1 = edge_spec(b, c, p);
    let e2 = edge_spec(c, a, p);
    let e3 = edge_spec(a, b, p);
    ||| area > 0 && e1 >= 0 && e2 >= 0 && e3 >= 0
    ||| area < 0 && e1 <= 0 && e2 <= 0 && e3 <= 0
}

/// Whether `p` lies strictly inside the triangle `a, b, c`.
pub open spec fn strictly_inside(p: Vec3, a: Vec3, b: Vec3, c: Vec3) -> bool {
    let area = edge_spec(a, b, c);
    let e1 = edge_spec(b, c, p);
    let e2 = edge_spec(c, a, p);
    let e3 = edge_spec(a, b, p);
    ||| area > 0 && e1 > 0 && e2 > 0 && e3 > 0
    ||| area < 0 && e1 < 0 && e2 < 0 && e3 < 0
}

/// Exact barycentric weights: three numerators over one positive
/// denominator. The weight of the first corner is `w1 / area`, and so on.
#[derive(Debug, Copy, Clone, PartialEq, Eq, Structural)]
pub struct Weights {
    pub w1: i128,
    pub w2: i128,
    pub w3: i128,
    pub area: i128,
}

impl Weights {
    /// The weights are fractions of a positive whole and add up to it.
    pub open spec fn wf(self) -> bool {
        &&& 0 < self.area <= 0x2_0000_0000_0000_0000
        &&& 0 <= self.w1
        &&& 0 <= self.w2
        &&& 0 <= self.w3
        &&& self.w1 + self.w2 + self.w3 == self.area
    }
}

/// The exact barycentric weights of `p` in the triangle `a, b, c`: the edge
/// functions opposite each corner over the area, with the signs turned so
/// that the area is positive.
pub open spec fn weights_spec(p: Vec3, a: Vec3, b: Vec3, c: Vec3) -> Weights {
    let area = edge_spec(a, b, c);
    if area > 0 {
        Weights {
            w1: edge_spec(b, c, p) as i128,
            w2: edge_spec(c, a, p) as i128,
            w3: edge_spec(a, b, p) as i128,
            area: area as i128,
        }
    } else {
        Weights {
            w1: (-edge_spec(b, c, p)) as i128,
            w2: (-edge_spec(c, a, p)) as i128,
            w3: (-edge_spec(a, b, p)) as i128,
            area: (-area) as i128,
        }
    }
}

/// A value interpolated over a triangle: the weighted sum of the corner
/// values over the area, rounded down and saturated. It does not depend on
/// the order in which the corners are given.
pub open spec fn interpolate_spec(a: int, b: int, c: int, w: Weights) -> int {
    saturate((a * w.w1 + b * w.w2 + c * w.w3) / (w.area as int))
}

/// A vector interpolated over a triangle.
pub open spec fn interpolate3_spec(a: Vec3, b: Vec3, c: Vec3, w: Weights) -> Vec3 {
    Vec3 {
        x: interpolate_spec(a.x as int, b.x as int, c.x as int, w) as i32,
        y: interpolate_spec(a.y as int, b.y as int, c.y as int, w) as i32,
        z: interpolate_spec(a.z as int, b.z as int, c.z as int, w) as i32,
    }
}

/// A texture coordinate interpolated over a triangle.
pub open spec fn interpolate2_spec(a: Vec2, b: Vec2, c: Vec2, w: Weights) -> Vec2 {
    Vec2 {
        x: interpolate_spec(a.x as int, b.x as int, c.x as int, w) as i32,
        y: interpolate_spec(a.y as int, b.y as int, c.y as int, w) as i32,
    }
}

/// The three edge functions at any point add up to the triangle's area:
/// the exact barycentric weights sum to one.
pub proof fn lemma_edges_sum_to_area(p: Vec3, a: Vec3, b: Vec3, c: Vec3)
    ensures
        edge_spec(b, c, p) + edge_spec(c, a, p) + edge_spec(a, b, p) == edge_spec(a, b, c),
{
    let ax = a.x as int;
    let ay = a.y as int;
    let bx = b.x as int;
    let by = b.y as int;
    let cx = c.x as int;
    let cy = c.y as int;
    let px = p.x as int;
    let py = p.y as int;
    lemma_expand_product(px, bx, cy, by);
    lemma_expand_product(py, by, cx, bx);
    lemma_expand_product(px, cx, ay, cy);
    lemma_expand_product(py, cy, ax, cx);
    lemma_expand_product(px, ax, by, ay);
    lemma_expand_product(py, ay, bx, ax);
    lemma_expand_product(cx, ax, by, ay);
    lemma_expand_product(cy, ay, bx, ax);
}

/// The product of two differences, multiplied out.
proof fn lemma_expand_product(p: int, q: int, r: int, s: int)
    by (nonlinear_arith)
    ensures
        (p - q) * (r - s) == p * r - p * s - q * r + q * s,
        p * r == r * p,
        p * s == s * p,
        q * r == r * q,
        q * s == s * q,
{
}

/// For a triangle with area and a point strictly inside it, each exact
/// barycentric weight, an edge function over the area, lies strictly
/// between zero and one, and the three sum to exactly one.
pub proof fn lemma_weights_strictly_inside(p: Vec3, a: Vec3, b: Vec3, c: Vec3)
    requires
        strictly_inside(p, a, b, c),
    ensures
        ({
            let area = edge_spec(a, b, c);
            let e1 = edge_spec(b, c, p);
            let e2 = edge_spec(c, a, p);
            let e3 = edge_spec(a, b, p);
            &&& e1 + e2 + e3 == area
            &&& area > 0 ==> 0 < e1 < area && 0 < e2 < area && 0 < e3 < area
            &&& area < 0 ==> area < e1 < 0 && area < e2 < 0 && area < e3 < 0
        }),
{
    lemma_edges_sum_to_area(p, a, b, c);
}

/// The barycentric weights reproduce the point: the corners weighted by
/// the edge functions add up to the point times the area, exactly, for every
/// point of the plane.
pub proof fn lemma_weights_reproduce_point(p: Vec3, a: Vec3, b: Vec3, c: Vec3)
    ensures
        edge_spec(b, c, p) * a.x + edge_spec(c, a, p) * b.x + edge_spec(a, b, p) * c.x == edge_spec(
            a,
            b,
            c,
        ) * p.x,
        edge_spec(b, c, p) * a.y + edge_spec(c, a, p) * b.y + edge_spec(a, b, p) * c.y == edge_spec(
            a,
            b,
            c,
        ) * p.y,
{
    lemma_edges_sum_to_area(p, a, b, c);
    let area = edge_spec(a, b, c);
    let e1 = edge_spec(b, c, p);
    let e2 = edge_spec(c, a, p);
    let e3 = edge_spec(a, b, p);
    let ux = b.x as int - a.x as int;
    let uy = b.y as int - a.y as int;
    let vx = c.x as int - a.x as int;
    let vy = c.y as int - a.y as int;
    let qx = p.x as int - a.x as int;
    let qy = p.y as int - a.y as int;
    assert(area == vx * uy - vy * ux);
    assert(e3 == qx * uy - qy * ux);
    assert(e2 == qy * vx - qx * vy) by {
        let dx = p.x as int - c.x as int;
        let dy = p.y as int - c.y as int;
        assert(e2 == dx * (0 - vy) - dy * (0 - vx));
        assert(dx * (0 - vy) - dy * (0 - vx) == qy * vx - qx * vy) by (nonlinear_arith)
            requires
                dx == qx - vx,
                dy == qy - vy,
        ;
    }
    assert(e2 * ux + e3 * vx == area * qx) by (nonlinear_arith)
        requires
            area == vx * uy - vy * ux,
            e3 == qx * uy - qy * ux,
            e2 == qy * vx - qx * vy,
    ;
    assert(e2 * uy + e3 * vy == area * qy) by (nonlinear_arith)
        requires
            area == vx * uy - vy * ux,
            e3 == qx * uy - qy * ux,
            e2 == qy * vx - qx * vy,
    ;
    let ax = a.x as int;
    let ay = a.y as int;
    assert(e1 * ax + e2 * (ax + ux) + e3 * (ax + vx) == area * (ax + qx)) by (nonlinear_arith)
        requires
            e1 + e2 + e3 == area,
            e2 * ux + e3 * vx == area * qx,
    ;
    assert(e1 * ay + e2 * (ay + uy) + e3 * (ay + vy) == area * (ay + qy)) by (nonlinear_arith)
        requires
            e1 + e2 + e3 == area,
            e2 * uy + e3 * vy == area * qy,
    ;
}

/// For a triangle with area, the corners weighted by the exact weights of
/// any point of the plane give that point back: the weighted sum is the
/// point times the area, with no error at all.
pub proof fn lemma_weights_locate_point(p: Vec3, a: Vec3, b: Vec3, c: Vec3)
    requires
        edge_spec(a, b, c) != 0,
    ensures
        ({
            let w = weights_spec(p, a, b, c);
            &&& w.area > 0
            &&& w.w1 + w.w2 + w.w3 == w.area
            &&& w.w1 * a.x + w.w2 * b.x + w.w3 * c.x == w.area * p.x
            &&& w.w1 * a.y + w.w2 * b.y + w.w3 * c.y == w.area * p.y
        }),
{
    lemma_weights_reproduce_point(p, a, b, c);
    lemma_edges_sum_to_area(p, a, b, c);
    lemma_edge_bound(a, b, c);
    lemma_edge_bound(b, c, p);
    lemma_edge_bound(c, a, p);
    lemma_edge_bound(a, b, p);
    let area = edge_spec(a, b, c);
    let e1 = edge_spec(b, c, p);
    let e2 = edge_spec(c, a, p);
    let e3 = edge_spec(a, b, p);
    let ax = a.x as int;
    let bx = b.x as int;
    let cx = c.x as int;
    let px = p.x as int;
    let ay = a.y as int;
    let by = b.y as int;
    let cy = c.y as int;
    let py = p.y as int;
    assert((-e1) * ax + (-e2) * bx + (-e3) * cx == (-area) * px) by (nonlinear_arith)
        requires
            e1 * ax + e2 * bx + e3 * cx == area * px,
    ;
    assert((-e1) * ay + (-e2) * by + (-e3) * cy == (-area) * py) by (nonlinear_arith)
        requires
            e1 * ay + e2 * by + e3 * cy == area * py,
    ;
}

/// The weights of a covered point are fractions of the area that add up to
/// it; strictly inside the triangle each is strictly between zero and one.
pub proof fn lemma_weights_of_covered(p: Vec3, a: Vec3, b: Vec3, c: Vec3)
    requires
        covers(p, a, b, c),
    ensures
        ({
            let w = weights_spec(p, a, b, c);
            &&& w.wf()
            &&& 0 <= w.w1 <= w.area
            &&& 0 <= w.w2 <= w.area
            &&& 0 <= w.w3 <= w.area
            &&& w.w1 + w.w2 + w.w3 == w.area
            &&& strictly_inside(p, a, b, c) ==> 0 < w.w1 < w.area && 0 < w.w2 < w.area && 0
                < w.w3 < w.area
        }),
{
    lemma_edges_sum_to_area(p, a, b, c);
    lemma_edge_bound(a, b, c);
    lemma_edge_bound(b, c, p);
    lemma_edge_bound(c, a, p);
    lemma_edge_bound(a, b, p);
}

/// An edge function of three points fits comfortably in 128 bits.
proof fn lemma_edge_bound(a: Vec3, b: Vec3, c: Vec3)
    ensures
        -0x2_0000_0000_0000_0000 <= edge_spec(a, b, c) <= 0x2_0000_0000_0000_0000,
{
    lemma_mul_bounded(
        c.x as int - a.x as int,
        b.y as int - a.y as int,
        0x1_0000_0000,
        0x1_0000_0000,
    );
    lemma_mul_bounded(
        c.y as int - a.y as int,
        b.x as int - a.x as int,
        0x1_0000_0000,
        0x1_0000_0000,
    );
}

/// An interpolated value lies between the smallest and the largest corner value.
pub proof fn lemma_interpolate_between(a: int, b: int, c: int, w: Weights, lo: int, hi: int)
    requires
        w.wf(),
        lo <= a <= hi,
        lo <= b <= hi,
        lo <= c <= hi,
    ensures
        lo <= (a * w.w1 + b * w.w2 + c * w.w3) / (w.area as int) <= hi,
{
    let area = w.area as int;
    let n = a * w.w1 + b * w.w2 + c * w.w3;
    assert(lo * area <= n <= hi * area) by (nonlinear_arith)
        requires
            n == a * w.w1 + b * w.w2 + c * w.w3,
            w.w1 + w.w2 + w.w3 == area,
            0 <= w.w1,
            0 <= w.w2,
            0 <= w.w3,
            lo <= a <= hi,
            lo <= b <= hi,
            lo <= c <= hi,
    ;
    let q = n / area;
    let r = n % area;
    assert(n == area * q + r && 0 <= r < area) by (nonlinear_arith)
        requires
            area > 0,
            q == n / area,
            r == n % area,
    ;
    assert(lo <= q <= hi) by (nonlinear_arith)
        requires
            n == area * q + r,
            0 <= r < area,
            lo * area <= n <= hi * area,
    ;
}

/// The pixel column or row that holds a fixed-point coordinate.
pub open spec fn pixel_floor(v: int) -> int {
    v / 65536
}

/// The first pixel boundary at or after a fixed-point coordinate.
pub open spec fn pixel_ceil(v: int) -> int {
    (v + 65535) / 65536
}

pub open spec fn min3(a: int, b: int, c: int) -> int {
    if a <= b && a <= c {
        a
    } else if b <= c {
        b
    } else {
        c
    }
}

pub open spec fn max3(a: int, b: int, c: int) -> int {
    if a >= b && a >= c {
        a
    } else if b >= c {
        b
    } else {
        c
    }
}

fn min3_fixed(a: Fixed, b: Fixed, c: Fixed) -> (m: Fixed)
    ensures
        m == min3(a as int, b as int, c as int),
{
    if a <= b && a <= c {
        a
    } else if b <= c {
        b
    } else {
        c
    }
}

fn max3_fixed(a: Fixed, b: Fixed, c: Fixed) -> (m: Fixed)
    ensures
        m == max3(a as int, b as int, c as int),
{
    if a >= b && a >= c {
        a
    } else if b >= c {
        b
    } else {
        c
    }
}

/// The edge function, computed exactly.
pub fn edge_function(a: &Vec3, b: &Vec3, c: &Vec3) -> (e: i128)
    ensures
        e == edge_spec(*a, *b, *c),
        -0x2_0000_0000_0000_0000 <= e <= 0x2_0000_0000_0000_0000,
{
    let cx: i128 = c.x as i128 - a.x as i128;
    let by: i128 = b.y as i128 - a.y as i128;
    let cy: i128 = c.y as i128 - a.y as i128;
    let bx: i128 = b.x as i128 - a.x as i128;
    proof {
        lemma_mul_bounded(cx as int, by as int, 0x1_0000_0000, 0x1_0000_0000);
        lemma_mul_bounded(cy as int, bx as int, 0x1_0000_0000, 0x1_0000_0000);
    }
    cx * by - cy * bx
}

/// The pixel bounds `(min_x, min_y, max_x, max_y)` of three points: the
/// smallest coordinates rounded down and the largest rounded up.
pub fn calculate_bounding_box(v1: &Vec3, v2: &Vec3, v3: &Vec3) -> (bounds: (i32, i32, i32, i32))
    ensures
        bounds.0 == pixel_floor(min3(v1.x as int, v2.x as int, v3.x as int)),
        bounds.1 == pixel_floor(min3(v1.y as int, v2.y as int, v3.y as int)),
        bounds.2 == pixel_ceil(max3(v1.x as int, v2.x as int, v3.x as int)),
        bounds.3 == pixel_ceil(max3(v1.y as int, v2.y as int, v3.y as int)),
        bounds.0 <= bounds.2,
        bounds.1 <= bounds.3,
{
    let min_x: i32 = div_floor(min3_fixed(v1.x, v2.x, v3.x) as i128, 65536) as i32;
    let min_y: i32 = div_floor(min3_fixed(v1.y, v2.y, v3.y) as i128, 65536) as i32;
    let max_x: i32 = div_floor(max3_fixed(v1.x, v2.x, v3.x) as i128 + 65535, 65536) as i32;
    let max_y: i32 = div_floor(max3_fixed(v1.y, v2.y, v3.y) as i128 + 65535, 65536) as i32;
    (min_x, min_y, max_x, max_y)
}

/// The exact barycentric weights of `p` in the triangle `a, b, c`, or
/// `None` exactly when the triangle does not cover `p` (which includes every
/// triangle of zero area). The weights are fractions of the area that add
/// up to it; strictly inside the triangle each lies strictly between zero
/// and one, whichever way the triangle winds.
pub fn barycentric_coordinates(p: &Vec3, a: &Vec3, b: &Vec3, c: &Vec3) -> (w: Option<Weights>)
    ensures
        w.is_some() <==> covers(*p, *a, *b, *c),
        w matches Some(t) ==> {
            &&& t == weights_spec(*p, *a, *b, *c)
            &&& t.wf()
            &&& t.w1 <= t.area && t.w2 <= t.area && t.w3 <= t.area
            &&& strictly_inside(*p, *a, *b, *c) ==> 0 < t.w1 < t.area && 0 < t.w2 < t.area && 0
                < t.w3 < t.area
        },
{
    let area: i128 = edge_function(a, b, c);
    let e1: i128 = edge_function(b, c, p);
    let e2: i128 = edge_function(c, a, p);
    let e3: i128 = edge_function(a, b, p);
    if area > 0 && e1 >= 0 && e2 >= 0 && e3 >= 0 {
        proof {
            lemma_weights_of_covered(*p, *a, *b, *c);
        }
        Some(Weights { w1: e1, w2: e2, w3: e3, area })
    } else if area < 0 && e1 <= 0 && e2 <= 0 && e3 <= 0 {
        proof {
            lemma_weights_of_covered(*p, *a, *b, *c);
        }
        Some(Weights { w1: -e1, w2: -e2, w3: -e3, area: -area })
    } else {
        None
    }
}

/// Interpolates a value over a triangle by exact weights.
pub fn interpolate(a: Fixed, b: Fixed, c: Fixed, w: &Weights) -> (r: Fixed)
    requires
        w.wf(),
    ensures
        r == interpolate_spec(a as int, b as int, c as int, *w),
{
    proof {
        lemma_mul_bounded(a as int, w.w1 as int, 2147483648, 0x2_0000_0000_0000_0000);
        lemma_mul_bounded(b as int, w.w2 as int, 2147483648, 0x2_0000_0000_0000_0000);
        lemma_mul_bounded(c as int, w.w3 as int, 2147483648, 0x2_0000_0000_0000_0000);
    }
    let n: i128 = (a as i128) * w.w1 + (b as i128) * w.w2 + (c as i128) * w.w3;
    saturate_fixed(div_floor(n, w.area))
}

fn interpolate3(a: &Vec3, b: &Vec3, c: &Vec3, w: &Weights) -> (r: Vec3)
    requires
        w.wf(),
    ensures
        r == interpolate3_spec(*a, *b, *c, *w),
{
    Vec3 {
        x: interpolate(a.x, b.x, c.x, w),
        y: interpolate(a.y, b.y, c.y, w),
        z: interpolate(a.z, b.z, c.z, w),
    }
}

fn interpolate2(a: &Vec2, b: &Vec2, c: &Vec2, w: &Weights) -> (r: Vec2)
    requires
        w.wf(),
    ensures
        r == interpolate2_spec(*a, *b, *c, *w),
{
    Vec2 { x: interpolate(a.x, b.x, c.x, w), y: interpolate(a.y, b.y, c.y, w) }
}

/// The centre of pixel `(x, y)`.
pub open spec fn pixel_center(x: int, y: int) -> Vec3 {
    Vec3 { x: (x * 65536 + 32768) as i32, y: (y * 65536 + 32768) as i32, z: 0 }
}

/// The direction of the light that flat shading uses: the unit vector
/// along `(0, 1, -1)`.
pub open spec fn flat_light() -> Vec3 {
    Vec3 { x: 0, y: 46341, z: (-46341) as i32 }
}

/// The fragment of a covered pixel: attributes interpolated by the
/// barycentric weights, the normal renormalised, and the base colour lit by
/// `max(0, normal . light)`.
pub open spec fn shaded_fragment(
    v1: Vertex,
    v2: Vertex,
    v3: Vertex,
    light: Vec3,
    base: Color,
    x: int,
    y: int,
) -> Fragment {
    let p = pixel_center(x, y);
    let a = v1.transformed_position;
    let b = v2.transformed_position;
    let c = v3.transformed_position;
    let w = weights_spec(p, a, b, c);
    let normal = interpolate3_spec(
        v1.transformed_normal,
        v2.transformed_normal,
        v3.transformed_normal,
        w,
    ).normalize_spec();
    let facing = normal.dot_spec(light);
    let intensity = if facing < 0 {
        0
    } else {
        facing
    };
    Fragment {
        position: Vec2 { x: p.x, y: p.y },
        color: base.scale_spec(intensity),
        depth: interpolate_spec(a.z as int, b.z as int, c.z as int, w) as i32,
        normal,
        intensity: intensity as i32,
        vertex_position: p,
        uv: Some(interpolate2_spec(v1.tex_coords, v2.tex_coords, v3.tex_coords, w)),
    }
}

/// The fragments of the first `n` pixels of a grid that is `cols` wide and
/// starts at `(min_x, min_y)`, scanned row by row: one fragment for each
/// covered pixel, in scan order.
pub open spec fn scanned(
    v1: Vertex,
    v2: Vertex,
    v3: Vertex,
    light: Vec3,
    base: Color,
    min_x: int,
    min_y: int,
    cols: int,
    n: int,
) -> Seq<Fragment>
    decreases n,
{
    if n <= 0 || cols <= 0 {
        Seq::empty()
    } else {
        let before = scanned(v1, v2, v3, light, base, min_x, min_y, cols, n - 1);
        let x = min_x + (n - 1) % cols;
        let y = min_y + (n - 1) / cols;
        if covers(
            pixel_center(x, y),
            v1.transformed_position,
            v2.transformed_position,
            v3.transformed_position,
        ) {
            before.push(shaded_fragment(v1, v2, v3, light, base, x, y))
        } else {
            before
        }
    }
}

/// The last pixel column or row that is scanned for a largest coordinate:
/// its rounded-up pixel, held to the largest pixel whose centre is representable.
pub open spec fn scan_end(largest: int) -> int {
    if pixel_ceil(largest) > 32767 {
        32767
    } else {
        pixel_ceil(largest)
    }
}

/// The fragments of a filled triangle: its bounding box scanned row by row.
pub open spec fn filled(v1: Vertex, v2: Vertex, v3: Vertex, light: Vec3, base: Color) -> Seq<
    Fragment,
> {
    let a = v1.transformed_position;
    let b = v2.transformed_position;
    let c = v3.transformed_position;
    let min_x = pixel_floor(min3(a.x as int, b.x as int, c.x as int));
    let min_y = pixel_floor(min3(a.y as int, b.y as int, c.y as int));
    let max_x = scan_end(max3(a.x as int, b.x as int, c.x as int));
    let max_y = scan_end(max3(a.y as int, b.y as int, c.y as int));
    let cols = max_x - min_x + 1;
    let rows = max_y - min_y + 1;
    scanned(v1, v2, v3, light, base, min_x, min_y, cols, cols * rows)
}

/// The centre of the pixel with index `j` in a grid that is `cols` wide
/// and starts at `(min_x, min_y)`, counted row by row.
pub open spec fn scan_pixel(min_x: int, min_y: int, cols: int, j: int) -> Vec3 {
    pixel_center(min_x + j % cols, min_y + j / cols)
}

/// Whether the triangle covers the centre of grid pixel `j`.
pub open spec fn scan_covered(
    v1: Vertex,
    v2: Vertex,
    v3: Vertex,
    min_x: int,
    min_y: int,
    cols: int,
    j: int,
) -> bool {
    covers(
        scan_pixel(min_x, min_y, cols, j),
        v1.transformed_position,
        v2.transformed_position,
        v3.transformed_position,
    )
}

/// The number of covered pixels among the first `j` of the grid.
pub open spec fn covered_before(
    v1: Vertex,
    v2: Vertex,
    v3: Vertex,
    min_x: int,
    min_y: int,
    cols: int,
    j: int,
) -> int
    decreases j,
{
    if j <= 0 {
        0
    } else {
        covered_before(v1, v2, v3, min_x, min_y, cols, j - 1) + (if scan_covered(
            v1,
            v2,
            v3,
            min_x,
            min_y,
            cols,
            j - 1,
        ) {
            1int
        } else {
            0int
        })
    }
}

/// The grid pixel that fragment `k` of a scan of `n` pixels comes from.
pub open spec fn scan_source(
    v1: Vertex,
    v2: Vertex,
    v3: Vertex,
    min_x: int,
    min_y: int,
    cols: int,
    n: int,
    k: int,
) -> int
    decreases n,
{
    if n <= 0 {
        -1
    } else if scan_covered(v1, v2, v3, min_x, min_y, cols, n - 1) && k == covered_before(
        v1,
        v2,
        v3,
        min_x,
        min_y,
        cols,
        n - 1,
    ) {
        n - 1
    } else {
        scan_source(v1, v2, v3, min_x, min_y, cols, n - 1, k)
    }
}

/// A scan emits exactly the covered pixels, each once and in scan order:
/// every covered pixel `j` has its fragment at place `covered_before(j)`,
/// and every fragment `k` comes from the covered pixel `scan_source(k)`,
/// whose place is `k`. So no covered pixel is skipped, no other pixel is
/// emitted, and no pixel is emitted twice.
pub proof fn lemma_scan_is_exact(
    v1: Vertex,
    v2: Vertex,
    v3: Vertex,
    light: Vec3,
    base: Color,
    min_x: int,
    min_y: int,
    cols: int,
    n: int,
)
    requires
        cols > 0,
        n >= 0,
    ensures
        scanned(v1, v2, v3, light, base, min_x, min_y, cols, n).len() == covered_before(
            v1,
            v2,
            v3,
            min_x,
            min_y,
            cols,
            n,
        ),
        forall|j: int|
            0 <= j < n && scan_covered(v1, v2, v3, min_x, min_y, cols, j) ==> {
                &&& 0 <= #[trigger] covered_before(v1, v2, v3, min_x, min_y, cols, j) < scanned(
                    v1,
                    v2,
                    v3,
                    light,
                    base,
                    min_x,
                    min_y,
                    cols,
                    n,
                ).len()
                &&& scanned(v1, v2, v3, light, base, min_x, min_y, cols, n)[covered_before(
                    v1,
                    v2,
                    v3,
                    min_x,
                    min_y,
                    cols,
                    j,
                )] == shaded_fragment(v1, v2, v3, light, base, min_x + j % cols, min_y + j / cols)
            },
        forall|k: int|
            0 <= k < scanned(v1, v2, v3, light, base, min_x, min_y, cols, n).len() ==> {
                let j = #[trigger] scan_source(v1, v2, v3, min_x, min_y, cols, n, k);
                &&& 0 <= j < n
                &&& scan_covered(v1, v2, v3, min_x, min_y, cols, j)
                &&& covered_before(v1, v2, v3, min_x, min_y, cols, j) == k
            },
    decreases n,
{
    if n > 0 {
        lemma_scan_is_exact(v1, v2, v3, light, base, min_x, min_y, cols, n - 1);
        let before = scanned(v1, v2, v3, light, base, min_x, min_y, cols, n - 1);
        let now = scanned(v1, v2, v3, light, base, min_x, min_y, cols, n);
        let last = scan_covered(v1, v2, v3, min_x, min_y, cols, n - 1);
        assert(last == covers(
            pixel_center(min_x + (n - 1) % cols, min_y + (n - 1) / cols),
            v1.transformed_position,
            v2.transformed_position,
            v3.transformed_position,
        ));
        assert forall|j: int|
            0 <= j < n && scan_covered(v1, v2, v3, min_x, min_y, cols, j) implies {
            &&& 0 <= #[trigger] covered_before(v1, v2, v3, min_x, min_y, cols, j) < now.len()
            &&& now[covered_before(v1, v2, v3, min_x, min_y, cols, j)] == shaded_fragment(
                v1,
                v2,
                v3,
                light,
                base,
                min_x + j % cols,
                min_y + j / cols,
            )
        } by {
            if j < n - 1 {
                let place = covered_before(v1, v2, v3, min_x, min_y, cols, j);
                assert(before[place] == now[place]);
            }
        }
        assert forall|k: int| 0 <= k < now.len() implies {
            let j = #[trigger] scan_source(v1, v2, v3, min_x, min_y, cols, n, k);
            &&& 0 <= j < n
            &&& scan_covered(v1, v2, v3, min_x, min_y, cols, j)
            &&& covered_before(v1, v2, v3, min_x, min_y, cols, j) == k
        } by {
            if !(last && k == before.len()) {
                assert(k < before.len());
                assert(scan_source(v1, v2, v3, min_x, min_y, cols, n, k) == scan_source(
                    v1,
                    v2,
                    v3,
                    min_x,
                    min_y,
                    cols,
                    n - 1,
                    k,
                ));
            }
        }
    }
}

/// A pixel whose centre the triangle covers lies in the scanned bounding
/// box: the scan of a filled triangle misses no covered pixel of the plane.
pub proof fn lemma_covered_pixel_is_scanned(a: Vec3, b: Vec3, c: Vec3, x: int, y: int)
    requires
        -32768 <= x <= 32767,
        -32768 <= y <= 32767,
        covers(pixel_center(x, y), a, b, c),
    ensures
        pixel_floor(min3(a.x as int, b.x as int, c.x as int)) <= x <= scan_end(
            max3(a.x as int, b.x as int, c.x as int),
        ),
        pixel_floor(min3(a.y as int, b.y as int, c.y as int)) <= y <= scan_end(
            max3(a.y as int, b.y as int, c.y as int),
        ),
{
    let p = pixel_center(x, y);
    lemma_weights_locate_point(p, a, b, c);
    lemma_weights_of_covered(p, a, b, c);
    let w = weights_spec(p, a, b, c);
    lemma_convex(a.x as int, b.x as int, c.x as int, w, p.x as int);
    lemma_convex(a.y as int, b.y as int, c.y as int, w, p.y as int);
}

/// Exchanging the first two points of an edge function changes its sign.
pub proof fn lemma_edge_swap_first(a: Vec3, b: Vec3, c: Vec3)
    ensures
        edge_spec(b, a, c) == -edge_spec(a, b, c),
{
    let ax = a.x as int;
    let ay = a.y as int;
    let bx = b.x as int;
    let by = b.y as int;
    let cx = c.x as int;
    let cy = c.y as int;
    lemma_expand_product(cx, bx, ay, by);
    lemma_expand_product(cy, by, ax, bx);
    lemma_expand_product(cx, ax, by, ay);
    lemma_expand_product(cy, ay, bx, ax);
}

/// Exchanging the last two points of an edge function changes its sign.
pub proof fn lemma_edge_swap_last(a: Vec3, b: Vec3, c: Vec3)
    ensures
        edge_spec(a, c, b) == -edge_spec(a, b, c),
{
    let bx = b.x as int - a.x as int;
    let by = b.y as int - a.y as int;
    let cx = c.x as int - a.x as int;
    let cy = c.y as int - a.y as int;
    assert(bx * cy - by * cx == -(cx * by - cy * bx)) by (nonlinear_arith);
}

/// Coverage and weights follow the corners when two corners are exchanged:
/// exchanging the first two corners exchanges the first two weights, and
/// exchanging the last two corners exchanges the last two weights.
pub proof fn lemma_weights_follow_corners(p: Vec3, a: Vec3, b: Vec3, c: Vec3)
    ensures
        covers(p, b, a, c) == covers(p, a, b, c),
        covers(p, a, c, b) == covers(p, a, b, c),
        edge_spec(a, b, c) != 0 ==> {
            let w = weights_spec(p, a, b, c);
            &&& weights_spec(p, b, a, c) == (Weights { w1: w.w2, w2: w.w1, w3: w.w3, area: w.area })
            &&& weights_spec(p, a, c, b) == (Weights { w1: w.w1, w2: w.w3, w3: w.w2, area: w.area })
        },
{
    lemma_edge_swap_first(a, b, c);
    lemma_edge_swap_last(a, b, c);
    lemma_edge_swap_first(b, c, p);
    lemma_edge_swap_first(c, a, p);
    lemma_edge_swap_first(a, b, p);
}

/// At a corner of a triangle with area, the weight of that corner is one
/// and the other two are zero.
pub proof fn lemma_weights_at_corners(a: Vec3, b: Vec3, c: Vec3)
    requires
        edge_spec(a, b, c) != 0,
    ensures
        ({
            let area = weights_spec(a, a, b, c).area;
            &&& area > 0
            &&& weights_spec(a, a, b, c) == (Weights { w1: area, w2: 0, w3: 0, area })
            &&& weights_spec(b, a, b, c) == (Weights { w1: 0, w2: area, w3: 0, area })
            &&& weights_spec(c, a, b, c) == (Weights { w1: 0, w2: 0, w3: area, area })
        }),
{
    lemma_edge_bound(a, b, c);
    lemma_edges_sum_to_area(a, a, b, c);
    lemma_edges_sum_to_area(b, a, b, c);
    lemma_edges_sum_to_area(c, a, b, c);
    lemma_edge_flat(a, b);
    lemma_edge_flat(b, c);
    lemma_edge_flat(c, a);
}

/// An edge function with a repeated point is zero.
proof fn lemma_edge_flat(a: Vec3, b: Vec3)
    ensures
        edge_spec(a, b, a) == 0,
        edge_spec(a, b, b) == 0,
        edge_spec(a, a, b) == 0,
{
    let x = b.x as int - a.x as int;
    let y = b.y as int - a.y as int;
    assert(x * y - y * x == 0) by (nonlinear_arith);
    assert(0 * y - 0 * x == 0) by (nonlinear_arith);
    assert(x * 0 - y * 0 == 0) by (nonlinear_arith);
}

/// The fragment of a pixel does not depend on the order of the corners.
proof fn lemma_fragment_follows_corners(
    v1: Vertex,
    v2: Vertex,
    v3: Vertex,
    light: Vec3,
    base: Color,
    x: int,
    y: int,
)
    requires
        edge_spec(v1.transformed_position, v2.transformed_position, v3.transformed_position) != 0,
    ensures
        shaded_fragment(v2, v1, v3, light, base, x, y) == shaded_fragment(
            v1,
            v2,
            v3,
            light,
            base,
            x,
            y,
        ),
        shaded_fragment(v1, v3, v2, light, base, x, y) == shaded_fragment(
            v1,
            v2,
            v3,
            light,
            base,
            x,
            y,
        ),
{
    let p = pixel_center(x, y);
    lemma_weights_follow_corners(
        p,
        v1.transformed_position,
        v2.transformed_position,
        v3.transformed_position,
    );
    let w = weights_spec(p, v1.transformed_position, v2.transformed_position, v3.transformed_position);
    let first = Weights { w1: w.w2, w2: w.w1, w3: w.w3, area: w.area };
    let last = Weights { w1: w.w1, w2: w.w3, w3: w.w2, area: w.area };
    assert forall|a: int, b: int, c: int|
        #![trigger interpolate_spec(a, b, c, w)]
        interpolate_spec(b, a, c, first) == interpolate_spec(a, b, c, w) && interpolate_spec(
            a,
            c,
            b,
            last,
        ) == interpolate_spec(a, b, c, w) by {
        assert(b * first.w1 + a * first.w2 + c * first.w3 == a * w.w1 + b * w.w2 + c * w.w3);
        assert(a * last.w1 + c * last.w2 + b * last.w3 == a * w.w1 + b * w.w2 + c * w.w3);
    }
}

/// The scan of a triangle does not depend on the order of its corners.
proof fn lemma_scan_follows_corners(
    v1: Vertex,
    v2: Vertex,
    v3: Vertex,
    light: Vec3,
    base: Color,
    min_x: int,
    min_y: int,
    cols: int,
    n: int,
)
    ensures
        scanned(v2, v1, v3, light, base, min_x, min_y, cols, n) == scanned(
            v1,
            v2,
            v3,
            light,
            base,
            min_x,
            min_y,
            cols,
            n,
        ),
        scanned(v1, v3, v2, light, base, min_x, min_y, cols, n) == scanned(
            v1,
            v2,
            v3,
            light,
            base,
            min_x,
            min_y,
            cols,
            n,
        ),
    decreases n,
{
    if n > 0 && cols > 0 {
        lemma_scan_follows_corners(v1, v2, v3, light, base, min_x, min_y, cols, n - 1);
        let x = min_x + (n - 1) % cols;
        let y = min_y + (n - 1) / cols;
        let p = pixel_center(x, y);
        lemma_weights_follow_corners(
            p,
            v1.transformed_position,
            v2.transformed_position,
            v3.transformed_position,
        );
        if covers(p, v1.transformed_position, v2.transformed_position, v3.transformed_position) {
            lemma_fragment_follows_corners(v1, v2, v3, light, base, x, y);
        }
    }
}

/// A filled triangle does not depend on the order in which its corners are
/// given: the same pixels come out, in the same order, with the same
/// depth, normal, colour and texture coordinate. Exchanging the first two
/// corners and exchanging the last two reach every order.
pub proof fn lemma_filled_follows_corners(
    v1: Vertex,
    v2: Vertex,
    v3: Vertex,
    light: Vec3,
    base: Color,
)
    ensures
        filled(v2, v1, v3, light, base) == filled(v1, v2, v3, light, base),
        filled(v1, v3, v2, light, base) == filled(v1, v2, v3, light, base),
{
    let g = scan_box(v1.transformed_position, v2.transformed_position, v3.transformed_position);
    lemma_filled_is_a_scan(v1, v2, v3, light, base);
    lemma_filled_is_a_scan(v2, v1, v3, light, base);
    lemma_filled_is_a_scan(v1, v3, v2, light, base);
    assert(scan_box(v2.transformed_position, v1.transformed_position, v3.transformed_position)
        == g);
    assert(scan_box(v1.transformed_position, v3.transformed_position, v2.transformed_position)
        == g);
    lemma_scan_follows_corners(v1, v2, v3, light, base, g.0, g.1, g.2, g.2 * g.3);
}

/// The grid that a filled triangle scans: its first column and row, and
/// its numbers of columns and rows.
pub open spec fn scan_box(a: Vec3, b: Vec3, c: Vec3) -> (int, int, int, int) {
    let min_x = pixel_floor(min3(a.x as int, b.x as int, c.x as int));
    let min_y = pixel_floor(min3(a.y as int, b.y as int, c.y as int));
    let max_x = scan_end(max3(a.x as int, b.x as int, c.x as int));
    let max_y = scan_end(max3(a.y as int, b.y as int, c.y as int));
    (min_x, min_y, max_x - min_x + 1, max_y - min_y + 1)
}

/// A filled triangle is the scan of its grid, which lies among the pixels
/// whose centres are representable.
proof fn lemma_filled_is_a_scan(v1: Vertex, v2: Vertex, v3: Vertex, light: Vec3, base: Color)
    ensures
        ({
            let g = scan_box(
                v1.transformed_position,
                v2.transformed_position,
                v3.transformed_position,
            );
            &&& g.2 >= 1
            &&& g.3 >= 1
            &&& g.2 * g.3 >= 0
            &&& -32768 <= g.0
            &&& g.0 + g.2 <= 32768
            &&& -32768 <= g.1
            &&& g.1 + g.3 <= 32768
            &&& filled(v1, v2, v3, light, base) == scanned(
                v1,
                v2,
                v3,
                light,
                base,
                g.0,
                g.1,
                g.2,
                g.2 * g.3,
            )
        }),
{
    let g = scan_box(v1.transformed_position, v2.transformed_position, v3.transformed_position);
    assert(g.2 * g.3 >= 0) by (nonlinear_arith)
        requires
            g.2 >= 1,
            g.3 >= 1,
    ;
}

/// The position of a pixel's fragment is the pixel's centre.
proof fn lemma_fragment_position(
    v1: Vertex,
    v2: Vertex,
    v3: Vertex,
    light: Vec3,
    base: Color,
    x: int,
    y: int,
)
    requires
        -32768 <= x <= 32767,
        -32768 <= y <= 32767,
    ensures
        shaded_fragment(v1, v2, v3, light, base, x, y).position.x == x * 65536 + 32768,
        shaded_fragment(v1, v2, v3, light, base, x, y).position.y == y * 65536 + 32768,
{
}

/// No covered pixel is skipped: every pixel whose centre the triangle
/// covers has its fragment among those of the filled triangle.
pub proof fn lemma_filled_has_every_covered_pixel(
    v1: Vertex,
    v2: Vertex,
    v3: Vertex,
    light: Vec3,
    base: Color,
    x: int,
    y: int,
)
    requires
        -32768 <= x <= 32767,
        -32768 <= y <= 32767,
        covers(
            pixel_center(x, y),
            v1.transformed_position,
            v2.transformed_position,
            v3.transformed_position,
        ),
    ensures
        exists|k: int|
            0 <= k < filled(v1, v2, v3, light, base).len() && #[trigger] filled(
                v1,
                v2,
                v3,
                light,
                base,
            )[k] == shaded_fragment(v1, v2, v3, light, base, x, y),
{
    let a = v1.transformed_position;
    let b = v2.transformed_position;
    let c = v3.transformed_position;
    let g = scan_box(a, b, c);
    lemma_filled_is_a_scan(v1, v2, v3, light, base);
    lemma_covered_pixel_is_scanned(a, b, c, x, y);
    let j = (y - g.1) * g.2 + (x - g.0);
    lemma_index_in_range(g.2, g.3, x - g.0, y - g.1);
    assert(g.2 * (y - g.1) == (y - g.1) * g.2) by (nonlinear_arith);
    lemma_div_unique(j, g.2, y - g.1, x - g.0);
    lemma_scan_is_exact(v1, v2, v3, light, base, g.0, g.1, g.2, g.2 * g.3);
    assert(scan_covered(v1, v2, v3, g.0, g.1, g.2, j));
    let k = covered_before(v1, v2, v3, g.0, g.1, g.2, j);
    assert(filled(v1, v2, v3, light, base)[k] == shaded_fragment(v1, v2, v3, light, base, x, y));
}

/// No other pixel is emitted: every fragment of a filled triangle is the
/// fragment of a pixel whose centre the triangle covers.
pub proof fn lemma_filled_fragment_is_covered(
    v1: Vertex,
    v2: Vertex,
    v3: Vertex,
    light: Vec3,
    base: Color,
    k: int,
)
    requires
        0 <= k < filled(v1, v2, v3, light, base).len(),
    ensures
        exists|x: int, y: int|
            -32768 <= x <= 32767 && -32768 <= y <= 32767 && covers(
                pixel_center(x, y),
                v1.transformed_position,
                v2.transformed_position,
                v3.transformed_position,
            ) && filled(v1, v2, v3, light, base)[k] == #[trigger] shaded_fragment(
                v1,
                v2,
                v3,
                light,
                base,
                x,
                y,
            ),
{
    let g = scan_box(v1.transformed_position, v2.transformed_position, v3.transformed_position);
    lemma_filled_is_a_scan(v1, v2, v3, light, base);
    lemma_scan_is_exact(v1, v2, v3, light, base, g.0, g.1, g.2, g.2 * g.3);
    let j = scan_source(v1, v2, v3, g.0, g.1, g.2, g.2 * g.3, k);
    lemma_grid_pixel(g.2, g.3, j);
    let x = g.0 + j % g.2;
    let y = g.1 + j / g.2;
    assert(covered_before(v1, v2, v3, g.0, g.1, g.2, j) == k);
    assert(scan_covered(v1, v2, v3, g.0, g.1, g.2, j));
    assert(filled(v1, v2, v3, light, base)[k] == shaded_fragment(v1, v2, v3, light, base, x, y));
}

/// No pixel is emitted twice: two fragments of a filled triangle never
/// share a position.
pub proof fn lemma_filled_positions_differ(
    v1: Vertex,
    v2: Vertex,
    v3: Vertex,
    light: Vec3,
    base: Color,
    k1: int,
    k2: int,
)
    requires
        0 <= k1 < k2 < filled(v1, v2, v3, light, base).len(),
    ensures
        filled(v1, v2, v3, light, base)[k1].position != filled(v1, v2, v3, light, base)[k2].position,
{
    let g = scan_box(v1.transformed_position, v2.transformed_position, v3.transformed_position);
    let f = filled(v1, v2, v3, light, base);
    lemma_filled_is_a_scan(v1, v2, v3, light, base);
    lemma_scan_is_exact(v1, v2, v3, light, base, g.0, g.1, g.2, g.2 * g.3);
    let j1 = scan_source(v1, v2, v3, g.0, g.1, g.2, g.2 * g.3, k1);
    let j2 = scan_source(v1, v2, v3, g.0, g.1, g.2, g.2 * g.3, k2);
    lemma_grid_pixel(g.2, g.3, j1);
    lemma_grid_pixel(g.2, g.3, j2);
    assert(covered_before(v1, v2, v3, g.0, g.1, g.2, j1) == k1);
    assert(covered_before(v1, v2, v3, g.0, g.1, g.2, j2) == k2);
    assert(j1 != j2);
    let x1 = g.0 + j1 % g.2;
    let y1 = g.1 + j1 / g.2;
    let x2 = g.0 + j2 % g.2;
    let y2 = g.1 + j2 / g.2;
    assert(x1 != x2 || y1 != y2);
    assert(scan_covered(v1, v2, v3, g.0, g.1, g.2, j1));
    assert(scan_covered(v1, v2, v3, g.0, g.1, g.2, j2));
    assert(f[k1] == shaded_fragment(v1, v2, v3, light, base, x1, y1));
    assert(f[k2] == shaded_fragment(v1, v2, v3, light, base, x2, y2));
    lemma_fragment_position(v1, v2, v3, light, base, x1, y1);
    lemma_fragment_position(v1, v2, v3, light, base, x2, y2);
}

/// A pixel index of a grid splits into a column and a row of the grid, and
/// the split determines the index.
proof fn lemma_grid_pixel(cols: int, rows: int, j: int)
    requires
        cols >= 1,
        0 <= j < cols * rows,
    ensures
        0 <= j % cols < cols,
        0 <= j / cols < rows,
        j == cols * (j / cols) + j % cols,
{
    let q = j / cols;
    let r = j % cols;
    assert(j == cols * q + r && 0 <= r < cols) by (nonlinear_arith)
        requires
            cols >= 1,
            q == j / cols,
            r == j % cols,
    ;
    assert(0 <= q < rows) by (nonlinear_arith)
        requires
            j == cols * q + r,
            0 <= r < cols,
            0 <= j < cols * rows,
            cols >= 1,
    ;
}

/// A weighted mean, with weights that add up to the whole, lies between
/// the smallest and the largest of the values.
proof fn lemma_convex(a: int, b: int, c: int, w: Weights, p: int)
    requires
        w.wf(),
        w.w1 * a + w.w2 * b + w.w3 * c == w.area * p,
    ensures
        min3(a, b, c) <= p <= max3(a, b, c),
{
    let lo = min3(a, b, c);
    let hi = max3(a, b, c);
    let area = w.area as int;
    assert(lo * area <= area * p <= hi * area) by (nonlinear_arith)
        requires
            w.w1 * a + w.w2 * b + w.w3 * c == area * p,
            w.w1 + w.w2 + w.w3 == area,
            0 <= w.w1,
            0 <= w.w2,
            0 <= w.w3,
            lo <= a <= hi,
            lo <= b <= hi,
            lo <= c <= hi,
    ;
    assert(lo <= p <= hi) by (nonlinear_arith)
        requires
            lo * area <= area * p <= hi * area,
            area > 0,
    ;
}

/// Rasterizes a filled triangle: one fragment for every pixel whose centre
/// the triangle covers, row by row, lit by the unit vector `light_dir` on
/// `base_color`.
pub fn fill_triangle(v1: &Vertex, v2: &Vertex, v3: &Vertex, light_dir: &Vec3, base_color: Color) -> (fragments:
    Vec<Fragment>)
    ensures
        fragments@ == filled(*v1, *v2, *v3, *light_dir, base_color),
{
    let a: Vec3 = v1.transformed_position;
    let b: Vec3 = v2.transformed_position;
    let c: Vec3 = v3.transformed_position;
    let bounds: (i32, i32, i32, i32) = calculate_bounding_box(&a, &b, &c);
    let min_x: i64 = bounds.0 as i64;
    let min_y: i64 = bounds.1 as i64;
    let max_x: i64 = if bounds.2 > 32767 {
        32767
    } else {
        bounds.2 as i64
    };
    let max_y: i64 = if bounds.3 > 32767 {
        32767
    } else {
        bounds.3 as i64
    };
    let cols: i64 = max_x - min_x + 1;
    let ghost rows: int = max_y - min_y + 1;
    let mut fragments: Vec<Fragment> = Vec::new();
    let mut y: i64 = min_y;
    assert((y - min_y) * cols == 0) by (nonlinear_arith)
        requires
            y == min_y,
    ;
    while y <= max_y
        invariant
            -32768 <= min_x <= max_x <= 32767,
            -32768 <= min_y <= y <= max_y + 1 <= 32768,
            cols == max_x - min_x + 1,
            a == v1.transformed_position,
            b == v2.transformed_position,
            c == v3.transformed_position,
            fragments@ == scanned(
                *v1,
                *v2,
                *v3,
                *light_dir,
                base_color,
                min_x as int,
                min_y as int,
                cols as int,
                (y - min_y) * cols,
            ),
        decreases max_y + 1 - y,
    {
        let mut x: i64 = min_x;
        while x <= max_x
            invariant
                -32768 <= min_x <= x <= max_x + 1 <= 32768,
                -32768 <= min_y <= y <= max_y <= 32767,
                cols == max_x - min_x + 1,
                a == v1.transformed_position,
                b == v2.transformed_position,
                c == v3.transformed_position,
                fragments@ == scanned(
                    *v1,
                    *v2,
                    *v3,
                    *light_dir,
                    base_color,
                    min_x as int,
                    min_y as int,
                    cols as int,
                    (y - min_y) * cols + (x - min_x),
                ),
            decreases max_x + 1 - x,
        {
            let ghost n: int = (y - min_y) * cols + (x - min_x) + 1;
            proof {
                assert(0 <= (y - min_y) * cols) by (nonlinear_arith)
                    requires
                        y - min_y >= 0,
                        cols >= 1,
                ;
                assert(cols * (y - min_y) == (y - min_y) * cols) by (nonlinear_arith);
                lemma_div_unique(n - 1, cols as int, (y - min_y) as int, (x - min_x) as int);
            }
            let point: Vec3 = Vec3::new((x * 65536 + 32768) as i32, (y * 65536 + 32768) as i32, 0);
            assert(point == pixel_center(x as int, y as int));
            match barycentric_coordinates(&point, &a, &b, &c) {
                Some(w) => {
                    let normal: Vec3 = interpolate3(
                        &v1.transformed_normal,
                        &v2.transformed_normal,
                        &v3.transformed_normal,
                        &w,
                    ).normalize();
                    let facing: Fixed = normal.dot(light_dir);
                    let intensity: Fixed = if facing < 0 {
                        0
                    } else {
                        facing
                    };
                    let lit_color: Color = base_color * intensity;
                    let depth: Fixed = interpolate(a.z, b.z, c.z, &w);
                    let tex_coords: Vec2 = interpolate2(
                        &v1.tex_coords,
                        &v2.tex_coords,
                        &v3.tex_coords,
                        &w,
                    );
                    fragments.push(
                        Fragment::new(
                            Vec2::new(point.x, point.y),
                            lit_color,
                            depth,
                            normal,
                            intensity,
                            point,
                            Some(tex_coords),
                        ),
                    );
                },
                None => {},
            }
            x = x + 1;
        }
        assert((y + 1 - min_y) * cols == (y - min_y) * cols + (max_x + 1 - min_x)) by (nonlinear_arith)
            requires
                cols == max_x - min_x + 1,
        ;
        y = y + 1;
    }
    assert((y - min_y) * cols == cols * rows) by (nonlinear_arith)
        requires
            y - min_y == rows,
    ;
    fragments
}

/// Rasterizes a filled triangle with flat Lambert shading: a white base
/// colour lit from the fixed unit direction along `(0, 1, -1)`.
pub fn triangle_flat_shade(v1: &Vertex, v2: &Vertex, v3: &Vertex) -> (fragments: Vec<Fragment>)
    ensures
        fragments@ == filled(*v1, *v2, *v3, flat_light(), Color { r: 255, g: 255, b: 255 }),
{
    let light_dir: Vec3 = Vec3::new(0, 46341, -46341);
    fill_triangle(v1, v2, v3, &light_dir, Color::new(255, 255, 255))
}

/// The number of steps a line takes between two points: its length in
/// pixels rounded up, and at least one.
pub open spec fn line_steps(a: Vec3, b: Vec3) -> int {
    let dx = b.x as int - a.x as int;
    let dy = b.y as int - a.y as int;
    let pixels = ceil_sqrt((dx * dx + dy * dy + 0xFFFF_FFFF) / 0x1_0000_0000);
    if pixels < 1 {
        1
    } else {
        pixels
    }
}

/// A value at step `i` of `steps` on the way from `a` to `b`: the exact
/// fraction of the way, rounded down to a fixed-point value.
pub open spec fn along_spec(a: int, b: int, i: int, steps: int) -> int {
    saturate(a + ((b - a) * i) / steps)
}

/// A colour channel at step `i` of `steps` on the way from `a` to `b`,
/// rounded to the nearest byte.
pub open spec fn channel_along_spec(a: int, b: int, i: int, steps: int) -> int {
    clamp_int((2 * (a * steps + (b - a) * i) + steps) / (2 * steps), 0, 255)
}

/// A vector at step `i` of `steps` on the way from `a` to `b`.
pub open spec fn along3_spec(a: Vec3, b: Vec3, i: int, steps: int) -> Vec3 {
    Vec3 {
        x: along_spec(a.x as int, b.x as int, i, steps) as i32,
        y: along_spec(a.y as int, b.y as int, i, steps) as i32,
        z: along_spec(a.z as int, b.z as int, i, steps) as i32,
    }
}

/// The fragment at step `i` of a line of `steps` steps: every attribute is
/// interpolated by the exact progress `i / steps`.
pub open spec fn line_fragment(v1: Vertex, v2: Vertex, steps: int, i: int) -> Fragment {
    let at = along3_spec(v1.transformed_position, v2.transformed_position, i, steps);
    Fragment {
        position: Vec2 { x: at.x, y: at.y },
        color: Color {
            r: channel_along_spec(v1.color.r as int, v2.color.r as int, i, steps) as u8,
            g: channel_along_spec(v1.color.g as int, v2.color.g as int, i, steps) as u8,
            b: channel_along_spec(v1.color.b as int, v2.color.b as int, i, steps) as u8,
        },
        depth: at.z,
        normal: along3_spec(v1.transformed_normal, v2.transformed_normal, i, steps).normalize_spec(),
        intensity: 0,
        vertex_position: at,
        uv: Some(
            Vec2 {
                x: along_spec(v1.tex_coords.x as int, v2.tex_coords.x as int, i, steps) as i32,
                y: along_spec(v1.tex_coords.y as int, v2.tex_coords.y as int, i, steps) as i32,
            },
        ),
    }
}

/// A value along a line starts at `a`, ends at `b`, and where the exact
/// value is a fixed-point number it is that number.
pub proof fn lemma_along_exact(a: int, b: int, i: int, steps: int, exact: int)
    requires
        steps > 0,
        -2147483648 <= a <= 2147483647,
        -2147483648 <= b <= 2147483647,
    ensures
        along_spec(a, b, 0, steps) == a,
        along_spec(a, b, steps, steps) == b,
        (b - a) * i == (exact - a) * steps && -2147483648 <= exact <= 2147483647 ==> along_spec(
            a,
            b,
            i,
            steps,
        ) == exact,
{
    assert((b - a) * 0 == 0);
    assert(((b - a) * steps) / steps == b - a) by {
        assert((b - a) * steps == steps * (b - a)) by (nonlinear_arith);
        lemma_div_unique((b - a) * steps, steps, b - a, 0);
    }
    if (b - a) * i == (exact - a) * steps {
        assert((exact - a) * steps == steps * (exact - a)) by (nonlinear_arith);
        lemma_div_unique((b - a) * i, steps, exact - a, 0);
    }
}

/// The fragments of the line from `v1` to `v2`, both ends included.
pub open spec fn line_spec(v1: Vertex, v2: Vertex) -> Seq<Fragment> {
    let steps = line_steps(v1.transformed_position, v2.transformed_position);
    Seq::new((steps + 1) as nat, |i: int| line_fragment(v1, v2, steps, i))
}

/// A quotient by a positive divisor is no larger in magnitude than the dividend.
proof fn lemma_quotient_bound(n: int, d: int, m: int)
    by (nonlinear_arith)
    requires
        d >= 1,
        -m <= n <= m,
    ensures
        -m <= n / d <= m,
{
}

fn along(a: Fixed, b: Fixed, i: u64, steps: u64) -> (r: Fixed)
    requires
        0 < steps <= 0x1_0000_0000,
        i <= 0x1_0000_0000,
    ensures
        r == along_spec(a as int, b as int, i as int, steps as int),
{
    let d: i128 = b as i128 - a as i128;
    proof {
        lemma_mul_bounded(d as int, i as int, 0x1_0000_0000, 0x1_0000_0000);
        lemma_quotient_bound(d as int * i as int, steps as int, 0x1_0000_0000_0000_0000);
    }
    saturate_fixed(a as i128 + div_floor(d * (i as i128), steps as i128))
}

fn along3(a: &Vec3, b: &Vec3, i: u64, steps: u64) -> (r: Vec3)
    requires
        0 < steps <= 0x1_0000_0000,
        i <= 0x1_0000_0000,
    ensures
        r == along3_spec(*a, *b, i as int, steps as int),
{
    Vec3 {
        x: along(a.x, b.x, i, steps),
        y: along(a.y, b.y, i, steps),
        z: along(a.z, b.z, i, steps),
    }
}

fn channel_along(a: u8, b: u8, i: u64, steps: u64) -> (r: u8)
    requires
        0 < steps <= 0x1_0000_0000,
        i <= 0x1_0000_0000,
    ensures
        r == channel_along_spec(a as int, b as int, i as int, steps as int),
{
    let d: i128 = b as i128 - a as i128;
    proof {
        lemma_mul_bounded(d as int, i as int, 255, 0x1_0000_0000);
        lemma_mul_bounded(a as int, steps as int, 255, 0x1_0000_0000);
    }
    let n: i128 = 2 * ((a as i128) * (steps as i128) + d * (i as i128)) + steps as i128;
    let q: i128 = div_floor(n, 2 * (steps as i128));
    if q < 0 {
        0
    } else if q > 255 {
        255
    } else {
        q as u8
    }
}

fn step_count(a: &Vec3, b: &Vec3) -> (steps: u64)
    ensures
        steps == line_steps(*a, *b),
        1 <= steps <= 0x1_0000_0000,
{
    let dx: i128 = b.x as i128 - a.x as i128;
    let dy: i128 = b.y as i128 - a.y as i128;
    proof {
        lemma_mul_bounded(dx as int, dx as int, 0x1_0000_0000, 0x1_0000_0000);
        lemma_mul_bounded(dy as int, dy as int, 0x1_0000_0000, 0x1_0000_0000);
        assert(dx * dx >= 0) by (nonlinear_arith);
        assert(dy * dy >= 0) by (nonlinear_arith);
    }
    let squared: i128 = dx * dx + dy * dy;
    let pixels: u64 = isqrt_ceil(((squared + 0xFFFF_FFFF) / 0x1_0000_0000) as u64);
    if pixels < 1 {
        1
    } else {
        pixels
    }
}

/// Rasterizes the line from `v1` to `v2`: one fragment per step, with
/// colour, depth, normal and texture coordinates interpolated along it.
/// Coincident ends give the two end fragments.
pub fn line(v1: &Vertex, v2: &Vertex) -> (fragments: Vec<Fragment>)
    ensures
        fragments@ == line_spec(*v1, *v2),
{
    let steps: u64 = step_count(&v1.transformed_position, &v2.transformed_position);
    let mut fragments: Vec<Fragment> = Vec::new();
    let mut i: u64 = 0;
    while i <= steps
        invariant
            1 <= steps <= 0x1_0000_0000,
            i <= steps + 1,
            fragments.len() == i,
            forall|k: int|
                0 <= k < i ==> fragments[k] == line_fragment(*v1, *v2, steps as int, k),
        decreases steps + 1 - i,
    {
        let at: Vec3 = along3(&v1.transformed_position, &v2.transformed_position, i, steps);
        let color: Color = Color::new(
            channel_along(v1.color.r, v2.color.r, i, steps),
            channel_along(v1.color.g, v2.color.g, i, steps),
            channel_along(v1.color.b, v2.color.b, i, steps),
        );
        let normal: Vec3 = along3(&v1.transformed_normal, &v2.transformed_normal, i, steps).normalize();
        let tex_coords: Vec2 = Vec2::new(
            along(v1.tex_coords.x, v2.tex_coords.x, i, steps),
            along(v1.tex_coords.y, v2.tex_coords.y, i, steps),
        );
        fragments.push(
            Fragment::new(Vec2::new(at.x, at.y), color, at.z, normal, 0, at, Some(tex_coords)),
        );
        i = i + 1;
    }
    assert(fragments@ =~= line_spec(*v1, *v2));
    fragments
}

/// Rasterizes the outline of a triangle: the edges from `v1` to `v2`, from
/// `v2` to `v3` and from `v1` to `v3`, in that order.
pub fn triangle_wireframe(v1: &Vertex, v2: &Vertex, v3: &Vertex) -> (fragments: Vec<Fragment>)
    ensures
        fragments@ == line_spec(*v1, *v2) + line_spec(*v2, *v3) + line_spec(*v1, *v3),
{
    let mut fragments: Vec<Fragment> = line(v1, v2);
    let mut second: Vec<Fragment> = line(v2, v3);
    let mut third: Vec<Fragment> = line(v1, v3);
    fragments.append(&mut second);
    fragments.append(&mut third);
    fragments
}

} // verus!
