//! Mesh vertices, and the indexed pipeline that turns them into the
//! fragments of filled triangles.

use vstd::prelude::*;
use crate::color::Color;
use crate::fixed::{div_floor, fixed_ratio, lemma_div_unique, Fixed};
use crate::fragment::Fragment;
use crate::framebuffer::lemma_index_in_range;
use crate::line::{fill_triangle, filled};
use crate::matrix::Vec4;
use crate::render::Uniforms;
use crate::shader::projected_spec;
use crate::vector::{Vec2, Vec3};

verus! {

/// A mesh vertex: the attributes the mesh supplies, and the position and
/// normal that the transform stage derives from them.
#[derive(Debug, Copy, Clone, PartialEq, Eq, Structural)]
pub struct Vertex {
    pub position: Vec3,
    pub normal: Vec3,
    pub tex_coords: Vec2,
    pub color: Color,
    pub transformed_position: Vec3,
    pub transformed_normal: Vec3,
}

impl Vertex {
    /// A black, untransformed vertex: the transformed position and normal
    /// start out as the object-space ones.
    pub fn new(position: Vec3, normal: Vec3, tex_coords: Vec2) -> (v: Vertex)
        ensures
            v == (Vertex {
                position,
                normal,
                tex_coords,
                color: Color { r: 0, g: 0, b: 0 },
                transformed_position: position,
                transformed_normal: normal,
            }),
    {
        Vertex {
            position,
            normal,
            tex_coords,
            color: Color::black(),
            transformed_position: position,
            transformed_normal: normal,
        }
    }
}

/// The clip-space position of an object-space point:
/// `projection * view * model * [position, 1]`.
pub open spec fn view_clip_spec(position: Vec3, uniforms: Uniforms) -> Vec4 {
    uniforms.projection_matrix.apply_spec(
        uniforms.view_matrix.apply_spec(
            uniforms.model_matrix.apply_spec(
                Vec4 { x: position.x, y: position.y, z: position.z, w: 65536 },
            ),
        ),
    )
}

/// A normal carried through the model matrix as a direction, then
/// renormalised.
pub open spec fn model_normal_spec(normal: Vec3, uniforms: Uniforms) -> Vec3 {
    let turned = uniforms.model_matrix.apply_spec(
        Vec4 { x: normal.x, y: normal.y, z: normal.z, w: 0 },
    );
    (Vec3 { x: turned.x, y: turned.y, z: turned.z }).normalize_spec()
}

/// A vertex placed by the model, view and projection matrices, with its
/// normal turned by the model matrix.
pub open spec fn placed_spec(vertex: Vertex, uniforms: Uniforms) -> Vertex {
    Vertex {
        transformed_position: projected_spec(view_clip_spec(vertex.position, uniforms)),
        transformed_normal: model_normal_spec(vertex.normal, uniforms),
        ..vertex
    }
}

/// The transform stage without a viewport: the position after perspective
/// division and the normal turned by the model matrix and renormalised. A
/// vertex whose `w` is zero has no image and is rejected.
pub fn vertex_shader(vertex: &Vertex, uniforms: &Uniforms) -> (out: Option<(Vec3, Vec3)>)
    ensures
        out.is_none() <==> view_clip_spec(vertex.position, *uniforms).w == 0,
        out matches Some(t) ==> {
            &&& t.0 == projected_spec(view_clip_spec(vertex.position, *uniforms))
            &&& t.1 == model_normal_spec(vertex.normal, *uniforms)
        },
{
    let vertex_position_4d: Vec4 = Vec4::new(
        vertex.position.x,
        vertex.position.y,
        vertex.position.z,
        65536,
    );
    let world_position: Vec4 = uniforms.model_matrix.apply(&vertex_position_4d);
    let view_position: Vec4 = uniforms.view_matrix.apply(&world_position);
    let projected_position: Vec4 = uniforms.projection_matrix.apply(&view_position);
    let w: Fixed = projected_position.w;
    if w == 0 {
        None
    } else {
        let screen_position: Vec3 = Vec3::new(
            fixed_ratio(projected_position.x, w),
            fixed_ratio(projected_position.y, w),
            fixed_ratio(projected_position.z, w),
        );
        let normal: Vec4 = uniforms.model_matrix.apply(
            &Vec4::new(vertex.normal.x, vertex.normal.y, vertex.normal.z, 0),
        );
        let transformed_normal: Vec3 = Vec3::new(normal.x, normal.y, normal.z).normalize();
        Some((screen_position, transformed_normal))
    }
}

/// A fixed-point coordinate cut to a whole pixel, towards zero.
pub open spec fn pixel_trunc(v: int) -> int {
    if v >= 0 {
        v / 65536
    } else {
        -((-v) / 65536)
    }
}

/// The smaller of two values.
pub open spec fn min2(a: int, b: int) -> int {
    if a <= b {
        a
    } else {
        b
    }
}

/// The larger of two values.
pub open spec fn max2(a: int, b: int) -> int {
    if a >= b {
        a
    } else {
        b
    }
}

/// The fragment of a block pixel: a flat colour at a flat depth.
pub open spec fn block_fragment(x: int, y: int, depth: Fixed, color: Color) -> Fragment {
    Fragment {
        position: Vec2 { x: (x * 65536) as i32, y: (y * 65536) as i32 },
        color,
        depth,
        normal: Vec3 { x: 0, y: 0, z: 0 },
        intensity: 0,
        vertex_position: Vec3 { x: (x * 65536) as i32, y: (y * 65536) as i32, z: 0 },
        uv: None,
    }
}

/// The block of a triangle: every pixel of its bounding box, column by
/// column, in one colour and at the mean depth of the corners.
pub open spec fn block_spec(v0: Vec3, v1: Vec3, v2: Vec3, color: Color) -> Seq<Fragment> {
    let min_x = pixel_trunc(min2(min2(v0.x as int, v1.x as int), v2.x as int));
    let max_x = pixel_trunc(max2(max2(v0.x as int, v1.x as int), v2.x as int));
    let min_y = pixel_trunc(min2(min2(v0.y as int, v1.y as int), v2.y as int));
    let max_y = pixel_trunc(max2(max2(v0.y as int, v1.y as int), v2.y as int));
    let rows = max_y - min_y + 1;
    let depth = ((v0.z as int + v1.z as int + v2.z as int) / 3) as i32;
    Seq::new(
        ((max_x - min_x + 1) * rows) as nat,
        |i: int| block_fragment(min_x + i / rows, min_y + i % rows, depth, color),
    )
}

fn trunc_pixel(v: Fixed) -> (p: i64)
    ensures
        p == pixel_trunc(v as int),
        -32768 <= p <= 32767,
{
    (v / 65536) as i64
}

fn smallest(a: Fixed, b: Fixed, c: Fixed) -> (m: Fixed)
    ensures
        m == min2(min2(a as int, b as int), c as int),
{
    let ab: Fixed = if a <= b {
        a
    } else {
        b
    };
    if ab <= c {
        ab
    } else {
        c
    }
}

fn largest(a: Fixed, b: Fixed, c: Fixed) -> (m: Fixed)
    ensures
        m == max2(max2(a as int, b as int), c as int),
{
    let ab: Fixed = if a >= b {
        a
    } else {
        b
    };
    if ab >= c {
        ab
    } else {
        c
    }
}

/// Rasterizes the bounding box of three points as a block of one colour.
pub fn rasterize_triangle(v0: Vec3, v1: Vec3, v2: Vec3, color: Color) -> (fragments: Vec<Fragment>)
    ensures
        fragments@ == block_spec(v0, v1, v2, color),
{
    let min_x: i64 = trunc_pixel(smallest(v0.x, v1.x, v2.x));
    let max_x: i64 = trunc_pixel(largest(v0.x, v1.x, v2.x));
    let min_y: i64 = trunc_pixel(smallest(v0.y, v1.y, v2.y));
    let max_y: i64 = trunc_pixel(largest(v0.y, v1.y, v2.y));
    let rows: i64 = max_y - min_y + 1;
    let depth: Fixed = div_floor(v0.z as i128 + v1.z as i128 + v2.z as i128, 3) as i32;
    let ghost want = block_spec(v0, v1, v2, color);
    let mut fragments: Vec<Fragment> = Vec::new();
    let mut x: i64 = min_x;
    assert((x - min_x) * rows == 0) by (nonlinear_arith)
        requires
            x == min_x,
    ;
    assert((max_x - min_x + 1) * rows >= 0) by (nonlinear_arith)
        requires
            max_x - min_x + 1 >= 0,
            rows >= 0,
    ;
    while x <= max_x
        invariant
            -32768 <= min_x <= x <= max_x + 1 <= 32768,
            -32768 <= min_y <= max_y <= 32767,
            rows == max_y - min_y + 1,
            want.len() == (max_x - min_x + 1) * rows,
            forall|i: int|
                0 <= i < want.len() ==> want[i] == block_fragment(
                    min_x + i / (rows as int),
                    min_y + i % (rows as int),
                    depth,
                    color,
                ),
            fragments.len() == (x - min_x) * rows,
            fragments.len() <= want.len(),
            forall|i: int| 0 <= i < fragments.len() ==> fragments[i] == want[i],
        decreases max_x + 1 - x,
    {
        let mut y: i64 = min_y;
        while y <= max_y
            invariant
                -32768 <= min_x <= x <= max_x <= 32767,
                -32768 <= min_y <= y <= max_y + 1 <= 32768,
                rows == max_y - min_y + 1,
                want.len() == (max_x - min_x + 1) * rows,
                forall|i: int|
                    0 <= i < want.len() ==> want[i] == block_fragment(
                        min_x + i / (rows as int),
                        min_y + i % (rows as int),
                        depth,
                        color,
                    ),
                fragments.len() == (x - min_x) * rows + (y - min_y),
                fragments.len() <= want.len(),
                forall|i: int| 0 <= i < fragments.len() ==> fragments[i] == want[i],
            decreases max_y + 1 - y,
        {
            let ghost i: int = (x - min_x) * rows + (y - min_y);
            proof {
                assert(rows * (x - min_x) == (x - min_x) * rows) by (nonlinear_arith);
                lemma_div_unique(i, rows as int, (x - min_x) as int, (y - min_y) as int);
                lemma_index_in_range(
                    rows as int,
                    max_x - min_x + 1,
                    (y - min_y) as int,
                    (x - min_x) as int,
                );
                assert(rows * (max_x - min_x + 1) == (max_x - min_x + 1) * rows) by (nonlinear_arith);
                assert(0 <= i < want.len());
            }
            fragments.push(
                Fragment::new(
                    Vec2::new((x * 65536) as i32, (y * 65536) as i32),
                    color,
                    depth,
                    Vec3::new(0, 0, 0),
                    0,
                    Vec3::new((x * 65536) as i32, (y * 65536) as i32, 0),
                    None,
                ),
            );
            y = y + 1;
        }
        assert((x + 1 - min_x) * rows == (x - min_x) * rows + rows) by (nonlinear_arith);
        x = x + 1;
    }
    assert(fragments@ =~= want);
    fragments
}

/// The fragments of one indexed triangle: the red block of its placed
/// corners, or nothing if a corner is rejected.
pub open spec fn indexed_block_spec(
    vertices: Seq<Vertex>,
    uniforms: Uniforms,
    i0: int,
    i1: int,
    i2: int,
) -> Seq<Fragment> {
    let c0 = view_clip_spec(vertices[i0].position, uniforms);
    let c1 = view_clip_spec(vertices[i1].position, uniforms);
    let c2 = view_clip_spec(vertices[i2].position, uniforms);
    if c0.w == 0 || c1.w == 0 || c2.w == 0 {
        Seq::empty()
    } else {
        block_spec(
            projected_spec(c0),
            projected_spec(c1),
            projected_spec(c2),
            Color { r: 255, g: 0, b: 0 },
        )
    }
}

/// The fragments of the first `n` triangles of an index list.
pub open spec fn pipeline_spec(
    vertices: Seq<Vertex>,
    indices: Seq<u32>,
    uniforms: Uniforms,
    n: int,
) -> Seq<Fragment>
    decreases n,
{
    if n <= 0 {
        Seq::empty()
    } else {
        pipeline_spec(vertices, indices, uniforms, n - 1) + indexed_block_spec(
            vertices,
            uniforms,
            indices[3 * (n - 1)] as int,
            indices[3 * (n - 1) + 1] as int,
            indices[3 * (n - 1) + 2] as int,
        )
    }
}

/// Whether an index list names whole triangles of existing vertices.
pub open spec fn indices_fit(vertices: Seq<Vertex>, indices: Seq<u32>) -> bool {
    &&& indices.len() % 3 == 0
    &&& forall|k: int| 0 <= k < indices.len() ==> (#[trigger] indices[k]) < vertices.len()
}

/// The indexed pipeline: every three indices name a triangle, whose corners
/// are placed and rasterized as a red block. An index list that does not
/// name whole triangles of existing vertices is rejected.
pub fn render_pipeline(vertices: Vec<Vertex>, indices: Vec<u32>, uniforms: &Uniforms) -> (fragments:
    Option<Vec<Fragment>>)
    ensures
        fragments.is_some() <==> indices_fit(vertices@, indices@),
        fragments matches Some(f) ==> f@ == pipeline_spec(
            vertices@,
            indices@,
            *uniforms,
            indices.len() as int / 3,
        ),
{
    if indices.len() % 3 != 0 {
        return None;
    }
    let count: usize = indices.len() / 3;
    let mut fragments: Vec<Fragment> = Vec::new();
    let mut n: usize = 0;
    while n < count
        invariant
            n <= count,
            count == indices.len() as int / 3,
            indices.len() % 3 == 0,
            forall|k: int| 0 <= k < 3 * n ==> (#[trigger] indices[k]) < vertices.len(),
            fragments@ == pipeline_spec(vertices@, indices@, *uniforms, n as int),
        decreases count - n,
    {
        let i0: usize = indices[3 * n] as usize;
        let i1: usize = indices[3 * n + 1] as usize;
        let i2: usize = indices[3 * n + 2] as usize;
        if i0 >= vertices.len() || i1 >= vertices.len() || i2 >= vertices.len() {
            assert(!(indices[3 * n as int] < vertices.len()) || !(indices[3 * n + 1] < vertices.len())
                || !(indices[3 * n + 2] < vertices.len()));
            return None;
        }
        let p0: Option<(Vec3, Vec3)> = vertex_shader(&vertices[i0], uniforms);
        let p1: Option<(Vec3, Vec3)> = vertex_shader(&vertices[i1], uniforms);
        let p2: Option<(Vec3, Vec3)> = vertex_shader(&vertices[i2], uniforms);
        match (p0, p1, p2) {
            (Some((v0, _)), Some((v1, _)), Some((v2, _))) => {
                let mut triangle_fragments: Vec<Fragment> = rasterize_triangle(
                    v0,
                    v1,
                    v2,
                    Color::new(255, 0, 0),
                );
                fragments.append(&mut triangle_fragments);
            },
            _ => {
                assert(fragments@ + Seq::<Fragment>::empty() =~= fragments@);
            },
        }
        n = n + 1;
    }
    Some(fragments)
}

/// A triangle placed by the matrices and filled with Lambert shading: a
/// grey base colour lit along the view axis. A triangle with a rejected
/// corner has no fragments.
pub open spec fn triangle_spec(v1: Vertex, v2: Vertex, v3: Vertex, uniforms: Uniforms) -> Seq<
    Fragment,
> {
    if view_clip_spec(v1.position, uniforms).w == 0 || view_clip_spec(v2.position, uniforms).w
        == 0 || view_clip_spec(v3.position, uniforms).w == 0 {
        Seq::empty()
    } else {
        filled(
            placed_spec(v1, uniforms),
            placed_spec(v2, uniforms),
            placed_spec(v3, uniforms),
            Vec3 { x: 0, y: 0, z: (-65536) as i32 },
            Color { r: 100, g: 100, b: 100 },
        )
    }
}

/// Places a triangle and rasterizes it filled.
pub fn triangle(v1: &Vertex, v2: &Vertex, v3: &Vertex, uniforms: &Uniforms) -> (fragments: Vec<
    Fragment,
>)
    ensures
        fragments@ == triangle_spec(*v1, *v2, *v3, *uniforms),
{
    let placed1: Option<(Vec3, Vec3)> = vertex_shader(v1, uniforms);
    let placed2: Option<(Vec3, Vec3)> = vertex_shader(v2, uniforms);
    let placed3: Option<(Vec3, Vec3)> = vertex_shader(v3, uniforms);
    match (placed1, placed2, placed3) {
        (Some((a, normal1)), Some((b, normal2)), Some((c, normal3))) => {
            let t1: Vertex = Vertex {
                position: v1.position,
                normal: v1.normal,
                tex_coords: v1.tex_coords,
                color: v1.color,
                transformed_position: a,
                transformed_normal: normal1,
            };
            let t2: Vertex = Vertex {
                position: v2.position,
                normal: v2.normal,
                tex_coords: v2.tex_coords,
                color: v2.color,
                transformed_position: b,
                transformed_normal: normal2,
            };
            let t3: Vertex = Vertex {
                position: v3.position,
                normal: v3.normal,
                tex_coords: v3.tex_coords,
                color: v3.color,
                transformed_position: c,
                transformed_normal: normal3,
            };
            let light_dir: Vec3 = Vec3::new(0, 0, -65536);
            fill_triangle(&t1, &t2, &t3, &light_dir, Color::new(100, 100, 100))
        },
        _ => Vec::new(),
    }
}

} // verus!
