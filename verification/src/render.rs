//! Per-frame state and the matrices that place a model on the screen.

use vstd::prelude::*;
use crate::color::Color;
use crate::fixed::{div_floor, fixed_sub, sub_spec, Fixed};
use crate::fragment::Fragment;
use crate::framebuffer::{FrameView, Framebuffer};
use crate::line::{line_spec, triangle_wireframe};
use crate::matrix::{Mat4, Vec4};
use crate::noise::NoiseConfig;
use crate::shader::{
    clip_spec, fragment_shader, fragment_shader_spec, transformed_spec, vertex_shader, Samples,
};
use crate::vector::Vec3;
use crate::vertex::Vertex;

verus! {

/// The per-frame configuration shared by the transform and shading stages.
#[derive(Debug, Copy, Clone)]
pub struct Uniforms {
    pub model_matrix: Mat4,
    pub view_matrix: Mat4,
    pub projection_matrix: Mat4,
    pub viewport_matrix: Mat4,
    pub time: u32,
    pub noise: NoiseConfig,
    pub cloud_noise: NoiseConfig,
    pub band_noise: NoiseConfig,
    pub current_shader: u8,
}

/// A rotation about the three axes, given by the sine and the cosine of
/// each angle.
#[derive(Debug, Copy, Clone, PartialEq, Eq, Structural)]
pub struct Rotation {
    pub sin: Vec3,
    pub cos: Vec3,
}

/// The rotation about the x axis.
pub open spec fn rotation_x_spec(sin: Fixed, cos: Fixed) -> Mat4 {
    Mat4 {
        r0: Vec4 { x: 65536, y: 0, z: 0, w: 0 },
        r1: Vec4 { x: 0, y: cos, z: sub_spec(0, sin as int) as i32, w: 0 },
        r2: Vec4 { x: 0, y: sin, z: cos, w: 0 },
        r3: Vec4 { x: 0, y: 0, z: 0, w: 65536 },
    }
}

/// The rotation about the y axis.
pub open spec fn rotation_y_spec(sin: Fixed, cos: Fixed) -> Mat4 {
    Mat4 {
        r0: Vec4 { x: cos, y: 0, z: sin, w: 0 },
        r1: Vec4 { x: 0, y: 65536, z: 0, w: 0 },
        r2: Vec4 { x: sub_spec(0, sin as int) as i32, y: 0, z: cos, w: 0 },
        r3: Vec4 { x: 0, y: 0, z: 0, w: 65536 },
    }
}

/// The rotation about the z axis.
pub open spec fn rotation_z_spec(sin: Fixed, cos: Fixed) -> Mat4 {
    Mat4 {
        r0: Vec4 { x: cos, y: sub_spec(0, sin as int) as i32, z: 0, w: 0 },
        r1: Vec4 { x: sin, y: cos, z: 0, w: 0 },
        r2: Vec4 { x: 0, y: 0, z: 65536, w: 0 },
        r3: Vec4 { x: 0, y: 0, z: 0, w: 65536 },
    }
}

/// Uniform scaling followed by translation.
pub open spec fn placement_spec(translation: Vec3, scale: Fixed) -> Mat4 {
    Mat4 {
        r0: Vec4 { x: scale, y: 0, z: 0, w: translation.x },
        r1: Vec4 { x: 0, y: scale, z: 0, w: translation.y },
        r2: Vec4 { x: 0, y: 0, z: scale, w: translation.z },
        r3: Vec4 { x: 0, y: 0, z: 0, w: 65536 },
    }
}

/// The model matrix: rotate about x, then y, then z, then scale and translate.
pub open spec fn model_matrix_spec(translation: Vec3, scale: Fixed, rotation: Rotation) -> Mat4 {
    placement_spec(translation, scale).mul_spec(
        rotation_z_spec(rotation.sin.z, rotation.cos.z).mul_spec(
            rotation_y_spec(rotation.sin.y, rotation.cos.y),
        ).mul_spec(rotation_x_spec(rotation.sin.x, rotation.cos.x)),
    )
}

/// The matrix that maps normalised device coordinates to pixels: x is
/// scaled and shifted by half the width, y is flipped, scaled and shifted by
/// half the height.
pub open spec fn viewport_matrix_spec(width: Fixed, height: Fixed) -> Mat4 {
    Mat4 {
        r0: Vec4 { x: (width as int / 2) as i32, y: 0, z: 0, w: (width as int / 2) as i32 },
        r1: Vec4 { x: 0, y: (-(height as int / 2)) as i32, z: 0, w: (height as int / 2) as i32 },
        r2: Vec4 { x: 0, y: 0, z: 65536, w: 0 },
        r3: Vec4 { x: 0, y: 0, z: 0, w: 65536 },
    }
}

/// Builds the model matrix from a translation, a uniform scale and a rotation.
pub fn create_model_matrix(translation: Vec3, scale: Fixed, rotation: Rotation) -> (m: Mat4)
    ensures
        m == model_matrix_spec(translation, scale, rotation),
{
    let rotation_matrix_x: Mat4 = Mat4::new(
        65536,
        0,
        0,
        0,
        0,
        rotation.cos.x,
        fixed_sub(0, rotation.sin.x),
        0,
        0,
        rotation.sin.x,
        rotation.cos.x,
        0,
        0,
        0,
        0,
        65536,
    );
    let rotation_matrix_y: Mat4 = Mat4::new(
        rotation.cos.y,
        0,
        rotation.sin.y,
        0,
        0,
        65536,
        0,
        0,
        fixed_sub(0, rotation.sin.y),
        0,
        rotation.cos.y,
        0,
        0,
        0,
        0,
        65536,
    );
    let rotation_matrix_z: Mat4 = Mat4::new(
        rotation.cos.z,
        fixed_sub(0, rotation.sin.z),
        0,
        0,
        rotation.sin.z,
        rotation.cos.z,
        0,
        0,
        0,
        0,
        65536,
        0,
        0,
        0,
        0,
        65536,
    );
    let rotation_matrix: Mat4 = rotation_matrix_z.multiply(&rotation_matrix_y).multiply(
        &rotation_matrix_x,
    );
    let transform_matrix: Mat4 = Mat4::new(
        scale,
        0,
        0,
        translation.x,
        0,
        scale,
        0,
        translation.y,
        0,
        0,
        scale,
        translation.z,
        0,
        0,
        0,
        65536,
    );
    transform_matrix.multiply(&rotation_matrix)
}

/// Builds the viewport matrix for an image of the given fixed-point size.
pub fn create_viewport_matrix(width: Fixed, height: Fixed) -> (m: Mat4)
    ensures
        m == viewport_matrix_spec(width, height),
{
    let half_width: Fixed = div_floor(width as i128, 2) as i32;
    let half_height: Fixed = div_floor(height as i128, 2) as i32;
    Mat4::new(
        half_width,
        0,
        0,
        half_width,
        0,
        -half_height,
        0,
        half_height,
        0,
        0,
        65536,
        0,
        0,
        0,
        0,
        65536,
    )
}

/// The outline of one triangle after the transform stage. A triangle with a
/// rejected vertex is dropped.
pub open spec fn outline_spec(uniforms: Uniforms, v1: Vertex, v2: Vertex, v3: Vertex) -> Seq<
    Fragment,
> {
    if clip_spec(v1.position, uniforms).w == 0 || clip_spec(v2.position, uniforms).w == 0
        || clip_spec(v3.position, uniforms).w == 0 {
        Seq::empty()
    } else {
        let t1 = transformed_spec(v1, uniforms);
        let t2 = transformed_spec(v2, uniforms);
        let t3 = transformed_spec(v3, uniforms);
        line_spec(t1, t2) + line_spec(t2, t3) + line_spec(t1, t3)
    }
}

/// The outlines of the first `n` triangles of a vertex array, in which
/// every three consecutive vertices make a triangle.
pub open spec fn outlines_spec(uniforms: Uniforms, vertices: Seq<Vertex>, n: int) -> Seq<Fragment>
    decreases n,
{
    if n <= 0 {
        Seq::empty()
    } else {
        outlines_spec(uniforms, vertices, n - 1) + outline_spec(
            uniforms,
            vertices[3 * (n - 1)],
            vertices[3 * (n - 1) + 1],
            vertices[3 * (n - 1) + 2],
        )
    }
}

/// The geometry half of a frame: transforms the vertices, assembles every
/// three consecutive ones into a triangle and rasterizes its outline.
/// Vertices left over at the end make no triangle.
pub fn collect_fragments(uniforms: &Uniforms, vertex_array: &Vec<Vertex>) -> (fragments: Vec<
    Fragment,
>)
    ensures
        fragments@ == outlines_spec(*uniforms, vertex_array@, vertex_array.len() as int / 3),
{
    let count: usize = vertex_array.len() / 3;
    let mut fragments: Vec<Fragment> = Vec::new();
    let mut n: usize = 0;
    while n < count
        invariant
            n <= count,
            count == vertex_array.len() as int / 3,
            fragments@ == outlines_spec(*uniforms, vertex_array@, n as int),
        decreases count - n,
    {
        let first: Option<Vertex> = vertex_shader(&vertex_array[3 * n], uniforms);
        let second: Option<Vertex> = vertex_shader(&vertex_array[3 * n + 1], uniforms);
        let third: Option<Vertex> = vertex_shader(&vertex_array[3 * n + 2], uniforms);
        match (first, second, third) {
            (Some(t1), Some(t2), Some(t3)) => {
                let mut outline: Vec<Fragment> = triangle_wireframe(&t1, &t2, &t3);
                fragments.append(&mut outline);
            },
            _ => {
                assert(fragments@ + Seq::<Fragment>::empty() =~= fragments@);
            },
        }
        n = n + 1;
    }
    fragments
}

/// The framebuffer after one fragment is shaded and written. The fragment
/// lands on the pixel that holds its position; outside the image it is
/// dropped before it is shaded.
pub open spec fn drawn_spec(
    view: FrameView,
    uniforms: Uniforms,
    fragment: Fragment,
    samples: Samples,
) -> FrameView {
    let x = fragment.position.x as int / 65536;
    let y = fragment.position.y as int / 65536;
    if view.in_bounds(x, y) {
        let shaded = fragment_shader_spec(fragment, uniforms, samples);
        view.with_current(shaded.0.packed() as u32).write(x, y, fragment.depth, shaded.1)
    } else {
        view
    }
}

/// The framebuffer after the first `n` fragments are drawn in order.
pub open spec fn rendered_spec(
    view: FrameView,
    uniforms: Uniforms,
    fragments: Seq<Fragment>,
    samples: Seq<Samples>,
    n: int,
) -> FrameView
    decreases n,
{
    if n <= 0 {
        view
    } else {
        drawn_spec(
            rendered_spec(view, uniforms, fragments, samples, n - 1),
            uniforms,
            fragments[n - 1],
            samples[n - 1],
        )
    }
}

/// The number of fragments that have samples.
pub open spec fn paired_len(fragments: Seq<Fragment>, samples: Seq<Samples>) -> int {
    if fragments.len() <= samples.len() {
        fragments.len() as int
    } else {
        samples.len() as int
    }
}

/// Shades one fragment and commits it through the depth test.
pub fn draw_fragment(
    framebuffer: &mut Framebuffer,
    uniforms: &Uniforms,
    fragment: &Fragment,
    samples: &Samples,
)
    requires
        old(framebuffer).wf(),
    ensures
        final(framebuffer).wf(),
        final(framebuffer)@ == drawn_spec(old(framebuffer)@, *uniforms, *fragment, *samples),
{
    let x: i128 = div_floor(fragment.position.x as i128, 65536);
    let y: i128 = div_floor(fragment.position.y as i128, 65536);
    if x >= 0 && y >= 0 && x < framebuffer.width as i128 && y < framebuffer.height as i128 {
        let (shaded_color, emission): (Color, u32) = fragment_shader(fragment, uniforms, samples);
        let color: u32 = shaded_color.to_hex();
        framebuffer.set_current_color(color);
        framebuffer.point(x as usize, y as usize, fragment.depth, emission);
    }
}

/// The shading half of a frame: every fragment, in order, is shaded with
/// its samples and committed through the depth test. Fragments without
/// samples are not drawn.
pub fn render(
    framebuffer: &mut Framebuffer,
    uniforms: &Uniforms,
    fragments: &Vec<Fragment>,
    samples: &Vec<Samples>,
)
    requires
        old(framebuffer).wf(),
    ensures
        final(framebuffer).wf(),
        final(framebuffer)@ == rendered_spec(
            old(framebuffer)@,
            *uniforms,
            fragments@,
            samples@,
            paired_len(fragments@, samples@),
        ),
{
    let mut i: usize = 0;
    while i < fragments.len() && i < samples.len()
        invariant
            i <= fragments.len(),
            i <= samples.len(),
            framebuffer.wf(),
            framebuffer@ == rendered_spec(
                old(framebuffer)@,
                *uniforms,
                fragments@,
                samples@,
                i as int,
            ),
        decreases fragments.len() - i,
    {
        draw_fragment(framebuffer, uniforms, &fragments[i], &samples[i]);
        i = i + 1;
    }
}

} // verus!
