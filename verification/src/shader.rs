//! The transform stage and the procedural fragment shaders.
//!
//! A fragment shader is a pure function from a fragment and the values
//! sampled for it (coherent-noise fields and slow periodic waves, gathered
//! in [`Samples`]) to a colour and an emission. The shaders share a small
//! set of building blocks: a colour ramp over threshold bands, a Lambertian
//! term with an ambient floor, and additive layers gated by a threshold.

use vstd::prelude::*;
use crate::color::Color;
use crate::fixed::{
    abs_spec, add_spec, clamp_fixed, clamp_int, div_floor, div_spec, fixed_abs, fixed_add,
    fixed_mul, fixed_ratio, fixed_sub, mul_spec, positive_part, saturate, saturate_fixed,
    sub_spec, Fixed,
};
use crate::fragment::Fragment;
use crate::matrix::Vec4;
use crate::render::Uniforms;
use crate::vector::Vec3;
use crate::vertex::Vertex;

verus! {

/// The values sampled for one fragment, as planned by
/// [`crate::sampling::sample_plan`]. Noise samples and waves lie in
/// `[-1, 1]`; `pulse` lies in `[0, 1]`. A value that the plan leaves out is
/// not read by the selected shader.
#[derive(Debug, Copy, Clone, PartialEq, Eq, Structural)]
pub struct Samples {
    /// The noise at the planned surface point.
    pub surface: Fixed,
    /// The noise at the planned layer point: clouds, dust or haze.
    pub layer: Fixed,
    /// The noise at the planned variation point.
    pub variation: Fixed,
    /// The noise at the planned spot point.
    pub spot: Fixed,
    /// The sine of [`crate::sampling::band_angle`].
    pub band: Fixed,
    /// The magnitude of the sine of the planned pulse angle.
    pub pulse: Fixed,
    /// The sine of the planned red angle of the sun.
    pub sun_red: Fixed,
    /// The cosine of the planned green angle of the sun.
    pub sun_green: Fixed,
    /// The sine of the planned blue angle of the sun.
    pub sun_blue: Fixed,
    /// The cosine of the planned emission angle of the sun.
    pub sun_emission: Fixed,
}

/// The constants of one planet: a surface ramp, a light, and one additive
/// layer with an optional haze.
#[derive(Debug, Copy, Clone)]
pub struct PlanetPreset {
    /// Surface noise above this value is land, the rest is sea.
    pub land_threshold: Fixed,
    pub sea_from: Color,
    pub sea_to: Color,
    pub land_from: Color,
    pub land_mid: Color,
    pub land_to: Color,
    pub light_position: Vec3,
    pub ambient: Fixed,
    pub diffuse: Fixed,
    /// Layer noise above this value adds the layer.
    pub layer_threshold: Fixed,
    pub layer_color: Color,
    pub opacity_base: Fixed,
    pub opacity_swing: Fixed,
    pub haze_color: Option<Color>,
}

impl PlanetPreset {
    /// The thresholds leave each band of the ramp a width.
    pub open spec fn wf(self) -> bool {
        &&& self.land_threshold != 0
        &&& self.land_threshold != 65536
        &&& self.layer_threshold != 65536
    }
}

/// The perspective-space position of an object-space point:
/// `viewport * projection * view * model * [position, 1]`.
pub open spec fn clip_spec(position: Vec3, uniforms: Uniforms) -> Vec4 {
    uniforms.viewport_matrix.apply_spec(
        uniforms.projection_matrix.apply_spec(
            uniforms.view_matrix.apply_spec(
                uniforms.model_matrix.apply_spec(
                    Vec4 { x: position.x, y: position.y, z: position.z, w: 65536 },
                ),
            ),
        ),
    )
}

/// The point after perspective division.
pub open spec fn projected_spec(clip: Vec4) -> Vec3 {
    Vec3 {
        x: div_spec(clip.x as int, clip.w as int) as i32,
        y: div_spec(clip.y as int, clip.w as int) as i32,
        z: div_spec(clip.z as int, clip.w as int) as i32,
    }
}

/// A vertex after the transform stage: its viewport-space position is
/// filled in and its normal is forwarded unchanged.
pub open spec fn transformed_spec(vertex: Vertex, uniforms: Uniforms) -> Vertex {
    Vertex {
        transformed_position: projected_spec(clip_spec(vertex.position, uniforms)),
        transformed_normal: vertex.normal,
        ..vertex
    }
}

/// The transform stage. The vertex is carried to viewport space and divided
/// by `w`; its normal is forwarded unchanged. A vertex whose `w` is zero has
/// no image and is rejected.
pub fn vertex_shader(vertex: &Vertex, uniforms: &Uniforms) -> (out: Option<Vertex>)
    ensures
        out.is_none() <==> clip_spec(vertex.position, *uniforms).w == 0,
        out matches Some(v) ==> v == transformed_spec(*vertex, *uniforms),
{
    let position: Vec4 = Vec4::new(vertex.position.x, vertex.position.y, vertex.position.z, 65536);
    let world: Vec4 = uniforms.model_matrix.apply(&position);
    let view: Vec4 = uniforms.view_matrix.apply(&world);
    let projected: Vec4 = uniforms.projection_matrix.apply(&view);
    let transformed: Vec4 = uniforms.viewport_matrix.apply(&projected);
    let w: Fixed = transformed.w;
    if w == 0 {
        None
    } else {
        let transformed_position: Vec3 = Vec3::new(
            fixed_ratio(transformed.x, w),
            fixed_ratio(transformed.y, w),
            fixed_ratio(transformed.z, w),
        );
        Some(
            Vertex {
                position: vertex.position,
                normal: vertex.normal,
                tex_coords: vertex.tex_coords,
                color: vertex.color,
                transformed_position,
                transformed_normal: vertex.normal,
            },
        )
    }
}

/// The Lambertian term of a surface with the given normal, lit from the
/// unit direction `light_dir`: `max(0, normalize(normal) . light_dir)`.
pub open spec fn diffuse_spec(normal: Vec3, light_dir: Vec3) -> int {
    positive_part(normal.normalize_spec().dot_spec(light_dir))
}

/// The Lambertian term of a fragment lit from a point.
pub open spec fn lambert_spec(fragment: Fragment, light_position: Vec3) -> int {
    diffuse_spec(
        fragment.normal,
        light_position.sub_spec(fragment.vertex_position).normalize_spec(),
    )
}

/// A colour under an ambient floor plus a scaled diffuse term.
pub open spec fn lit_spec(color: Color, ambient: int, scale: int, diffuse: int) -> Color {
    color.scale_spec(add_spec(ambient, mul_spec(scale, diffuse)))
}

pub fn diffuse(normal: &Vec3, light_dir: &Vec3) -> (d: Fixed)
    ensures
        d == diffuse_spec(*normal, *light_dir),
{
    let facing: Fixed = normal.normalize().dot(light_dir);
    if facing < 0 {
        0
    } else {
        facing
    }
}

pub fn lambert(fragment: &Fragment, light_position: &Vec3) -> (d: Fixed)
    ensures
        d == lambert_spec(*fragment, *light_position),
{
    let light_dir: Vec3 = light_position.sub(&fragment.vertex_position).normalize();
    diffuse(&fragment.normal, &light_dir)
}

fn lit(color: Color, ambient: Fixed, scale: Fixed, diffuse: Fixed) -> (c: Color)
    ensures
        c == lit_spec(color, ambient as int, scale as int, diffuse as int),
{
    color * fixed_add(ambient, fixed_mul(scale, diffuse))
}

/// The surface colour of a planet for a noise value. Above the threshold
/// the land gradient runs through its three colours in two halves; at or
/// below it the sea gradient runs by the fraction of the threshold reached.
pub open spec fn ramp_spec(p: PlanetPreset, noise: int) -> Color {
    if noise > p.land_threshold {
        let height = div_spec(
            sub_spec(noise, p.land_threshold as int),
            sub_spec(65536, p.land_threshold as int),
        );
        if height < 32768 {
            p.land_from.lerp_spec(p.land_mid, add_spec(height, height))
        } else {
            p.land_mid.lerp_spec(p.land_to, add_spec(height - 32768, height - 32768))
        }
    } else {
        p.sea_from.lerp_spec(p.sea_to, div_spec(noise, p.land_threshold as int))
    }
}

/// How far a layer's noise is past its threshold, as a fraction in `[0, 1]`.
pub open spec fn layer_strength_spec(noise: int, threshold: int) -> int {
    clamp_int(div_spec(sub_spec(noise, threshold), sub_spec(65536, threshold)), 0, 65536)
}

/// A planet's shaded colour: the ramp under the light, then the layer and
/// the haze where the layer's noise passes its threshold.
pub open spec fn planet_spec(p: PlanetPreset, fragment: Fragment, samples: Samples) -> Color {
    let lit_color = lit_spec(
        ramp_spec(p, samples.surface as int),
        p.ambient as int,
        p.diffuse as int,
        lambert_spec(fragment, p.light_position),
    );
    if samples.layer > p.layer_threshold {
        let strength = layer_strength_spec(samples.layer as int, p.layer_threshold as int);
        let opacity = add_spec(
            p.opacity_base as int,
            mul_spec(p.opacity_swing as int, samples.pulse as int),
        );
        let veiled = lit_color.sum_spec(p.layer_color.scale_spec(mul_spec(strength, opacity)));
        match p.haze_color {
            Some(haze) => veiled.sum_spec(
                haze.scale_spec(clamp_int(mul_spec(samples.layer as int, 32768), 0, 65536)),
            ),
            None => veiled,
        }
    } else {
        lit_color
    }
}

fn ramp(p: &PlanetPreset, noise: Fixed) -> (c: Color)
    requires
        p.wf(),
    ensures
        c == ramp_spec(*p, noise as int),
{
    if noise > p.land_threshold {
        let height: Fixed = fixed_ratio(
            fixed_sub(noise, p.land_threshold),
            fixed_sub(65536, p.land_threshold),
        );
        if height < 32768 {
            p.land_from.lerp(&p.land_mid, fixed_add(height, height))
        } else {
            p.land_mid.lerp(&p.land_to, fixed_add(height - 32768, height - 32768))
        }
    } else {
        p.sea_from.lerp(&p.sea_to, fixed_ratio(noise, p.land_threshold))
    }
}

/// Shades a fragment of a planet described by a preset. Planets emit nothing.
pub fn shade_planet(preset: &PlanetPreset, fragment: &Fragment, samples: &Samples) -> (out: (
    Color,
    u32,
))
    requires
        preset.wf(),
    ensures
        out == (planet_spec(*preset, *fragment, *samples), 0u32),
{
    let base_color: Color = ramp(preset, samples.surface);
    let lit_color: Color = lit(
        base_color,
        preset.ambient,
        preset.diffuse,
        lambert(fragment, &preset.light_position),
    );
    if samples.layer > preset.layer_threshold {
        let strength: Fixed = clamp_fixed(
            fixed_ratio(
                fixed_sub(samples.layer, preset.layer_threshold),
                fixed_sub(65536, preset.layer_threshold),
            ),
            0,
            65536,
        );
        let opacity: Fixed = fixed_add(
            preset.opacity_base,
            fixed_mul(preset.opacity_swing, samples.pulse),
        );
        let layer: Color = preset.layer_color * fixed_mul(strength, opacity);
        let veiled: Color = lit_color.blend_add(&layer);
        match preset.haze_color {
            Some(haze) => {
                let haze_layer: Color = haze * clamp_fixed(
                    fixed_mul(samples.layer, 32768),
                    0,
                    65536,
                );
                (veiled.blend_add(&haze_layer), 0)
            },
            None => (veiled, 0),
        }
    } else {
        (lit_color, 0)
    }
}

/// An earth-like planet: blue seas, green to brown land, white clouds.
pub open spec fn kenshi_preset_spec() -> PlanetPreset {
    PlanetPreset {
        land_threshold: 19661,
        sea_from: Color { r: 0, g: 25, b: 153 },
        sea_to: Color { r: 0, g: 76, b: 178 },
        land_from: Color { r: 51, g: 102, b: 0 },
        land_mid: Color { r: 153, g: 127, b: 51 },
        land_to: Color { r: 102, g: 76, b: 25 },
        light_position: Vec3 { x: 65536, y: 65536, z: 196608 },
        ambient: 6554,
        diffuse: 58982,
        layer_threshold: 16384,
        layer_color: Color { r: 229, g: 229, b: 229 },
        opacity_base: 19661,
        opacity_swing: 13107,
        haze_color: None,
    }
}

/// A rocky planet: three browns under drifting dust.
pub open spec fn rocky_preset_spec() -> PlanetPreset {
    PlanetPreset {
        land_threshold: 26214,
        sea_from: Color { r: 153, g: 127, b: 102 },
        sea_to: Color { r: 102, g: 76, b: 51 },
        land_from: Color { r: 153, g: 127, b: 102 },
        land_mid: Color { r: 102, g: 76, b: 51 },
        land_to: Color { r: 51, g: 25, b: 12 },
        light_position: Vec3 { x: 65536, y: 65536, z: 196608 },
        ambient: 6554,
        diffuse: 58982,
        layer_threshold: 19661,
        layer_color: Color { r: 51, g: 25, b: 12 },
        opacity_base: 13107,
        opacity_swing: 6554,
        haze_color: None,
    }
}

/// A toxic planet: two greens under orange clouds and a blue-green haze.
pub open spec fn toxic_preset_spec() -> PlanetPreset {
    PlanetPreset {
        land_threshold: 19661,
        sea_from: Color { r: 25, g: 76, b: 0 },
        sea_to: Color { r: 51, g: 127, b: 25 },
        land_from: Color { r: 25, g: 76, b: 0 },
        land_mid: Color { r: 51, g: 127, b: 25 },
        land_to: Color { r: 25, g: 76, b: 0 },
        light_position: Vec3 { x: 65536, y: 65536, z: 196608 },
        ambient: 6554,
        diffuse: 58982,
        layer_threshold: 16384,
        layer_color: Color { r: 229, g: 153, b: 51 },
        opacity_base: 19661,
        opacity_swing: 13107,
        haze_color: Some(Color { r: 25, g: 102, b: 76 }),
    }
}

pub fn kenshi_preset() -> (p: PlanetPreset)
    ensures
        p == kenshi_preset_spec(),
        p.wf(),
{
    PlanetPreset {
        land_threshold: 19661,
        sea_from: Color::new(0, 25, 153),
        sea_to: Color::new(0, 76, 178),
        land_from: Color::new(51, 102, 0),
        land_mid: Color::new(153, 127, 51),
        land_to: Color::new(102, 76, 25),
        light_position: Vec3::new(65536, 65536, 196608),
        ambient: 6554,
        diffuse: 58982,
        layer_threshold: 16384,
        layer_color: Color::new(229, 229, 229),
        opacity_base: 19661,
        opacity_swing: 13107,
        haze_color: None,
    }
}

pub fn rocky_preset() -> (p: PlanetPreset)
    ensures
        p == rocky_preset_spec(),
        p.wf(),
{
    PlanetPreset {
        land_threshold: 26214,
        sea_from: Color::new(153, 127, 102),
        sea_to: Color::new(102, 76, 51),
        land_from: Color::new(153, 127, 102),
        land_mid: Color::new(102, 76, 51),
        land_to: Color::new(51, 25, 12),
        light_position: Vec3::new(65536, 65536, 196608),
        ambient: 6554,
        diffuse: 58982,
        layer_threshold: 19661,
        layer_color: Color::new(51, 25, 12),
        opacity_base: 13107,
        opacity_swing: 6554,
        haze_color: None,
    }
}

pub fn toxic_preset() -> (p: PlanetPreset)
    ensures
        p == toxic_preset_spec(),
        p.wf(),
{
    PlanetPreset {
        land_threshold: 19661,
        sea_from: Color::new(25, 76, 0),
        sea_to: Color::new(51, 127, 25),
        land_from: Color::new(25, 76, 0),
        land_mid: Color::new(51, 127, 25),
        land_to: Color::new(25, 76, 0),
        light_position: Vec3::new(65536, 65536, 196608),
        ambient: 6554,
        diffuse: 58982,
        layer_threshold: 16384,
        layer_color: Color::new(229, 153, 51),
        opacity_base: 19661,
        opacity_swing: 13107,
        haze_color: Some(Color::new(25, 102, 76)),
    }
}

/// The earth-like planet. `samples.surface` is its surface field and
/// `samples.layer` its cloud field at the fragment.
pub fn kenshi_shader(fragment: &Fragment, samples: &Samples) -> (out: (Color, u32))
    ensures
        out == (planet_spec(kenshi_preset_spec(), *fragment, *samples), 0u32),
{
    let preset: PlanetPreset = kenshi_preset();
    shade_planet(&preset, fragment, samples)
}

/// The rocky planet. `samples.surface` is its surface field and
/// `samples.layer` the drifting dust at the fragment.
pub fn rocky_planet_shader(fragment: &Fragment, samples: &Samples) -> (out: (Color, u32))
    ensures
        out == (planet_spec(rocky_preset_spec(), *fragment, *samples), 0u32),
{
    let preset: PlanetPreset = rocky_preset();
    shade_planet(&preset, fragment, samples)
}

/// The toxic planet. `samples.surface` is its surface field and
/// `samples.layer` its cloud field at the fragment.
pub fn ratchet_toxic_shader(fragment: &Fragment, samples: &Samples) -> (out: (Color, u32))
    ensures
        out == (planet_spec(toxic_preset_spec(), *fragment, *samples), 0u32),
{
    let preset: PlanetPreset = toxic_preset();
    shade_planet(&preset, fragment, samples)
}

/// A surface of two colours mixed by a noise value brought from `[-1, 1]`
/// to `[0, 1]`, under a point light.
pub open spec fn surface_spec(
    base: Color,
    detail: Color,
    fragment: Fragment,
    noise: int,
    light_position: Vec3,
    ambient: int,
    scale: int,
) -> Color {
    let t = clamp_int(mul_spec(add_spec(noise, 65536), 32768), 0, 65536);
    lit_spec(base.lerp_spec(detail, t), ambient, scale, lambert_spec(fragment, light_position))
}

fn shade_surface(
    base: Color,
    detail: Color,
    fragment: &Fragment,
    noise: Fixed,
    light_position: &Vec3,
    ambient: Fixed,
    scale: Fixed,
) -> (c: Color)
    ensures
        c == surface_spec(
            base,
            detail,
            *fragment,
            noise as int,
            *light_position,
            ambient as int,
            scale as int,
        ),
{
    let t: Fixed = clamp_fixed(fixed_mul(fixed_add(noise, 65536), 32768), 0, 65536);
    lit(base.lerp(&detail, t), ambient, scale, lambert(fragment, light_position))
}

/// The two colours of the simple planet for a shader selector.
pub open spec fn simple_palette_spec(current_shader: u8) -> (Color, Color) {
    if current_shader == 1 {
        (Color { r: 153, g: 102, b: 51 }, Color { r: 102, g: 76, b: 25 })
    } else if current_shader == 2 {
        (Color { r: 51, g: 153, b: 76 }, Color { r: 25, g: 102, b: 51 })
    } else if current_shader == 3 {
        (Color { r: 51, g: 76, b: 153 }, Color { r: 25, g: 51, b: 127 })
    } else {
        (Color { r: 204, g: 204, b: 204 }, Color { r: 127, g: 127, b: 127 })
    }
}

/// The two colours of the moon for a shader selector.
pub open spec fn moon_palette_spec(current_shader: u8) -> (Color, Color) {
    if current_shader == 1 {
        (Color { r: 25, g: 51, b: 102 }, Color { r: 12, g: 12, b: 25 })
    } else if current_shader == 2 {
        (Color { r: 102, g: 102, b: 102 }, Color { r: 51, g: 51, b: 51 })
    } else if current_shader == 3 {
        (Color { r: 51, g: 51, b: 51 }, Color { r: 12, g: 12, b: 12 })
    } else {
        (Color { r: 204, g: 204, b: 204 }, Color { r: 76, g: 76, b: 76 })
    }
}

/// A planet of two colours chosen by the shader selector, mixed by
/// `samples.surface` and lit from `(5, 5, 5)`.
pub fn simple_planet_shader(fragment: &Fragment, uniforms: &Uniforms, samples: &Samples) -> (out: (
    Color,
    u32,
))
    ensures
        out == (
            surface_spec(
                simple_palette_spec(uniforms.current_shader).0,
                simple_palette_spec(uniforms.current_shader).1,
                *fragment,
                samples.surface as int,
                Vec3 { x: 327680, y: 327680, z: 327680 },
                19661,
                45875,
            ),
            0u32,
        ),
{
    let (base_color, detail_color): (Color, Color) = match uniforms.current_shader {
        1 => (Color::new(153, 102, 51), Color::new(102, 76, 25)),
        2 => (Color::new(51, 153, 76), Color::new(25, 102, 51)),
        3 => (Color::new(51, 76, 153), Color::new(25, 51, 127)),
        _ => (Color::new(204, 204, 204), Color::new(127, 127, 127)),
    };
    let light_position: Vec3 = Vec3::new(327680, 327680, 327680);
    (
        shade_surface(
            base_color,
            detail_color,
            fragment,
            samples.surface,
            &light_position,
            19661,
            45875,
        ),
        0,
    )
}

/// A moon of two colours chosen by the shader selector, mixed by
/// `samples.surface` and lit from `(10, 10, 10)`.
pub fn moon_shader(fragment: &Fragment, uniforms: &Uniforms, samples: &Samples) -> (out: (
    Color,
    u32,
))
    ensures
        out == (
            surface_spec(
                moon_palette_spec(uniforms.current_shader).0,
                moon_palette_spec(uniforms.current_shader).1,
                *fragment,
                samples.surface as int,
                Vec3 { x: 655360, y: 655360, z: 655360 },
                13107,
                39322,
            ),
            0u32,
        ),
{
    let (base_color, detail_color): (Color, Color) = match uniforms.current_shader {
        1 => (Color::new(25, 51, 102), Color::new(12, 12, 25)),
        2 => (Color::new(102, 102, 102), Color::new(51, 51, 51)),
        3 => (Color::new(51, 51, 51), Color::new(12, 12, 12)),
        _ => (Color::new(204, 204, 204), Color::new(76, 76, 76)),
    };
    let light_position: Vec3 = Vec3::new(655360, 655360, 655360);
    (
        shade_surface(
            base_color,
            detail_color,
            fragment,
            samples.surface,
            &light_position,
            13107,
            39322,
        ),
        0,
    )
}

/// The pink gas planet: one colour scaled by `samples.surface` brought to
/// `[0, 1]`, lit from the fixed direction `(1, 1, 1)` with an ambient floor.
pub open spec fn ratchet1_spec(fragment: Fragment, samples: Samples) -> Color {
    let intensity = clamp_int(add_spec(mul_spec(samples.surface as int, 32768), 32768), 0, 65536);
    let light_dir = (Vec3 { x: 65536, y: 65536, z: 65536 }).normalize_spec();
    lit_spec(
        (Color { r: 229, g: 76, b: 229 }).scale_spec(intensity),
        19661,
        45875,
        diffuse_spec(fragment.normal, light_dir),
    )
}

pub fn ratchet1_shader(fragment: &Fragment, samples: &Samples) -> (out: (Color, u32))
    ensures
        out == (ratchet1_spec(*fragment, *samples), 0u32),
{
    let base_color: Color = Color::new(229, 76, 229);
    let intensity: Fixed = clamp_fixed(
        fixed_add(fixed_mul(samples.surface, 32768), 32768),
        0,
        65536,
    );
    let varied_color: Color = base_color * intensity;
    let light_dir: Vec3 = Vec3::new(65536, 65536, 65536).normalize();
    (lit(varied_color, 19661, 45875, diffuse(&fragment.normal, &light_dir)), 0)
}

/// A sine or cosine brought from `[-1, 1]` to `[0, 1]`.
pub open spec fn wave_spec(s: int) -> int {
    add_spec(mul_spec(clamp_int(s, -65536, 65536), 32768), 32768)
}

/// One channel of the sun: the base byte raised by a wave scaled by `gain`,
/// and held to the channel maximum. The wave only adds, so the channel
/// never falls below its base.
pub open spec fn sun_channel_spec(base: int, wave: int, gain: int) -> int {
    let raised = base + (255 * mul_spec(wave_spec(wave), gain)) / 65536;
    if raised > 255 {
        255
    } else {
        raised
    }
}

/// The sun's colour and emission: a warm base colour whose channels and
/// emission flicker with four waves.
pub open spec fn sun_spec(samples: Samples) -> (Color, u32) {
    (
        Color {
            r: sun_channel_spec(255, samples.sun_red as int, 19661) as u8,
            g: sun_channel_spec(204, samples.sun_green as int, 13107) as u8,
            b: sun_channel_spec(76, samples.sun_blue as int, 6554) as u8,
        },
        (150 + (50 * wave_spec(samples.sun_emission as int)) / 65536) as u32,
    )
}

/// The wave is a fraction in `[0, 1]`.
proof fn lemma_wave_range(s: int)
    ensures
        0 <= wave_spec(s) <= 65536,
{
    let c = clamp_int(s, -65536, 65536);
    assert(-32768 <= (c * 32768) / 65536 <= 32768);
}

fn wave(s: Fixed) -> (w: Fixed)
    ensures
        w == wave_spec(s as int),
        0 <= w <= 65536,
{
    proof {
        lemma_wave_range(s as int);
    }
    fixed_add(fixed_mul(clamp_fixed(s, -65536, 65536), 32768), 32768)
}

fn sun_channel(base: u8, s: Fixed, gain: Fixed) -> (v: u8)
    requires
        0 <= gain <= 65536,
    ensures
        v == sun_channel_spec(base as int, s as int, gain as int),
        v >= base,
{
    let w: Fixed = wave(s);
    proof {
        assert(0 <= w * gain <= 65536 * 65536) by (nonlinear_arith)
            requires
                0 <= w <= 65536,
                0 <= gain <= 65536,
        ;
    }
    let noise: Fixed = fixed_mul(w, gain);
    let raised: i32 = base as i32 + (255 * noise) / 65536;
    if raised > 255 {
        255
    } else {
        raised as u8
    }
}

/// The sun. Its channels never fall below the base colour `(255, 204, 76)`,
/// and its emission lies between 150 and 200.
pub fn sun_shader(samples: &Samples) -> (out: (Color, u32))
    ensures
        out == sun_spec(*samples),
        out.0.r == 255,
        out.0.g >= 204,
        out.0.b >= 76,
        150 <= out.1 <= 200,
{
    let base_color: Color = Color::new(255, 204, 76);
    let r: u8 = sun_channel(base_color.r, samples.sun_red, 19661);
    let g: u8 = sun_channel(base_color.g, samples.sun_green, 13107);
    let b: u8 = sun_channel(base_color.b, samples.sun_blue, 6554);
    let emission_base: u32 = 150;
    let emission_variation: u32 = ((50 * wave(samples.sun_emission)) / 65536) as u32;
    let emission: u32 = emission_base + emission_variation;
    (Color::new(r, g, b), emission)
}

/// The four purples of the banded planet, in a cycle.
pub open spec fn band_color_spec(i: int) -> Color {
    if i % 4 == 0 {
        Color { r: 90, g: 24, b: 154 }
    } else if i % 4 == 1 {
        Color { r: 157, g: 78, b: 221 }
    } else if i % 4 == 2 {
        Color { r: 199, g: 125, b: 255 }
    } else {
        Color { r: 224, g: 170, b: 255 }
    }
}

/// The banded base colour: the band wave is spread over the palette and
/// neighbouring purples are blended by its fractional part.
pub open spec fn band_base_spec(band: int) -> Color {
    let spread = ((clamp_int(band, -65536, 65536) + 65536) * 3) / 2;
    band_color_spec(spread / 65536).lerp_spec(band_color_spec(spread / 65536 + 1), spread % 65536)
}

/// Hermite interpolation between two distinct edges: zero up to `edge0`,
/// one from `edge1`, and `t * t * (3 - 2 * t)` in between.
pub open spec fn smoothstep_spec(edge0: int, edge1: int, x: int) -> int {
    let t = clamp_int(div_spec(sub_spec(x, edge0), sub_spec(edge1, edge0)), 0, 65536);
    mul_spec(mul_spec(t, t), 3 * 65536 - 2 * t)
}

/// The banded purple planet: bands, two turbulence layers, a soft spot
/// around `(0.6, 0.4)`, and light from `(10, 10, 20)` over an ambient fifth.
pub open spec fn ratchet_spec(fragment: Fragment, samples: Samples) -> Color {
    let turbulence = band_base_spec(samples.band as int).lerp_spec(
        Color { r: 255, g: 255, b: 255 },
        mul_spec(samples.surface as int, 22938),
    );
    let varied = turbulence.lerp_spec(
        Color { r: 36, g: 0, b: 70 },
        clamp_int(mul_spec(samples.variation as int, 32768), 0, 65536),
    ).lerp_spec(
        Color { r: 222, g: 226, b: 255 },
        clamp_int(mul_spec(abs_spec(samples.variation as int), 19661), 0, 65536),
    );
    let offset = Vec3 {
        x: sub_spec(fragment.vertex_position.x as int, 39322) as i32,
        y: sub_spec(fragment.vertex_position.y as int, 26214) as i32,
        z: 0,
    };
    let distance = saturate(offset.length_spec());
    let spot = clamp_int(
        add_spec(smoothstep_spec(16384, 3277, distance), mul_spec(samples.spot as int, 16384)),
        0,
        65536,
    );
    let final_color = varied.lerp_spec(Color { r: 142, g: 68, b: 173 }, mul_spec(spot, 55706));
    let diffuse = lambert_spec(fragment, Vec3 { x: 655360, y: 655360, z: 1310720 });
    final_color.scale_spec(13107).sum_spec(final_color.scale_spec(diffuse))
}

fn band_color(i: i32) -> (c: Color)
    requires
        0 <= i <= 4,
    ensures
        c == band_color_spec(i as int),
{
    if i % 4 == 0 {
        Color::from_hex(0x5a189a)
    } else if i % 4 == 1 {
        Color::from_hex(0x9d4edd)
    } else if i % 4 == 2 {
        Color::from_hex(0xc77dff)
    } else {
        Color::from_hex(0xe0aaff)
    }
}

fn band_base(band: Fixed) -> (c: Color)
    ensures
        c == band_base_spec(band as int),
{
    let spread: i32 = ((clamp_fixed(band, -65536, 65536) + 65536) * 3) / 2;
    let index: i32 = spread / 65536;
    let t: Fixed = spread % 65536;
    band_color(index).lerp(&band_color(index + 1), t)
}

/// Hermite interpolation between two distinct edges.
pub fn smoothstep(edge0: Fixed, edge1: Fixed, x: Fixed) -> (r: Fixed)
    requires
        edge0 != edge1,
    ensures
        r == smoothstep_spec(edge0 as int, edge1 as int, x as int),
{
    let t: Fixed = clamp_fixed(fixed_ratio(fixed_sub(x, edge0), fixed_sub(edge1, edge0)), 0, 65536);
    fixed_mul(fixed_mul(t, t), 3 * 65536 - 2 * t)
}

/// The banded purple planet. `samples.band` is the band wave,
/// `samples.surface` and `samples.variation` are two scales of turbulence,
/// and `samples.spot` roughens the spot.
pub fn ratchet_shader(fragment: &Fragment, samples: &Samples) -> (out: (Color, u32))
    ensures
        out == (ratchet_spec(*fragment, *samples), 0u32),
{
    let base_color: Color = band_base(samples.band);
    let turbulence_color: Color = base_color.lerp(
        &Color::from_hex(0xffffff),
        fixed_mul(samples.surface, 22938),
    );
    let deep_purple: Color = Color::from_hex(0x240046);
    let light_lavender: Color = Color::from_hex(0xdee2ff);
    let variation_color: Color = turbulence_color.lerp(
        &deep_purple,
        clamp_fixed(fixed_mul(samples.variation, 32768), 0, 65536),
    ).lerp(
        &light_lavender,
        clamp_fixed(fixed_mul(fixed_abs(samples.variation), 19661), 0, 65536),
    );
    let offset: Vec3 = Vec3::new(
        fixed_sub(fragment.vertex_position.x, 39322),
        fixed_sub(fragment.vertex_position.y, 26214),
        0,
    );
    let distance_to_spot: Fixed = saturate_fixed(offset.length() as i128);
    let spot_intensity: Fixed = clamp_fixed(
        fixed_add(smoothstep(16384, 3277, distance_to_spot), fixed_mul(samples.spot, 16384)),
        0,
        65536,
    );
    let spot_color: Color = Color::from_hex(0x8e44ad);
    let final_color: Color = variation_color.lerp(&spot_color, fixed_mul(spot_intensity, 55706));
    let light_position: Vec3 = Vec3::new(655360, 655360, 1310720);
    let diffuse: Fixed = lambert(fragment, &light_position);
    let ambient_color: Color = final_color * 13107;
    let lit_color: Color = final_color * diffuse;
    (ambient_color + lit_color, 0)
}

/// The colour and emission that each shader selector gives a fragment.
/// A selector without a shader gives black and no emission.
pub open spec fn fragment_shader_spec(fragment: Fragment, uniforms: Uniforms, samples: Samples) -> (
    Color,
    u32,
) {
    if uniforms.current_shader == 1 {
        (planet_spec(kenshi_preset_spec(), fragment, samples), 0u32)
    } else if uniforms.current_shader == 2 {
        (
            surface_spec(
                moon_palette_spec(uniforms.current_shader).0,
                moon_palette_spec(uniforms.current_shader).1,
                fragment,
                samples.surface as int,
                Vec3 { x: 655360, y: 655360, z: 655360 },
                13107,
                39322,
            ),
            0u32,
        )
    } else if uniforms.current_shader == 3 {
        (planet_spec(toxic_preset_spec(), fragment, samples), 0u32)
    } else if uniforms.current_shader == 4 {
        (planet_spec(rocky_preset_spec(), fragment, samples), 0u32)
    } else if uniforms.current_shader == 5 {
        (ratchet_spec(fragment, samples), 0u32)
    } else if uniforms.current_shader == 6 {
        (ratchet1_spec(fragment, samples), 0u32)
    } else if uniforms.current_shader == 7 {
        sun_spec(samples)
    } else if uniforms.current_shader == 8 {
        (
            surface_spec(
                simple_palette_spec(uniforms.current_shader).0,
                simple_palette_spec(uniforms.current_shader).1,
                fragment,
                samples.surface as int,
                Vec3 { x: 327680, y: 327680, z: 327680 },
                19661,
                45875,
            ),
            0u32,
        )
    } else {
        (Color { r: 0, g: 0, b: 0 }, 0u32)
    }
}

/// Shades a fragment with the shader that the uniforms select.
pub fn fragment_shader(fragment: &Fragment, uniforms: &Uniforms, samples: &Samples) -> (out: (
    Color,
    u32,
))
    ensures
        out == fragment_shader_spec(*fragment, *uniforms, *samples),
{
    match uniforms.current_shader {
        1 => kenshi_shader(fragment, samples),
        2 => moon_shader(fragment, uniforms, samples),
        3 => ratchet_toxic_shader(fragment, samples),
        4 => rocky_planet_shader(fragment, samples),
        5 => ratchet_shader(fragment, samples),
        6 => ratchet1_shader(fragment, samples),
        7 => sun_shader(samples),
        8 => simple_planet_shader(fragment, uniforms, samples),
        _ => (Color::new(0, 0, 0), 0),
    }
}

} // verus!
