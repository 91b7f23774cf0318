use softrender::color::Color;
use softrender::fixed::{HALF, ONE};
use softrender::fragment::Fragment;
use softrender::matrix::Mat4;
use softrender::noise::NoiseConfig;
use softrender::render::Uniforms;
use softrender::shader::{
    diffuse, fragment_shader, kenshi_preset, kenshi_shader, lambert, moon_shader,
    ratchet1_shader, ratchet_shader, ratchet_toxic_shader, rocky_planet_shader, shade_planet,
    simple_planet_shader, smoothstep, sun_shader, vertex_shader, Samples,
};
use softrender::vector::{Vec2, Vec3};
use softrender::vertex::Vertex;

fn quiet() -> Samples {
    Samples {
        surface: 0,
        layer: 0,
        variation: 0,
        spot: 0,
        band: 0,
        pulse: 0,
        sun_red: 0,
        sun_green: 0,
        sun_blue: 0,
        sun_emission: 0,
    }
}

fn facing_fragment(at: Vec3) -> Fragment {
    Fragment::new(
        Vec2::new(at.x, at.y),
        Color::new(255, 255, 255),
        at.z,
        Vec3::new(0, 0, ONE),
        0,
        at,
        None,
    )
}

fn uniforms(current_shader: u8) -> Uniforms {
    Uniforms {
        model_matrix: Mat4::identity(),
        view_matrix: Mat4::identity(),
        projection_matrix: Mat4::identity(),
        viewport_matrix: Mat4::identity(),
        time: 0,
        noise: NoiseConfig::Default,
        cloud_noise: NoiseConfig::Default,
        band_noise: NoiseConfig::Default,
        current_shader,
    }
}

#[test]
fn vertex_shader_with_identity_matrices_keeps_the_position() {
    let v = Vertex::new(Vec3::new(3 * ONE, -2 * ONE, HALF), Vec3::new(0, ONE, 0), Vec2::new(1, 2));
    let out = vertex_shader(&v, &uniforms(1)).unwrap();
    assert_eq!(out.transformed_position, Vec3::new(3 * ONE, -2 * ONE, HALF));
    assert_eq!(out.transformed_normal, Vec3::new(0, ONE, 0));
    assert_eq!(out.position, v.position);
    assert_eq!(out.tex_coords, v.tex_coords);
    assert_eq!(out.color, v.color);
}

#[test]
fn vertex_shader_divides_by_w() {
    let mut u = uniforms(1);
    u.projection_matrix = Mat4::new(
        ONE, 0, 0, 0,
        0, ONE, 0, 0,
        0, 0, ONE, 0,
        0, 0, 0, 2 * ONE,
    );
    u.viewport_matrix = Mat4::new(
        100 * ONE, 0, 0, 100 * ONE,
        0, -100 * ONE, 0, 100 * ONE,
        0, 0, ONE, 0,
        0, 0, 0, ONE,
    );
    let v = Vertex::new(Vec3::new(ONE, ONE, ONE), Vec3::new(0, 0, ONE), Vec2::new(0, 0));
    let out = vertex_shader(&v, &u).unwrap();
    assert_eq!(out.transformed_position, Vec3::new(150 * ONE, 50 * ONE, HALF));
}

#[test]
fn vertex_shader_applies_the_model_first() {
    let mut u = uniforms(1);
    u.model_matrix = Mat4::new(
        2 * ONE, 0, 0, ONE,
        0, 2 * ONE, 0, 0,
        0, 0, 2 * ONE, 0,
        0, 0, 0, ONE,
    );
    u.view_matrix = Mat4::new(
        0, -ONE, 0, 0,
        ONE, 0, 0, 0,
        0, 0, ONE, 0,
        0, 0, 0, ONE,
    );
    let v = Vertex::new(Vec3::new(ONE, 3 * ONE, 0), Vec3::new(0, 0, ONE), Vec2::new(0, 0));
    let out = vertex_shader(&v, &u).unwrap();
    assert_eq!(out.transformed_position, Vec3::new(-6 * ONE, 3 * ONE, 0));
}

#[test]
fn vertex_shader_rejects_a_zero_w() {
    let mut u = uniforms(1);
    u.projection_matrix = Mat4::new(
        ONE, 0, 0, 0,
        0, ONE, 0, 0,
        0, 0, ONE, 0,
        0, 0, -ONE, 0,
    );
    let on_the_eye = Vertex::new(Vec3::new(ONE, ONE, 0), Vec3::new(0, 0, ONE), Vec2::new(0, 0));
    assert!(vertex_shader(&on_the_eye, &u).is_none());
    let ahead = Vertex::new(Vec3::new(ONE, ONE, -2 * ONE), Vec3::new(0, 0, ONE), Vec2::new(0, 0));
    let out = vertex_shader(&ahead, &u).unwrap();
    assert_eq!(out.transformed_position, Vec3::new(HALF, HALF, -ONE));
}

#[test]
fn diffuse_is_the_clamped_cosine() {
    let up = Vec3::new(0, 5 * ONE, 0);
    assert_eq!(diffuse(&up, &Vec3::new(0, ONE, 0)), ONE);
    assert_eq!(diffuse(&up, &Vec3::new(0, -ONE, 0)), 0);
    assert_eq!(diffuse(&up, &Vec3::new(ONE, 0, 0)), 0);
    assert_eq!(diffuse(&Vec3::new(0, 0, 0), &Vec3::new(0, ONE, 0)), 0);
}

#[test]
fn lambert_points_at_the_light() {
    let f = facing_fragment(Vec3::new(0, 0, 0));
    assert_eq!(lambert(&f, &Vec3::new(0, 0, 9 * ONE)), ONE);
    assert_eq!(lambert(&f, &Vec3::new(0, 0, -9 * ONE)), 0);
    assert_eq!(lambert(&f, &Vec3::new(ONE, ONE, 3 * ONE)), 59280);
}

#[test]
fn smoothstep_eases_between_its_edges() {
    assert_eq!(smoothstep(0, ONE, -5), 0);
    assert_eq!(smoothstep(0, ONE, 0), 0);
    assert_eq!(smoothstep(0, ONE, ONE / 4), 10240);
    assert_eq!(smoothstep(0, ONE, HALF), HALF);
    assert_eq!(smoothstep(0, ONE, ONE), ONE);
    assert_eq!(smoothstep(0, ONE, 9 * ONE), ONE);
}

#[test]
fn smoothstep_with_falling_edges() {
    assert_eq!(smoothstep(16384, 3277, 0), ONE);
    assert_eq!(smoothstep(16384, 3277, 3277), ONE);
    assert_eq!(smoothstep(16384, 3277, 9830), 32770);
    assert_eq!(smoothstep(16384, 3277, 16384), 0);
    assert_eq!(smoothstep(16384, 3277, ONE), 0);
}

#[test]
fn kenshi_sea_and_land() {
    let f = facing_fragment(Vec3::new(0, 0, 0));
    let mut s = quiet();
    s.surface = 9830;
    assert_eq!(kenshi_shader(&f, &s), (Color::new(0, 45, 150), 0));
    s.surface = HALF;
    assert_eq!(kenshi_shader(&f, &s), (Color::new(99, 106, 26), 0));
    s.surface = 58982;
    assert_eq!(kenshi_shader(&f, &s), (Color::new(106, 83, 29), 0));
}

#[test]
fn kenshi_clouds_are_added_past_their_threshold() {
    let f = facing_fragment(Vec3::new(0, 0, 0));
    let mut s = quiet();
    s.surface = 9830;
    s.layer = 16384;
    s.pulse = HALF;
    assert_eq!(kenshi_shader(&f, &s), (Color::new(0, 45, 150), 0));
    s.layer = 49152;
    assert_eq!(kenshi_shader(&f, &s), (Color::new(61, 106, 211), 0));
}

#[test]
fn shade_planet_with_the_kenshi_preset_is_the_kenshi_shader() {
    let f = facing_fragment(Vec3::new(ONE, 2 * ONE, 3 * ONE));
    let mut s = quiet();
    s.surface = 40000;
    s.layer = 30000;
    s.pulse = 20000;
    assert_eq!(shade_planet(&kenshi_preset(), &f, &s), kenshi_shader(&f, &s));
}

#[test]
fn toxic_clouds_carry_a_haze() {
    let f = facing_fragment(Vec3::new(0, 0, 0));
    let mut s = quiet();
    s.surface = HALF;
    s.layer = 49152;
    s.pulse = ONE;
    assert_eq!(ratchet_toxic_shader(&f, &s), (Color::new(121, 183, 56), 0));
}

#[test]
fn rocky_dust_is_added_past_its_threshold() {
    let f = facing_fragment(Vec3::new(0, 0, 0));
    let mut s = quiet();
    s.surface = 52429;
    s.layer = 52429;
    assert_eq!(rocky_planet_shader(&f, &s), (Color::new(84, 56, 35), 0));
}

#[test]
fn moon_mixes_its_palette_by_the_noise() {
    let f = facing_fragment(Vec3::new(0, 0, 0));
    assert_eq!(moon_shader(&f, &uniforms(2), &quiet()), (Color::new(42, 42, 42), 0));
}

#[test]
fn simple_planet_falls_back_to_the_grey_palette() {
    let f = facing_fragment(Vec3::new(0, 0, 0));
    let mut s = quiet();
    s.surface = HALF;
    assert_eq!(simple_planet_shader(&f, &uniforms(8), &s), (Color::new(102, 102, 102), 0));
}

#[test]
fn ratchet1_scales_one_colour() {
    let f = facing_fragment(Vec3::new(0, 0, 0));
    assert_eq!(ratchet1_shader(&f, &quiet()), (Color::new(80, 26, 80), 0));
}

#[test]
fn ratchet_bands_and_spot() {
    let f = facing_fragment(Vec3::new(0, 0, 0));
    assert_eq!(ratchet_shader(&f, &quiet()), (Color::new(180, 103, 241), 0));
    let in_the_spot = facing_fragment(Vec3::new(39322, 26214, 0));
    let mut s = quiet();
    s.band = ONE;
    s.surface = HALF;
    s.variation = -HALF;
    assert_eq!(ratchet_shader(&in_the_spot, &s), (Color::new(158, 88, 189), 0));
}

#[test]
fn sun_at_rest() {
    assert_eq!(sun_shader(&quiet()), (Color::new(255, 229, 88), 175));
}

#[test]
fn sun_emission_swings_between_150_and_200() {
    let mut s = quiet();
    s.sun_emission = ONE;
    assert_eq!(sun_shader(&s).1, 200);
    s.sun_emission = -ONE;
    assert_eq!(sun_shader(&s).1, 150);
    s.sun_emission = i32::MAX;
    assert_eq!(sun_shader(&s).1, 200);
    s.sun_emission = i32::MIN;
    assert_eq!(sun_shader(&s).1, 150);
}

#[test]
fn sun_channels_follow_their_waves() {
    let mut s = quiet();
    s.sun_red = -ONE;
    s.sun_green = -ONE;
    s.sun_blue = -ONE;
    assert_eq!(sun_shader(&s).0, Color::new(255, 204, 76));
    s.sun_green = ONE;
    s.sun_blue = ONE;
    assert_eq!(sun_shader(&s).0, Color::new(255, 254, 101));
}

#[test]
fn sun_never_falls_below_its_base_colour() {
    let mut s = quiet();
    let mut wave = -2 * ONE;
    while wave <= 2 * ONE {
        s.sun_red = wave;
        s.sun_green = -wave;
        s.sun_blue = wave / 3;
        let c = sun_shader(&s).0;
        assert_eq!(c.r, 255);
        assert!(c.g >= 204);
        assert!(c.b >= 76);
        wave += 997;
    }
}

#[test]
fn fragment_shader_dispatches_on_the_selector() {
    let f = facing_fragment(Vec3::new(0, 0, 0));
    let mut s = quiet();
    s.surface = HALF;
    s.layer = 49152;
    s.pulse = ONE;
    assert_eq!(fragment_shader(&f, &uniforms(1), &s), kenshi_shader(&f, &s));
    assert_eq!(fragment_shader(&f, &uniforms(2), &s), moon_shader(&f, &uniforms(2), &s));
    assert_eq!(fragment_shader(&f, &uniforms(3), &s), ratchet_toxic_shader(&f, &s));
    assert_eq!(fragment_shader(&f, &uniforms(4), &s), rocky_planet_shader(&f, &s));
    assert_eq!(fragment_shader(&f, &uniforms(5), &s), ratchet_shader(&f, &s));
    assert_eq!(fragment_shader(&f, &uniforms(6), &s), ratchet1_shader(&f, &s));
    assert_eq!(fragment_shader(&f, &uniforms(7), &s), sun_shader(&s));
    assert_eq!(
        fragment_shader(&f, &uniforms(8), &s),
        simple_planet_shader(&f, &uniforms(8), &s)
    );
}

#[test]
fn fragment_shader_without_a_shader_is_black() {
    let f = facing_fragment(Vec3::new(0, 0, 0));
    for selector in [0u8, 9, 10, 255] {
        assert_eq!(fragment_shader(&f, &uniforms(selector), &quiet()), (Color::new(0, 0, 0), 0));
    }
}
