use softrender::color::Color;
use softrender::fixed::{HALF, ONE};
use softrender::fragment::Fragment;
use softrender::framebuffer::{Framebuffer, FAR};
use softrender::matrix::{Mat4, Vec4};
use softrender::noise::{
    create_cloud_noise, create_moon_noise, create_noise, FractalType, NoiseConfig,
    NoiseSettings, NoiseType,
};
use softrender::obj::{parse_face, Obj};
use softrender::render::{
    collect_fragments, create_model_matrix, create_viewport_matrix, draw_fragment, render,
    Rotation, Uniforms,
};
use softrender::sampling::{band_angle, sample_plan, Field, NoisePoint, SunAngles};
use softrender::shader::Samples;
use softrender::vector::{Vec2, Vec3};
use softrender::vertex::Vertex;

fn quiet() -> Samples {
    Samples {
        surface: 0,
        layer: 0,
        variation: 0,
        spot: 0,
        band: 0,
        pulse: 0,
        sun_red: 0,
        sun_green: 0,
        sun_blue: 0,
        sun_emission: 0,
    }
}

fn uniforms(current_shader: u8) -> Uniforms {
    Uniforms {
        model_matrix: Mat4::identity(),
        view_matrix: Mat4::identity(),
        projection_matrix: Mat4::identity(),
        viewport_matrix: Mat4::identity(),
        time: 0,
        noise: NoiseConfig::Default,
        cloud_noise: NoiseConfig::Default,
        band_noise: NoiseConfig::Default,
        current_shader,
    }
}

fn fragment_at(x: i32, y: i32, depth: i32) -> Fragment {
    Fragment::new(
        Vec2::new(x, y),
        Color::new(1, 2, 3),
        depth,
        Vec3::new(0, 0, ONE),
        0,
        Vec3::new(x, y, depth),
        None,
    )
}

fn corner(x: i32, y: i32) -> Vertex {
    Vertex::new(Vec3::new(x * ONE, y * ONE, 0), Vec3::new(0, 0, ONE), Vec2::new(0, 0))
}

fn no_turn() -> Rotation {
    Rotation { sin: Vec3::new(0, 0, 0), cos: Vec3::new(ONE, ONE, ONE) }
}

#[test]
fn vertex_new_starts_untransformed() {
    let v = Vertex::new(Vec3::new(1, 2, 3), Vec3::new(4, 5, 6), Vec2::new(7, 8));
    assert_eq!(v.position, Vec3::new(1, 2, 3));
    assert_eq!(v.normal, Vec3::new(4, 5, 6));
    assert_eq!(v.tex_coords, Vec2::new(7, 8));
    assert_eq!(v.color, Color::new(0, 0, 0));
    assert_eq!(v.transformed_position, v.position);
    assert_eq!(v.transformed_normal, v.normal);
}

#[test]
fn fragment_new_keeps_every_field() {
    let f = Fragment::new(
        Vec2::new(1, 2),
        Color::new(3, 4, 5),
        6,
        Vec3::new(7, 8, 9),
        10,
        Vec3::new(11, 12, 13),
        Some(Vec2::new(14, 15)),
    );
    assert_eq!(f.position, Vec2::new(1, 2));
    assert_eq!(f.color, Color::new(3, 4, 5));
    assert_eq!(f.depth, 6);
    assert_eq!(f.normal, Vec3::new(7, 8, 9));
    assert_eq!(f.intensity, 10);
    assert_eq!(f.vertex_position, Vec3::new(11, 12, 13));
    assert_eq!(f.uv, Some(Vec2::new(14, 15)));
}

#[test]
fn vector_length_dot_and_normalize() {
    let v = Vec3::new(3 * ONE, 4 * ONE, 0);
    assert_eq!(v.length(), 5 * ONE as u64);
    assert_eq!(v.normalize(), Vec3::new(39322, 52429, 0));
    assert_eq!(Vec3::new(1, 1, 0).normalize(), Vec3::new(46341, 46341, 0));
    assert_eq!(Vec3::new(1, 0, 0).normalize(), Vec3::new(ONE, 0, 0));
    assert_eq!(Vec3::new(i32::MIN, 0, 0).normalize(), Vec3::new(-ONE, 0, 0));
    assert_eq!(Vec3::new(i32::MAX, i32::MAX, i32::MAX).normalize(), Vec3::new(37837, 37837, 37837));
    assert_eq!(v.dot(&Vec3::new(ONE, ONE, ONE)), 7 * ONE);
    assert_eq!(Vec3::new(0, 0, 0).normalize(), Vec3::new(0, 0, 0));
    assert_eq!(Vec3::new(0, 0, -7).normalize(), Vec3::new(0, 0, -ONE));
    assert_eq!(Vec3::new(i32::MIN, i32::MIN, i32::MIN).length(), 3719550786);
}

#[test]
fn normalized_vectors_are_close_to_unit_length() {
    let mut seed: u64 = 12345;
    for round in 0..2000 {
        let mut v = [0i32; 3];
        for c in v.iter_mut() {
            seed = seed.wrapping_mul(6364136223846793005).wrapping_add(1442695040888963407);
            let raw = (seed >> 32) as i32;
            *c = if round % 3 == 0 { raw % 5 } else if round % 3 == 1 { raw % 100000 } else { raw };
        }
        let n = Vec3::new(v[0], v[1], v[2]).normalize();
        let squared = (n.x as i64).pow(2) + (n.y as i64).pow(2) + (n.z as i64).pow(2);
        if v == [0, 0, 0] {
            assert_eq!(squared, 0);
        } else {
            assert!(65534 * 65534 <= squared && squared <= 65539 * 65539);
        }
    }
}

#[test]
fn vector_sub_saturates() {
    let a = Vec3::new(i32::MIN, 5, 0);
    let b = Vec3::new(1, 7, 0);
    assert_eq!(a.sub(&b), Vec3::new(i32::MIN, -2, 0));
    assert_eq!(b.sub(&a), Vec3::new(i32::MAX, 2, 0));
}

#[test]
fn matrix_times_vector_and_matrix() {
    let m = Mat4::new(
        ONE, 2 * ONE, 0, 0,
        0, ONE, 0, 0,
        0, 0, ONE, 3 * ONE,
        0, 0, 0, ONE,
    );
    let v = Vec4::new(ONE, ONE, ONE, ONE);
    assert_eq!(m.apply(&v), Vec4::new(3 * ONE, ONE, 4 * ONE, ONE));
    assert_eq!(Mat4::identity().apply(&v), v);
    assert_eq!(m.multiply(&Mat4::identity()), m);
    assert_eq!(Mat4::identity().multiply(&m), m);
    let squared = m.multiply(&m);
    assert_eq!(squared.apply(&v), m.apply(&m.apply(&v)));
    assert_eq!(squared.r0, Vec4::new(ONE, 4 * ONE, 0, 0));
    assert_eq!(squared.r2, Vec4::new(0, 0, ONE, 6 * ONE));
}

#[test]
fn viewport_matrix_halves_and_flips() {
    let m = create_viewport_matrix(600 * ONE, 400 * ONE);
    assert_eq!(m.r0, Vec4::new(300 * ONE, 0, 0, 300 * ONE));
    assert_eq!(m.r1, Vec4::new(0, -200 * ONE, 0, 200 * ONE));
    assert_eq!(m.r2, Vec4::new(0, 0, ONE, 0));
    assert_eq!(m.r3, Vec4::new(0, 0, 0, ONE));
    assert_eq!(m.apply(&Vec4::new(-ONE, ONE, HALF, ONE)), Vec4::new(0, 0, HALF, ONE));
    assert_eq!(m.apply(&Vec4::new(ONE, -ONE, HALF, ONE)), Vec4::new(600 * ONE, 400 * ONE, HALF, ONE));
}

#[test]
fn model_matrix_without_rotation_scales_and_translates() {
    let m = create_model_matrix(Vec3::new(ONE, 2 * ONE, 3 * ONE), 2 * ONE, no_turn());
    assert_eq!(m.r0, Vec4::new(2 * ONE, 0, 0, ONE));
    assert_eq!(m.r1, Vec4::new(0, 2 * ONE, 0, 2 * ONE));
    assert_eq!(m.r2, Vec4::new(0, 0, 2 * ONE, 3 * ONE));
    assert_eq!(m.r3, Vec4::new(0, 0, 0, ONE));
}

#[test]
fn model_matrix_turns_about_each_axis() {
    let origin = Vec3::new(0, 0, 0);
    let about_z = Rotation { sin: Vec3::new(0, 0, ONE), cos: Vec3::new(ONE, ONE, 0) };
    let m = create_model_matrix(origin, ONE, about_z);
    assert_eq!(m.apply(&Vec4::new(ONE, 0, 0, ONE)), Vec4::new(0, ONE, 0, ONE));
    let about_x = Rotation { sin: Vec3::new(ONE, 0, 0), cos: Vec3::new(0, ONE, ONE) };
    let m = create_model_matrix(origin, ONE, about_x);
    assert_eq!(m.apply(&Vec4::new(0, ONE, 0, ONE)), Vec4::new(0, 0, ONE, ONE));
    let about_y = Rotation { sin: Vec3::new(0, ONE, 0), cos: Vec3::new(ONE, 0, ONE) };
    let m = create_model_matrix(origin, ONE, about_y);
    assert_eq!(m.apply(&Vec4::new(0, 0, ONE, ONE)), Vec4::new(ONE, 0, 0, ONE));
}

#[test]
fn model_matrix_turns_about_x_before_z() {
    let turn = Rotation { sin: Vec3::new(ONE, 0, ONE), cos: Vec3::new(0, ONE, 0) };
    let m = create_model_matrix(Vec3::new(0, 0, 0), ONE, turn);
    // y goes to z about x, and z stays under the turn about z
    assert_eq!(m.apply(&Vec4::new(0, ONE, 0, ONE)), Vec4::new(0, 0, ONE, ONE));
    // x stays about x, then goes to y about z
    assert_eq!(m.apply(&Vec4::new(ONE, 0, 0, ONE)), Vec4::new(0, ONE, 0, ONE));
}

#[test]
fn noise_table() {
    let kenshi = NoiseConfig::Fractal(NoiseSettings {
        seed: 623,
        noise_type: NoiseType::OpenSimplex2S,
        fractal_type: FractalType::Ridged,
        octaves: 5,
        lacunarity: 200,
        gain: 50,
        frequency: 80,
    });
    assert_eq!(create_noise(1), kenshi);
    assert_eq!(create_noise(0), kenshi);
    assert_eq!(create_noise(7), kenshi);
    assert_eq!(create_noise(200), kenshi);
    assert_eq!(create_noise(4), NoiseConfig::Default);
    assert_eq!(create_noise(9), NoiseConfig::Default);
    assert_eq!(create_noise(8), create_moon_noise());
    assert_eq!(
        create_noise(2),
        NoiseConfig::Fractal(NoiseSettings {
            seed: 3344,
            noise_type: NoiseType::Perlin,
            fractal_type: FractalType::Ridged,
            octaves: 8,
            lacunarity: 300,
            gain: 70,
            frequency: 180,
        })
    );
    assert_eq!(
        create_noise(3),
        NoiseConfig::Fractal(NoiseSettings {
            seed: 4321,
            noise_type: NoiseType::Perlin,
            fractal_type: FractalType::PingPong,
            octaves: 5,
            lacunarity: 200,
            gain: 100,
            frequency: 500,
        })
    );
    assert_eq!(
        create_noise(5),
        NoiseConfig::Fractal(NoiseSettings {
            seed: 9876,
            noise_type: NoiseType::OpenSimplex2,
            fractal_type: FractalType::DomainWarpProgressive,
            octaves: 6,
            lacunarity: 200,
            gain: 50,
            frequency: 200,
        })
    );
    assert_eq!(
        create_noise(6),
        NoiseConfig::Fractal(NoiseSettings {
            seed: 2021,
            noise_type: NoiseType::OpenSimplex2,
            fractal_type: FractalType::Ridged,
            octaves: 4,
            lacunarity: 200,
            gain: 40,
            frequency: 20,
        })
    );
}

#[test]
fn cloud_and_moon_noise() {
    assert_eq!(
        create_cloud_noise(),
        NoiseConfig::Fractal(NoiseSettings {
            seed: 805,
            noise_type: NoiseType::Perlin,
            fractal_type: FractalType::FBm,
            octaves: 2,
            lacunarity: 300,
            gain: 50,
            frequency: 1,
        })
    );
    assert_eq!(
        create_moon_noise(),
        NoiseConfig::Fractal(NoiseSettings {
            seed: 4321,
            noise_type: NoiseType::OpenSimplex2,
            fractal_type: FractalType::PingPong,
            octaves: 2,
            lacunarity: 200,
            gain: 50,
            frequency: 300,
        })
    );
}

#[test]
fn vertex_array_follows_the_indices() {
    let obj = Obj::new(
        vec![Vec3::new(1, 1, 1), Vec3::new(2, 2, 2), Vec3::new(3, 3, 3)],
        vec![Vec3::new(0, 0, 1), Vec3::new(0, 1, 0), Vec3::new(1, 0, 0)],
        vec![Vec2::new(5, 5), Vec2::new(6, 6), Vec2::new(7, 7)],
        vec![2, 0, 1, 2],
    );
    let array = obj.build_vertex_array().unwrap();
    assert_eq!(array.len(), 4);
    assert_eq!(array[0], Vertex::new(Vec3::new(3, 3, 3), Vec3::new(1, 0, 0), Vec2::new(7, 7)));
    assert_eq!(array[1], Vertex::new(Vec3::new(1, 1, 1), Vec3::new(0, 0, 1), Vec2::new(5, 5)));
    assert_eq!(array[2], Vertex::new(Vec3::new(2, 2, 2), Vec3::new(0, 1, 0), Vec2::new(6, 6)));
    assert_eq!(array[3], array[0]);
}

#[test]
fn missing_attributes_are_zero() {
    let obj = Obj::new(vec![Vec3::new(1, 1, 1)], Vec::new(), Vec::new(), vec![0, 0]);
    let array = obj.build_vertex_array().unwrap();
    assert_eq!(array, vec![Vertex::new(Vec3::new(1, 1, 1), Vec3::new(0, 0, 0), Vec2::new(0, 0)); 2]);
}

#[test]
fn an_index_out_of_range_rejects_the_mesh() {
    let positions = vec![Vec3::new(1, 1, 1), Vec3::new(2, 2, 2)];
    assert!(Obj::new(positions.clone(), Vec::new(), Vec::new(), vec![0, 2]).build_vertex_array().is_none());
    assert!(Obj::new(positions.clone(), vec![Vec3::new(0, 0, 1)], Vec::new(), vec![0, 1])
        .build_vertex_array()
        .is_none());
    assert!(Obj::new(positions.clone(), Vec::new(), vec![Vec2::new(0, 0)], vec![1])
        .build_vertex_array()
        .is_none());
    assert!(Obj::new(Vec::new(), Vec::new(), Vec::new(), vec![0]).build_vertex_array().is_none());
}

#[test]
fn a_mesh_without_indices_is_empty() {
    let obj = Obj::new(vec![Vec3::new(1, 1, 1)], Vec::new(), Vec::new(), Vec::new());
    assert_eq!(obj.build_vertex_array(), Some(Vec::new()));
}

#[test]
fn every_three_vertices_make_an_outline() {
    let u = uniforms(1);
    let triangle = vec![corner(0, 0), corner(3, 0), corner(3, 4)];
    let fragments = collect_fragments(&u, &triangle);
    assert_eq!(fragments.len(), 4 + 5 + 6);
    assert_eq!(fragments[14].position, Vec2::new(3 * ONE, 4 * ONE));

    let mut with_leftover = triangle.clone();
    with_leftover.push(corner(9, 9));
    with_leftover.push(corner(8, 8));
    assert_eq!(collect_fragments(&u, &with_leftover).len(), 15);

    let mut two = triangle.clone();
    two.extend(vec![corner(0, 0), corner(0, 1), corner(1, 0)]);
    assert_eq!(collect_fragments(&u, &two).len(), 15 + 2 + 3 + 2);

    assert!(collect_fragments(&u, &vec![corner(0, 0), corner(3, 0)]).is_empty());
    assert!(collect_fragments(&u, &Vec::new()).is_empty());
}

#[test]
fn a_triangle_with_a_rejected_vertex_is_dropped() {
    let mut u = uniforms(1);
    u.projection_matrix = Mat4::new(
        ONE, 0, 0, 0,
        0, ONE, 0, 0,
        0, 0, ONE, 0,
        0, 0, -ONE, 0,
    );
    let behind = |x: i32, y: i32, z: i32| {
        Vertex::new(Vec3::new(x * ONE, y * ONE, z * ONE), Vec3::new(0, 0, ONE), Vec2::new(0, 0))
    };
    let dropped = vec![behind(0, 0, -1), behind(3, 0, 0), behind(3, 4, -1)];
    assert!(collect_fragments(&u, &dropped).is_empty());
    let mut kept = dropped.clone();
    kept.extend(vec![behind(0, 0, -1), behind(3, 0, -1), behind(3, 4, -1)]);
    assert_eq!(collect_fragments(&u, &kept).len(), 15);
}

#[test]
fn a_fragment_is_shaded_and_written() {
    let mut fb = Framebuffer::new(10, 10);
    draw_fragment(&mut fb, &uniforms(7), &fragment_at(5 * ONE + HALF, 5 * ONE + HALF, ONE), &quiet());
    assert_eq!(fb.buffer[55], 0xFFE558);
    assert_eq!(fb.zbuffer[55], ONE);
    assert_eq!(fb.emissive_buffer[55], 175);
    assert_eq!(fb.current_color, 0xFFE558);
    assert_eq!(fb.buffer.iter().filter(|c| **c != 0).count(), 1);
}

#[test]
fn a_fragment_outside_the_image_is_dropped() {
    let mut fb = Framebuffer::new(10, 10);
    let u = uniforms(7);
    draw_fragment(&mut fb, &u, &fragment_at(-1, 5 * ONE, 0), &quiet());
    draw_fragment(&mut fb, &u, &fragment_at(5 * ONE, -1, 0), &quiet());
    draw_fragment(&mut fb, &u, &fragment_at(10 * ONE, 5 * ONE, 0), &quiet());
    draw_fragment(&mut fb, &u, &fragment_at(5 * ONE, 10 * ONE, 0), &quiet());
    draw_fragment(&mut fb, &u, &fragment_at(i32::MIN, i32::MAX, 0), &quiet());
    assert_eq!(fb.buffer, vec![0u32; 100]);
    assert_eq!(fb.zbuffer, vec![FAR; 100]);
    assert_eq!(fb.current_color, 0xFFFFFF);
}

#[test]
fn render_draws_in_order_through_the_depth_test() {
    let mut fb = Framebuffer::new(10, 10);
    let mut bright = quiet();
    bright.sun_emission = ONE;
    let fragments = vec![
        fragment_at(5 * ONE, 5 * ONE, 2 * ONE),
        fragment_at(5 * ONE + 7, 5 * ONE + 9, ONE),
        fragment_at(5 * ONE, 5 * ONE, 3 * ONE),
        fragment_at(0, 9 * ONE, 3 * ONE),
    ];
    let samples = vec![quiet(), bright, quiet(), quiet()];
    render(&mut fb, &uniforms(7), &fragments, &samples);
    assert_eq!(fb.zbuffer[55], ONE);
    assert_eq!(fb.emissive_buffer[55], 200);
    assert_eq!(fb.buffer[55], 0xFFE558);
    assert_eq!(fb.zbuffer[90], 3 * ONE);
    assert_eq!(fb.emissive_buffer[90], 175);
    assert_eq!(fb.zbuffer.iter().filter(|d| **d != FAR).count(), 2);
}

#[test]
fn render_stops_where_the_samples_end() {
    let mut fb = Framebuffer::new(4, 4);
    let fragments = vec![fragment_at(0, 0, 1), fragment_at(ONE, 0, 1), fragment_at(2 * ONE, 0, 1)];
    render(&mut fb, &uniforms(7), &fragments, &vec![quiet(), quiet()]);
    assert_eq!(fb.zbuffer[0], 1);
    assert_eq!(fb.zbuffer[1], 1);
    assert_eq!(fb.zbuffer[2], FAR);
}

#[test]
fn plans_read_the_surface_at_the_fragment() {
    let f = fragment_at(3 * ONE, 2 * ONE, 7);
    for selector in [1u8, 2, 4] {
        let plan = sample_plan(&f, &uniforms(selector), 50);
        assert_eq!(
            plan.surface,
            Some(NoisePoint { field: Field::Surface, x: 3 * ONE as i64, y: 2 * ONE as i64, z: None })
        );
    }
    let toxic = sample_plan(&f, &uniforms(3), 50);
    assert_eq!(
        toxic.surface,
        Some(NoisePoint { field: Field::Surface, x: 9 * ONE as i64, y: 2 * ONE as i64, z: None })
    );
    let simple = sample_plan(&f, &uniforms(8), 50);
    assert_eq!(
        simple.surface,
        Some(NoisePoint { field: Field::Surface, x: 150 * ONE as i64, y: 100 * ONE as i64, z: None })
    );
    assert_eq!(simple.layer, None);
    assert_eq!(simple.pulse, None);
}

#[test]
fn clouds_scroll_with_time() {
    let f = fragment_at(3 * ONE, 2 * ONE, 7);
    let one = ONE as i64;
    let still = sample_plan(&f, &uniforms(1), 0);
    assert_eq!(
        still.layer,
        Some(NoisePoint { field: Field::Cloud, x: 400 * one, y: 300 * one, z: None })
    );
    assert_eq!(still.pulse, Some(0));
    let later = sample_plan(&f, &uniforms(3), 1000);
    assert_eq!(
        later.layer,
        Some(NoisePoint { field: Field::Cloud, x: 510 * one, y: 405 * one, z: None })
    );
    assert_eq!(later.pulse, Some(19660));
}

#[test]
fn dust_is_read_in_three_dimensions() {
    let f = fragment_at(3 * ONE, 2 * ONE, 7);
    let one = ONE as i64;
    let plan = sample_plan(&f, &uniforms(4), 100);
    assert_eq!(
        plan.layer,
        Some(NoisePoint { field: Field::Surface, x: -7 * one, y: -5 * one, z: Some(2 * one) })
    );
    assert_eq!(plan.pulse, Some(6553));
}

#[test]
fn the_banded_planet_reads_four_points() {
    let f = fragment_at(3 * ONE, 2 * ONE, ONE);
    let one = ONE as i64;
    let plan = sample_plan(&f, &uniforms(5), 25);
    assert_eq!(
        plan.surface,
        Some(NoisePoint { field: Field::Surface, x: 9 * one, y: 6 * one, z: Some(3 * one) })
    );
    assert_eq!(
        plan.variation,
        Some(NoisePoint { field: Field::Surface, x: 6 * one, y: 4 * one, z: Some(2 * one) })
    );
    assert_eq!(
        plan.spot,
        Some(NoisePoint { field: Field::Surface, x: 54 * one, y: 36 * one, z: None })
    );
    assert_eq!(
        plan.band,
        Some(NoisePoint { field: Field::Band, x: 15 * one / 2, y: 5 * one, z: None })
    );
    assert_eq!(band_angle(&f, HALF, 25), 16 * one + one + 4 * one);
    assert_eq!(band_angle(&f, -ONE, 0), 14 * one);
}

#[test]
fn the_gas_planet_drifts_along_y() {
    let f = fragment_at(3 * ONE, 2 * ONE, ONE);
    let one = ONE as i64;
    let plan = sample_plan(&f, &uniforms(6), 2000);
    assert_eq!(
        plan.surface,
        Some(NoisePoint { field: Field::Surface, x: 3 * one, y: 4 * one, z: Some(one) })
    );
}

#[test]
fn the_sun_reads_four_angles() {
    let f = fragment_at(0, 0, 0);
    let one = ONE as i64;
    let plan = sample_plan(&f, &uniforms(7), 1000);
    assert_eq!(
        plan.sun,
        Some(SunAngles { red: 30 * one, green: 39 * one, blue: 51 * one, emission: 20 * one })
    );
    assert_eq!(plan.surface, None);
}

#[test]
fn a_selector_without_a_shader_reads_nothing() {
    let f = fragment_at(3 * ONE, 2 * ONE, ONE);
    for selector in [0u8, 9, 255] {
        let plan = sample_plan(&f, &uniforms(selector), 77);
        assert_eq!(plan.surface, None);
        assert_eq!(plan.layer, None);
        assert_eq!(plan.variation, None);
        assert_eq!(plan.spot, None);
        assert_eq!(plan.band, None);
        assert_eq!(plan.pulse, None);
        assert_eq!(plan.sun, None);
    }
}

#[test]
fn plans_never_overflow() {
    let f = fragment_at(i32::MIN, i32::MIN, i32::MIN);
    let g = fragment_at(i32::MAX, i32::MAX, i32::MAX);
    for selector in 0u8..10 {
        let low = sample_plan(&f, &uniforms(selector), u32::MAX);
        let high = sample_plan(&g, &uniforms(selector), u32::MAX);
        assert_eq!(low.surface.is_some(), high.surface.is_some());
    }
    assert!(band_angle(&g, i32::MAX, u32::MAX) > 0);
    assert!(band_angle(&f, i32::MIN, 0) < 0);
}

#[test]
fn face_lines_give_three_indices_from_zero() {
    assert_eq!(parse_face(b"f 1 2 3"), Some((0, 1, 2)));
    assert_eq!(parse_face(b"f 1/2/3 4/5/6 7/8/9"), Some((0, 3, 6)));
    assert_eq!(parse_face(b"f 1//3 2//3 3//3"), Some((0, 1, 2)));
    assert_eq!(parse_face(b"  f\t10 20   30 40\r\n"), Some((9, 19, 29)));
    assert_eq!(parse_face(b"f +1 2 3/"), Some((0, 1, 2)));
    assert_eq!(parse_face(b"f 00012 1 1"), Some((11, 0, 0)));
    assert_eq!(parse_face(b"f 4294967296 1 1"), Some((4294967295, 0, 0)));
}

#[test]
fn other_lines_and_broken_faces_give_nothing() {
    for line in [
        &b""[..],
        b"   ",
        b"f",
        b"f 1 2",
        b"f 0 1 2",
        b"f 1 0 2",
        b"f a 1 2",
        b"f 1x 2 3",
        b"f /1 2 3",
        b"f + 2 3",
        b"f -1 2 3",
        b"f 1 2 3.5",
        b"f 4294967297 1 1",
        b"f 99999999999999999999999999 1 1",
        b"ff 1 2 3",
        b"F 1 2 3",
        b"v 1 2 3",
        b"1 2 3",
    ] {
        assert_eq!(parse_face(line), None);
    }
}
