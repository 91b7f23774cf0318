//! Where and when each shader reads its noise fields and waves.
//!
//! The shaders take the values of noise fields and of slow sines and
//! cosines as inputs. A [`SamplePlan`] says, for one fragment, at which
//! point each field is to be evaluated and of which angle each wave is the
//! sine or cosine. Coordinates and angles are fixed-point with sixteen
//! fractional bits, held in 64 bits; angles are in radians.

use vstd::prelude::*;
use crate::fixed::{div_floor, lemma_mul_bounded, Fixed};
use crate::fragment::Fragment;
use crate::render::Uniforms;

verus! {

/// One of the three noise fields of a frame.
#[derive(Debug, Copy, Clone, PartialEq, Eq, Structural)]
pub enum Field {
    Surface,
    Cloud,
    Band,
}

/// A point of a noise field. Without `z` the field is read in two dimensions.
#[derive(Debug, Copy, Clone, PartialEq, Eq)]
pub struct NoisePoint {
    pub field: Field,
    pub x: i64,
    pub y: i64,
    pub z: Option<i64>,
}

/// The angles of the four waves of the sun: red and blue take the sine,
/// green and emission the cosine.
#[derive(Debug, Copy, Clone, PartialEq, Eq, Structural)]
pub struct SunAngles {
    pub red: i64,
    pub green: i64,
    pub blue: i64,
    pub emission: i64,
}

/// What to sample for one fragment. A part that the shader does not read
/// is absent.
#[derive(Debug, Copy, Clone, PartialEq, Eq)]
pub struct SamplePlan {
    pub surface: Option<NoisePoint>,
    pub layer: Option<NoisePoint>,
    pub variation: Option<NoisePoint>,
    pub spot: Option<NoisePoint>,
    /// The point whose noise distorts the bands; see [`band_angle`].
    pub band: Option<NoisePoint>,
    /// The angle whose sine, in magnitude, is the pulse.
    pub pulse: Option<i64>,
    pub sun: Option<SunAngles>,
}

/// The frame counter times `num / den`, as a fixed-point number.
pub open spec fn time_spec(time: u32, num: int, den: int) -> int {
    (time as int * num * 65536) / den
}

/// A point of a two-dimensional field.
pub open spec fn flat_point(field: Field, x: int, y: int) -> NoisePoint {
    NoisePoint { field, x: x as i64, y: y as i64, z: None }
}

/// A point of a three-dimensional field.
pub open spec fn solid_point(field: Field, x: int, y: int, z: int) -> NoisePoint {
    NoisePoint { field, x: x as i64, y: y as i64, z: Some(z as i64) }
}

/// The plan that reads nothing.
pub open spec fn empty_plan() -> SamplePlan {
    SamplePlan {
        surface: None,
        layer: None,
        variation: None,
        spot: None,
        band: None,
        pulse: None,
        sun: None,
    }
}

/// The point of the cloud field that drifts over a fragment: the position
/// magnified a hundred times, shifted, and scrolled by a tenth of the frame
/// counter, slightly faster along x than along y.
pub open spec fn cloud_point_spec(x: int, y: int, time: u32) -> NoisePoint {
    let t = time_spec(time, 1, 10);
    flat_point(
        Field::Cloud,
        x * 100 + 100 * 65536 + t + time_spec(time, 1, 100),
        y * 100 + 100 * 65536 + time_spec(time, 1, 200) + t,
    )
}

/// The plan of each shader selector for a fragment at a frame.
pub open spec fn plan_spec(fragment: Fragment, current_shader: u8, time: u32) -> SamplePlan {
    let x = fragment.vertex_position.x as int;
    let y = fragment.vertex_position.y as int;
    let z = fragment.vertex_position.z as int;
    if current_shader == 1 {
        SamplePlan {
            surface: Some(flat_point(Field::Surface, x, y)),
            layer: Some(cloud_point_spec(x, y, time)),
            pulse: Some(time_spec(time, 3, 10000) as i64),
            ..empty_plan()
        }
    } else if current_shader == 2 {
        SamplePlan { surface: Some(flat_point(Field::Surface, x, y)), ..empty_plan() }
    } else if current_shader == 3 {
        SamplePlan {
            surface: Some(flat_point(Field::Surface, (x * x) / 65536, y)),
            layer: Some(cloud_point_spec(x, y, time)),
            pulse: Some(time_spec(time, 3, 10000) as i64),
            ..empty_plan()
        }
    } else if current_shader == 4 {
        let t = time_spec(time, 1, 10);
        SamplePlan {
            surface: Some(flat_point(Field::Surface, x, y)),
            layer: Some(solid_point(Field::Surface, x - t, x + y - t, y)),
            pulse: Some(time_spec(time, 1, 1000) as i64),
            ..empty_plan()
        }
    } else if current_shader == 5 {
        SamplePlan {
            surface: Some(solid_point(Field::Surface, x * 3, y * 3, z * 3)),
            variation: Some(solid_point(Field::Surface, x * 2, y * 2, z * 2)),
            spot: Some(flat_point(Field::Surface, x * 18, y * 18)),
            band: Some(flat_point(Field::Band, (x * 5) / 2, (y * 5) / 2)),
            ..empty_plan()
        }
    } else if current_shader == 6 {
        SamplePlan {
            surface: Some(solid_point(Field::Surface, x, y + time_spec(time, 1, 1000), z)),
            ..empty_plan()
        }
    } else if current_shader == 7 {
        SamplePlan {
            sun: Some(
                SunAngles {
                    red: time_spec(time, 3, 100) as i64,
                    green: time_spec(time, 39, 1000) as i64,
                    blue: time_spec(time, 51, 1000) as i64,
                    emission: time_spec(time, 2, 100) as i64,
                },
            ),
            ..empty_plan()
        }
    } else if current_shader == 8 {
        SamplePlan { surface: Some(flat_point(Field::Surface, x * 50, y * 50)), ..empty_plan() }
    } else {
        empty_plan()
    }
}

/// The angle whose sine is the band wave: the latitude, distorted by a
/// quarter of the band noise and drifting with time, times the band
/// frequency of eight.
pub open spec fn band_angle_spec(fragment: Fragment, band_noise: Fixed, time: u32) -> int {
    8 * (fragment.vertex_position.y as int) + 2 * (band_noise as int) + time_spec(time, 8, 50)
}

fn scaled_time(time: u32, num: i64, den: i64) -> (t: i64)
    requires
        0 < num <= 100,
        0 < den,
    ensures
        t == time_spec(time, num as int, den as int),
        0 <= t <= 0x1_0000_0000 * 100 * 65536,
{
    proof {
        lemma_mul_bounded(time as int, num as int, 0x1_0000_0000, 100);
        assert(time as int * num as int >= 0) by (nonlinear_arith)
            requires
                time >= 0,
                num > 0,
        ;
        assert((time as int * num as int * 65536) / (den as int) <= time as int * num as int
            * 65536) by (nonlinear_arith)
            requires
                time as int * num as int * 65536 >= 0,
                den >= 1,
        ;
        assert((time as int * num as int * 65536) / (den as int) >= 0) by (nonlinear_arith)
            requires
                time as int * num as int * 65536 >= 0,
                den >= 1,
        ;
    }
    ((time as i64) * num * 65536) / den
}

fn cloud_point(x: i64, y: i64, time: u32) -> (p: NoisePoint)
    requires
        -2147483648 <= x <= 2147483647,
        -2147483648 <= y <= 2147483647,
    ensures
        p == cloud_point_spec(x as int, y as int, time),
{
    let zoom: i64 = 100;
    let ox: i64 = 100 * 65536;
    let oy: i64 = 100 * 65536;
    let t: i64 = scaled_time(time, 1, 10);
    let offset_x: i64 = scaled_time(time, 1, 100);
    let offset_y: i64 = scaled_time(time, 1, 200);
    NoisePoint {
        field: Field::Cloud,
        x: x * zoom + ox + t + offset_x,
        y: y * zoom + oy + offset_y + t,
        z: None,
    }
}

/// Plans the samples of the shader that the uniforms select.
pub fn sample_plan(fragment: &Fragment, uniforms: &Uniforms, time: u32) -> (plan: SamplePlan)
    ensures
        plan == plan_spec(*fragment, uniforms.current_shader, time),
{
    let x: i64 = fragment.vertex_position.x as i64;
    let y: i64 = fragment.vertex_position.y as i64;
    let z: i64 = fragment.vertex_position.z as i64;
    let nothing: SamplePlan = SamplePlan {
        surface: None,
        layer: None,
        variation: None,
        spot: None,
        band: None,
        pulse: None,
        sun: None,
    };
    match uniforms.current_shader {
        1 => SamplePlan {
            surface: Some(NoisePoint { field: Field::Surface, x, y, z: None }),
            layer: Some(cloud_point(x, y, time)),
            pulse: Some(scaled_time(time, 3, 10000)),
            ..nothing
        },
        2 => SamplePlan {
            surface: Some(NoisePoint { field: Field::Surface, x, y, z: None }),
            ..nothing
        },
        3 => {
            proof {
                lemma_mul_bounded(x as int, x as int, 2147483648, 2147483648);
            }
            let squared: i64 = div_floor((x as i128) * (x as i128), 65536) as i64;
            SamplePlan {
                surface: Some(NoisePoint { field: Field::Surface, x: squared, y, z: None }),
                layer: Some(cloud_point(x, y, time)),
                pulse: Some(scaled_time(time, 3, 10000)),
                ..nothing
            }
        },
        4 => {
            let t: i64 = scaled_time(time, 1, 10);
            SamplePlan {
                surface: Some(NoisePoint { field: Field::Surface, x, y, z: None }),
                layer: Some(
                    NoisePoint { field: Field::Surface, x: x - t, y: x + y - t, z: Some(y) },
                ),
                pulse: Some(scaled_time(time, 1, 1000)),
                ..nothing
            }
        },
        5 => SamplePlan {
            surface: Some(NoisePoint { field: Field::Surface, x: x * 3, y: y * 3, z: Some(z * 3) }),
            variation: Some(
                NoisePoint { field: Field::Surface, x: x * 2, y: y * 2, z: Some(z * 2) },
            ),
            spot: Some(NoisePoint { field: Field::Surface, x: x * 18, y: y * 18, z: None }),
            band: Some(
                NoisePoint {
                    field: Field::Band,
                    x: div_floor((x as i128) * 5, 2) as i64,
                    y: div_floor((y as i128) * 5, 2) as i64,
                    z: None,
                },
            ),
            ..nothing
        },
        6 => SamplePlan {
            surface: Some(
                NoisePoint {
                    field: Field::Surface,
                    x,
                    y: y + scaled_time(time, 1, 1000),
                    z: Some(z),
                },
            ),
            ..nothing
        },
        7 => SamplePlan {
            sun: Some(
                SunAngles {
                    red: scaled_time(time, 3, 100),
                    green: scaled_time(time, 39, 1000),
                    blue: scaled_time(time, 51, 1000),
                    emission: scaled_time(time, 2, 100),
                },
            ),
            ..nothing
        },
        8 => SamplePlan {
            surface: Some(NoisePoint { field: Field::Surface, x: x * 50, y: y * 50, z: None }),
            ..nothing
        },
        _ => nothing,
    }
}

/// The angle of the band wave, once the band noise is known.
pub fn band_angle(fragment: &Fragment, band_noise: Fixed, time: u32) -> (angle: i64)
    ensures
        angle == band_angle_spec(*fragment, band_noise, time),
{
    let latitude: i64 = fragment.vertex_position.y as i64;
    8 * latitude + 2 * (band_noise as i64) + scaled_time(time, 8, 50)
}

} // verus!
