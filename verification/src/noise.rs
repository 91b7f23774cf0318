//! Named configurations of the coherent-noise fields that drive shading.
//!
//! A configuration is plain data: the settings from which a noise generator
//! is built once at set-up. Fractional settings are held in hundredths.

use vstd::prelude::*;

verus! {

/// The basic noise algorithm of a field.
#[derive(Debug, Copy, Clone, PartialEq, Eq, Structural)]
pub enum NoiseType {
    OpenSimplex2,
    OpenSimplex2S,
    Perlin,
}

/// How the octaves of a field are combined.
#[derive(Debug, Copy, Clone, PartialEq, Eq, Structural)]
pub enum FractalType {
    FBm,
    Ridged,
    PingPong,
    DomainWarpProgressive,
}

/// The settings of one fractal noise field. Lacunarity, gain and frequency
/// are in hundredths.
#[derive(Debug, Copy, Clone, PartialEq, Eq, Structural)]
pub struct NoiseSettings {
    pub seed: i32,
    pub noise_type: NoiseType,
    pub fractal_type: FractalType,
    pub octaves: i32,
    pub lacunarity: u32,
    pub gain: u32,
    pub frequency: u32,
}

/// A noise field: either the generator's own defaults or explicit settings.
#[derive(Debug, Copy, Clone, PartialEq, Eq, Structural)]
pub enum NoiseConfig {
    Default,
    Fractal(NoiseSettings),
}

pub open spec fn cloud_settings() -> NoiseSettings {
    NoiseSettings {
        seed: 805,
        noise_type: NoiseType::Perlin,
        fractal_type: FractalType::FBm,
        octaves: 2,
        lacunarity: 300,
        gain: 50,
        frequency: 1,
    }
}

pub open spec fn kenshi_settings() -> NoiseSettings {
    NoiseSettings {
        seed: 623,
        noise_type: NoiseType::OpenSimplex2S,
        fractal_type: FractalType::Ridged,
        octaves: 5,
        lacunarity: 200,
        gain: 50,
        frequency: 80,
    }
}

pub open spec fn ratchet_t_settings() -> NoiseSettings {
    NoiseSettings {
        seed: 3344,
        noise_type: NoiseType::Perlin,
        fractal_type: FractalType::Ridged,
        octaves: 8,
        lacunarity: 300,
        gain: 70,
        frequency: 180,
    }
}

pub open spec fn moon_settings() -> NoiseSettings {
    NoiseSettings {
        seed: 4321,
        noise_type: NoiseType::OpenSimplex2,
        fractal_type: FractalType::PingPong,
        octaves: 2,
        lacunarity: 200,
        gain: 50,
        frequency: 300,
    }
}

pub open spec fn rocky_settings() -> NoiseSettings {
    NoiseSettings {
        seed: 4321,
        noise_type: NoiseType::Perlin,
        fractal_type: FractalType::PingPong,
        octaves: 5,
        lacunarity: 200,
        gain: 100,
        frequency: 500,
    }
}

pub open spec fn ratchet_settings() -> NoiseSettings {
    NoiseSettings {
        seed: 9876,
        noise_type: NoiseType::OpenSimplex2,
        fractal_type: FractalType::DomainWarpProgressive,
        octaves: 6,
        lacunarity: 200,
        gain: 50,
        frequency: 200,
    }
}

pub open spec fn simple_settings() -> NoiseSettings {
    NoiseSettings {
        seed: 2021,
        noise_type: NoiseType::OpenSimplex2,
        fractal_type: FractalType::Ridged,
        octaves: 4,
        lacunarity: 200,
        gain: 40,
        frequency: 20,
    }
}

/// The surface field that goes with a shader selector. Selectors without a
/// field of their own share the first one.
pub open spec fn noise_for(current_shader: u8) -> NoiseConfig {
    if current_shader == 2 {
        NoiseConfig::Fractal(ratchet_t_settings())
    } else if current_shader == 3 {
        NoiseConfig::Fractal(rocky_settings())
    } else if current_shader == 4 || current_shader == 9 {
        NoiseConfig::Default
    } else if current_shader == 5 {
        NoiseConfig::Fractal(ratchet_settings())
    } else if current_shader == 6 {
        NoiseConfig::Fractal(simple_settings())
    } else if current_shader == 8 {
        NoiseConfig::Fractal(moon_settings())
    } else {
        NoiseConfig::Fractal(kenshi_settings())
    }
}

/// The surface noise field for a shader selector.
pub fn create_noise(current_shader: u8) -> (config: NoiseConfig)
    ensures
        config == noise_for(current_shader),
{
    match current_shader {
        1 => create_kenshi_noise(),
        2 => create_ratchet_t_noise(),
        3 => create_rocky_noise(),
        4 => NoiseConfig::Default,
        5 => create_ratchet_noise(),
        6 => create_simple_noise(),
        8 => create_moon_noise(),
        9 => NoiseConfig::Default,
        _ => create_kenshi_noise(),
    }
}

/// The drifting cloud layer: two octaves of low-frequency Perlin noise.
pub fn create_cloud_noise() -> (config: NoiseConfig)
    ensures
        config == NoiseConfig::Fractal(cloud_settings()),
{
    NoiseConfig::Fractal(
        NoiseSettings {
            seed: 805,
            noise_type: NoiseType::Perlin,
            fractal_type: FractalType::FBm,
            octaves: 2,
            lacunarity: 300,
            gain: 50,
            frequency: 1,
        },
    )
}

pub fn create_kenshi_noise() -> (config: NoiseConfig)
    ensures
        config == NoiseConfig::Fractal(kenshi_settings()),
{
    NoiseConfig::Fractal(
        NoiseSettings {
            seed: 623,
            noise_type: NoiseType::OpenSimplex2S,
            fractal_type: FractalType::Ridged,
            octaves: 5,
            lacunarity: 200,
            gain: 50,
            frequency: 80,
        },
    )
}

pub fn create_ratchet_t_noise() -> (config: NoiseConfig)
    ensures
        config == NoiseConfig::Fractal(ratchet_t_settings()),
{
    NoiseConfig::Fractal(
        NoiseSettings {
            seed: 3344,
            noise_type: NoiseType::Perlin,
            fractal_type: FractalType::Ridged,
            octaves: 8,
            lacunarity: 300,
            gain: 70,
            frequency: 180,
        },
    )
}

pub fn create_moon_noise() -> (config: NoiseConfig)
    ensures
        config == NoiseConfig::Fractal(moon_settings()),
{
    NoiseConfig::Fractal(
        NoiseSettings {
            seed: 4321,
            noise_type: NoiseType::OpenSimplex2,
            fractal_type: FractalType::PingPong,
            octaves: 2,
            lacunarity: 200,
            gain: 50,
            frequency: 300,
        },
    )
}

pub fn create_rocky_noise() -> (config: NoiseConfig)
    ensures
        config == NoiseConfig::Fractal(rocky_settings()),
{
    NoiseConfig::Fractal(
        NoiseSettings {
            seed: 4321,
            noise_type: NoiseType::Perlin,
            fractal_type: FractalType::PingPong,
            octaves: 5,
            lacunarity: 200,
            gain: 100,
            frequency: 500,
        },
    )
}

pub fn create_ratchet_noise() -> (config: NoiseConfig)
    ensures
        config == NoiseConfig::Fractal(ratchet_settings()),
{
    NoiseConfig::Fractal(
        NoiseSettings {
            seed: 9876,
            noise_type: NoiseType::OpenSimplex2,
            fractal_type: FractalType::DomainWarpProgressive,
            octaves: 6,
            lacunarity: 200,
            gain: 50,
            frequency: 200,
        },
    )
}

pub fn create_simple_noise() -> (config: NoiseConfig)
    ensures
        config == NoiseConfig::Fractal(simple_settings()),
{
    NoiseConfig::Fractal(
        NoiseSettings {
            seed: 2021,
            noise_type: NoiseType::OpenSimplex2,
            fractal_type: FractalType::Ridged,
            octaves: 4,
            lacunarity: 200,
            gain: 40,
            frequency: 20,
        },
    )
}

} // verus!
