//! Fragments: candidate pixel samples between rasterization and shading.

use vstd::prelude::*;
use crate::color::Color;
use crate::fixed::Fixed;
use crate::vector::{Vec2, Vec3};

verus! {

/// One sample produced by the rasterizer, carrying interpolated attributes.
#[derive(Debug, Copy, Clone)]
pub struct Fragment {
    pub position: Vec2,
    pub color: Color,
    pub depth: Fixed,
    pub normal: Vec3,
    pub intensity: Fixed,
    pub vertex_position: Vec3,
    pub uv: Option<Vec2>,
}

impl Fragment {
    pub fn new(
        position: Vec2,
        color: Color,
        depth: Fixed,
        normal: Vec3,
        intensity: Fixed,
        vertex_position: Vec3,
        uv: Option<Vec2>,
    ) -> (f: Fragment)
        ensures
            f == (Fragment { position, color, depth, normal, intensity, vertex_position, uv }),
    {
        Fragment { position, color, depth, normal, intensity, vertex_position, uv }
    }
}

} // verus!
