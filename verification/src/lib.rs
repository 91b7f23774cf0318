//! A fixed-point software rasterizer core.

pub mod bloom;
pub mod color;
pub mod fixed;
pub mod fragment;
pub mod framebuffer;
pub mod line;
pub mod matrix;
pub mod noise;
pub mod obj;
pub mod render;
pub mod sampling;
pub mod shader;
pub mod vector;
pub mod vertex;
