//! Shader variants for the tracing kernel.

pub mod raycasting;
