//! Core logic of a raymarching demo: composing the scene's fragment shader
//! from a template, and deciding what a frame of input does to the camera.

pub mod controls;
pub mod shader;
