//! A software ray-tracing core: analytic ray-sphere intersection and
//! normal-based shading over a sky-gradient background, evaluated once per
//! pixel. All geometry is held in fixed-point integer coordinates so that
//! every arithmetic step is exact and verified.

pub mod laws;
pub mod math;
pub mod scene;
pub mod trace;
pub mod vec3;
