//! Verified core of the duck-pond scene: the text format of the duck mesh,
//! the mouse-button state, the knot vector of the duck's path, the skybox
//! cube and the decoding of its faces, the decoding of the duck's texture,
//! and the cells of the water grid.

pub mod text;
pub mod number;
pub mod mesh;
pub mod input;
pub mod spline;
pub mod cubemap;
pub mod water;
pub mod texture;
