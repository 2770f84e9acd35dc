//! Procedural visual generators: the integer core.
//!
//! * [`config`] validates the dimensions of a grid or a frame.
//! * [`life`] is a toroidal cellular automaton with generation stepping.
//! * [`pixels`] is an opaque RGBA frame addressed by pixel position.

pub mod config;
pub mod life;
pub mod pixels;
