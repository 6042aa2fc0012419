//! The discrete core of a terminal renderer that sphere-traces a spinning
//! torus: viewport configuration, the bounded march along a ray, the choice of
//! the camera's reference axis, the mapping from brightness levels to glyphs,
//! and the layout of a frame. Every function here works on integers and
//! enumerations only, so that each of its contracts is proved.

pub mod basis;
pub mod charset;
pub mod config;
pub mod frame;
pub mod march;
pub mod viewport_sizes;

pub use config::Config;
