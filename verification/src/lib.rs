pub mod arith;
pub mod bridge;
pub mod cell;
pub mod gfx;
pub mod laws;
pub mod navigation;
pub mod properties;
pub mod renderer;
pub mod screen;
pub mod text;
