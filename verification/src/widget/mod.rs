pub mod geometry;
pub mod keycode;
pub mod keyboard;
pub mod label;
pub mod border;
pub mod render;
