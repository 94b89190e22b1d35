//! Escape-time rendering of the Mandelbrot set.
//!
//! The library computes, for every pixel of a grid, the iteration at which
//! the sample point of the complex plane escapes the bailout radius, and maps
//! each count to a named color bucket together with the draw position of its
//! unit cell.  Coordinates of the complex plane are exact fixed-point values
//! (see [`fixed`]), so every result is a proved function of the inputs.

pub mod escape;
pub mod fixed;
pub mod render;

pub use escape::calculate_mandelbrot;
pub use escape::mandelbrot_at_point;
pub use escape::sample_coord;
pub use fixed::COORD_LIMIT;
pub use fixed::SCALE;
pub use render::Color;
pub use render::FillCmd;
pub use render::color_for;
pub use render::color_name;
pub use render::render_mandelbrot;
