//! Integer core of a small software renderer: RGB pixel buffers, canvas
//! coordinates, Bresenham lines, triangle spans and clipping plans, bitmap text,
//! constructive-solid-geometry crossings, and the OBJ and PLY2 mesh formats.

pub mod pixels;
pub mod screen;
pub mod line;
pub mod canvas;
pub mod wireframe;
pub mod interpolation;
pub mod raytracer;
pub mod plane;
pub mod font;
pub mod bitmap;
pub mod text;
pub mod obj;
pub mod ply2;
pub mod triangle;
pub mod clipping;
pub mod mesh;
