//! The frame pipeline of a ray tracer, with its bookkeeping proved.
//!
//! The camera keeps a table with one ray direction per pixel, the renderer
//! traces each of those rays against the scene, shades the nearest hit and
//! packs the colour into a buffer of 32-bit pixels. This crate holds the
//! integer side of that: the size and layout of the table and the buffer,
//! the choice of the nearest hit, the packing, and the decision of what a
//! frame's input does to the camera. The arithmetic on positions, directions
//! and distances is the caller's, handed in as functions and as values of the
//! caller's own types; a distance crosses the border as the bit pattern of a
//! single-precision number.

pub mod camera;
pub mod color;
pub mod hit;
pub mod renderer;
pub mod state;
pub mod world;
