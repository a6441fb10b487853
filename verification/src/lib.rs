//! Integer core of an interactive escape-time fractal explorer.
//!
//! The explorer draws a square window of the complex plane onto a pixel grid.
//! Each pixel's colour encodes how many steps of the quadratic map its point
//! survives before it leaves the disc of radius two. This library holds the
//! parts of that pipeline that live on integers: the counting of an orbit's
//! steps, the colour gradient and the packed pixel format, the frame buffer,
//! the navigation key state and the controller that trades interactivity for
//! depth by adapting the iteration cap to how long the view has been still.
//! The arithmetic on the plane itself is the caller's.

pub mod buffer;
pub mod color;
pub mod controller;
pub mod escape;
pub mod input;
