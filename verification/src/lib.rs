//! Verified core of a small path tracer.
//!
//! The renderer partitions the output image into horizontal tiles, shades
//! every pixel of a tile by averaging stochastically traced light paths, and
//! concatenates the tile buffers into one RGBA image. The floating-point
//! shading itself lives outside this library; what is verified here is the
//! integer skeleton the renderer hangs on: the tile partition, the pixel
//! buffer layout and its reassembly, the integrator's control policy
//! (recursion cutoff and dispatch over the material variants), and the
//! root-acceptance policy of the sphere intersection.

pub mod framebuffer;
pub mod integrator;
pub mod intersect;
pub mod tile;
