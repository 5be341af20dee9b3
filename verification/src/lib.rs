//! Voxel terrain core: a scalar density field split into fixed-size chunks,
//! polygonized with marching cubes, streamed around a reference point, and
//! editable at runtime with edits that stay consistent across chunk seams.
//!
//! All world-space quantities are fixed-point integers in milli-units
//! (one cell edge = 1000 milli-units); densities are milli-densities in
//! `0..=1000` nominally, with the iso surface at 500.

pub mod cell;
pub mod chunk;
pub mod events;
pub mod field;
pub mod laws;
pub mod streamer;
pub mod update;
pub mod marching_cube;
pub mod tables;
pub mod math;
