//! Core logic of a live-editable 3D scene engine: instance generators,
//! a fixed-capacity light slot allocator, debounced particle-system rebuild
//! scheduling, deduplicating asset registries with background-load tracking,
//! and world snapshot export/import.
//!
//! Values that the renderer treats as 32-bit floats (positions, colors,
//! spacings) are carried here as their IEEE-754 bit patterns in `u32`: the
//! core stores, compares and routes them but never does arithmetic on them,
//! so the bit-pattern representation is exact. The float evaluation of
//! instance transforms, GPU resource handling, I/O and the scripting host
//! live outside, behind the plain-value interfaces these modules state.

pub mod defaults;
pub mod light;
pub mod model;
pub mod particle_system;
pub mod scripting;
pub mod state;
pub mod strmap;
pub mod world;
