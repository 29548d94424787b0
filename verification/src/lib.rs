//! Streaming voxel terrain.
//!
//! A chunk of terrain is a cubic grid of density samples. The polygonizer
//! turns the grid into triangles with the Marching Cubes algorithm
//! ([`polygonize`], over the tables in [`tables`] and the cube geometry in
//! [`cube`]). The streaming manager keeps the chunks around an observer
//! alive: it makes the nearest missing ones, a few per cycle, removes those
//! that are no longer wanted, applies edits, and rebuilds the meshes of the
//! chunks that changed ([`streaming`], [`order`], [`chunk`]).
//! [`convergence`] shows where that leads when the observer stands still.
//!
//! The library holds no floating-point number and talks to no engine. A
//! density is the bit pattern of a single-precision number ([`density`]), a
//! triangle corner is the grid edge on which it lies, noise comes in as a
//! function, and the stores of meshes and collision shapes are told what to
//! do through plain values.
pub mod chunk;
pub mod convergence;
pub mod coord;
pub mod cube;
pub mod density;
pub mod order;
pub mod polygonize;
pub mod settings;
pub mod streaming;
pub mod tables;
