//! Core of a real-time-strategy prototype: procedurally classified tile
//! terrain, decorative nature obstacles, and unit movement with collision
//! avoidance.
//!
//! Coherent-noise samples enter the library as fixed-point values in
//! micro-units (one millionth of a noise unit), and world positions are
//! fixed-point milli-units (one thousandth of a world unit), so that every
//! rule of the terrain pipeline is stated and proved over exact integers.

pub mod biomes;
pub mod classify;
pub mod coords;
pub mod map_builder;
pub mod map_components;
pub mod movement;
pub mod nature;
pub mod rng;
pub mod tank;
pub mod terrain_generator;
