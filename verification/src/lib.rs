//! Core of an interactive Conway's Game of Life: a toroidal grid of cells,
//! the generation-step rule, pattern import, and prefab placement planning.
//! Rendering and event wiring live outside this crate; everything here is
//! plain state-transition logic with verified contracts.

pub mod cell;
pub mod engine;
pub mod error;
pub mod grid;
pub mod pattern;
pub mod placement;
