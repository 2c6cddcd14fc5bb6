//! A 2D tile-based puzzle-chase simulation: a player must reach a goal tile
//! while avoiding a patrolling/chasing hazard, using pushable blocks and
//! button-triggered gates.
//!
//! All gameplay coordinates are fixed-point integers in "subtile" units
//! (see [`geom::SCALE`]); positions are tile-aligned at rest and interpolated
//! during a slide. Rendering, asset I/O and windowing are outside
//! collaborators: this crate only exposes per-entity positions, sprite
//! indices and render layers for them to read.

pub mod buttons;
pub mod geom;
pub mod level;
pub mod motion;
pub mod push;
pub mod spawn;
pub mod tick;
pub mod tracker;
pub mod victory;
pub mod world;

pub use geom::Vec2;
