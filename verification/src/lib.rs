//! Core simulation of a multi-player "growing trail" arena game.
//!
//! Each player steers a continuously moving curve that leaves an
//! intermittent trail; a curve is eliminated when its leading edge touches
//! a wall or a trail. The crate holds the geometry kernel, the curve
//! entities, the collision detector, the power-up supply and the round
//! state machine, all on an integer pixel grid so that every rule is
//! stated and proved as a contract. Rendering, windowing and the raw
//! input sources live outside the crate and hand in plain values
//! (timestamps, held keys, heading vectors) each tick.

pub mod curve;
pub mod kurve;
pub mod menu;
pub mod player;
pub mod point;
pub mod powerup;
mod rng;
