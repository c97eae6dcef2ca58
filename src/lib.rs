//! Scene synchronisation and run-mode stepping for a 2D physics testbed.
//!
//! The library keeps, for every simulated body, the ordered list of visuals
//! that stand for its shapes, assigns each body a colour from a seeded
//! generator, refreshes the visuals from the bodies' poses, and decides on
//! each update tick whether the simulation advances.
//!
//! Lengths are fixed-point integers in micro-units (a millionth of a world
//! unit) and angles are in micro-radians.

pub mod color;
pub mod body;
pub mod ball;
pub mod palette;
pub mod scene;
pub mod runmode;
