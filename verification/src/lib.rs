//! A tick-driven simulation of a small population living on a bounded grid.
//!
//! Every agent cycles through eating, sleeping, working and idling as its
//! needs and the hour of the day dictate, walks one cell per tick towards
//! wherever that sends it, and is matched each tick against the open jobs and
//! the open housing. Each engine is an executable function proved equal to a
//! mathematical description of the same step.

pub mod agents;
pub mod chance;
pub mod clock;
pub mod directory;
pub mod grid;
pub mod market;
pub mod movement;
pub mod needs;
pub mod stats;
pub mod world;
pub mod worldgen;
