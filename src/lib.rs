//! Simulation core of a small arcade game on a toroidal field: a player
//! collects pickups, hazards chase the player, and contact with a hazard ends
//! the run until it is restarted.
//!
//! Positions are fixed-point integers in thousandths of a field unit and
//! durations are microseconds, so that every rule is exact.
pub mod geometry;
pub mod timer;
pub mod player;
pub mod pursuit;
pub mod world;
