//! Simulation core of a small 2D arcade game: a player-controlled actor,
//! roaming hazards ("enemies") and collectible pickups ("stars"), advanced
//! one tick at a time with integer fixed-point arithmetic.
//!
//! Units: lengths are in milli-pixels, directions are vectors scaled so that
//! a unit vector has length `DIR_SCALE`, speeds are in pixels per second and
//! elapsed time is in microseconds.
pub mod enemy;
pub mod events;
pub mod geometry;
pub mod player;
pub mod random;
pub mod schedule;
pub mod score;
pub mod star;
pub mod world;
