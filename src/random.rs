//! Random numbers for spawning, drawn from the thread-local generator.
use vstd::prelude::*;
use crate::geometry::{in_spawn_area, Arena, Vec2};

verus! {

/// Relies on rand::random: a uniformly drawn value of the requested type.
/// Nothing is known of the value.
pub assume_specification<T>[ rand::random::<T> ]() -> (r: T)
    where
        rand::distributions::Standard: rand::distributions::Distribution<T>,
;

/// A random 64-bit value.
pub(crate) fn random_u64() -> u64 {
    rand::random::<u64>()
}

/// A random coordinate in `[0, extent)`, or zero for an empty extent.
fn random_coordinate(extent: i64) -> (r: i64)
    requires
        extent >= 0,
    ensures
        0 <= r,
        r < extent || (extent == 0 && r == 0),
{
    if extent == 0 {
        0
    } else {
        (random_u64() % (extent as u64)) as i64
    }
}

/// A random point of the full arena (not inset by any radius).
pub(crate) fn random_position(arena: Arena) -> (r: Vec2)
    requires
        arena.wf(),
    ensures
        in_spawn_area(r, arena),
{
    Vec2 { x: random_coordinate(arena.width), y: random_coordinate(arena.height) }
}

} // verus!
