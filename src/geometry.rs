//! Plane geometry on integer coordinates: positions, the arena, clamping
//! into a radius-inset rectangle, and squared-distance contact tests.
use vstd::prelude::*;

verus! {

/// Milli-pixels per pixel: the length unit of every position.
pub const PIXEL: i64 = 1000;

/// Length of a unit direction vector.
pub const DIR_SCALE: i64 = 1000;

/// Microseconds per second: the unit of elapsed time.
pub const MICROS_PER_SECOND: u64 = 1_000_000;

/// A point (or a vector) of the plane, in milli-pixels.
#[derive(Clone, Copy, Debug, PartialEq, Eq, Structural)]
pub struct Vec2 {
    pub x: i64,
    pub y: i64,
}

/// The rectangular play area `[0, width] x [0, height]`, in milli-pixels.
#[derive(Clone, Copy, Debug, PartialEq, Eq, Structural)]
pub struct Arena {
    pub width: i64,
    pub height: i64,
}

impl Arena {
    pub open spec fn wf(self) -> bool {
        self.width >= 0 && self.height >= 0
    }

    /// The inset rectangle is non-empty for margin `m`.
    pub open spec fn fits(self, m: int) -> bool {
        self.wf() && 0 <= m && 2 * m <= self.width && 2 * m <= self.height
    }
}

/// `v` clamped into `[lo, hi]`; `lo` wins when the range is empty.
pub open spec fn clamp_spec(v: int, lo: int, hi: int) -> int {
    if v < lo {
        lo
    } else if v > hi {
        hi
    } else {
        v
    }
}

/// `v` lies in `[lo, hi]`.
pub open spec fn within(v: int, lo: int, hi: int) -> bool {
    lo <= v && v <= hi
}

/// `p` lies in the arena inset by `m` on every side.
pub open spec fn inside_inset(p: Vec2, m: int, arena: Arena) -> bool {
    within(p.x as int, m, arena.width - m) && within(p.y as int, m, arena.height - m)
}

/// `p` lies in `[0, width) x [0, height)`, where an empty extent admits
/// only zero: where entities are spawned.
pub open spec fn in_spawn_area(p: Vec2, arena: Arena) -> bool {
    &&& 0 <= p.x && (p.x < arena.width || (arena.width == 0 && p.x == 0))
    &&& 0 <= p.y && (p.y < arena.height || (arena.height == 0 && p.y == 0))
}

/// `p` clamped coordinate-wise into the arena inset by `m`.
pub open spec fn clamp_pos_spec(p: Vec2, m: int, arena: Arena) -> Vec2 {
    Vec2 {
        x: clamp_spec(p.x as int, m, arena.width - m) as i64,
        y: clamp_spec(p.y as int, m, arena.height - m) as i64,
    }
}

/// Squared Euclidean distance between two points.
pub open spec fn dist_sq(a: Vec2, b: Vec2) -> int {
    (a.x - b.x) * (a.x - b.x) + (a.y - b.y) * (a.y - b.y)
}

/// Two discs of radii summing to `reach` touch or overlap.
pub open spec fn touching(a: Vec2, b: Vec2, reach: int) -> bool {
    dist_sq(a, b) <= reach * reach
}

/// Clamps `v` into `[lo, hi]`.
pub fn clamp_coord(v: i64, lo: i64, hi: i64) -> (r: i64)
    ensures
        r == clamp_spec(v as int, lo as int, hi as int),
{
    if v < lo {
        lo
    } else if v > hi {
        hi
    } else {
        v
    }
}

/// Clamps `pos` into the arena inset by `margin`.
pub fn clamp_pos(pos: Vec2, margin: i64, arena: Arena) -> (r: Vec2)
    requires
        arena.wf(),
        0 <= margin,
    ensures
        r == clamp_pos_spec(pos, margin as int, arena),
{
    Vec2 {
        x: clamp_coord(pos.x, margin, arena.width - margin),
        y: clamp_coord(pos.y, margin, arena.height - margin),
    }
}

/// Clamping into a non-empty range lands inside it, and leaves a value
/// already inside unchanged.
pub proof fn lemma_clamp_within(v: int, lo: int, hi: int)
    requires
        lo <= hi,
    ensures
        within(clamp_spec(v, lo, hi), lo, hi),
        within(v, lo, hi) ==> clamp_spec(v, lo, hi) == v,
{
}

/// Largest speed, in pixels per second, that movement accepts.
pub const MAX_SPEED: i64 = 1_000_000;

/// `v` saturated into the range of `i64`.
pub open spec fn saturate(v: int) -> int {
    clamp_spec(v, i64::MIN as int, i64::MAX as int)
}

/// Displacement in milli-pixels of a move along direction component `dir`
/// (scaled by `DIR_SCALE`) at `speed` pixels per second for `dt`
/// microseconds, truncated toward zero.
pub open spec fn step_spec(dir: int, speed: int, dt: int) -> int {
    if dir >= 0 {
        dir * speed * dt / 1_000_000
    } else {
        -((-dir) * speed * dt / 1_000_000)
    }
}

/// Coordinate `p` after that displacement, saturated to `i64`.
pub open spec fn displace_spec(p: int, dir: int, speed: int, dt: int) -> int {
    saturate(p + step_spec(dir, speed, dt))
}

/// Point `pos` after moving along `dir` at `speed` for `dt`.
pub open spec fn move_spec(pos: Vec2, dir: Vec2, speed: int, dt: int) -> Vec2 {
    Vec2 {
        x: displace_spec(pos.x as int, dir.x as int, speed, dt) as i64,
        y: displace_spec(pos.y as int, dir.y as int, speed, dt) as i64,
    }
}

/// A direction whose components are at most one unit long.
pub open spec fn dir_bounded(d: Vec2) -> bool {
    -DIR_SCALE <= d.x <= DIR_SCALE && -DIR_SCALE <= d.y <= DIR_SCALE
}

/// Moves coordinate `p` along direction component `dir`.
pub fn displace(p: i64, dir: i64, speed: i64, dt: u64) -> (r: i64)
    requires
        -DIR_SCALE <= dir <= DIR_SCALE,
        0 <= speed <= MAX_SPEED,
    ensures
        r == displace_spec(p as int, dir as int, speed as int, dt as int),
{
    let mag: u128 = if dir >= 0 {
        dir as u128
    } else {
        (-(dir as i128)) as u128
    };
    assert(mag * (speed as u128) <= 1_000_000_000) by (nonlinear_arith)
        requires mag <= 1000, 0 <= speed <= 1_000_000;
    assert(mag * (speed as u128) * (dt as u128) <= 1_000_000_000 * 0xffff_ffff_ffff_ffffu128)
        by (nonlinear_arith)
        requires mag * (speed as u128) <= 1_000_000_000, dt <= 0xffff_ffff_ffff_ffffu64;
    let s: u128 = mag * (speed as u128) * (dt as u128) / 1_000_000;
    let d: i128 = if dir >= 0 {
        s as i128
    } else {
        -(s as i128)
    };
    let v: i128 = p as i128 + d;
    if v < i64::MIN as i128 {
        i64::MIN
    } else if v > i64::MAX as i128 {
        i64::MAX
    } else {
        v as i64
    }
}

/// Moves `pos` along `dir` at `speed` for `dt`.
pub fn move_by(pos: Vec2, dir: Vec2, speed: i64, dt: u64) -> (r: Vec2)
    requires
        dir_bounded(dir),
        0 <= speed <= MAX_SPEED,
    ensures
        r == move_spec(pos, dir, speed as int, dt as int),
{
    Vec2 { x: displace(pos.x, dir.x, speed, dt), y: displace(pos.y, dir.y, speed, dt) }
}

/// `|a - b|` as a non-negative 128-bit value.
fn abs_diff(a: i64, b: i64) -> (r: i128)
    ensures
        r >= 0,
        r == a - b || r == b - a,
        r * r == (a - b) * (a - b),
{
    let d = a as i128 - b as i128;
    if d < 0 {
        assert((-d) * (-d) == d * d) by (nonlinear_arith);
        -d
    } else {
        d
    }
}

/// Whether two discs whose radii sum to `reach` touch, decided on squared
/// distances alone.
pub fn is_collided(a: Vec2, b: Vec2, reach: i64) -> (r: bool)
    requires
        0 <= reach <= 1_000_000_000,
    ensures
        r == touching(a, b, reach as int),
{
    let dx = abs_diff(a.x, b.x);
    let dy = abs_diff(a.y, b.y);
    let rr = reach as i128;
    if dx > rr || dy > rr {
        proof {
            if dx > rr {
                assert(dx * dx > rr * rr) by (nonlinear_arith)
                    requires dx > rr, rr >= 0;
            } else {
                assert(dy * dy > rr * rr) by (nonlinear_arith)
                    requires dy > rr, rr >= 0;
            }
            assert(dx * dx >= 0) by (nonlinear_arith);
            assert(dy * dy >= 0) by (nonlinear_arith);
        }
        false
    } else {
        assert(dx * dx <= rr * rr) by (nonlinear_arith)
            requires dx <= rr, dx >= 0;
        assert(dy * dy <= rr * rr) by (nonlinear_arith)
            requires dy <= rr, dy >= 0;
        assert(rr * rr <= 1_000_000_000_000_000_000) by (nonlinear_arith)
            requires 0 <= rr <= 1_000_000_000;
        dx * dx + dy * dy <= rr * rr
    }
}

} // verus!
