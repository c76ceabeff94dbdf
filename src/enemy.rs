//! Hazards: roaming discs that move in a straight line and bounce off the
//! edges of the arena.
use vstd::prelude::*;
use crate::events::Effect;
use crate::geometry::{
    clamp_pos, clamp_pos_spec, dir_bounded, in_spawn_area, inside_inset, lemma_clamp_within, move_by, move_spec,
    Arena, Vec2, DIR_SCALE, PIXEL,
};
use crate::random::random_position;
use crate::random::random_u64;
use vstd::arithmetic::div_mod::{lemma_fundamental_div_mod, lemma_mod_pos_bound};

verus! {

/// Number of hazards created at the start of a round.
pub const ENEMY_COUNT: usize = 5;

/// Hazard speed, in pixels per second.
pub const ENEMY_SPEED: i64 = 250;

/// Hazard diameter, in milli-pixels (twice `ENEMY_RADIUS`).
pub const ENEMY_SIZE: i64 = 64 * PIXEL;

/// Hazard radius, in milli-pixels.
pub const ENEMY_RADIUS: i64 = 32 * PIXEL;

/// Extra inset, beyond the radius, into which a bounced hazard is pulled back,
/// so that it does not touch the same edge again on the next tick.
pub const BOUNCE_MARGIN: i64 = PIXEL;

/// A hazard: its identifier, position, and direction of travel.
#[derive(Clone, Copy, Debug, PartialEq, Eq, Structural)]
pub struct Enemy {
    pub id: u64,
    pub pos: Vec2,
    pub direction: Vec2,
}

impl Enemy {
    /// The direction is one unit long, up to truncation.
    pub open spec fn wf(self) -> bool {
        dir_bounded(self.direction) && unit_length(self.direction)
    }
}

/// Every hazard of `s` is well formed.
pub open spec fn enemies_wf(s: Seq<Enemy>) -> bool {
    forall|i: int| 0 <= i < s.len() ==> (#[trigger] s[i]).wf()
}

/// Precision of the length of a raw vector: its squared length is scaled
/// by the square of this before the root is taken.
pub const ROOT_SCALE: u128 = 1_000_000;

/// `DIR_SCALE * ROOT_SCALE`: scales a raw component before it is divided
/// by the scaled length.
pub const UNIT_NUMERATOR: u128 = 1_000_000_000;

/// `m` is the ceiling square root of `v >= 1`: the least `m` with
/// `v <= m * m`.
pub open spec fn is_ceil_root(m: int, v: int) -> bool {
    1 <= m && v <= m * m && (m - 1) * (m - 1) < v
}

/// `a * DIR_SCALE * ROOT_SCALE / m`, truncated toward zero.
pub open spec fn unit_component(a: int, m: int) -> int {
    if a >= 0 {
        a * UNIT_NUMERATOR / m
    } else {
        -((-a) * UNIT_NUMERATOR / m)
    }
}

/// The direction of `(a, b)` at length `DIR_SCALE`, given the ceiling root
/// `m` of `(a * a + b * b) * ROOT_SCALE * ROOT_SCALE`; the zero vector
/// becomes the unit x direction.
pub open spec fn normalized_spec(a: int, b: int, m: int) -> Vec2 {
    if a == 0 && b == 0 {
        Vec2 { x: DIR_SCALE, y: 0 }
    } else {
        Vec2 { x: unit_component(a, m) as i64, y: unit_component(b, m) as i64 }
    }
}

/// `d` is one unit long, up to the truncation of its components: its
/// length lies in `[DIR_SCALE - 2, DIR_SCALE]`.
pub open spec fn unit_length(d: Vec2) -> bool {
    (DIR_SCALE - 2) * (DIR_SCALE - 2) <= d.x * d.x + d.y * d.y <= DIR_SCALE * DIR_SCALE
}

/// No component of `d` has the opposite sign of that of `(a, b)`, and a
/// zero component stays zero.
pub open spec fn same_signs(d: Vec2, a: int, b: int) -> bool {
    &&& (a > 0 ==> d.x >= 0) && (a < 0 ==> d.x <= 0) && (a == 0 ==> d.x == 0)
    &&& (b > 0 ==> d.y >= 0) && (b < 0 ==> d.y <= 0) && (b == 0 ==> d.y == 0)
}

/// Two ceiling roots of the same value are equal.
proof fn lemma_ceil_root_unique(n: int, m: int, v: int)
    requires
        is_ceil_root(n, v),
        is_ceil_root(m, v),
    ensures
        n == m,
{
    if n < m {
        assert(n * n <= (m - 1) * (m - 1)) by (nonlinear_arith)
            requires 1 <= n, n <= m - 1;
    } else if m < n {
        assert(m * m <= (n - 1) * (n - 1)) by (nonlinear_arith)
            requires 1 <= m, m <= n - 1;
    }
}

/// Ceiling square root of `v`, by bisection.
fn ceil_root(v: u128) -> (m: u128)
    requires
        1 <= v <= 2_000_000_000_000_000_000,
    ensures
        is_ceil_root(m as int, v as int),
{
    let mut lo: u128 = 1;
    let mut hi: u128 = 1_414_213_564;
    assert(v <= hi * hi) by (nonlinear_arith)
        requires v <= 2_000_000_000_000_000_000, hi == 1_414_213_564;
    while lo < hi
        invariant
            1 <= lo <= hi <= 1_414_213_564,
            v <= hi * hi,
            (lo - 1) * (lo - 1) < v,
        decreases hi - lo,
    {
        let mid = lo + (hi - lo) / 2;
        assert(mid * mid <= 1_414_213_564 * 1_414_213_564) by (nonlinear_arith)
            requires 0 <= mid <= 1_414_213_564;
        if mid * mid >= v {
            hi = mid;
        } else {
            lo = mid + 1;
        }
    }
    lo
}

/// The truncated components `qx`, `qy` of a raw vector `(a, b)` (taken
/// without signs) divided by its ceiling-rounded scaled length `m` form a
/// vector of length within `[DIR_SCALE - 2, DIR_SCALE]`.
proof fn lemma_unit_bounds(a: int, b: int, m: int, qx: int, qy: int)
    requires
        0 <= a <= 1000,
        0 <= b <= 1000,
        1 <= a + b,
        is_ceil_root(m, (a * a + b * b) * 1_000_000_000_000),
        qx == a * 1_000_000_000 / m,
        qy == b * 1_000_000_000 / m,
    ensures
        0 <= qx <= 1000,
        0 <= qy <= 1000,
        996_004 <= qx * qx + qy * qy <= 1_000_000,
{
    let p: int = 1_000_000_000;
    let v = (a * a + b * b) * 1_000_000_000_000;
    lemma_fundamental_div_mod(a * p, m);
    lemma_fundamental_div_mod(b * p, m);
    lemma_mod_pos_bound(a * p, m);
    lemma_mod_pos_bound(b * p, m);
    let rx = (a * p) % m;
    let ry = (b * p) % m;
    assert(a * p >= 0 && b * p >= 0) by (nonlinear_arith)
        requires a >= 0, b >= 0, p == 1_000_000_000;
    assert(qx >= 0) by (nonlinear_arith)
        requires a * p == m * qx + rx, 0 <= rx < m, a * p >= 0, m >= 1;
    assert(qy >= 0) by (nonlinear_arith)
        requires b * p == m * qy + ry, 0 <= ry < m, b * p >= 0, m >= 1;
    // Upper bound: m * q never exceeds the scaled component.
    assert((m * qx) * (m * qx) <= (a * p) * (a * p)) by (nonlinear_arith)
        requires 0 <= m * qx <= a * p, m >= 1, qx >= 0;
    assert((m * qy) * (m * qy) <= (b * p) * (b * p)) by (nonlinear_arith)
        requires 0 <= m * qy <= b * p, m >= 1, qy >= 0;
    let s = qx * qx + qy * qy;
    assert(m * m * s == (m * qx) * (m * qx) + (m * qy) * (m * qy)) by (nonlinear_arith)
        requires s == qx * qx + qy * qy;
    assert((a * p) * (a * p) + (b * p) * (b * p) == v * 1_000_000) by (nonlinear_arith)
        requires p == 1_000_000_000, v == (a * a + b * b) * 1_000_000_000_000;
    assert(m * m * s <= v * 1_000_000);
    assert(s <= 1_000_000) by (nonlinear_arith)
        requires m * m * s <= v * 1_000_000, v <= m * m, m >= 1;
    assert(qx <= 1000 && qy <= 1000) by (nonlinear_arith)
        requires qx * qx + qy * qy <= 1_000_000, qx >= 0, qy >= 0;
    // Lower bound: m * (q + 1) exceeds the scaled component.
    assert((a * p) * (a * p) < (m * (qx + 1)) * (m * (qx + 1))) by (nonlinear_arith)
        requires a * p == m * qx + rx, 0 <= rx < m, a * p >= 0;
    assert((b * p) * (b * p) < (m * (qy + 1)) * (m * (qy + 1))) by (nonlinear_arith)
        requires b * p == m * qy + ry, 0 <= ry < m, b * p >= 0;
    let t = (qx + 1) * (qx + 1) + (qy + 1) * (qy + 1);
    assert(m * m * t == (m * (qx + 1)) * (m * (qx + 1)) + (m * (qy + 1)) * (m * (qy + 1)))
        by (nonlinear_arith)
        requires t == (qx + 1) * (qx + 1) + (qy + 1) * (qy + 1);
    assert(m * m * t > v * 1_000_000);
    assert(v >= 1_000_000_000_000) by (nonlinear_arith)
        requires v == (a * a + b * b) * 1_000_000_000_000, 0 <= a, 0 <= b, 1 <= a + b;
    assert(m >= 1_000_000) by (nonlinear_arith)
        requires v <= m * m, v >= 1_000_000_000_000, m >= 1;
    assert(m * m * t > (1_000_000 - 2) * (m * m)) by (nonlinear_arith)
        requires
            m * m * t > v * 1_000_000,
            (m - 1) * (m - 1) < v,
            m >= 1_000_000;
    assert(t >= 999_999) by (nonlinear_arith)
        requires m * m * t > (1_000_000 - 2) * (m * m), m >= 1;
    assert(qx + qy <= 1414) by (nonlinear_arith)
        requires qx * qx + qy * qy <= 1_000_000, qx >= 0, qy >= 0;
    assert(s >= 996_004) by (nonlinear_arith)
        requires
            t >= 999_999,
            t == (qx + 1) * (qx + 1) + (qy + 1) * (qy + 1),
            s == qx * qx + qy * qy,
            qx + qy <= 1414;
}

/// `|a|` as an unsigned value.
fn magnitude(a: i64) -> (r: u128)
    requires
        -DIR_SCALE <= a <= DIR_SCALE,
    ensures
        r == if a >= 0 {
            a as int
        } else {
            -a
        },
{
    if a >= 0 {
        a as u128
    } else {
        (-a) as u128
    }
}

/// Scales `(a, b)` to a direction one unit long (up to truncation) with
/// the same angle; the zero vector becomes the unit x direction.
pub fn normalize_direction(a: i64, b: i64) -> (r: Vec2)
    requires
        -DIR_SCALE <= a <= DIR_SCALE,
        -DIR_SCALE <= b <= DIR_SCALE,
    ensures
        dir_bounded(r),
        unit_length(r),
        same_signs(r, a as int, b as int) || (a == 0 && b == 0),
        forall|m: int|
            is_ceil_root(m, (a * a + b * b) * 1_000_000_000_000) ==> r == normalized_spec(
                a as int,
                b as int,
                m,
            ),
{
    if a == 0 && b == 0 {
        return Vec2 { x: DIR_SCALE, y: 0 };
    }
    let ma = magnitude(a);
    let mb = magnitude(b);
    assert(ma * ma == a * a && mb * mb == b * b) by (nonlinear_arith)
        requires ma == a || ma == -a, mb == b || mb == -b;
    assert(ma * ma <= 1_000_000 && mb * mb <= 1_000_000) by (nonlinear_arith)
        requires 0 <= ma <= 1000, 0 <= mb <= 1000;
    assert(ma * ma + mb * mb >= 1) by (nonlinear_arith)
        requires ma >= 0, mb >= 0, ma + mb >= 1;
    let v: u128 = (ma * ma + mb * mb) * 1_000_000_000_000;
    let m = ceil_root(v);
    let qx = ma * UNIT_NUMERATOR / m;
    let qy = mb * UNIT_NUMERATOR / m;
    proof {
        lemma_unit_bounds(ma as int, mb as int, m as int, qx as int, qy as int);
    }
    let x: i64 = if a >= 0 {
        qx as i64
    } else {
        -(qx as i64)
    };
    let y: i64 = if b >= 0 {
        qy as i64
    } else {
        -(qy as i64)
    };
    let r = Vec2 { x, y };
    assert(r.x * r.x == qx * qx && r.y * r.y == qy * qy) by (nonlinear_arith)
        requires r.x == qx || r.x == -qx, r.y == qy || r.y == -qy;
    assert forall|k: int| is_ceil_root(k, (a * a + b * b) * 1_000_000_000_000) implies r
        == normalized_spec(a as int, b as int, k) by {
        lemma_ceil_root_unique(k, m as int, v as int);
    }
    r
}

/// Appends a hazard at `pos`, travelling along the normalisation of `raw`.
/// Nothing is created once identifiers are exhausted.
pub fn spawn_enemy_at(
    enemies: &mut Vec<Enemy>,
    next_id: &mut u64,
    pos: Vec2,
    raw: Vec2,
    effects: &mut Vec<Effect>,
)
    requires
        dir_bounded(raw),
        enemies_wf(old(enemies)@),
    ensures
        enemies_wf(final(enemies)@),
        *old(next_id) == u64::MAX ==> {
            &&& final(enemies)@ == old(enemies)@
            &&& *final(next_id) == *old(next_id)
            &&& final(effects)@ == old(effects)@
        },
        *old(next_id) < u64::MAX ==> {
            &&& final(enemies)@.len() == old(enemies)@.len() + 1
            &&& final(enemies)@ == old(enemies)@.push(final(enemies)@.last())
            &&& final(enemies)@.last().id == *old(next_id)
            &&& final(enemies)@.last().pos == pos
            &&& unit_length(final(enemies)@.last().direction)
            &&& same_signs(final(enemies)@.last().direction, raw.x as int, raw.y as int) || (raw.x
                == 0 && raw.y == 0)
            &&& forall|m: int| #[trigger]
                is_ceil_root(m, (raw.x * raw.x + raw.y * raw.y) * 1_000_000_000_000)
                    ==> final(enemies)@.last().direction == normalized_spec(
                    raw.x as int,
                    raw.y as int,
                    m,
                )
            &&& *final(next_id) == *old(next_id) + 1
            &&& final(effects)@ == old(effects)@.push(Effect::SpawnedEnemy(final(enemies)@.last()))
        },
{
    if *next_id == u64::MAX {
        return;
    }
    let id = *next_id;
    *next_id = id + 1;
    let direction = normalize_direction(raw.x, raw.y);
    let e = Enemy { id, pos, direction };
    enemies.push(e);
    effects.push(Effect::SpawnedEnemy(e));
}

/// The creation requests for the hazards of `s` from index `from` on.
pub open spec fn enemy_spawn_effects(s: Seq<Enemy>, from: int) -> Seq<Effect> {
    Seq::new((s.len() - from) as nat, |j: int| Effect::SpawnedEnemy(s[from + j]))
}

/// A random direction component in `[-DIR_SCALE, DIR_SCALE]`.
fn random_component() -> (r: i64)
    ensures
        -DIR_SCALE <= r <= DIR_SCALE,
{
    let v = random_u64() % 2001;
    v as i64 - DIR_SCALE
}

/// Creates `ENEMY_COUNT` hazards at random places of the arena, each
/// travelling in a random direction.
pub fn spawn_enemies(
    enemies: &mut Vec<Enemy>,
    next_id: &mut u64,
    arena: Arena,
    effects: &mut Vec<Effect>,
)
    requires
        arena.wf(),
        enemies_wf(old(enemies)@),
    ensures
        enemies_wf(final(enemies)@),
        final(enemies)@.len() == old(enemies)@.len() + (*final(next_id) - *old(next_id)),
        *old(next_id) <= *final(next_id) <= *old(next_id) + ENEMY_COUNT,
        *old(next_id) as int + ENEMY_COUNT <= u64::MAX ==> *final(next_id) == *old(next_id)
            + ENEMY_COUNT,
        forall|i: int| 0 <= i < old(enemies)@.len() ==> final(enemies)@[i] == old(enemies)@[i],
        forall|i: int|
            old(enemies)@.len() <= i < final(enemies)@.len() ==> in_spawn_area(#[trigger] final(enemies)@[i].pos, arena),
        forall|i: int|
            old(enemies)@.len() <= i < final(enemies)@.len() ==> #[trigger] final(enemies)@[i].id
                == *old(next_id) + (i - old(enemies)@.len()),
        forall|i: int|
            old(enemies)@.len() <= i < final(enemies)@.len() ==> unit_length(
                #[trigger] final(enemies)@[i].direction,
            ),
        final(effects)@ == old(effects)@ + enemy_spawn_effects(
            final(enemies)@,
            old(enemies)@.len() as int,
        ),
{
    let mut k: usize = 0;
    while k < ENEMY_COUNT
        invariant
            arena.wf(),
            k <= ENEMY_COUNT,
            enemies_wf(enemies@),
            enemies@.len() == old(enemies)@.len() + (*next_id - *old(next_id)),
            *old(next_id) <= *next_id <= *old(next_id) + k,
            *old(next_id) as int + k <= u64::MAX ==> *next_id == *old(next_id) + k,
            forall|i: int| 0 <= i < old(enemies)@.len() ==> enemies@[i] == old(enemies)@[i],
            forall|i: int|
                old(enemies)@.len() <= i < enemies@.len() ==> in_spawn_area(#[trigger] enemies@[i].pos, arena),
            forall|i: int|
                old(enemies)@.len() <= i < enemies@.len() ==> #[trigger] enemies@[i].id == *old(next_id)
                    + (i - old(enemies)@.len()),
            effects@ == old(effects)@ + enemy_spawn_effects(enemies@, old(enemies)@.len() as int),
        decreases ENEMY_COUNT - k,
    {
        let pos = random_position(arena);
        let a = random_component();
        let b = random_component();
        let ghost before = enemies@;
        spawn_enemy_at(enemies, next_id, pos, Vec2 { x: a, y: b }, effects);
        assert(enemy_spawn_effects(enemies@, old(enemies)@.len() as int) =~= if enemies@.len()
            > before.len() {
            enemy_spawn_effects(before, old(enemies)@.len() as int).push(
                Effect::SpawnedEnemy(enemies@.last()),
            )
        } else {
            enemy_spawn_effects(before, old(enemies)@.len() as int)
        });
        k = k + 1;
    }
}

/// Every hazard after moving for `dt` along its direction.
pub open spec fn moved_enemy(e: Enemy, dt: int) -> Enemy {
    Enemy { pos: move_spec(e.pos, e.direction, ENEMY_SPEED as int, dt), ..e }
}

/// Moves every hazard along its direction for `dt` microseconds.
pub fn enemies_movement(enemies: &mut Vec<Enemy>, dt: u64)
    requires
        enemies_wf(old(enemies)@),
    ensures
        final(enemies)@.len() == old(enemies)@.len(),
        forall|i: int|
            0 <= i < old(enemies)@.len() ==> final(enemies)@[i] == moved_enemy(
                old(enemies)@[i],
                dt as int,
            ),
        enemies_wf(final(enemies)@),
{
    let n = enemies.len();
    let mut i: usize = 0;
    while i < n
        invariant
            n == enemies@.len() == old(enemies)@.len(),
            i <= n,
            forall|j: int| 0 <= j < i ==> enemies@[j] == moved_enemy(old(enemies)@[j], dt as int),
            forall|j: int| i <= j < n ==> enemies@[j] == old(enemies)@[j],
            enemies_wf(old(enemies)@),
        decreases n - i,
    {
        let e = enemies[i];
        assert(old(enemies)@[i as int].wf());
        let pos = move_by(e.pos, e.direction, ENEMY_SPEED, dt);
        enemies.set(i, Enemy { pos, ..e });
        i = i + 1;
    }
}

/// `v` lies outside `[r, extent - r]`.
pub open spec fn out_of_range(v: int, r: int, extent: int) -> bool {
    v < r || v > extent - r
}

/// Whether a hazard at `p` touches an edge of the arena.
pub open spec fn hits_edge(p: Vec2, arena: Arena) -> bool {
    out_of_range(p.x as int, ENEMY_RADIUS as int, arena.width as int) || out_of_range(
        p.y as int,
        ENEMY_RADIUS as int,
        arena.height as int,
    )
}

/// A hazard after the boundary rule: each direction component is negated
/// when its coordinate is out of range, and a hazard that touched an edge is
/// pulled back into the arena inset by its radius plus `BOUNCE_MARGIN`.
pub open spec fn bounced_enemy(e: Enemy, arena: Arena) -> Enemy {
    let fx = out_of_range(e.pos.x as int, ENEMY_RADIUS as int, arena.width as int);
    let fy = out_of_range(e.pos.y as int, ENEMY_RADIUS as int, arena.height as int);
    Enemy {
        id: e.id,
        pos: if fx || fy {
            clamp_pos_spec(e.pos, ENEMY_RADIUS + BOUNCE_MARGIN, arena)
        } else {
            e.pos
        },
        direction: Vec2 {
            x: if fx {
                -e.direction.x
            } else {
                e.direction.x as int
            } as i64,
            y: if fy {
                -e.direction.y
            } else {
                e.direction.y as int
            } as i64,
        },
    }
}

/// The bounce sounds for the first `n` hazards of `s`: one for each that
/// touched an edge.
pub open spec fn bounce_effects(s: Seq<Enemy>, arena: Arena, n: nat) -> Seq<Effect>
    decreases n,
{
    if n == 0 {
        Seq::empty()
    } else {
        let before = bounce_effects(s, arena, (n - 1) as nat);
        if hits_edge(s[n - 1].pos, arena) {
            before.push(Effect::Bounce)
        } else {
            before
        }
    }
}

/// Applies the boundary rule to every hazard, and asks for one bounce sound
/// for each hazard that touched an edge.
pub fn update_enemies_direction(enemies: &mut Vec<Enemy>, arena: Arena, effects: &mut Vec<Effect>)
    requires
        arena.wf(),
        enemies_wf(old(enemies)@),
    ensures
        final(enemies)@.len() == old(enemies)@.len(),
        forall|i: int|
            0 <= i < old(enemies)@.len() ==> final(enemies)@[i] == bounced_enemy(
                old(enemies)@[i],
                arena,
            ),
        enemies_wf(final(enemies)@),
        final(effects)@ == old(effects)@ + bounce_effects(
            old(enemies)@,
            arena,
            old(enemies)@.len(),
        ),
{
    let n = enemies.len();
    let r = ENEMY_RADIUS;
    let mut i: usize = 0;
    while i < n
        invariant
            arena.wf(),
            r == ENEMY_RADIUS,
            n == enemies@.len() == old(enemies)@.len(),
            i <= n,
            forall|j: int| 0 <= j < i ==> enemies@[j] == bounced_enemy(old(enemies)@[j], arena),
            forall|j: int| i <= j < n ==> enemies@[j] == old(enemies)@[j],
            enemies_wf(old(enemies)@),
            enemies_wf(enemies@),
            effects@ == old(effects)@ + bounce_effects(old(enemies)@, arena, i as nat),
        decreases n - i,
    {
        let e = enemies[i];
        assert(old(enemies)@[i as int].wf());
        let mut direction = e.direction;
        let mut changed = false;
        if e.pos.x < r || e.pos.x > arena.width - r {
            direction.x = -direction.x;
            changed = true;
        }
        if e.pos.y < r || e.pos.y > arena.height - r {
            direction.y = -direction.y;
            changed = true;
        }
        let pos = if changed {
            effects.push(Effect::Bounce);
            clamp_pos(e.pos, r + BOUNCE_MARGIN, arena)
        } else {
            e.pos
        };
        assert(direction.x * direction.x == e.direction.x * e.direction.x
            && direction.y * direction.y == e.direction.y * e.direction.y) by (nonlinear_arith)
            requires
                direction.x == e.direction.x || direction.x == -e.direction.x,
                direction.y == e.direction.y || direction.y == -e.direction.y;
        enemies.set(i, Enemy { id: e.id, pos, direction });
        assert(effects@ =~= old(effects)@ + bounce_effects(old(enemies)@, arena, (i + 1) as nat));
        i = i + 1;
    }
}

/// After the boundary rule, a hazard lies inside the arena inset by its
/// radius, and each component of its direction is negated exactly when its
/// coordinate was out of range before the rule.
pub proof fn lemma_bounce_keeps_inside(e: Enemy, arena: Arena)
    requires
        e.wf(),
        arena.fits(ENEMY_RADIUS + BOUNCE_MARGIN),
    ensures
        inside_inset(bounced_enemy(e, arena).pos, ENEMY_RADIUS as int, arena),
        bounced_enemy(e, arena).direction.x == if out_of_range(
            e.pos.x as int,
            ENEMY_RADIUS as int,
            arena.width as int,
        ) {
            -e.direction.x
        } else {
            e.direction.x as int
        },
        bounced_enemy(e, arena).direction.y == if out_of_range(
            e.pos.y as int,
            ENEMY_RADIUS as int,
            arena.height as int,
        ) {
            -e.direction.y
        } else {
            e.direction.y as int
        },
{
    let m = ENEMY_RADIUS + BOUNCE_MARGIN;
    lemma_clamp_within(e.pos.x as int, m as int, arena.width - m);
    lemma_clamp_within(e.pos.y as int, m as int, arena.height - m);
}

} // verus!
