//! Pickups ("stars") and the repeating timer that spawns new ones.
use vstd::prelude::*;
use crate::events::Effect;
use crate::geometry::{in_spawn_area, Arena, Vec2, PIXEL};
use crate::random::random_position;
use vstd::arithmetic::div_mod::{lemma_mod_add_multiples_vanish, lemma_small_mod};

verus! {

/// Pickup diameter, in milli-pixels (twice `STAR_RADIUS`).
pub const STAR_SIZE: i64 = 30 * PIXEL;

/// Pickup radius, in milli-pixels.
pub const STAR_RADIUS: i64 = 15 * PIXEL;

/// Number of pickups created at the start of a round.
pub const STAR_COUNT: usize = 10;

/// Period of the pickup spawn timer, in microseconds.
pub const STAR_SPAWN_PERIOD: u64 = 1_000_000;

/// A pickup: its identifier and position.
#[derive(Clone, Copy, Debug, PartialEq, Eq, Structural)]
pub struct Star {
    pub id: u64,
    pub pos: Vec2,
}

/// A repeating countdown. `finished` tells whether the last tick reached
/// the end of a period.
#[derive(Clone, Copy, Debug, PartialEq, Eq, Structural)]
pub struct SpawnTimer {
    pub period: u64,
    pub remaining: u64,
    pub finished: bool,
}

impl SpawnTimer {
    pub open spec fn wf(self) -> bool {
        0 < self.remaining <= self.period
    }

    /// The timer after `dt` more microseconds. On reaching or crossing the
    /// end of the period it is finished and starts over with what is left
    /// of the elapsed time, modulo the period. A tick that spans several
    /// periods still fires only once: a known limitation of coarse ticks.
    pub open spec fn tick_spec(self, dt: int) -> SpawnTimer {
        if dt < self.remaining {
            SpawnTimer { remaining: (self.remaining - dt) as u64, finished: false, ..self }
        } else {
            SpawnTimer {
                remaining: (self.period - (self.period - self.remaining + dt) % (self.period as int))
                    as u64,
                finished: true,
                ..self
            }
        }
    }

    /// A full timer of the given period.
    pub fn new(period: u64) -> (r: SpawnTimer)
        requires
            0 < period,
        ensures
            r.wf(),
            r == (SpawnTimer { period, remaining: period, finished: false }),
    {
        SpawnTimer { period, remaining: period, finished: false }
    }

    /// Advances the timer by `dt` microseconds.
    pub fn tick(&mut self, dt: u64)
        requires
            old(self).wf(),
        ensures
            final(self).wf(),
            *final(self) == old(self).tick_spec(dt as int),
    {
        if dt < self.remaining {
            self.remaining = self.remaining - dt;
            self.finished = false;
        } else {
            let elapsed: u128 = (self.period - self.remaining) as u128 + dt as u128;
            let rest: u128 = elapsed % (self.period as u128);
            self.remaining = self.period - rest as u64;
            self.finished = true;
        }
    }

    /// Whether the last tick reached the end of a period.
    pub fn finished(&self) -> (r: bool)
        ensures
            r == self.finished,
    {
        self.finished
    }
}

/// Advances the spawn timer by the elapsed time of this tick.
pub fn tick_spawn_star_timer(timer: &mut SpawnTimer, dt: u64)
    requires
        old(timer).wf(),
    ensures
        final(timer).wf(),
        *final(timer) == old(timer).tick_spec(dt as int),
{
    timer.tick(dt);
}

/// Appends a pickup at `pos`; nothing is created once identifiers are
/// exhausted.
pub fn spawn_star_at(stars: &mut Vec<Star>, next_id: &mut u64, pos: Vec2, effects: &mut Vec<Effect>)
    ensures
        *old(next_id) == u64::MAX ==> {
            &&& final(stars)@ == old(stars)@
            &&& *final(next_id) == *old(next_id)
            &&& final(effects)@ == old(effects)@
        },
        *old(next_id) < u64::MAX ==> {
            &&& final(stars)@ == old(stars)@.push(Star { id: *old(next_id), pos })
            &&& *final(next_id) == *old(next_id) + 1
            &&& final(effects)@ == old(effects)@.push(Effect::SpawnedStar(final(stars)@.last()))
        },
{
    if *next_id == u64::MAX {
        return;
    }
    let id = *next_id;
    *next_id = id + 1;
    let st = Star { id, pos };
    stars.push(st);
    effects.push(Effect::SpawnedStar(st));
}

/// The creation requests for the pickups of `s` from index `from` on.
pub open spec fn star_spawn_effects(s: Seq<Star>, from: int) -> Seq<Effect> {
    Seq::new((s.len() - from) as nat, |j: int| Effect::SpawnedStar(s[from + j]))
}

/// Creates `STAR_COUNT` pickups at random places of the arena. Pickups are
/// placed anywhere in the full arena, not inset by their radius, so one may
/// show partly outside the visible area.
pub fn spawn_stars(stars: &mut Vec<Star>, next_id: &mut u64, arena: Arena, effects: &mut Vec<Effect>)
    requires
        arena.wf(),
    ensures
        final(stars)@.len() == old(stars)@.len() + (*final(next_id) - *old(next_id)),
        *old(next_id) <= *final(next_id) <= *old(next_id) + STAR_COUNT,
        *old(next_id) as int + STAR_COUNT <= u64::MAX ==> *final(next_id) == *old(next_id)
            + STAR_COUNT,
        forall|i: int| 0 <= i < old(stars)@.len() ==> final(stars)@[i] == old(stars)@[i],
        forall|i: int|
            old(stars)@.len() <= i < final(stars)@.len() ==> in_spawn_area(#[trigger] final(stars)@[i].pos, arena),
        forall|i: int|
            old(stars)@.len() <= i < final(stars)@.len() ==> #[trigger] final(stars)@[i].id
                == *old(next_id) + (i - old(stars)@.len()),
        final(effects)@ == old(effects)@ + star_spawn_effects(final(stars)@, old(stars)@.len() as int),
{
    let mut k: usize = 0;
    while k < STAR_COUNT
        invariant
            arena.wf(),
            k <= STAR_COUNT,
            stars@.len() == old(stars)@.len() + (*next_id - *old(next_id)),
            *old(next_id) <= *next_id <= *old(next_id) + k,
            *old(next_id) as int + k <= u64::MAX ==> *next_id == *old(next_id) + k,
            forall|i: int| 0 <= i < old(stars)@.len() ==> stars@[i] == old(stars)@[i],
            forall|i: int|
                old(stars)@.len() <= i < stars@.len() ==> in_spawn_area(#[trigger] stars@[i].pos, arena),
            forall|i: int|
                old(stars)@.len() <= i < stars@.len() ==> #[trigger] stars@[i].id == *old(next_id)
                    + (i - old(stars)@.len()),
            effects@ == old(effects)@ + star_spawn_effects(stars@, old(stars)@.len() as int),
        decreases STAR_COUNT - k,
    {
        let pos = random_position(arena);
        let ghost before = stars@;
        spawn_star_at(stars, next_id, pos, effects);
        assert(star_spawn_effects(stars@, old(stars)@.len() as int) =~= if stars@.len()
            > before.len() {
            star_spawn_effects(before, old(stars)@.len() as int).push(
                Effect::SpawnedStar(stars@.last()),
            )
        } else {
            star_spawn_effects(before, old(stars)@.len() as int)
        });
        k = k + 1;
    }
}

/// Creates one pickup at `pos` if the spawn timer finished on this tick.
pub fn spawn_star_at_if_finished(
    timer: &SpawnTimer,
    stars: &mut Vec<Star>,
    next_id: &mut u64,
    pos: Vec2,
    effects: &mut Vec<Effect>,
)
    ensures
        !timer.finished ==> {
            &&& final(stars)@ == old(stars)@
            &&& *final(next_id) == *old(next_id)
            &&& final(effects)@ == old(effects)@
        },
        timer.finished && *old(next_id) < u64::MAX ==> {
            &&& final(stars)@ == old(stars)@.push(Star { id: *old(next_id), pos })
            &&& *final(next_id) == *old(next_id) + 1
            &&& final(effects)@ == old(effects)@.push(Effect::SpawnedStar(final(stars)@.last()))
        },
        timer.finished && *old(next_id) == u64::MAX ==> {
            &&& final(stars)@ == old(stars)@
            &&& *final(next_id) == *old(next_id)
            &&& final(effects)@ == old(effects)@
        },
{
    if timer.finished() {
        spawn_star_at(stars, next_id, pos, effects);
    }
}

/// Creates one pickup at a random place of the full arena (not inset by its
/// radius) if the spawn timer finished on this tick.
pub fn spawn_star_over_time(
    timer: &SpawnTimer,
    stars: &mut Vec<Star>,
    next_id: &mut u64,
    arena: Arena,
    effects: &mut Vec<Effect>,
)
    requires
        arena.wf(),
    ensures
        !timer.finished || *old(next_id) == u64::MAX ==> {
            &&& final(stars)@ == old(stars)@
            &&& *final(next_id) == *old(next_id)
            &&& final(effects)@ == old(effects)@
        },
        timer.finished && *old(next_id) < u64::MAX ==> {
            &&& final(stars)@.len() == old(stars)@.len() + 1
            &&& final(stars)@.drop_last() == old(stars)@
            &&& final(stars)@.last().id == *old(next_id)
            &&& in_spawn_area(final(stars)@.last().pos, arena)
            &&& *final(next_id) == *old(next_id) + 1
            &&& final(effects)@ == old(effects)@.push(Effect::SpawnedStar(final(stars)@.last()))
        },
{
    if timer.finished() {
        let pos = random_position(arena);
        spawn_star_at(stars, next_id, pos, effects);
        proof {
            if *old(next_id) < u64::MAX {
                assert(stars@.drop_last() =~= old(stars)@);
            }
        }
    }
}

/// Sum of a run of elapsed times.
pub open spec fn total(ds: Seq<u64>) -> int
    decreases ds.len(),
{
    if ds.len() == 0 {
        0
    } else {
        total(ds.drop_last()) + ds.last()
    }
}

/// The timer after ticking by each elapsed time of `ds` in turn.
pub open spec fn run_timer(t: SpawnTimer, ds: Seq<u64>) -> SpawnTimer
    decreases ds.len(),
{
    if ds.len() == 0 {
        t
    } else {
        run_timer(t, ds.drop_last()).tick_spec(ds.last() as int)
    }
}

/// How many of the ticks of `ds` finished the timer.
pub open spec fn fire_count(t: SpawnTimer, ds: Seq<u64>) -> nat
    decreases ds.len(),
{
    if ds.len() == 0 {
        0
    } else {
        fire_count(t, ds.drop_last()) + if run_timer(t, ds).finished {
            1nat
        } else {
            0nat
        }
    }
}

/// Before a full period has elapsed, a full timer has not fired and has the
/// rest of the period left.
pub proof fn lemma_timer_counts_down(period: u64, ds: Seq<u64>)
    requires
        0 < period,
        total(ds) < period,
    ensures
        fire_count(SpawnTimer { period, remaining: period, finished: false }, ds) == 0,
        run_timer(SpawnTimer { period, remaining: period, finished: false }, ds)
            == (SpawnTimer { period, remaining: (period - total(ds)) as u64, finished: false }),
        total(ds) >= 0,
    decreases ds.len(),
{
    if ds.len() > 0 {
        lemma_timer_counts_down(period, ds.drop_last());
    }
}

/// A full timer of period `period`, ticked by elapsed times each shorter
/// than the period whose sum first reaches the period on the last one,
/// fires exactly once, on that last tick, and then has the period minus the
/// overshoot left.
pub proof fn lemma_timer_fires_once(period: u64, ds: Seq<u64>)
    requires
        0 < period,
        ds.len() > 0,
        forall|i: int| 0 <= i < ds.len() ==> ds[i] < period,
        total(ds.drop_last()) < period,
        total(ds) >= period,
    ensures
        fire_count(SpawnTimer { period, remaining: period, finished: false }, ds) == 1,
        run_timer(SpawnTimer { period, remaining: period, finished: false }, ds).finished,
        run_timer(SpawnTimer { period, remaining: period, finished: false }, ds).remaining
            == period - (total(ds) - period),
{
    let t = SpawnTimer { period, remaining: period, finished: false };
    lemma_timer_counts_down(period, ds.drop_last());
    let d = ds.last();
    assert(d == ds[ds.len() - 1]);
    let sum = total(ds);
    assert(period - (period - total(ds.drop_last())) + d == sum);
    lemma_mod_add_multiples_vanish(sum - period, period as int);
    lemma_small_mod((sum - period) as nat, period as nat);
    assert(sum % (period as int) == sum - period);
}

} // verus!
