//! The entity registry and the shared resources of one round, and the
//! driver that runs the schedule's systems against them.
use vstd::prelude::*;
use crate::enemy::{
    bounce_effects, bounced_enemy, enemy_spawn_effects, enemies_movement, enemies_wf, moved_enemy, spawn_enemies,
    update_enemies_direction, Enemy,
};
use crate::events::{
    cursors_after_read, events_after_read, Effect, EventBus, GameOver,
};
use crate::geometry::{in_spawn_area, Arena, Vec2};
use crate::player::{
    collect_effects, confine_player_movement, confined_player, enemy_vs_player,
    game_over_effects, game_over_events, kept_stars, moved_player, player_after_enemies,
    player_movement, player_vs_stars, spawn_player, Keys, Player,
};
use crate::schedule::{Schedule, System};
use crate::score::{
    handle_game_over_event, ledger_entries, on_update_score, update_high_score, HighScore, Score,
    ScoreDisplay,
};
use crate::star::{
    spawn_star_over_time, spawn_stars, star_spawn_effects, tick_spawn_star_timer, SpawnTimer, Star,
    STAR_SPAWN_PERIOD,
};

verus! {

/// What the host supplies for one tick.
#[derive(Clone, Copy, Debug, PartialEq, Eq, Structural)]
pub struct TickInput {
    /// Elapsed time since the previous tick, in microseconds.
    pub dt: u64,
    /// The arena as it is on this tick.
    pub arena: Arena,
    /// The keys held down.
    pub keys: Keys,
}

/// What a run of systems reports back to the host.
pub struct TickReport {
    /// The new score to show, when it changed.
    pub shown_score: Option<u64>,
    /// The final scores of the rounds that ended.
    pub game_over_scores: Vec<u64>,
}

/// Everything a round owns.
pub struct World {
    pub player: Option<Player>,
    pub enemies: Vec<Enemy>,
    pub stars: Vec<Star>,
    /// The identifier that the next created entity gets.
    pub next_id: u64,
    pub score: Score,
    pub display: ScoreDisplay,
    pub high_score: HighScore,
    pub star_timer: SpawnTimer,
    pub game_over: EventBus,
    /// The bus listener that records finished rounds in the ledger.
    pub ledger_listener: usize,
    /// The bus listener that announces finished rounds.
    pub announce_listener: usize,
    /// Requests for the host, oldest first.
    pub effects: Vec<Effect>,
}

/// The state of a round, as mathematical values.
pub struct WorldModel {
    pub player: Option<Player>,
    pub enemies: Seq<Enemy>,
    pub stars: Seq<Star>,
    pub next_id: u64,
    pub score: u64,
    pub shown: u64,
    pub ledger: Seq<(Seq<char>, u64)>,
    pub timer: SpawnTimer,
    pub events: Seq<GameOver>,
    pub cursors: Seq<usize>,
    pub ledger_listener: usize,
    pub announce_listener: usize,
    pub effects: Seq<Effect>,
}

impl View for World {
    type V = WorldModel;

    open spec fn view(&self) -> WorldModel {
        WorldModel {
            player: self.player,
            enemies: self.enemies@,
            stars: self.stars@,
            next_id: self.next_id,
            score: self.score.value,
            shown: self.display.shown,
            ledger: self.high_score.entries(),
            timer: self.star_timer,
            events: self.game_over.events@,
            cursors: self.game_over.cursors@,
            ledger_listener: self.ledger_listener,
            announce_listener: self.announce_listener,
            effects: self.effects@,
        }
    }
}

/// The centre of the arena.
pub open spec fn centre(arena: Arena) -> Vec2 {
    Vec2 { x: (arena.width / 2) as i64, y: (arena.height / 2) as i64 }
}

/// `positions` holds the `old_len` earlier entities followed by one new
/// entity for each identifier handed out between `before` and `after`,
/// each new one inside the spawn area of the arena.
pub open spec fn spawned_positions(
    before: WorldModel,
    after: WorldModel,
    positions: Seq<Vec2>,
    old_len: int,
    arena: Arena,
) -> bool {
    let added = after.next_id - before.next_id;
    &&& before.next_id <= after.next_id
    &&& positions.len() == old_len + added
    &&& forall|i: int| old_len <= i < positions.len() ==> in_spawn_area(#[trigger] positions[i], arena)
}

/// Pickups after the actor collected what it touches.
pub open spec fn stars_after(w: WorldModel) -> Seq<Star> {
    match w.player {
        None => w.stars,
        Some(p) => kept_stars(p.pos, w.stars, w.stars.len()),
    }
}

/// Requests after the actor collected what it touches.
pub open spec fn effects_after_collect(w: WorldModel) -> Seq<Effect> {
    match w.player {
        None => w.effects,
        Some(p) => w.effects + collect_effects(p.pos, w.stars, w.stars.len()),
    }
}

/// What running `sys` on a round in state `w` may lead to: exactly one
/// state for every system but the random spawns, which are pinned down up
/// to the places they choose.
pub open spec fn system_step(sys: System, w: WorldModel, input: TickInput, n: WorldModel) -> bool {
    let arena = input.arena;
    let dt = input.dt as int;
    match sys {
        System::SpawnPlayer => if w.next_id < u64::MAX {
            n == WorldModel {
                player: Some(Player { id: w.next_id, pos: centre(arena) }),
                next_id: (w.next_id + 1) as u64,
                effects: w.effects.push(
                    Effect::SpawnedPlayer(Player { id: w.next_id, pos: centre(arena) }),
                ),
                ..w
            }
        } else {
            n == w
        },
        System::SpawnEnemies => {
            &&& n == WorldModel { enemies: n.enemies, next_id: n.next_id, effects: n.effects, ..w }
            &&& n.enemies.subrange(0, w.enemies.len() as int) == w.enemies
            &&& n.effects == w.effects + enemy_spawn_effects(n.enemies, w.enemies.len() as int)
            &&& spawned_positions(
                w,
                n,
                Seq::new(n.enemies.len(), |i: int| n.enemies[i].pos),
                w.enemies.len() as int,
                arena,
            )
        },
        System::SpawnStars | System::SpawnStarOverTime => {
            &&& n == WorldModel { stars: n.stars, next_id: n.next_id, effects: n.effects, ..w }
            &&& n.stars.subrange(0, w.stars.len() as int) == w.stars
            &&& n.effects == w.effects + star_spawn_effects(n.stars, w.stars.len() as int)
            &&& spawned_positions(
                w,
                n,
                Seq::new(n.stars.len(), |i: int| n.stars[i].pos),
                w.stars.len() as int,
                arena,
            )
            &&& sys == System::SpawnStarOverTime ==> {
                &&& !w.timer.finished ==> n == w
                &&& n.next_id <= w.next_id + 1
            }
        },
        System::PlayerMovement => n == WorldModel {
            player: moved_player(w.player, input.keys, dt),
            ..w
        },
        System::ConfinePlayerMovement => n == WorldModel {
            player: confined_player(w.player, arena),
            ..w
        },
        System::EnemiesMovement => n == WorldModel {
            enemies: Seq::new(w.enemies.len(), |i: int| moved_enemy(w.enemies[i], dt)),
            ..w
        },
        System::UpdateEnemiesDirection => n == WorldModel {
            enemies: Seq::new(w.enemies.len(), |i: int| bounced_enemy(w.enemies[i], arena)),
            effects: w.effects + bounce_effects(w.enemies, arena, w.enemies.len()),
            ..w
        },
        System::EnemyVsPlayer => n == WorldModel {
            player: player_after_enemies(w.player, w.enemies),
            events: w.events + game_over_events(w.player, w.enemies, w.score),
            effects: w.effects + game_over_effects(w.player, w.enemies),
            ..w
        },
        System::PlayerVsStars => n == WorldModel {
            stars: stars_after(w),
            score: (w.score + (w.stars.len() - stars_after(w).len())) as u64,
            effects: effects_after_collect(w),
            ..w
        },
        System::TickSpawnStarTimer => n == WorldModel { timer: w.timer.tick_spec(dt), ..w },
        System::OnUpdateScore => n == WorldModel { shown: w.score, ..w },
        System::UpdateHighScore => n == WorldModel {
            ledger: w.ledger + ledger_entries(
                w.events.subrange(w.cursors[w.ledger_listener as int] as int, w.events.len() as int),
            ),
            events: events_after_read(w.events, w.cursors, w.ledger_listener as int),
            cursors: cursors_after_read(w.events, w.cursors, w.ledger_listener as int),
            ..w
        },
        System::HandleGameOverEvent => n == WorldModel {
            events: events_after_read(w.events, w.cursors, w.announce_listener as int),
            cursors: cursors_after_read(w.events, w.cursors, w.announce_listener as int),
            ..w
        },
    }
}

/// The state of a round that has not started: no entity, nothing scored,
/// a full spawn timer and an empty bus with two distinct listeners.
pub open spec fn fresh(w: WorldModel) -> bool {
    &&& w.player is None
    &&& w.enemies == Seq::<Enemy>::empty()
    &&& w.stars == Seq::<Star>::empty()
    &&& w.next_id == 0
    &&& w.score == 0
    &&& w.shown == 0
    &&& w.ledger == Seq::<(Seq<char>, u64)>::empty()
    &&& w.timer == (SpawnTimer {
        period: STAR_SPAWN_PERIOD,
        remaining: STAR_SPAWN_PERIOD,
        finished: false,
    })
    &&& w.events == Seq::<GameOver>::empty()
    &&& w.cursors == seq![0usize, 0usize]
    &&& w.ledger_listener == 0
    &&& w.announce_listener == 1
    &&& w.effects == Seq::<Effect>::empty()
}

/// The input of start-up: no time elapsed and no key held.
pub open spec fn startup_input(arena: Arena) -> TickInput {
    TickInput {
        dt: 0,
        arena,
        keys: Keys { up: false, down: false, left: false, right: false, escape: false },
    }
}

/// The final scores that the announcing listener reads from the queue of
/// `w`, in order.
pub open spec fn announced(w: WorldModel) -> Seq<u64> {
    let start = w.cursors[w.announce_listener as int] as int;
    Seq::new((w.events.len() - start) as nat, |i: int| w.events[start + i].score)
}

/// The score to show after the first `n` systems of a run along `trace`:
/// the score seen by the last score display that found it changed.
pub open spec fn report_shown(systems: Seq<System>, trace: Seq<WorldModel>, n: nat) -> Option<u64>
    decreases n,
{
    if n == 0 {
        None
    } else {
        let k = n - 1;
        if systems[k] == System::OnUpdateScore && trace[k].score != trace[k].shown {
            Some(trace[k].score)
        } else {
            report_shown(systems, trace, k as nat)
        }
    }
}

/// The final scores announced by the first `n` systems of a run along
/// `trace`, in order.
pub open spec fn report_scores(systems: Seq<System>, trace: Seq<WorldModel>, n: nat) -> Seq<u64>
    decreases n,
{
    if n == 0 {
        Seq::empty()
    } else {
        let k = n - 1;
        report_scores(systems, trace, k as nat) + if systems[k] == System::HandleGameOverEvent {
            announced(trace[k])
        } else {
            Seq::empty()
        }
    }
}

/// The report of a prefix of a run depends only on that prefix of the trace.
proof fn lemma_report_prefix(systems: Seq<System>, trace: Seq<WorldModel>, x: WorldModel, n: nat)
    requires
        n <= trace.len(),
    ensures
        report_shown(systems, trace.push(x), n) == report_shown(systems, trace, n),
        report_scores(systems, trace.push(x), n) == report_scores(systems, trace, n),
    decreases n,
{
    if n > 0 {
        lemma_report_prefix(systems, trace, x, (n - 1) as nat);
        assert(trace.push(x)[n - 1] == trace[n - 1]);
    }
}

/// `trace` runs `systems` in order from its first state to its last.
pub open spec fn runs(systems: Seq<System>, input: TickInput, trace: Seq<WorldModel>) -> bool {
    &&& trace.len() == systems.len() + 1
    &&& forall|i: int|
        0 <= i < systems.len() ==> system_step(#[trigger] systems[i], trace[i], input, trace[i + 1])
}

impl World {
    /// Each collected pickup and each pickup present took an identifier of
    /// its own, so their number never exceeds the identifiers handed out.
    pub open spec fn wf(&self) -> bool {
        &&& enemies_wf(self.enemies@)
        &&& self.star_timer.wf()
        &&& self.game_over.wf()
        &&& self.ledger_listener < self.game_over.cursors@.len()
        &&& self.announce_listener < self.game_over.cursors@.len()
        &&& self.score.value + self.stars@.len() <= self.next_id
    }

    /// An empty round: no entity, score zero, a full spawn timer, and a bus
    /// with the ledger and announcement listeners.
    pub fn new() -> (w: World)
        ensures
            w.wf(),
            fresh(w@),
    {
        let mut game_over = EventBus::new();
        let ledger_listener = game_over.add_listener();
        let announce_listener = game_over.add_listener();
        assert(game_over.cursors@ =~= seq![0usize, 0usize]);
        World {
            player: None,
            enemies: Vec::new(),
            stars: Vec::new(),
            next_id: 0,
            score: Score { value: 0 },
            display: ScoreDisplay { shown: 0 },
            high_score: HighScore::new(),
            star_timer: SpawnTimer::new(STAR_SPAWN_PERIOD),
            game_over,
            ledger_listener,
            announce_listener,
            effects: Vec::new(),
        }
    }

    /// Runs one system.
    pub fn run_system(&mut self, system: System, input: &TickInput, report: &mut TickReport)
        requires
            old(self).wf(),
            input.arena.wf(),
        ensures
            final(self).wf(),
            final(self).score.value >= old(self).score.value,
            system_step(system, old(self)@, *input, final(self)@),
            system == System::OnUpdateScore ==> final(report).shown_score == (if old(
                self,
            ).score.value != old(self).display.shown {
                Some(old(self).score.value)
            } else {
                old(report).shown_score
            }),
            system != System::OnUpdateScore ==> final(report).shown_score == old(
                report,
            ).shown_score,
            system != System::HandleGameOverEvent ==> final(report).game_over_scores@ == old(
                report,
            ).game_over_scores@,
            system == System::HandleGameOverEvent ==> final(report).game_over_scores@ == old(
                report,
            ).game_over_scores@ + announced(old(self)@),
    {
        let arena = input.arena;
        match system {
            System::SpawnPlayer => {
                spawn_player(&mut self.player, &mut self.next_id, arena, &mut self.effects);
            },
            System::SpawnEnemies => {
                spawn_enemies(&mut self.enemies, &mut self.next_id, arena, &mut self.effects);
                proof {
                    let ps = Seq::new(self.enemies@.len(), |i: int| self.enemies@[i].pos);
                    assert(self.enemies@.subrange(0, old(self).enemies@.len() as int)
                        =~= old(self).enemies@);
                    assert forall|i: int| old(self).enemies@.len() <= i < ps.len() implies in_spawn_area(#[trigger] ps[i], arena) by {
                        assert(ps[i] == self.enemies@[i].pos);
                    }
                }
            },
            System::SpawnStars => {
                spawn_stars(&mut self.stars, &mut self.next_id, arena, &mut self.effects);
                proof {
                    let ps = Seq::new(self.stars@.len(), |i: int| self.stars@[i].pos);
                    assert(self.stars@.subrange(0, old(self).stars@.len() as int)
                        =~= old(self).stars@);
                    assert forall|i: int| old(self).stars@.len() <= i < ps.len() implies in_spawn_area(#[trigger] ps[i], arena) by {
                        assert(ps[i] == self.stars@[i].pos);
                    }
                }
            },
            System::PlayerMovement => {
                player_movement(&mut self.player, input.keys, input.dt);
            },
            System::ConfinePlayerMovement => {
                confine_player_movement(&mut self.player, arena);
            },
            System::EnemiesMovement => {
                enemies_movement(&mut self.enemies, input.dt);
                assert(self.enemies@ =~= Seq::new(
                    old(self).enemies@.len(),
                    |i: int| moved_enemy(old(self).enemies@[i], input.dt as int),
                ));
            },
            System::UpdateEnemiesDirection => {
                update_enemies_direction(&mut self.enemies, arena, &mut self.effects);
                assert(self.enemies@ =~= Seq::new(
                    old(self).enemies@.len(),
                    |i: int| bounced_enemy(old(self).enemies@[i], arena),
                ));
            },
            System::EnemyVsPlayer => {
                enemy_vs_player(
                    &mut self.player,
                    &self.enemies,
                    &self.score,
                    &mut self.game_over,
                    &mut self.effects,
                );
            },
            System::PlayerVsStars => {
                player_vs_stars(&self.player, &mut self.stars, &mut self.score, &mut self.effects);
            },
            System::TickSpawnStarTimer => {
                tick_spawn_star_timer(&mut self.star_timer, input.dt);
            },
            System::SpawnStarOverTime => {
                spawn_star_over_time(
                    &self.star_timer,
                    &mut self.stars,
                    &mut self.next_id,
                    arena,
                    &mut self.effects,
                );
                proof {
                    let ps = Seq::new(self.stars@.len(), |i: int| self.stars@[i].pos);
                    assert(self.stars@.subrange(0, old(self).stars@.len() as int)
                        =~= old(self).stars@) by {
                        if self.stars@.len() > old(self).stars@.len() {
                            assert(self.stars@.subrange(0, old(self).stars@.len() as int)
                                =~= self.stars@.drop_last());
                        }
                    }
                    assert forall|i: int| old(self).stars@.len() <= i < ps.len() implies in_spawn_area(#[trigger] ps[i], arena) by {
                        assert(ps[i] == self.stars@[i].pos);
                    }
                    assert(self.effects@ =~= old(self).effects@ + star_spawn_effects(
                        self.stars@,
                        old(self).stars@.len() as int,
                    ));
                }
            },
            System::OnUpdateScore => {
                if let Some(v) = on_update_score(&self.score, &mut self.display) {
                    report.shown_score = Some(v);
                }
            },
            System::UpdateHighScore => {
                update_high_score(&mut self.game_over, self.ledger_listener, &mut self.high_score);
            },
            System::HandleGameOverEvent => {
                let scores = handle_game_over_event(&mut self.game_over, self.announce_listener);
                let mut i: usize = 0;
                while i < scores.len()
                    invariant
                        i <= scores@.len(),
                        report.game_over_scores@ == old(report).game_over_scores@
                            + scores@.subrange(0, i as int),
                        report.shown_score == old(report).shown_score,
                    decreases scores@.len() - i,
                {
                    report.game_over_scores.push(scores[i]);
                    assert(report.game_over_scores@ =~= old(report).game_over_scores@
                        + scores@.subrange(0, i + 1));
                    i = i + 1;
                }
                assert(scores@.subrange(0, scores@.len() as int) =~= announced(old(self)@));
            },
        }
    }

    /// Runs the listed systems in order.
    pub fn run(&mut self, systems: &Vec<System>, input: &TickInput) -> (r: TickReport)
        requires
            old(self).wf(),
            input.arena.wf(),
        ensures
            final(self).wf(),
            final(self).score.value >= old(self).score.value,
            exists|trace: Seq<WorldModel>|
                {
                    &&& runs(systems@, *input, trace)
                    &&& trace[0] == old(self)@
                    &&& trace.last() == final(self)@
                    &&& r.shown_score == report_shown(systems@, trace, systems@.len())
                    &&& r.game_over_scores@ == report_scores(systems@, trace, systems@.len())
                },
    {
        let mut report = TickReport { shown_score: None, game_over_scores: Vec::new() };
        let ghost mut trace: Seq<WorldModel> = seq![self@];
        let mut i: usize = 0;
        while i < systems.len()
            invariant
                self.wf(),
                input.arena.wf(),
                self.score.value >= old(self).score.value,
                i <= systems@.len(),
                trace.len() == i + 1,
                trace[0] == old(self)@,
                trace.last() == self@,
                forall|k: int|
                    0 <= k < i ==> system_step(#[trigger] systems@[k], trace[k], *input, trace[k + 1]),
                report.shown_score == report_shown(systems@, trace, i as nat),
                report.game_over_scores@ == report_scores(systems@, trace, i as nat),
            decreases systems@.len() - i,
        {
            self.run_system(systems[i], input, &mut report);
            proof {
                lemma_report_prefix(systems@, trace, self@, i as nat);
                trace = trace.push(self@);
                assert(report.game_over_scores@ =~= report_scores(systems@, trace, (i + 1) as nat));
            }
            i = i + 1;
        }
        assert(runs(systems@, *input, trace));
        report
    }

    /// A new round in `arena`, with the start-up systems of `schedule` run.
    pub fn start(schedule: &Schedule, arena: Arena) -> (w: World)
        requires
            arena.wf(),
        ensures
            w.wf(),
            exists|trace: Seq<WorldModel>|
                runs(schedule.startup@, startup_input(arena), trace) && fresh(trace[0])
                    && trace.last() == w@,
    {
        let mut w = World::new();
        let input = TickInput {
            dt: 0,
            arena,
            keys: Keys { up: false, down: false, left: false, right: false, escape: false },
        };
        let _ = w.run(&schedule.startup, &input);
        w
    }

    /// One tick: the update systems of `schedule`, in order.
    pub fn update(&mut self, schedule: &Schedule, input: &TickInput) -> (r: TickReport)
        requires
            old(self).wf(),
            input.arena.wf(),
        ensures
            final(self).wf(),
            final(self).score.value >= old(self).score.value,
            exists|trace: Seq<WorldModel>|
                {
                    &&& runs(schedule.update@, *input, trace)
                    &&& trace[0] == old(self)@
                    &&& trace.last() == final(self)@
                    &&& r.shown_score == report_shown(schedule.update@, trace, schedule.update@.len())
                    &&& r.game_over_scores@ == report_scores(
                        schedule.update@,
                        trace,
                        schedule.update@.len(),
                    )
                },
    {
        self.run(&schedule.update, input)
    }

    /// Hands the host every pending request, oldest first, and forgets them.
    pub fn take_effects(&mut self) -> (r: Vec<Effect>)
        ensures
            r@ == old(self).effects@,
            final(self)@ == (WorldModel { effects: Seq::<Effect>::empty(), ..old(self)@ }),
    {
        let mut r: Vec<Effect> = Vec::new();
        let mut i: usize = 0;
        while i < self.effects.len()
            invariant
                i <= self.effects@.len(),
                *self == *old(self),
                r@ == self.effects@.subrange(0, i as int),
            decreases self.effects@.len() - i,
        {
            r.push(self.effects[i]);
            assert(r@ =~= self.effects@.subrange(0, i + 1));
            i = i + 1;
        }
        assert(r@ =~= old(self).effects@);
        self.effects.clear();
        r
    }
}

/// Where the camera looks: the centre of the arena.
pub fn spawn_camera(arena: Arena) -> (r: Vec2)
    requires
        arena.wf(),
    ensures
        r == (Vec2 { x: (arena.width / 2) as i64, y: (arena.height / 2) as i64 }),
{
    Vec2 { x: arena.width / 2, y: arena.height / 2 }
}

/// Whether the host should end the program: the exit key is down.
pub fn exit_game(keys: Keys) -> (r: bool)
    ensures
        r == keys.escape,
{
    keys.escape
}

} // verus!
