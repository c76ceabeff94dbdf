//! The ordered lists of systems that make up start-up and each tick, and
//! the plugins that register them.
use vstd::prelude::*;

verus! {

/// A system of the simulation.
#[derive(Clone, Copy, Debug, PartialEq, Eq, Structural)]
pub enum System {
    SpawnPlayer,
    SpawnEnemies,
    SpawnStars,
    PlayerMovement,
    ConfinePlayerMovement,
    EnemiesMovement,
    UpdateEnemiesDirection,
    EnemyVsPlayer,
    PlayerVsStars,
    TickSpawnStarTimer,
    SpawnStarOverTime,
    OnUpdateScore,
    UpdateHighScore,
    HandleGameOverEvent,
}

/// Systems run once at start-up, then the update systems once per tick,
/// each list in order.
pub struct Schedule {
    pub startup: Vec<System>,
    pub update: Vec<System>,
}

impl Schedule {
    /// A schedule with no system.
    pub fn new() -> (r: Schedule)
        ensures
            r.startup@ == Seq::<System>::empty(),
            r.update@ == Seq::<System>::empty(),
    {
        Schedule { startup: Vec::new(), update: Vec::new() }
    }

    /// Registers a start-up system after those already registered.
    pub fn add_startup_system(&mut self, s: System)
        ensures
            final(self).startup@ == old(self).startup@.push(s),
            final(self).update@ == old(self).update@,
    {
        self.startup.push(s);
    }

    /// Registers an update system after those already registered.
    pub fn add_system(&mut self, s: System)
        ensures
            final(self).startup@ == old(self).startup@,
            final(self).update@ == old(self).update@.push(s),
    {
        self.update.push(s);
    }

    /// The whole game: hazards, actor, pickups and score, then the game-over
    /// announcement.
    pub fn game() -> (r: Schedule)
        ensures
            r.startup@ == seq![System::SpawnEnemies, System::SpawnPlayer, System::SpawnStars],
            r.update@ == seq![
                System::EnemiesMovement,
                System::UpdateEnemiesDirection,
                System::PlayerMovement,
                System::ConfinePlayerMovement,
                System::EnemyVsPlayer,
                System::PlayerVsStars,
                System::TickSpawnStarTimer,
                System::SpawnStarOverTime,
                System::OnUpdateScore,
                System::UpdateHighScore,
                System::HandleGameOverEvent,
            ],
    {
        let mut s = Schedule::new();
        EnemyPlugin.build(&mut s);
        PlayerPlugin.build(&mut s);
        StarPlugin.build(&mut s);
        ScorePlugin.build(&mut s);
        s.add_system(System::HandleGameOverEvent);
        assert(s.startup@ =~= seq![System::SpawnEnemies, System::SpawnPlayer, System::SpawnStars]);
        assert(s.update@ =~= seq![
            System::EnemiesMovement,
            System::UpdateEnemiesDirection,
            System::PlayerMovement,
            System::ConfinePlayerMovement,
            System::EnemyVsPlayer,
            System::PlayerVsStars,
            System::TickSpawnStarTimer,
            System::SpawnStarOverTime,
            System::OnUpdateScore,
            System::UpdateHighScore,
            System::HandleGameOverEvent,
        ]);
        s
    }
}

/// Hazards: created at start-up, then moved and bounced each tick.
pub struct EnemyPlugin;

impl EnemyPlugin {
    pub fn build(&self, schedule: &mut Schedule)
        ensures
            final(schedule).startup@ == old(schedule).startup@.push(System::SpawnEnemies),
            final(schedule).update@ == old(schedule).update@.push(System::EnemiesMovement).push(
                System::UpdateEnemiesDirection,
            ),
    {
        schedule.add_startup_system(System::SpawnEnemies);
        schedule.add_system(System::EnemiesMovement);
        schedule.add_system(System::UpdateEnemiesDirection);
    }
}

/// The actor: created at start-up, then moved, confined and checked for
/// contact each tick.
pub struct PlayerPlugin;

impl PlayerPlugin {
    pub fn build(&self, schedule: &mut Schedule)
        ensures
            final(schedule).startup@ == old(schedule).startup@.push(System::SpawnPlayer),
            final(schedule).update@ == old(schedule).update@ + seq![
                System::PlayerMovement,
                System::ConfinePlayerMovement,
                System::EnemyVsPlayer,
                System::PlayerVsStars,
            ],
    {
        schedule.add_startup_system(System::SpawnPlayer);
        schedule.add_system(System::PlayerMovement);
        schedule.add_system(System::ConfinePlayerMovement);
        schedule.add_system(System::EnemyVsPlayer);
        schedule.add_system(System::PlayerVsStars);
        assert(schedule.update@ =~= old(schedule).update@ + seq![
            System::PlayerMovement,
            System::ConfinePlayerMovement,
            System::EnemyVsPlayer,
            System::PlayerVsStars,
        ]);
    }
}

/// The score: its display and the high-score ledger, each tick.
pub struct ScorePlugin;

impl ScorePlugin {
    pub fn build(&self, schedule: &mut Schedule)
        ensures
            final(schedule).startup@ == old(schedule).startup@,
            final(schedule).update@ == old(schedule).update@.push(System::OnUpdateScore).push(
                System::UpdateHighScore,
            ),
    {
        schedule.add_system(System::OnUpdateScore);
        schedule.add_system(System::UpdateHighScore);
    }
}

/// Pickups: created at start-up, then spawned by the timer.
pub struct StarPlugin;

impl StarPlugin {
    pub fn build(&self, schedule: &mut Schedule)
        ensures
            final(schedule).startup@ == old(schedule).startup@.push(System::SpawnStars),
            final(schedule).update@ == old(schedule).update@.push(System::TickSpawnStarTimer).push(
                System::SpawnStarOverTime,
            ),
    {
        schedule.add_startup_system(System::SpawnStars);
        schedule.add_system(System::TickSpawnStarTimer);
        schedule.add_system(System::SpawnStarOverTime);
    }
}

} // verus!
