//! The score counter, its display watch, and the high-score ledger.
use vstd::prelude::*;
use crate::events::{cursors_after_read, events_after_read, EventBus, GameOver};

verus! {

/// Identity under which a finished round is recorded in the ledger.
pub const PLAYER_NAME: &'static str = "Player";

/// Number of pickups collected in the current round.
#[derive(Clone, Copy, Debug, PartialEq, Eq, Structural)]
pub struct Score {
    pub value: u64,
}

/// The score value last shown to the player.
#[derive(Clone, Copy, Debug, PartialEq, Eq, Structural)]
pub struct ScoreDisplay {
    pub shown: u64,
}

/// Append-only record of finished rounds: (identity, final score).
pub struct HighScore {
    pub scores: Vec<(String, u64)>,
}

/// The ledger entries `(identity, score)` for a run of events.
pub open spec fn ledger_entries(events: Seq<GameOver>) -> Seq<(Seq<char>, u64)> {
    Seq::new(events.len(), |i: int| (PLAYER_NAME@, events[i].score))
}

impl HighScore {
    /// The ledger as (identity, score) pairs.
    pub open spec fn entries(&self) -> Seq<(Seq<char>, u64)> {
        Seq::new(self.scores@.len(), |i: int| (self.scores@[i].0@, self.scores@[i].1))
    }

    /// An empty ledger.
    pub fn new() -> (r: HighScore)
        ensures
            r.entries() == Seq::<(Seq<char>, u64)>::empty(),
    {
        let r = HighScore { scores: Vec::new() };
        assert(r.entries() =~= Seq::<(Seq<char>, u64)>::empty());
        r
    }
}

/// Returns the score to show when it differs from the one last shown, and
/// remembers it.
pub fn on_update_score(score: &Score, display: &mut ScoreDisplay) -> (r: Option<u64>)
    ensures
        final(display).shown == score.value,
        r == (if score.value != old(display).shown {
            Some(score.value)
        } else {
            None::<u64>
        }),
{
    if score.value != display.shown {
        display.shown = score.value;
        Some(score.value)
    } else {
        None
    }
}

/// Reads this listener's pending game-over events and appends one ledger
/// entry for each, under `PLAYER_NAME`.
pub fn update_high_score(bus: &mut EventBus, listener: usize, high_score: &mut HighScore)
    requires
        old(bus).wf(),
        listener < old(bus).cursors@.len(),
    ensures
        final(bus).wf(),
        final(bus).events@ == events_after_read(
            old(bus).events@,
            old(bus).cursors@,
            listener as int,
        ),
        final(bus).cursors@ == cursors_after_read(
            old(bus).events@,
            old(bus).cursors@,
            listener as int,
        ),
        final(high_score).entries() == old(high_score).entries() + ledger_entries(
            old(bus).events@.subrange(
                old(bus).cursors@[listener as int] as int,
                old(bus).events@.len() as int,
            ),
        ),
{
    let events = bus.read(listener);
    let ghost start = high_score.entries();
    let mut i: usize = 0;
    while i < events.len()
        invariant
            i <= events@.len(),
            high_score.entries() == start + ledger_entries(events@.subrange(0, i as int)),
        decreases events@.len() - i,
    {
        let name = PLAYER_NAME.to_string();
        proof {
            broadcast use vstd::string::group_string_axioms;

            assert(name@ == PLAYER_NAME@);
        }
        let ghost before = high_score.entries();
        high_score.scores.push((name, events[i].score));
        assert(high_score.entries() =~= before.push((PLAYER_NAME@, events@[i as int].score)));
        assert(ledger_entries(events@.subrange(0, i + 1)) =~= ledger_entries(
            events@.subrange(0, i as int),
        ).push((PLAYER_NAME@, events@[i as int].score)));
        assert(high_score.entries() =~= start + ledger_entries(events@.subrange(0, i + 1)));
        i = i + 1;
    }
    assert(events@.subrange(0, events@.len() as int) =~= events@);
}

/// Reads this listener's pending game-over events and returns their final
/// scores, for the host to announce.
pub fn handle_game_over_event(bus: &mut EventBus, listener: usize) -> (r: Vec<u64>)
    requires
        old(bus).wf(),
        listener < old(bus).cursors@.len(),
    ensures
        final(bus).wf(),
        final(bus).events@ == events_after_read(
            old(bus).events@,
            old(bus).cursors@,
            listener as int,
        ),
        final(bus).cursors@ == cursors_after_read(
            old(bus).events@,
            old(bus).cursors@,
            listener as int,
        ),
        r@ == Seq::new(
            (old(bus).events@.len() - old(bus).cursors@[listener as int]) as nat,
            |i: int| old(bus).events@[old(bus).cursors@[listener as int] + i].score,
        ),
{
    let events = bus.read(listener);
    let mut r: Vec<u64> = Vec::new();
    let mut i: usize = 0;
    while i < events.len()
        invariant
            i <= events@.len(),
            r@ == Seq::new(i as nat, |k: int| events@[k].score),
        decreases events@.len() - i,
    {
        r.push(events[i].score);
        assert(r@ =~= Seq::new((i + 1) as nat, |k: int| events@[k].score));
        i = i + 1;
    }
    assert(r@ =~= Seq::new(
        (old(bus).events@.len() - old(bus).cursors@[listener as int]) as nat,
        |i: int| old(bus).events@[old(bus).cursors@[listener as int] + i].score,
    ));
    r
}

} // verus!
