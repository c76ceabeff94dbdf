//! Side-effect requests for the host and the game-over event bus.
use vstd::prelude::*;
use crate::enemy::Enemy;
use crate::player::Player;
use crate::star::Star;

verus! {

/// A request that the simulation hands to the host: a sound to play, or an
/// entity to show or remove.
#[derive(Clone, Copy, Debug, PartialEq, Eq, Structural)]
pub enum Effect {
    /// A hazard bounced off an edge of the arena.
    Bounce,
    /// The actor collected a pickup.
    Collect,
    /// The actor was destroyed by a hazard.
    Explosion,
    /// This actor was created.
    SpawnedPlayer(Player),
    /// This hazard was created.
    SpawnedEnemy(Enemy),
    /// This pickup was created.
    SpawnedStar(Star),
    /// The entity with this identifier was removed.
    Despawned(u64),
}

/// The round ended with this final score.
#[derive(Clone, Copy, Debug, PartialEq, Eq, Structural)]
pub struct GameOver {
    pub score: u64,
}

/// A broadcast queue of game-over events. Each registered listener keeps a
/// cursor to the first event it has not read; once every listener has read
/// everything, the queue is cleared.
pub struct EventBus {
    pub events: Vec<GameOver>,
    pub cursors: Vec<usize>,
}

/// Every cursor in `cursors` has read all `len` events.
pub open spec fn all_drained(cursors: Seq<usize>, len: int) -> bool {
    forall|j: int| 0 <= j < cursors.len() ==> cursors[j] == len
}

/// The cursors once `listener` has read everything.
pub open spec fn cursors_moved(events: Seq<GameOver>, cursors: Seq<usize>, listener: int) -> Seq<
    usize,
> {
    cursors.update(listener, events.len() as usize)
}

/// The queue after `listener` reads: cleared if every listener has then
/// read everything, else unchanged.
pub open spec fn events_after_read(
    events: Seq<GameOver>,
    cursors: Seq<usize>,
    listener: int,
) -> Seq<GameOver> {
    if all_drained(cursors_moved(events, cursors, listener), events.len() as int) {
        Seq::empty()
    } else {
        events
    }
}

/// The cursors after `listener` reads: all back at the start if the queue
/// was cleared, else with `listener` moved past the last event.
pub open spec fn cursors_after_read(
    events: Seq<GameOver>,
    cursors: Seq<usize>,
    listener: int,
) -> Seq<usize> {
    let moved = cursors_moved(events, cursors, listener);
    if all_drained(moved, events.len() as int) {
        Seq::new(moved.len(), |j: int| 0usize)
    } else {
        moved
    }
}

impl EventBus {
    pub open spec fn wf(&self) -> bool {
        forall|j: int| 0 <= j < self.cursors@.len() ==> self.cursors@[j] <= self.events@.len()
    }

    /// An empty bus with no listener.
    pub fn new() -> (r: EventBus)
        ensures
            r.wf(),
            r.events@ == Seq::<GameOver>::empty(),
            r.cursors@ == Seq::<usize>::empty(),
    {
        EventBus { events: Vec::new(), cursors: Vec::new() }
    }

    /// Registers a listener, which will see the events sent from now on.
    pub fn add_listener(&mut self) -> (id: usize)
        requires
            old(self).wf(),
        ensures
            final(self).wf(),
            id == old(self).cursors@.len(),
            final(self).events@ == old(self).events@,
            final(self).cursors@ == old(self).cursors@.push(old(self).events@.len() as usize),
    {
        let id = self.cursors.len();
        let n = self.events.len();
        self.cursors.push(n);
        id
    }

    /// Queues an event for every listener.
    pub fn send(&mut self, event: GameOver)
        requires
            old(self).wf(),
        ensures
            final(self).wf(),
            final(self).events@ == old(self).events@.push(event),
            final(self).cursors@ == old(self).cursors@,
    {
        self.events.push(event);
    }

    /// Hands `listener` every event it has not read yet. When all listeners
    /// have then read everything, the queue is cleared and every cursor is
    /// reset to the start.
    pub fn read(&mut self, listener: usize) -> (r: Vec<GameOver>)
        requires
            old(self).wf(),
            listener < old(self).cursors@.len(),
        ensures
            final(self).wf(),
            r@ == old(self).events@.subrange(
                old(self).cursors@[listener as int] as int,
                old(self).events@.len() as int,
            ),
            final(self).events@ == events_after_read(
                old(self).events@,
                old(self).cursors@,
                listener as int,
            ),
            final(self).cursors@ == cursors_after_read(
                old(self).events@,
                old(self).cursors@,
                listener as int,
            ),
    {
        let len = self.events.len();
        let start = self.cursors[listener];
        let mut r: Vec<GameOver> = Vec::new();
        let mut i = start;
        while i < len
            invariant
                self.wf(),
                start <= i <= len == self.events@.len(),
                r@ == self.events@.subrange(start as int, i as int),
            decreases len - i,
        {
            r.push(self.events[i]);
            assert(r@ =~= self.events@.subrange(start as int, i + 1));
            i = i + 1;
        }
        self.cursors.set(listener, len);
        let ghost moved = self.cursors@;
        let mut drained = true;
        let mut j: usize = 0;
        while j < self.cursors.len()
            invariant
                self.cursors@ == moved,
                j <= moved.len(),
                drained == (forall|k: int| 0 <= k < j ==> moved[k] == len),
            decreases moved.len() - j,
        {
            if self.cursors[j] != len {
                drained = false;
            }
            j = j + 1;
        }
        assert(drained == all_drained(moved, len as int));
        if drained {
            self.events.clear();
            let n = self.cursors.len();
            let mut k: usize = 0;
            while k < n
                invariant
                    n == self.cursors@.len() == moved.len(),
                    self.events@ == Seq::<GameOver>::empty(),
                    k <= n,
                    forall|q: int| 0 <= q < k ==> self.cursors@[q] == 0,
                decreases n - k,
            {
                self.cursors.set(k, 0);
                k = k + 1;
            }
            assert(self.cursors@ =~= Seq::new(moved.len(), |j: int| 0usize));
        }
        r
    }
}

} // verus!
