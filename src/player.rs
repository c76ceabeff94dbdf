//! The actor: key-driven movement, confinement to the arena, and contact
//! with hazards and pickups.
use vstd::prelude::*;
use crate::enemy::{Enemy, ENEMY_RADIUS};
use crate::events::{Effect, EventBus, GameOver};
use crate::geometry::{
    clamp_pos, clamp_pos_spec, dir_bounded, inside_inset, is_collided, lemma_clamp_within,
    move_by, move_spec, touching, Arena, Vec2, DIR_SCALE, PIXEL,
};
use crate::score::Score;
use crate::star::{Star, STAR_RADIUS};

verus! {

/// Actor speed, in pixels per second.
pub const PLAYER_SPEED: i64 = 500;

/// Actor diameter, in milli-pixels (twice `PLAYER_RADIUS`).
pub const PLAYER_SIZE: i64 = 64 * PIXEL;

/// Actor radius, in milli-pixels.
pub const PLAYER_RADIUS: i64 = 32 * PIXEL;

/// Each component of a diagonal unit direction: the largest `d` with
/// `2 * d * d <= DIR_SCALE * DIR_SCALE`.
pub const DIAGONAL: i64 = 707;

/// The actor: its identifier and position.
#[derive(Clone, Copy, Debug, PartialEq, Eq, Structural)]
pub struct Player {
    pub id: u64,
    pub pos: Vec2,
}

/// The movement keys held down on this tick, and the exit request.
#[derive(Clone, Copy, Debug, PartialEq, Eq, Structural)]
pub struct Keys {
    pub up: bool,
    pub down: bool,
    pub left: bool,
    pub right: bool,
    pub escape: bool,
}

/// `+1` for the positive key alone, `-1` for the negative key alone, `0`
/// when neither or both are held.
pub open spec fn axis_spec(pos: bool, neg: bool) -> int {
    (if pos {
        1int
    } else {
        0int
    }) - (if neg {
        1int
    } else {
        0int
    })
}

/// The unit direction that the keys ask for: an axis direction of length
/// `DIR_SCALE`, a diagonal with both components `DIAGONAL` long, or zero.
pub open spec fn key_direction_spec(keys: Keys) -> Vec2 {
    let x = axis_spec(keys.right, keys.left);
    let y = axis_spec(keys.up, keys.down);
    let len = if x != 0 && y != 0 {
        DIAGONAL as int
    } else {
        DIR_SCALE as int
    };
    Vec2 { x: (x * len) as i64, y: (y * len) as i64 }
}

/// `DIAGONAL` is the component of a normalised diagonal, rounded down.
pub proof fn lemma_diagonal_is_unit()
    ensures
        2 * DIAGONAL * DIAGONAL <= DIR_SCALE * DIR_SCALE < 2 * (DIAGONAL + 1) * (DIAGONAL + 1),
{
}

fn axis(pos: bool, neg: bool) -> (r: i64)
    ensures
        r == axis_spec(pos, neg),
{
    let mut r: i64 = 0;
    if pos {
        r = r + 1;
    }
    if neg {
        r = r - 1;
    }
    r
}

/// The normalised direction for the held keys; opposite keys cancel and no
/// key gives the zero vector.
pub fn key_direction(keys: Keys) -> (r: Vec2)
    ensures
        r == key_direction_spec(keys),
        dir_bounded(r),
{
    let x = axis(keys.right, keys.left);
    let y = axis(keys.up, keys.down);
    let len = if x != 0 && y != 0 {
        DIAGONAL
    } else {
        DIR_SCALE
    };
    Vec2 { x: x * len, y: y * len }
}

/// The actor created at the centre of the arena, or nothing once
/// identifiers are exhausted.
pub fn spawn_player(
    player: &mut Option<Player>,
    next_id: &mut u64,
    arena: Arena,
    effects: &mut Vec<Effect>,
)
    requires
        arena.wf(),
    ensures
        *old(next_id) == u64::MAX ==> {
            &&& *final(player) == *old(player)
            &&& *final(next_id) == *old(next_id)
            &&& final(effects)@ == old(effects)@
        },
        *old(next_id) < u64::MAX ==> {
            &&& *final(player) == Some(
                Player {
                    id: *old(next_id),
                    pos: Vec2 { x: (arena.width / 2) as i64, y: (arena.height / 2) as i64 },
                },
            )
            &&& *final(next_id) == *old(next_id) + 1
            &&& final(effects)@ == old(effects)@.push(Effect::SpawnedPlayer(final(player)->0))
        },
{
    if *next_id == u64::MAX {
        return;
    }
    let id = *next_id;
    *next_id = id + 1;
    let pl = Player { id, pos: Vec2 { x: arena.width / 2, y: arena.height / 2 } };
    *player = Some(pl);
    effects.push(Effect::SpawnedPlayer(pl));
}

/// The actor after moving for `dt` microseconds along the held keys.
pub open spec fn moved_player(p: Option<Player>, keys: Keys, dt: int) -> Option<Player> {
    match p {
        None => None,
        Some(pl) => Some(
            Player {
                pos: move_spec(pl.pos, key_direction_spec(keys), PLAYER_SPEED as int, dt),
                ..pl
            },
        ),
    }
}

/// Moves the actor, if there is one, along the held keys.
pub fn player_movement(player: &mut Option<Player>, keys: Keys, dt: u64)
    ensures
        *final(player) == moved_player(*old(player), keys, dt as int),
{
    if let Some(pl) = *player {
        let direction = key_direction(keys);
        let pos = move_by(pl.pos, direction, PLAYER_SPEED, dt);
        *player = Some(Player { pos, ..pl });
    }
}

/// The actor clamped into the arena inset by its radius.
pub open spec fn confined_player(p: Option<Player>, arena: Arena) -> Option<Player> {
    match p {
        None => None,
        Some(pl) => Some(
            Player { pos: clamp_pos_spec(pl.pos, PLAYER_RADIUS as int, arena), ..pl },
        ),
    }
}

/// Clamps the actor, if there is one, into the arena inset by its radius.
pub fn confine_player_movement(player: &mut Option<Player>, arena: Arena)
    requires
        arena.wf(),
    ensures
        *final(player) == confined_player(*old(player), arena),
{
    if let Some(pl) = *player {
        let pos = clamp_pos(pl.pos, PLAYER_RADIUS, arena);
        *player = Some(Player { pos, ..pl });
    }
}

/// Some hazard of `s` touches the actor at `p`.
pub open spec fn hit_by_enemy(p: Vec2, s: Seq<Enemy>) -> bool {
    exists|i: int|
        0 <= i < s.len() && touching(#[trigger] s[i].pos, p, PLAYER_RADIUS + ENEMY_RADIUS)
}

/// The round ends on this check: the actor exists and a hazard touches it.
pub open spec fn ends_round(p: Option<Player>, s: Seq<Enemy>) -> bool {
    p is Some && hit_by_enemy(p->0.pos, s)
}

/// The actor after the hazard check: removed when the round ends.
pub open spec fn player_after_enemies(p: Option<Player>, s: Seq<Enemy>) -> Option<Player> {
    if ends_round(p, s) {
        None
    } else {
        p
    }
}

/// The game-over events that the hazard check sends.
pub open spec fn game_over_events(p: Option<Player>, s: Seq<Enemy>, score: u64) -> Seq<GameOver> {
    if ends_round(p, s) {
        seq![GameOver { score }]
    } else {
        Seq::empty()
    }
}

/// The effects that the hazard check asks for.
pub open spec fn game_over_effects(p: Option<Player>, s: Seq<Enemy>) -> Seq<Effect> {
    if ends_round(p, s) {
        seq![Effect::Explosion, Effect::Despawned(p->0.id)]
    } else {
        Seq::empty()
    }
}

/// Ends the round if a hazard touches the actor: the actor is removed, one
/// game-over event carrying the current score is sent, and an explosion is
/// asked for. With no actor, nothing happens.
pub fn enemy_vs_player(
    player: &mut Option<Player>,
    enemies: &Vec<Enemy>,
    score: &Score,
    bus: &mut EventBus,
    effects: &mut Vec<Effect>,
)
    requires
        old(bus).wf(),
    ensures
        final(bus).wf(),
        *final(player) == player_after_enemies(*old(player), enemies@),
        final(bus).events@ == old(bus).events@ + game_over_events(
            *old(player),
            enemies@,
            score.value,
        ),
        final(bus).cursors@ == old(bus).cursors@,
        final(effects)@ == old(effects)@ + game_over_effects(*old(player), enemies@),
{
    let n = enemies.len();
    let mut i: usize = 0;
    while i < n
        invariant
            n == enemies@.len(),
            i <= n,
            bus.wf(),
            bus.cursors@ == old(bus).cursors@,
            ({
                let hit = *old(player) is Some && exists|j: int|
                    0 <= j < i && touching(
                        #[trigger] enemies@[j].pos,
                        (*old(player))->0.pos,
                        PLAYER_RADIUS + ENEMY_RADIUS,
                    );
                if hit {
                    &&& *player == None::<Player>
                    &&& bus.events@ == old(bus).events@.push(GameOver { score: score.value })
                    &&& effects@ == old(effects)@ + seq![
                        Effect::Explosion,
                        Effect::Despawned((*old(player))->0.id),
                    ]
                } else {
                    &&& *player == *old(player)
                    &&& bus.events@ == old(bus).events@
                    &&& effects@ == old(effects)@
                }
            }),
        decreases n - i,
    {
        if let Some(pl) = *player {
            if is_collided(enemies[i].pos, pl.pos, PLAYER_RADIUS + ENEMY_RADIUS) {
                effects.push(Effect::Explosion);
                effects.push(Effect::Despawned(pl.id));
                *player = None;
                bus.send(GameOver { score: score.value });
                assert(effects@ =~= old(effects)@ + seq![
                    Effect::Explosion,
                    Effect::Despawned((*old(player))->0.id),
                ]);
            }
        }
        i = i + 1;
    }
    proof {
        if ends_round(*old(player), enemies@) {
            assert(game_over_events(*old(player), enemies@, score.value) =~= seq![
                GameOver { score: score.value },
            ]);
            assert(old(bus).events@.push(GameOver { score: score.value }) =~= old(bus).events@
                + seq![GameOver { score: score.value }]);
        } else {
            assert(old(bus).events@ =~= old(bus).events@ + Seq::<GameOver>::empty());
            assert(old(effects)@ =~= old(effects)@ + Seq::<Effect>::empty());
        }
    }
}

/// The actor at `p` touches pickup `s`.
pub open spec fn star_taken(p: Vec2, s: Star) -> bool {
    touching(p, s.pos, PLAYER_RADIUS + STAR_RADIUS)
}

/// The first `n` pickups of `s` that the actor at `p` does not touch, in
/// their order.
pub open spec fn kept_stars(p: Vec2, s: Seq<Star>, n: nat) -> Seq<Star>
    decreases n,
{
    if n == 0 {
        Seq::empty()
    } else {
        let before = kept_stars(p, s, (n - 1) as nat);
        if star_taken(p, s[n - 1]) {
            before
        } else {
            before.push(s[n - 1])
        }
    }
}

/// The effects asked for while collecting among the first `n` pickups of
/// `s`: a sound and a removal for each one touched.
pub open spec fn collect_effects(p: Vec2, s: Seq<Star>, n: nat) -> Seq<Effect>
    decreases n,
{
    if n == 0 {
        Seq::empty()
    } else {
        let before = collect_effects(p, s, (n - 1) as nat);
        if star_taken(p, s[n - 1]) {
            before.push(Effect::Collect).push(Effect::Despawned(s[n - 1].id))
        } else {
            before
        }
    }
}

/// Collects every pickup that the actor touches: each is removed, adds one
/// to the score, and asks for a sound. With no actor, nothing happens.
pub fn player_vs_stars(
    player: &Option<Player>,
    stars: &mut Vec<Star>,
    score: &mut Score,
    effects: &mut Vec<Effect>,
)
    requires
        old(score).value + old(stars)@.len() <= u64::MAX,
    ensures
        player.is_none() ==> {
            &&& final(stars)@ == old(stars)@
            &&& *final(score) == *old(score)
            &&& final(effects)@ == old(effects)@
        },
        player.is_some() ==> {
            let p = player->0.pos;
            &&& final(stars)@ == kept_stars(p, old(stars)@, old(stars)@.len())
            &&& final(effects)@ == old(effects)@ + collect_effects(
                p,
                old(stars)@,
                old(stars)@.len(),
            )
        },
        final(stars)@.len() <= old(stars)@.len(),
        final(score).value == old(score).value + (old(stars)@.len() - final(stars)@.len()),
{
    let pl = match player {
        Some(pl) => *pl,
        None => {
            return ;
        },
    };
    let ghost p = pl.pos;
    let ghost s = stars@;
    let n = stars.len();
    let mut kept: Vec<Star> = Vec::new();
    let mut i: usize = 0;
    while i < n
        invariant
            n == s.len(),
            i <= n,
            s == old(stars)@,
            p == pl.pos,
            *stars == *old(stars),
            kept@ == kept_stars(p, s, i as nat),
            kept@.len() <= i,
            score.value == old(score).value + (i - kept@.len()),
            old(score).value + n <= u64::MAX,
            effects@ == old(effects)@ + collect_effects(p, s, i as nat),
        decreases n - i,
    {
        let st = stars[i];
        if is_collided(pl.pos, st.pos, PLAYER_RADIUS + STAR_RADIUS) {
            effects.push(Effect::Collect);
            effects.push(Effect::Despawned(st.id));
            score.value = score.value + 1;
        } else {
            kept.push(st);
        }
        assert(effects@ =~= old(effects)@ + collect_effects(p, s, (i + 1) as nat));
        i = i + 1;
    }
    *stars = kept;
}

/// Whatever keys are held and however long the tick, the actor, if there
/// is one, ends movement and confinement inside the arena inset by its
/// radius; movement and confinement neither create nor remove it.
pub proof fn lemma_player_stays_inside(p: Option<Player>, keys: Keys, dt: u64, arena: Arena)
    requires
        arena.fits(PLAYER_RADIUS as int),
    ensures
        confined_player(moved_player(p, keys, dt as int), arena) is Some <==> p is Some,
        confined_player(moved_player(p, keys, dt as int), arena) is Some ==> inside_inset(
            confined_player(moved_player(p, keys, dt as int), arena)->0.pos,
            PLAYER_RADIUS as int,
            arena,
        ),
{
    if let Some(q) = moved_player(p, keys, dt as int) {
        lemma_clamp_within(q.pos.x as int, PLAYER_RADIUS as int, arena.width - PLAYER_RADIUS);
        lemma_clamp_within(q.pos.y as int, PLAYER_RADIUS as int, arena.height - PLAYER_RADIUS);
    }
}

/// When a hazard touches the actor, the check removes the actor and sends
/// exactly one game-over event carrying the score of that moment; running
/// the check again afterwards changes nothing and sends nothing.
pub proof fn lemma_game_over_once(p: Option<Player>, s: Seq<Enemy>, score: u64, later: u64)
    ensures
        ends_round(p, s) ==> {
            &&& player_after_enemies(p, s) is None
            &&& game_over_events(p, s, score) == seq![GameOver { score }]
        },
        !ends_round(p, s) ==> {
            &&& player_after_enemies(p, s) == p
            &&& game_over_events(p, s, score) == Seq::<GameOver>::empty()
        },
        player_after_enemies(player_after_enemies(p, s), s) == player_after_enemies(p, s),
        game_over_events(player_after_enemies(p, s), s, later) == Seq::<GameOver>::empty(),
        game_over_effects(player_after_enemies(p, s), s) == Seq::<Effect>::empty(),
{
}

/// Keeping the first `n` pickups when only pickup `i` is touched drops
/// exactly that one.
proof fn lemma_kept_without(p: Vec2, s: Seq<Star>, i: int, n: nat)
    requires
        0 <= i < s.len(),
        n <= s.len(),
        forall|j: int| 0 <= j < s.len() ==> (star_taken(p, #[trigger] s[j]) <==> j == i),
    ensures
        kept_stars(p, s, n) == if n <= i {
            s.subrange(0, n as int)
        } else {
            s.subrange(0, n as int).remove(i)
        },
    decreases n,
{
    if n > 0 {
        lemma_kept_without(p, s, i, (n - 1) as nat);
        if n <= i {
            assert(s.subrange(0, n as int) =~= s.subrange(0, n - 1).push(s[n - 1]));
        } else if n == i + 1 {
            assert(s.subrange(0, n as int).remove(i) =~= s.subrange(0, n - 1));
        } else {
            assert(s.subrange(0, n as int).remove(i) =~= s.subrange(0, n - 1).remove(i).push(
                s[n - 1],
            ));
        }
    }
}

/// Collecting the one pickup that the actor touches removes exactly that
/// pickup, and so adds exactly one to the score.
pub proof fn lemma_collect_exactly_one(p: Vec2, s: Seq<Star>, i: int)
    requires
        0 <= i < s.len(),
        star_taken(p, s[i]),
        forall|j: int| 0 <= j < s.len() && j != i ==> !star_taken(p, #[trigger] s[j]),
    ensures
        kept_stars(p, s, s.len()) == s.remove(i),
        s.len() - kept_stars(p, s, s.len()).len() == 1,
{
    lemma_kept_without(p, s, i, s.len());
    assert(s.subrange(0, s.len() as int) =~= s);
}

} // verus!
