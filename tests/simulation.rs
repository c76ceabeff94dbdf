use arcade_core::enemy::{
    enemies_movement, normalize_direction, spawn_enemy_at, update_enemies_direction, Enemy,
    ENEMY_COUNT,
};
use arcade_core::events::{Effect, EventBus, GameOver};
use arcade_core::geometry::{clamp_pos, is_collided, Arena, Vec2, PIXEL};
use arcade_core::player::{
    confine_player_movement, enemy_vs_player, key_direction, player_movement, player_vs_stars,
    spawn_player, Keys, Player, PLAYER_RADIUS,
};
use arcade_core::schedule::{EnemyPlugin, Schedule, ScorePlugin, StarPlugin, System};
use arcade_core::score::{
    handle_game_over_event, on_update_score, update_high_score, HighScore, Score, ScoreDisplay,
};
use arcade_core::star::{
    spawn_star_at, spawn_star_over_time, spawn_stars, tick_spawn_star_timer, SpawnTimer, Star,
    STAR_COUNT,
};
use arcade_core::world::{exit_game, spawn_camera, TickInput, World};

fn px(v: i64) -> i64 {
    v * PIXEL
}

fn at(x: i64, y: i64) -> Vec2 {
    Vec2 { x: px(x), y: px(y) }
}

fn arena() -> Arena {
    Arena { width: px(800), height: px(600) }
}

fn no_keys() -> Keys {
    Keys { up: false, down: false, left: false, right: false, escape: false }
}

fn bus_with_listener() -> (EventBus, usize) {
    let mut bus = EventBus::new();
    let l = bus.add_listener();
    (bus, l)
}

#[test]
fn hazard_on_actor_ends_round() {
    let mut player = Some(Player { id: 1, pos: at(400, 300) });
    let enemies = vec![Enemy { id: 2, pos: at(400, 300), direction: Vec2 { x: 1000, y: 0 } }];
    let score = Score { value: 7 };
    let (mut bus, l) = bus_with_listener();
    let mut effects = Vec::new();
    enemy_vs_player(&mut player, &enemies, &score, &mut bus, &mut effects);
    assert_eq!(player, None);
    assert_eq!(bus.events, vec![GameOver { score: 7 }]);
    assert_eq!(effects, vec![Effect::Explosion, Effect::Despawned(1)]);
    assert_eq!(handle_game_over_event(&mut bus, l), vec![7]);
}

#[test]
fn hazard_check_does_not_trigger_twice() {
    let mut player = Some(Player { id: 1, pos: at(100, 100) });
    let enemies = vec![
        Enemy { id: 2, pos: at(120, 100), direction: Vec2 { x: 1000, y: 0 } },
        Enemy { id: 3, pos: at(100, 120), direction: Vec2 { x: 0, y: 1000 } },
    ];
    let score = Score { value: 2 };
    let (mut bus, _l) = bus_with_listener();
    let mut effects = Vec::new();
    enemy_vs_player(&mut player, &enemies, &score, &mut bus, &mut effects);
    enemy_vs_player(&mut player, &enemies, &score, &mut bus, &mut effects);
    assert_eq!(player, None);
    assert_eq!(bus.events.len(), 1);
    assert_eq!(effects.len(), 2);
}

#[test]
fn far_hazard_leaves_actor() {
    let mut player = Some(Player { id: 1, pos: at(100, 100) });
    let enemies = vec![Enemy { id: 2, pos: at(165, 100), direction: Vec2 { x: 1000, y: 0 } }];
    let (mut bus, _l) = bus_with_listener();
    let mut effects = Vec::new();
    enemy_vs_player(&mut player, &enemies, &Score { value: 0 }, &mut bus, &mut effects);
    assert!(player.is_some());
    assert!(bus.events.is_empty());
    assert!(effects.is_empty());
}

#[test]
fn pickup_at_46_is_collected() {
    let player = Some(Player { id: 1, pos: at(400, 300) });
    let mut stars = vec![Star { id: 5, pos: at(446, 300) }];
    let mut score = Score { value: 0 };
    let mut effects = Vec::new();
    player_vs_stars(&player, &mut stars, &mut score, &mut effects);
    assert!(stars.is_empty());
    assert_eq!(score.value, 1);
    assert_eq!(effects, vec![Effect::Collect, Effect::Despawned(5)]);
}

#[test]
fn pickup_at_48_is_not_collected() {
    let player = Some(Player { id: 1, pos: at(400, 300) });
    let mut stars = vec![Star { id: 5, pos: at(400, 348) }];
    let mut score = Score { value: 0 };
    let mut effects = Vec::new();
    player_vs_stars(&player, &mut stars, &mut score, &mut effects);
    assert_eq!(stars.len(), 1);
    assert_eq!(score.value, 0);
    assert!(effects.is_empty());
}

#[test]
fn collecting_removes_only_that_pickup() {
    let player = Some(Player { id: 1, pos: at(200, 200) });
    let mut stars = vec![
        Star { id: 4, pos: at(500, 500) },
        Star { id: 5, pos: at(210, 200) },
        Star { id: 6, pos: at(10, 10) },
    ];
    let mut score = Score { value: 3 };
    let mut effects = Vec::new();
    player_vs_stars(&player, &mut stars, &mut score, &mut effects);
    assert_eq!(stars, vec![Star { id: 4, pos: at(500, 500) }, Star { id: 6, pos: at(10, 10) }]);
    assert_eq!(score.value, 4);
}

#[test]
fn several_pickups_in_one_tick() {
    let player = Some(Player { id: 1, pos: at(200, 200) });
    let mut stars = vec![Star { id: 4, pos: at(200, 210) }, Star { id: 5, pos: at(210, 200) }];
    let mut score = Score { value: 0 };
    let mut effects = Vec::new();
    player_vs_stars(&player, &mut stars, &mut score, &mut effects);
    assert!(stars.is_empty());
    assert_eq!(score.value, 2);
    assert_eq!(
        effects,
        vec![Effect::Collect, Effect::Despawned(4), Effect::Collect, Effect::Despawned(5)]
    );
}

#[test]
fn no_actor_collects_nothing() {
    let mut stars = vec![Star { id: 4, pos: at(200, 210) }];
    let mut score = Score { value: 0 };
    let mut effects = Vec::new();
    player_vs_stars(&None, &mut stars, &mut score, &mut effects);
    assert_eq!(stars.len(), 1);
    assert_eq!(score.value, 0);
}

#[test]
fn hazard_at_left_edge_bounces() {
    let mut enemies = vec![Enemy { id: 1, pos: at(5, 300), direction: Vec2 { x: -1000, y: 0 } }];
    let mut effects = Vec::new();
    update_enemies_direction(&mut enemies, arena(), &mut effects);
    assert_eq!(enemies[0].direction, Vec2 { x: 1000, y: 0 });
    assert_eq!(enemies[0].pos, at(33, 300));
    assert_eq!(effects, vec![Effect::Bounce]);
}

#[test]
fn hazard_in_corner_flips_both_axes_once() {
    let mut enemies = vec![Enemy { id: 1, pos: at(799, 599), direction: Vec2 { x: 600, y: 800 } }];
    let mut effects = Vec::new();
    update_enemies_direction(&mut enemies, arena(), &mut effects);
    assert_eq!(enemies[0].direction, Vec2 { x: -600, y: -800 });
    assert_eq!(enemies[0].pos, at(767, 567));
    assert_eq!(effects, vec![Effect::Bounce]);
}

#[test]
fn hazard_inside_is_untouched() {
    let e = Enemy { id: 1, pos: at(400, 300), direction: Vec2 { x: 600, y: 800 } };
    let mut enemies = vec![e];
    let mut effects = Vec::new();
    update_enemies_direction(&mut enemies, arena(), &mut effects);
    assert_eq!(enemies[0], e);
    assert!(effects.is_empty());
}

#[test]
fn hazard_moves_along_its_direction() {
    let mut enemies = vec![Enemy { id: 1, pos: at(100, 100), direction: Vec2 { x: 600, y: -800 } }];
    enemies_movement(&mut enemies, 1_000_000);
    // 250 px/s for one second along (0.6, -0.8).
    assert_eq!(enemies[0].pos, at(250, -100));
}

#[test]
fn actor_moves_right() {
    let mut player = Some(Player { id: 1, pos: at(100, 100) });
    let keys = Keys { right: true, ..no_keys() };
    player_movement(&mut player, keys, 16_000);
    assert_eq!(player.unwrap().pos, Vec2 { x: px(100) + 8_000, y: px(100) });
}

#[test]
fn actor_moves_diagonally_and_opposites_cancel() {
    let keys = Keys { up: true, left: true, ..no_keys() };
    assert_eq!(key_direction(keys), Vec2 { x: -707, y: 707 });
    let both = Keys { up: true, down: true, right: true, ..no_keys() };
    assert_eq!(key_direction(both), Vec2 { x: 1000, y: 0 });
    assert_eq!(key_direction(no_keys()), Vec2 { x: 0, y: 0 });
    let mut player = Some(Player { id: 1, pos: at(100, 100) });
    player_movement(&mut player, keys, 1_000_000);
    assert_eq!(player.unwrap().pos, Vec2 { x: px(100) - 353_500, y: px(100) + 353_500 });
}

#[test]
fn no_actor_does_not_move() {
    let mut player: Option<Player> = None;
    player_movement(&mut player, Keys { right: true, ..no_keys() }, 16_000);
    confine_player_movement(&mut player, arena());
    assert_eq!(player, None);
}

#[test]
fn actor_stays_in_arena() {
    let mut player = Some(Player { id: 1, pos: at(790, 10) });
    let keys = Keys { right: true, down: true, ..no_keys() };
    player_movement(&mut player, keys, 10_000_000);
    confine_player_movement(&mut player, arena());
    assert_eq!(player.unwrap().pos, at(768, 32));
    let p = player.unwrap().pos;
    assert!(p.x >= PLAYER_RADIUS && p.x <= px(800) - PLAYER_RADIUS);
    assert!(p.y >= PLAYER_RADIUS && p.y <= px(600) - PLAYER_RADIUS);
}

#[test]
fn huge_step_saturates() {
    let mut player = Some(Player { id: 1, pos: Vec2 { x: i64::MAX - 5, y: 0 } });
    player_movement(&mut player, Keys { right: true, ..no_keys() }, u64::MAX);
    assert_eq!(player.unwrap().pos.x, i64::MAX);
}

#[test]
fn timer_fires_once_and_keeps_overshoot() {
    let mut t = SpawnTimer::new(1_000_000);
    tick_spawn_star_timer(&mut t, 400_000);
    assert!(!t.finished());
    tick_spawn_star_timer(&mut t, 400_000);
    assert!(!t.finished());
    tick_spawn_star_timer(&mut t, 400_000);
    assert!(t.finished());
    assert_eq!(t.remaining, 800_000);
    tick_spawn_star_timer(&mut t, 100_000);
    assert!(!t.finished());
    assert_eq!(t.remaining, 700_000);
}

#[test]
fn timer_with_huge_step_fires_once() {
    let mut t = SpawnTimer::new(1_000_000);
    tick_spawn_star_timer(&mut t, 3_250_000);
    assert!(t.finished());
    assert_eq!(t.remaining, 750_000);
    let mut exact = SpawnTimer::new(1_000_000);
    tick_spawn_star_timer(&mut exact, 1_000_000);
    assert!(exact.finished());
    assert_eq!(exact.remaining, 1_000_000);
}

#[test]
fn finished_timer_spawns_one_pickup() {
    let mut t = SpawnTimer::new(10);
    let mut stars = Vec::new();
    let mut next_id = 3;
    let mut effects = Vec::new();
    spawn_star_over_time(&t, &mut stars, &mut next_id, arena(), &mut effects);
    assert!(stars.is_empty());
    tick_spawn_star_timer(&mut t, 10);
    spawn_star_over_time(&t, &mut stars, &mut next_id, arena(), &mut effects);
    assert_eq!(stars.len(), 1);
    assert_eq!(stars[0].id, 3);
    assert_eq!(next_id, 4);
    assert!(stars[0].pos.x >= 0 && stars[0].pos.x < px(800));
    assert!(stars[0].pos.y >= 0 && stars[0].pos.y < px(600));
    assert_eq!(effects, vec![Effect::SpawnedStar(stars[0])]);
}

#[test]
fn spawning_stops_when_identifiers_run_out() {
    let mut stars = Vec::new();
    let mut next_id = u64::MAX;
    let mut effects = Vec::new();
    spawn_star_at(&mut stars, &mut next_id, at(1, 1), &mut effects);
    assert!(stars.is_empty());
    assert_eq!(next_id, u64::MAX);
}

#[test]
fn start_up_spawns_fill_the_arena() {
    let mut stars = Vec::new();
    let mut enemies = Vec::new();
    let mut player = None;
    let mut next_id = 0;
    let mut effects = Vec::new();
    spawn_player(&mut player, &mut next_id, arena(), &mut effects);
    assert_eq!(player, Some(Player { id: 0, pos: at(400, 300) }));
    arcade_core::enemy::spawn_enemies(&mut enemies, &mut next_id, arena(), &mut effects);
    spawn_stars(&mut stars, &mut next_id, arena(), &mut effects);
    assert_eq!(enemies.len(), ENEMY_COUNT);
    assert_eq!(stars.len(), STAR_COUNT);
    assert_eq!(next_id as usize, 1 + ENEMY_COUNT + STAR_COUNT);
    for e in &enemies {
        assert!(e.pos.x >= 0 && e.pos.x < px(800) && e.pos.y >= 0 && e.pos.y < px(600));
        assert!(e.direction.x.abs() <= 1000 && e.direction.y.abs() <= 1000);
        let len2 = e.direction.x * e.direction.x + e.direction.y * e.direction.y;
        assert!(998 * 998 <= len2 && len2 <= 1000 * 1000);
    }
    for s in &stars {
        assert!(s.pos.x >= 0 && s.pos.x < px(800) && s.pos.y >= 0 && s.pos.y < px(600));
    }
    assert!(matches!(effects[0], Effect::SpawnedPlayer(p) if p.pos == at(400, 300)));
    assert_eq!(effects.len(), 1 + ENEMY_COUNT + STAR_COUNT);
}

#[test]
fn directions_are_normalized() {
    assert_eq!(normalize_direction(3, 4), Vec2 { x: 600, y: 800 });
    assert_eq!(normalize_direction(-1000, 0), Vec2 { x: -1000, y: 0 });
    assert_eq!(normalize_direction(1, 1), Vec2 { x: 707, y: 707 });
    assert_eq!(normalize_direction(500, 500), Vec2 { x: 707, y: 707 });
    assert_eq!(normalize_direction(1, 2), Vec2 { x: 447, y: 894 });
    assert_eq!(normalize_direction(-1, 1000), Vec2 { x: 0, y: 999 });
    assert_eq!(normalize_direction(0, 0), Vec2 { x: 1000, y: 0 });
}

#[test]
fn normalized_directions_are_one_unit_long() {
    for a in (-1000i64..=1000).step_by(37) {
        for b in (-1000i64..=1000).step_by(41) {
            if a == 0 && b == 0 {
                continue;
            }
            let d = normalize_direction(a, b);
            let len2 = d.x * d.x + d.y * d.y;
            assert!(998 * 998 <= len2 && len2 <= 1000 * 1000, "{a} {b} {d:?}");
            assert!(d.x.signum() * a.signum() >= 0 && d.y.signum() * b.signum() >= 0);
        }
    }
}

#[test]
fn spawned_hazard_gets_normalized_direction() {
    let mut enemies = Vec::new();
    let mut next_id = 9;
    let mut effects = Vec::new();
    spawn_enemy_at(&mut enemies, &mut next_id, at(10, 20), Vec2 { x: -30, y: 40 }, &mut effects);
    assert_eq!(enemies, vec![Enemy { id: 9, pos: at(10, 20), direction: Vec2 { x: -600, y: 800 } }]);
    assert_eq!(effects, vec![Effect::SpawnedEnemy(enemies[0])]);
}

#[test]
fn collision_uses_squared_distance() {
    assert!(is_collided(at(0, 0), at(30, 40), px(50)));
    assert!(!is_collided(at(0, 0), at(30, 41), px(50)));
    assert!(!is_collided(Vec2 { x: i64::MIN, y: 0 }, Vec2 { x: i64::MAX, y: 0 }, px(50)));
}

#[test]
fn clamp_into_inset() {
    assert_eq!(clamp_pos(at(-5, 700), px(10), arena()), at(10, 590));
    assert_eq!(clamp_pos(at(50, 60), px(10), arena()), at(50, 60));
}

#[test]
fn bus_clears_after_every_listener_read() {
    let mut bus = EventBus::new();
    let a = bus.add_listener();
    let b = bus.add_listener();
    bus.send(GameOver { score: 3 });
    assert_eq!(bus.read(a), vec![GameOver { score: 3 }]);
    assert_eq!(bus.events.len(), 1);
    assert_eq!(bus.read(a), vec![]);
    assert_eq!(bus.read(b), vec![GameOver { score: 3 }]);
    assert!(bus.events.is_empty());
    assert_eq!(bus.cursors, vec![0, 0]);
}

#[test]
fn ledger_records_each_round() {
    let (mut bus, l) = bus_with_listener();
    let mut high = HighScore::new();
    bus.send(GameOver { score: 4 });
    bus.send(GameOver { score: 9 });
    update_high_score(&mut bus, l, &mut high);
    assert_eq!(high.scores, vec![("Player".to_string(), 4), ("Player".to_string(), 9)]);
    update_high_score(&mut bus, l, &mut high);
    assert_eq!(high.scores.len(), 2);
}

#[test]
fn score_shown_only_when_changed() {
    let mut display = ScoreDisplay { shown: 0 };
    assert_eq!(on_update_score(&Score { value: 0 }, &mut display), None);
    assert_eq!(on_update_score(&Score { value: 1 }, &mut display), Some(1));
    assert_eq!(on_update_score(&Score { value: 1 }, &mut display), None);
}

#[test]
fn plugins_register_in_order() {
    let mut s = Schedule::new();
    EnemyPlugin.build(&mut s);
    StarPlugin.build(&mut s);
    ScorePlugin.build(&mut s);
    assert_eq!(s.startup, vec![System::SpawnEnemies, System::SpawnStars]);
    assert_eq!(
        s.update,
        vec![
            System::EnemiesMovement,
            System::UpdateEnemiesDirection,
            System::TickSpawnStarTimer,
            System::SpawnStarOverTime,
            System::OnUpdateScore,
            System::UpdateHighScore,
        ]
    );
    assert_eq!(Schedule::game().update.len(), 11);
}

#[test]
fn a_round_ends_and_is_recorded() {
    let schedule = Schedule::game();
    let mut w = World::start(&schedule, arena());
    assert!(w.player.is_some());
    assert_eq!(w.enemies.len(), ENEMY_COUNT);
    assert_eq!(w.stars.len(), STAR_COUNT);
    let centre = w.player.unwrap().pos;
    w.enemies.push(Enemy { id: 99, pos: centre, direction: Vec2 { x: 1000, y: 0 } });
    w.stars.clear();
    w.score.value = 5;
    let input = TickInput { dt: 0, arena: arena(), keys: no_keys() };
    let report = w.update(&schedule, &input);
    assert!(w.player.is_none());
    assert_eq!(report.game_over_scores, vec![5]);
    assert_eq!(report.shown_score, Some(5));
    assert_eq!(w.high_score.scores, vec![("Player".to_string(), 5)]);
    assert!(w.game_over.events.is_empty());
    let effects = w.take_effects();
    assert!(effects.contains(&Effect::Explosion));
    assert!(w.effects.is_empty());
}

#[test]
fn camera_and_exit() {
    assert_eq!(spawn_camera(arena()), at(400, 300));
    assert!(exit_game(Keys { escape: true, ..no_keys() }));
    assert!(!exit_game(no_keys()));
}
