use invaders::explosion::{EXPLOSION_FRAMES, EXPLOSION_FRAME_MICROS};
use invaders::formation::FormationSeed;
use invaders::geom::{Body, Extent, Point};
use invaders::motion::TICK_MICROS;
use invaders::world::{Enemy, World};
use invaders::DEFAULT_SPEED;

fn body(x: i64, y: i64, w: i64, h: i64) -> Body {
    Body { center: Point { x, y }, size: Extent { w, h } }
}

fn seed() -> FormationSeed {
    FormationSeed {
        start: Point { x: 598_000, y: 10_000 },
        offset: Point { x: 0, y: 50_000 },
        radius: Point { x: 100_000, y: 100_000 },
        angle: 0,
    }
}

fn enemy_at(x: i64, y: i64) -> Enemy {
    let mut w = World::new(1, 1, Extent { w: 10_000, h: 10_000 });
    w.enemy_spawn_tick(1, seed());
    let mut e = w.enemies[0];
    e.body.center = Point { x, y };
    e
}

#[test]
fn cap_two_after_two_and_a_half_seconds() {
    let mut w = World::new(2, 1_000_000, Extent { w: 42_000, h: 46_000 });
    let mut counts = Vec::new();
    for _ in 0..150 {
        w.enemy_spawn_tick(TICK_MICROS as u64, seed());
        counts.push(w.enemies.len());
    }
    assert_eq!(w.enemies.len(), 2);
    assert_eq!(w.spawner.active, 2);
    assert_eq!(counts[58], 0);
    assert_eq!(counts[59], 1);
    assert_eq!(counts[119], 2);
    assert_eq!(w.enemies[0].body.center, seed().start);
    assert_eq!(w.enemies[0].speed, DEFAULT_SPEED);
    assert_eq!(w.enemies[0].formation.group_id, w.enemies[1].formation.group_id);
}

#[test]
fn spawning_never_exceeds_cap() {
    let mut w = World::new(3, 1_000_000, Extent { w: 42_000, h: 46_000 });
    assert_eq!(w.enemy_spawn_tick(10_000_000, seed()), 3);
    assert_eq!(w.enemies.len(), 3);
    assert_eq!(w.enemy_spawn_tick(10_000_000, seed()), 0);
    assert_eq!(w.enemies.len(), 3);
    assert_ne!(w.enemies[0].formation.group_id, w.enemies[2].formation.group_id);
    assert_eq!(w.enemies[0].formation.group_id, 1);
    assert_eq!(w.enemies[1].formation, w.enemies[0].formation);
    assert_eq!(w.enemies[2].formation.group_id, 2);
    assert_eq!(w.maker.group_seq, 2);
    assert_eq!(w.maker.current_formation_members, 1);
}

#[test]
fn one_laser_two_enemies_world() {
    let mut w = World::new(4, 1_000_000, Extent { w: 10_000, h: 10_000 });
    w.enemies = vec![enemy_at(4_000, 0), enemy_at(-4_000, 0)];
    w.spawner.active = 2;
    w.player_lasers = vec![body(0, 0, 10_000, 10_000)];
    w.resolve_player_lasers();
    assert!(w.enemies.is_empty());
    assert_eq!(w.spawner.active, 0);
    assert!(w.player_lasers.is_empty());
    assert_eq!(w.explosion_requests, vec![Point { x: 4_000, y: 0 }, Point { x: -4_000, y: 0 }]);
}

#[test]
fn enemy_laser_hits_player_in_world() {
    let mut w = World::new(2, 1_000_000, Extent { w: 10_000, h: 10_000 });
    w.player = Some(body(5_000, 5_000, 10_000, 10_000));
    w.player_state.spawned();
    w.enemy_lasers = vec![body(0, 0, 10_000, 10_000)];
    w.advance_clock(2_500_000);
    assert_eq!(w.resolve_enemy_lasers(), Some(0));
    assert_eq!(w.player, None);
    assert!(!w.player_state.on);
    assert_eq!(w.player_state.last_shot, 2_500_000);
    assert_eq!(w.explosion_requests, vec![Point { x: 5_000, y: 5_000 }]);
    assert!(w.enemy_lasers.is_empty());
}

#[test]
fn explosions_spawn_and_expire() {
    let mut w = World::new(2, 1_000_000, Extent { w: 10_000, h: 10_000 });
    w.explosion_requests = vec![Point { x: 1, y: 1 }, Point { x: 2, y: 2 }];
    w.explosion_to_spawn();
    assert!(w.explosion_requests.is_empty());
    assert_eq!(w.explosions.len(), 2);
    for _ in 1..EXPLOSION_FRAMES {
        w.animate_explosions(EXPLOSION_FRAME_MICROS);
        assert_eq!(w.explosions.len(), 2);
    }
    w.animate_explosions(EXPLOSION_FRAME_MICROS);
    assert!(w.explosions.is_empty());
}

#[test]
fn lasers_leave_the_world() {
    let mut w = World::new(2, 1_000_000, Extent { w: 10_000, h: 10_000 });
    w.player_lasers = vec![body(0, 0, 1_000, 1_000), body(0, 670_000, 1_000, 1_000)];
    w.enemy_lasers = vec![body(0, -380_000, 1_000, 1_000)];
    w.move_lasers(676_000);
    assert_eq!(w.player_lasers, vec![body(0, 8_333, 1_000, 1_000)]);
    assert!(w.enemy_lasers.is_empty());
}

#[test]
fn enemies_follow_targets() {
    let mut w = World::new(2, 1_000_000, Extent { w: 10_000, h: 10_000 });
    w.enemy_spawn_tick(1_000_000, seed());
    let angles = w.candidate_angles();
    assert_eq!(angles, vec![53_049]);
    let before = w.enemies[0].body.center;
    w.move_enemies(&vec![Point { x: 99_859, y: 55_302 }]);
    let after = w.enemies[0].body.center;
    assert!(after.x < before.x && after.x >= 99_859);
    assert_eq!(w.enemies[0].formation.angle, 0);
}
