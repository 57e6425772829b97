use invaders::collision::{enemy_laser_hit_player, first_laser_hitting, player_laser_hit_enemy};
use invaders::explosion::{Explosion, EXPLOSION_FRAMES, EXPLOSION_FRAME_MICROS};
use invaders::formation::{Formation, FormationMaker, FormationSeed, MAX_FORMATION_MEMBERS, TAU_MICRORAD};
use invaders::geom::{collide, Body, Extent, Point};
use invaders::motion::{
    approach, candidate_angle, enemy_movement, floor_sqrt, laser_movement, max_distance, Faction,
};
use invaders::player::PlayerState;
use invaders::random::{layout_from_draws, normalize_angle, sample_layout, seed_from, RADIUS_X_MAX, RADIUS_X_MIN, RADIUS_Y};
use invaders::spawn::{Cadence, EnemySpawner};
use invaders::DEFAULT_SPEED;

fn body(x: i64, y: i64, w: i64, h: i64) -> Body {
    Body { center: Point { x, y }, size: Extent { w, h } }
}

fn seed(x: i64) -> FormationSeed {
    FormationSeed {
        start: Point { x, y: 10_000 },
        offset: Point { x: 0, y: 50_000 },
        radius: Point { x: 100_000, y: 100_000 },
        angle: 0,
    }
}

#[test]
fn collide_overlapping_boxes() {
    assert!(collide(&body(0, 0, 10_000, 10_000), &body(5_000, 5_000, 10_000, 10_000)));
}

#[test]
fn collide_touching_edges_is_no_hit() {
    assert!(!collide(&body(0, 0, 10_000, 10_000), &body(10_000, 0, 10_000, 10_000)));
    assert!(!collide(&body(0, 0, 10_000, 10_000), &body(0, 30_000, 10_000, 10_000)));
}

#[test]
fn formation_group_fills_then_opens_new() {
    let mut m = FormationMaker::new();
    assert!(m.needs_new_formation());
    let a = m.make(seed(300_000));
    let b = m.make(seed(-300_000));
    let c = m.make(seed(-300_000));
    assert_eq!(MAX_FORMATION_MEMBERS, 2);
    assert_eq!(a, b);
    assert_eq!(a.group_id, 1);
    assert_eq!(a.start.x, 300_000);
    assert_eq!(c.group_id, 2);
    assert_eq!(c.start.x, -300_000);
    assert_eq!(m.current_formation_members, 1);
}

#[test]
fn floor_sqrt_values() {
    assert_eq!(floor_sqrt(0), 0);
    assert_eq!(floor_sqrt(1), 1);
    assert_eq!(floor_sqrt(24), 4);
    assert_eq!(floor_sqrt(25), 5);
    assert_eq!(floor_sqrt(u64::MAX), 4_294_967_295);
}

#[test]
fn tick_distance_at_default_speed() {
    assert_eq!(max_distance(DEFAULT_SPEED), 8_333);
}

#[test]
fn approach_clamps_at_close_target() {
    let r = approach(Point { x: 0, y: 0 }, Point { x: 3_000, y: 4_000 }, 8_333, 500);
    assert_eq!(r.distance, 5_000);
    assert_eq!(r.pos, Point { x: 3_000, y: 4_000 });
    assert!(r.advance);
}

#[test]
fn approach_moves_one_step_toward_far_target() {
    let r = approach(Point { x: 0, y: 0 }, Point { x: 30_000, y: 40_000 }, 8_333, 500);
    assert_eq!(r.distance, 50_000);
    assert_eq!(r.pos, Point { x: 4_999, y: 6_666 });
    assert!(r.advance);
    let far = approach(Point { x: 0, y: 0 }, Point { x: -300_000, y: -400_000 }, 8_333, 500);
    assert_eq!(far.distance, 500_000);
    assert_eq!(far.pos, Point { x: -4_999, y: -6_666 });
    assert!(!far.advance);
}

#[test]
fn approach_at_target_stays() {
    let r = approach(Point { x: 7, y: -7 }, Point { x: 7, y: -7 }, 8_333, 500);
    assert_eq!(r.distance, 0);
    assert_eq!(r.pos, Point { x: 7, y: -7 });
}

#[test]
fn candidate_angle_turns_by_spawn_side() {
    let right = Formation {
        start: Point { x: 300_000, y: 0 },
        offset: Point { x: 0, y: 0 },
        radius: Point { x: 100_000, y: 100_000 },
        angle: 0,
        group_id: 1,
    };
    assert_eq!(candidate_angle(&right, 8_333), 53_049);
    let left = Formation { start: Point { x: -300_000, y: 0 }, ..right };
    assert_eq!(candidate_angle(&left, 8_333), TAU_MICRORAD - 53_049);
}

#[test]
fn enemy_movement_advances_angle_only_when_near() {
    let f = Formation {
        start: Point { x: 300_000, y: 0 },
        offset: Point { x: 0, y: 0 },
        radius: Point { x: 100_000, y: 100_000 },
        angle: 0,
        group_id: 1,
    };
    let mut near_f = f;
    let mut near = Point { x: 100_000, y: 5_000 };
    let r = enemy_movement(&mut near, &mut near_f, DEFAULT_SPEED, Point { x: 99_859, y: 5_302 });
    assert!(r.advance);
    assert_eq!(near_f.angle, 53_049);
    assert_eq!(near, Point { x: 99_859, y: 5_302 });

    let mut far_f = f;
    let mut far = Point { x: 400_000, y: 0 };
    let r = enemy_movement(&mut far, &mut far_f, DEFAULT_SPEED, Point { x: 99_859, y: 5_302 });
    assert!(!r.advance);
    assert_eq!(far_f.angle, 0);
    assert!(far.x < 400_000 && far.x >= 400_000 - 8_333);
}

#[test]
fn lasers_move_and_leave_screen() {
    let mut p = Point { x: 1, y: 0 };
    assert!(!laser_movement(&mut p, DEFAULT_SPEED, Faction::Player, 676_000));
    assert_eq!(p, Point { x: 1, y: 8_333 });
    let mut p = Point { x: 1, y: 670_000 };
    assert!(laser_movement(&mut p, DEFAULT_SPEED, Faction::Player, 676_000));
    let mut e = Point { x: 1, y: 0 };
    assert!(!laser_movement(&mut e, DEFAULT_SPEED, Faction::Enemy, 676_000));
    assert_eq!(e.y, -8_333);
    let mut e = Point { x: 1, y: -380_000 };
    assert!(laser_movement(&mut e, DEFAULT_SPEED, Faction::Enemy, 676_000));
}

#[test]
fn cadence_fires_per_whole_period() {
    let mut c = Cadence::new(1_000_000);
    let mut fired = 0;
    for _ in 0..150 {
        fired += c.tick(16_667);
    }
    assert_eq!(fired, 2);
    assert_eq!(c.elapsed, 500_050);
    let mut c = Cadence::new(10);
    assert_eq!(c.tick(35), 3);
    assert_eq!(c.elapsed, 5);
}

#[test]
fn spawner_stops_at_cap() {
    let mut s = EnemySpawner::new(2);
    assert!(s.try_spawn());
    assert!(s.try_spawn());
    assert!(!s.try_spawn());
    assert_eq!(s.active, 2);
    s.destroyed(2);
    assert_eq!(s.active, 0);
    assert!(s.try_spawn());
}

#[test]
fn enemy_spawn_hands_out_formations() {
    let mut s = EnemySpawner::new(1);
    let mut m = FormationMaker::new();
    let f = s.enemy_spawn(&mut m, seed(300_000)).unwrap();
    assert_eq!(f.group_id, 1);
    assert!(s.enemy_spawn(&mut m, seed(300_000)).is_none());
    assert_eq!(m.current_formation_members, 1);
}

#[test]
fn one_laser_two_enemies_pass() {
    let lasers = vec![body(0, 0, 10_000, 10_000)];
    let enemies = vec![body(4_000, 0, 10_000, 10_000), body(-4_000, 0, 10_000, 10_000), body(90_000, 0, 10_000, 10_000)];
    let r = player_laser_hit_enemy(&lasers, &enemies);
    assert_eq!(r.enemy_hit, vec![true, true, false]);
    assert_eq!(r.laser_hit, vec![true]);
    assert_eq!(r.explosions, vec![Point { x: 4_000, y: 0 }, Point { x: -4_000, y: 0 }]);
}

#[test]
fn two_lasers_one_enemy_one_explosion() {
    let lasers = vec![body(0, 0, 10_000, 10_000), body(1_000, 0, 10_000, 10_000)];
    let enemies = vec![body(4_000, 0, 10_000, 10_000)];
    let r = player_laser_hit_enemy(&lasers, &enemies);
    assert_eq!(r.enemy_hit, vec![true]);
    assert_eq!(r.laser_hit, vec![true, true]);
    assert_eq!(r.explosions.len(), 1);
}

#[test]
fn first_laser_hitting_player() {
    let player = body(5_000, 5_000, 10_000, 10_000);
    let lasers = vec![body(90_000, 0, 10_000, 10_000), body(0, 0, 10_000, 10_000), body(5_000, 0, 10_000, 10_000)];
    assert_eq!(first_laser_hitting(&lasers, &player), Some(1));
    assert_eq!(first_laser_hitting(&vec![], &player), None);
}

#[test]
fn enemy_laser_downs_player() {
    let lasers = vec![body(0, 0, 10_000, 10_000)];
    let mut player = Some(body(5_000, 5_000, 10_000, 10_000));
    let mut state = PlayerState::new();
    state.spawned();
    let mut explosions = Vec::new();
    let r = enemy_laser_hit_player(&lasers, &mut player, &mut state, 2_500_000, &mut explosions);
    assert_eq!(r, Some(0));
    assert_eq!(player, None);
    assert_eq!(state, PlayerState { on: false, last_shot: 2_500_000 });
    assert_eq!(explosions, vec![Point { x: 5_000, y: 5_000 }]);
    let again = enemy_laser_hit_player(&lasers, &mut player, &mut state, 3_000_000, &mut explosions);
    assert_eq!(again, None);
    assert_eq!(explosions.len(), 1);
}

#[test]
fn player_state_transitions() {
    let mut s = PlayerState::new();
    assert!(!s.on);
    s.spawned();
    assert_eq!(s, PlayerState { on: true, last_shot: 0 });
    s.shot(42);
    assert_eq!(s, PlayerState { on: false, last_shot: 42 });
}

#[test]
fn explosion_ends_after_all_frames() {
    let mut e = Explosion::spawn_at(Point { x: 1, y: 2 });
    for frame in 1..EXPLOSION_FRAMES {
        assert!(!e.animate_explosion(EXPLOSION_FRAME_MICROS));
        assert_eq!(e.index, frame);
    }
    assert!(e.animate_explosion(EXPLOSION_FRAME_MICROS));
    assert_eq!(e.index, EXPLOSION_FRAMES);
}

#[test]
fn explosion_waits_for_interval() {
    let mut e = Explosion::spawn_at(Point { x: 1, y: 2 });
    assert!(!e.animate_explosion(30_000));
    assert_eq!(e.index, 0);
    assert!(!e.animate_explosion(30_000));
    assert_eq!(e.index, 1);
    assert_eq!(e.elapsed, 10_000);
}

#[test]
fn sampled_layout_stays_in_bands() {
    for _ in 0..200 {
        let l = sample_layout(598_000, 676_000);
        assert!(l.start.x == 598_000 || l.start.x == -598_000);
        assert!(l.start.y >= -238_000 && l.start.y < 238_000);
        assert!(l.offset.x >= -149_500 && l.offset.x < 149_500);
        assert!(l.offset.y >= 0 && l.offset.y < 238_000);
        assert!(l.radius.x >= RADIUS_X_MIN && l.radius.x < RADIUS_X_MAX);
        assert_eq!(l.radius.y, RADIUS_Y);
    }
}

#[test]
fn sampled_layouts_vary() {
    let first = sample_layout(598_000, 676_000);
    let mut differs = false;
    for _ in 0..50 {
        if sample_layout(598_000, 676_000) != first {
            differs = true;
        }
    }
    assert!(differs);
}

#[test]
fn angles_are_brought_into_one_turn() {
    assert_eq!(normalize_angle(-1), TAU_MICRORAD - 1);
    assert_eq!(normalize_angle(TAU_MICRORAD), 0);
    assert_eq!(normalize_angle(1_000), 1_000);
    let l = sample_layout(598_000, 676_000);
    let s = seed_from(l, -3_141_593);
    assert_eq!(s.angle, TAU_MICRORAD - 3_141_593);
    assert_eq!(s.start, l.start);
}

#[test]
fn layout_follows_draws() {
    let r = layout_from_draws(598_000, true, -12_000, 3_000, 40_000, 90_000);
    assert_eq!(r.start, Point { x: 598_000, y: -12_000 });
    assert_eq!(r.offset, Point { x: 3_000, y: 40_000 });
    assert_eq!(r.radius, Point { x: 90_000, y: RADIUS_Y });
    let l = layout_from_draws(598_000, false, 5, 6, 7, 80_000);
    assert_eq!(l.start, Point { x: -598_000, y: 5 });
}

#[test]
fn explosion_ends_with_short_ticks() {
    let mut e = Explosion::spawn_at(Point { x: 0, y: 0 });
    let mut finished_on = None;
    for tick in 1..=100u64 {
        let before = e.index;
        let done = e.animate_explosion(30_000);
        assert!(e.index == before || e.index == before + 1);
        assert_eq!(e.index as u64, tick * 30_000 / EXPLOSION_FRAME_MICROS);
        if done {
            finished_on = Some(tick);
            break;
        }
    }
    // the sixteenth interval ends within tick 27 (27 * 30 ms = 810 ms >= 800 ms)
    assert_eq!(finished_on, Some(27));
}
