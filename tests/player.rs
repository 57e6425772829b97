use invaders::formation::FormationMaker;
use invaders::geom::{Body, Extent, Point};
use invaders::player::{player_movement, player_spawn_point, PlayerReadyFire, PlayerState};
use invaders::world::World;
use invaders::DEFAULT_SPEED;

#[test]
fn defaults() {
    assert_eq!(PlayerState::default(), PlayerState { on: false, last_shot: 0 });
    let m = FormationMaker::default();
    assert_eq!(m.group_seq, 0);
    assert!(m.current_formation.is_none());
    assert_eq!(m.current_formation_members, 0);
}

#[test]
fn player_appears_above_bottom_edge() {
    assert_eq!(player_spawn_point(676_000), Point { x: 0, y: -314_250 });
}

#[test]
fn player_moves_with_keys() {
    let mut p = Point { x: 0, y: 5 };
    player_movement(&mut p, DEFAULT_SPEED, true, false);
    assert_eq!(p, Point { x: -8_333, y: 5 });
    player_movement(&mut p, DEFAULT_SPEED, false, true);
    assert_eq!(p, Point { x: 0, y: 5 });
    player_movement(&mut p, DEFAULT_SPEED, true, true);
    assert_eq!(p, Point { x: -8_333, y: 5 });
    player_movement(&mut p, DEFAULT_SPEED, false, false);
    assert_eq!(p, Point { x: -8_333, y: 5 });
}

#[test]
fn fire_trigger_needs_release() {
    let mut t = PlayerReadyFire(true);
    assert!(t.player_fire(true, false));
    assert_eq!(t, PlayerReadyFire(false));
    assert!(!t.player_fire(true, false));
    assert!(!t.player_fire(false, true));
    assert_eq!(t, PlayerReadyFire(true));
    assert!(!t.player_fire(false, false));
    assert!(t.player_fire(true, false));
}

#[test]
fn world_fire_and_player_motion() {
    let size = Extent { w: 4_500, h: 27_000 };
    let mut w = World::new(2, 1_000_000, Extent { w: 10_000, h: 10_000 });
    assert_eq!(w.player_fire(size), 0);
    w.player = Some(Body { center: Point { x: 0, y: -314_250 }, size: Extent { w: 72_000, h: 37_500 } });
    assert_eq!(w.player_fire(size), 2);
    assert_eq!(
        w.player_lasers,
        vec![
            Body { center: Point { x: 31_000, y: -299_250 }, size },
            Body { center: Point { x: -31_000, y: -299_250 }, size },
        ]
    );
    w.move_player(false, true);
    assert_eq!(w.player.unwrap().center, Point { x: 8_333, y: -314_250 });

    w.enemy_spawn_tick(2_000_000, invaders::formation::FormationSeed {
        start: Point { x: 598_000, y: 10_000 },
        offset: Point { x: 0, y: 50_000 },
        radius: Point { x: 100_000, y: 100_000 },
        angle: 0,
    });
    w.enemy_fire(size);
    assert_eq!(w.enemy_lasers.len(), 2);
    assert_eq!(w.enemy_lasers[0].center, Point { x: 598_000, y: -5_000 });
}
