use vstd::prelude::*;
use crate::geom::{Point, COORD_LIMIT};
use crate::motion::{max_distance, tick_distance, SPEED_LIMIT};

verus! {

/// Whether the player is on the field, and when it was last shot down
/// (microseconds since start; zero while it is up).
#[derive(Clone, Copy, Debug, PartialEq, Eq, Structural)]
pub struct PlayerState {
    pub on: bool,
    pub last_shot: u64,
}

impl PlayerState {
    pub fn new() -> (r: PlayerState)
        ensures
            r == (PlayerState { on: false, last_shot: 0 }),
    {
        PlayerState { on: false, last_shot: 0 }
    }

    /// The player was shot down at `time`.
    pub fn shot(&mut self, time: u64)
        ensures
            *final(self) == (PlayerState { on: false, last_shot: time }),
    {
        self.on = false;
        self.last_shot = time;
    }

    /// The player is back on the field.
    pub fn spawned(&mut self)
        ensures
            *final(self) == (PlayerState { on: true, last_shot: 0 }),
    {
        self.on = true;
        self.last_shot = 0;
    }
}

impl Default for PlayerState {
    fn default() -> (r: PlayerState)
        ensures
            r == (PlayerState { on: false, last_shot: 0 }),
    {
        PlayerState::new()
    }
}

/// Height of the player's ship above the bottom edge: a quarter of its
/// sprite height plus a small gap.
pub const PLAYER_LIFT: i64 = 23_750;

/// Where the player appears on a window of height `win_h`: centred
/// horizontally, just above the bottom edge.
pub fn player_spawn_point(win_h: i64) -> (r: Point)
    requires
        0 <= win_h <= COORD_LIMIT,
    ensures
        r == (Point { x: 0, y: (-(win_h / 2) + PLAYER_LIFT) as i64 }),
        r.in_bounds(),
{
    Point { x: 0, y: -(win_h / 2) + PLAYER_LIFT }
}

/// Horizontal direction from the arrow keys: left wins over right.
pub open spec fn key_dir(left: bool, right: bool) -> int {
    if left { -1 } else if right { 1 } else { 0 }
}

/// One tick of player motion at `speed` from the arrow keys held.
pub fn player_movement(pos: &mut Point, speed: i64, left: bool, right: bool)
    requires
        old(pos).in_bounds(),
        0 <= speed <= SPEED_LIMIT,
    ensures
        final(pos).x == old(pos).x + key_dir(left, right) * tick_distance(speed as int),
        final(pos).y == old(pos).y,
{
    let step: i64 = max_distance(speed);
    if left {
        pos.x = pos.x - step;
    } else if right {
        pos.x = pos.x + step;
    }
}

/// The fire trigger: the player fires when ready and the fire key is held,
/// which disarms the trigger until the key is released.
#[derive(Clone, Copy, Debug, PartialEq, Eq, Structural)]
pub struct PlayerReadyFire(pub bool);

/// Whether the player fires on this tick, and the trigger's next state.
pub open spec fn spec_fire(ready: bool, pressed: bool, released: bool) -> (bool, bool) {
    let fires = ready && pressed;
    (fires, if released { true } else if fires { false } else { ready })
}

impl PlayerReadyFire {
    /// One tick of the trigger with the fire key `pressed` (held now) and
    /// `released` (let go since the last tick); returns whether to fire.
    pub fn player_fire(&mut self, pressed: bool, released: bool) -> (fires: bool)
        ensures
            (fires, final(self).0) == spec_fire(old(self).0, pressed, released),
    {
        let fires = self.0 && pressed;
        if fires {
            self.0 = false;
        }
        if released {
            self.0 = true;
        }
        fires
    }
}

} // verus!
