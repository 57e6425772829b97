use vstd::prelude::*;
use crate::geom::{Point, COORD_LIMIT};
use crate::formation::{Formation, TAU_MICRORAD};
use vstd::arithmetic::div_mod::lemma_fundamental_div_mod_converse;

verus! {

/// Length of one simulation tick (a sixtieth of a second), in microseconds.
pub const TICK_MICROS: i64 = 16_667;

/// Numerator and denominator of the rational stand-in for pi.
pub const PI_NUM: i64 = 355;
pub const PI_DEN: i64 = 113;

/// Fastest speed a body may have, in world units per second.
pub const SPEED_LIMIT: i64 = 1_000_000;

/// Distance covered in one tick at `speed` world units per second.
pub open spec fn tick_distance(speed: int) -> int {
    speed * TICK_MICROS / 1000
}

pub fn max_distance(speed: i64) -> (r: i64)
    requires
        0 <= speed <= SPEED_LIMIT,
    ensures
        r == tick_distance(speed as int),
        0 <= r <= COORD_LIMIT,
{
    assert(0 <= speed * TICK_MICROS <= SPEED_LIMIT * TICK_MICROS) by (nonlinear_arith)
        requires 0 <= speed <= SPEED_LIMIT;
    speed * TICK_MICROS / 1000
}

/// `r` is the integer square root of `n`, rounded down.
pub open spec fn is_floor_sqrt(r: int, n: int) -> bool {
    0 <= r && r * r <= n < (r + 1) * (r + 1)
}

/// Integer square root, rounded down.
pub fn floor_sqrt(n: u64) -> (r: u64)
    ensures
        is_floor_sqrt(r as int, n as int),
{
    // invariant: lo * lo <= n < hi * hi
    let mut lo: u64 = 0;
    let mut hi: u64 = 4_294_967_296;
    assert(n < 4_294_967_296 * 4_294_967_296) by (nonlinear_arith)
        requires n <= u64::MAX;
    while hi - lo > 1
        invariant
            lo < hi <= 4_294_967_296,
            lo * lo <= n,
            n < hi * hi,
        decreases hi - lo,
    {
        let mid: u64 = lo + (hi - lo) / 2;
        assert(mid * mid <= 4_294_967_295 * 4_294_967_295) by (nonlinear_arith)
            requires mid < 4_294_967_296;
        if mid * mid <= n {
            lo = mid;
        } else {
            hi = mid;
        }
    }
    assert(hi == lo + 1);
    lo
}

/// Where one axis coordinate ends after moving at most `step` toward `dst`,
/// when the straight-line distance to the target point is `dist`: the move
/// along the axis is the axis share `|d| * step / dist` of the step, and the
/// result is clamped so that it never passes `dst`.
pub open spec fn axis_step(org: int, dst: int, dist: int, step: int) -> int {
    let d = org - dst;
    let moved = if dist == 0 {
        org
    } else if d > 0 {
        org - d * step / dist
    } else {
        org + (-d) * step / dist
    };
    if d > 0 {
        if moved < dst { dst } else { moved }
    } else {
        if moved > dst { dst } else { moved }
    }
}

/// Squared straight-line distance between two points.
pub open spec fn dist_sq(a: Point, b: Point) -> int {
    (a.x - b.x) * (a.x - b.x) + (a.y - b.y) * (a.y - b.y)
}

/// The outcome of one approach step.
#[derive(Clone, Copy, Debug, PartialEq, Eq, Structural)]
pub struct Approach {
    /// Where the body ends up.
    pub pos: Point,
    /// Distance from the start position to the target, rounded down.
    pub distance: i64,
    /// The body was already close to its target, so the path parameter may
    /// advance.
    pub advance: bool,
}

/// The body is close enough to its target for the path parameter to move on.
pub open spec fn near_target(distance: int, step: int, speed: int) -> bool {
    20 * distance < step * speed
}

/// `r` is the outcome of one approach step from `org` toward `dst`.
pub open spec fn approach_spec(org: Point, dst: Point, step: int, speed: int, r: Approach) -> bool {
    &&& is_floor_sqrt(r.distance as int, dist_sq(org, dst))
    &&& r.pos.x == axis_step(org.x as int, dst.x as int, r.distance as int, step)
    &&& r.pos.y == axis_step(org.y as int, dst.y as int, r.distance as int, step)
    &&& r.advance == near_target(r.distance as int, step, speed)
}

/// No overshoot: a single motion step along one axis ends between the start
/// and the target, never beyond the target in the direction of travel, and
/// moves by at most the step length.
pub proof fn lemma_no_overshoot(org: int, dst: int, dist: int, step: int)
    requires
        (org - dst) * (org - dst) < (dist + 1) * (dist + 1),
        0 <= dist,
        0 <= step,
    ensures
        org - dst > 0 ==> dst <= axis_step(org, dst, dist, step) <= org,
        org - dst <= 0 ==> org <= axis_step(org, dst, dist, step) <= dst,
        org - step <= axis_step(org, dst, dist, step) <= org + step,
{
    let d = org - dst;
    let ad = if d > 0 { d } else { -d };
    assert(ad * ad == d * d) by (nonlinear_arith)
        requires ad == d || ad == -d;
    assert(ad <= dist) by (nonlinear_arith)
        requires ad * ad < (dist + 1) * (dist + 1), ad >= 0, dist >= 0;
    if dist != 0 {
        assert(0 <= ad * step / dist <= step) by (nonlinear_arith)
            requires 0 <= ad <= dist, 0 <= step, dist > 0;
        if d > 0 {
            assert(d * step / dist == ad * step / dist);
        } else {
            assert((-d) * step / dist == ad * step / dist);
        }
    }
}

fn step_axis(org: i64, dst: i64, dist: i64, step: i64) -> (r: i64)
    requires
        -COORD_LIMIT <= org <= COORD_LIMIT,
        -COORD_LIMIT <= dst <= COORD_LIMIT,
        0 <= step <= COORD_LIMIT,
        (org - dst) * (org - dst) < (dist + 1) * (dist + 1),
        0 <= dist,
    ensures
        r == axis_step(org as int, dst as int, dist as int, step as int),
        org - dst > 0 ==> dst <= r <= org,
        org - dst <= 0 ==> org <= r <= dst,
{
    let d: i64 = org - dst;
    let ad: i64 = if d > 0 { d } else { -d };
    assert(ad * ad == d * d) by (nonlinear_arith)
        requires ad == d || ad == -d;
    assert(d * d < (dist + 1) * (dist + 1));
    assert(ad <= dist) by (nonlinear_arith)
        requires ad * ad < (dist + 1) * (dist + 1), ad >= 0, dist >= 0, ad * ad == d * d;
    let moved: i64 = if dist == 0 {
        org
    } else {
        assert(0 <= ad * step <= 2 * COORD_LIMIT * COORD_LIMIT) by (nonlinear_arith)
            requires 0 <= ad <= 2 * COORD_LIMIT, 0 <= step <= COORD_LIMIT;
        let share: i64 = ad * step / dist;
        assert(share <= step) by (nonlinear_arith)
            requires share as int == (ad as int * step as int) / dist as int, 0 <= ad <= dist, 0 <= step, dist > 0;
        assert(share >= 0) by (nonlinear_arith)
            requires share as int == (ad as int * step as int) / dist as int, 0 <= ad, 0 <= step, dist > 0;
        if d > 0 {
            org - share
        } else {
            org + share
        }
    };
    if d > 0 {
        if moved < dst { dst } else { moved }
    } else {
        if moved > dst { dst } else { moved }
    }
}

/// One step of the approach-and-follow controller: move at most `step`
/// toward `dst` along the straight line, never passing the target on either
/// axis, and report whether the body was already near its target.
pub fn approach(org: Point, dst: Point, step: i64, speed: i64) -> (r: Approach)
    requires
        org.in_bounds(),
        dst.in_bounds(),
        0 <= step <= COORD_LIMIT,
        0 <= speed <= SPEED_LIMIT,
    ensures
        approach_spec(org, dst, step as int, speed as int, r),
        r.pos.in_bounds(),
        org.x > dst.x ==> dst.x <= r.pos.x <= org.x,
        org.x <= dst.x ==> org.x <= r.pos.x <= dst.x,
        org.y > dst.y ==> dst.y <= r.pos.y <= org.y,
        org.y <= dst.y ==> org.y <= r.pos.y <= dst.y,
{
    let dx: i64 = org.x - dst.x;
    let dy: i64 = org.y - dst.y;
    assert(0 <= dx * dx <= 4 * COORD_LIMIT * COORD_LIMIT) by (nonlinear_arith)
        requires -2 * COORD_LIMIT <= dx <= 2 * COORD_LIMIT;
    assert(0 <= dy * dy <= 4 * COORD_LIMIT * COORD_LIMIT) by (nonlinear_arith)
        requires -2 * COORD_LIMIT <= dy <= 2 * COORD_LIMIT;
    let sq: u64 = (dx * dx) as u64 + (dy * dy) as u64;
    let dist_u: u64 = floor_sqrt(sq);
    assert(dist_u <= 3 * COORD_LIMIT) by (nonlinear_arith)
        requires dist_u * dist_u <= sq, sq <= 8 * COORD_LIMIT * COORD_LIMIT;
    let distance: i64 = dist_u as i64;
    assert(dx * dx < (distance + 1) * (distance + 1));
    assert(dy * dy < (distance + 1) * (distance + 1));
    let x: i64 = step_axis(org.x, dst.x, distance, step);
    let y: i64 = step_axis(org.y, dst.y, distance, step);
    assert(0 <= step * speed <= COORD_LIMIT * SPEED_LIMIT) by (nonlinear_arith)
        requires 0 <= step <= COORD_LIMIT, 0 <= speed <= SPEED_LIMIT;
    let advance: bool = 20 * distance < step * speed;
    Approach { pos: Point { x, y }, distance, advance }
}

/// How far the path parameter moves in one step, in microradians: the step
/// divided by a quarter of the circumference of a circle of the smaller
/// semi-axis, `step / (min_radius * pi / 2)`.
pub open spec fn angle_increment(step: int, min_radius: int) -> int {
    (2_000_000 * PI_DEN * step) / (PI_NUM * min_radius)
}

/// The orbit turns one way for formations that start on the right edge and
/// the other way for those that start on the left.
pub open spec fn orbit_dir(f: Formation) -> int {
    if f.start.x > 0 { 1 } else { -1 }
}

pub open spec fn min_radius(f: Formation) -> int {
    if f.radius.x < f.radius.y { f.radius.x as int } else { f.radius.y as int }
}

/// The parameter the formation's target point is taken at on this step,
/// kept within one turn.
pub open spec fn spec_candidate_angle(f: Formation, step: int) -> int {
    (f.angle + orbit_dir(f) * angle_increment(step, min_radius(f))) % (TAU_MICRORAD as int)
}

pub fn candidate_angle(f: &Formation, step: i64) -> (r: i64)
    requires
        f.wf(),
        0 <= step <= COORD_LIMIT,
    ensures
        r == spec_candidate_angle(*f, step as int),
        0 <= r < TAU_MICRORAD,
{
    let min_r: i64 = if f.radius.x < f.radius.y { f.radius.x } else { f.radius.y };
    assert(0 <= 2_000_000 * PI_DEN * step <= 2_000_000 * PI_DEN * COORD_LIMIT) by (nonlinear_arith)
        requires 0 <= step <= COORD_LIMIT;
    assert(0 < PI_NUM * min_r <= PI_NUM * COORD_LIMIT) by (nonlinear_arith)
        requires 0 < min_r <= COORD_LIMIT;
    let inc: i64 = (2_000_000 * PI_DEN * step) / (PI_NUM * min_r);
    assert(inc >= 0) by (nonlinear_arith)
        requires inc as int == (2_000_000 * PI_DEN * step) / (PI_NUM * min_r), step >= 0, min_r > 0;
    let q: i64 = inc / TAU_MICRORAD;
    let m: i64 = inc % TAU_MICRORAD;
    assert(inc == q * TAU_MICRORAD + m);
    if f.start.x > 0 {
        let a: i64 = f.angle + m;
        if a >= TAU_MICRORAD {
            proof {
                lemma_fundamental_div_mod_converse(
                    f.angle + inc, TAU_MICRORAD as int, q + 1, a - TAU_MICRORAD);
            }
            a - TAU_MICRORAD
        } else {
            proof {
                lemma_fundamental_div_mod_converse(f.angle + inc, TAU_MICRORAD as int, q as int, a as int);
            }
            a
        }
    } else {
        let a: i64 = f.angle - m;
        if a < 0 {
            proof {
                lemma_fundamental_div_mod_converse(
                    f.angle - inc, TAU_MICRORAD as int, -q - 1, a + TAU_MICRORAD);
            }
            a + TAU_MICRORAD
        } else {
            proof {
                lemma_fundamental_div_mod_converse(f.angle - inc, TAU_MICRORAD as int, -q, a as int);
            }
            a
        }
    }
}

/// One tick of formation motion for one enemy at `pos`. `target` is the
/// point of the formation's ellipse at the candidate parameter
/// `a = candidate_angle(formation, tick_distance(speed))`, that is
/// `(radius.x * cos(a) + offset.x, radius.y * sin(a) + offset.y)`.
/// The enemy approaches the target; the formation's parameter moves on to
/// `a` only when the enemy was already near it.
pub fn enemy_movement(pos: &mut Point, formation: &mut Formation, speed: i64, target: Point) -> (r: Approach)
    requires
        old(pos).in_bounds(),
        old(formation).wf(),
        target.in_bounds(),
        0 <= speed <= SPEED_LIMIT,
    ensures
        approach_spec(*old(pos), target, tick_distance(speed as int), speed as int, r),
        *final(pos) == r.pos,
        final(pos).in_bounds(),
        r.advance ==> *final(formation) == (Formation {
            angle: spec_candidate_angle(*old(formation), tick_distance(speed as int)) as i64,
            ..*old(formation)
        }),
        !r.advance ==> *final(formation) == *old(formation),
        final(formation).wf(),
{
    let step: i64 = max_distance(speed);
    let angle: i64 = candidate_angle(formation, step);
    let r: Approach = approach(*pos, target, step, speed);
    if r.advance {
        formation.angle = angle;
    }
    *pos = r.pos;
    r
}

/// Which side fired a laser.
#[derive(Clone, Copy, Debug, PartialEq, Eq, Structural)]
pub enum Faction {
    Player,
    Enemy,
}

/// Margin below the bottom edge past which enemy lasers are removed.
pub const LASER_MARGIN: i64 = 50_000;

/// Height of the playfield after one tick of laser motion at `speed`: player
/// lasers move up, enemy lasers down.
pub open spec fn spec_laser_y(y: int, speed: int, from: Faction) -> int {
    match from {
        Faction::Player => y + tick_distance(speed),
        Faction::Enemy => y - tick_distance(speed),
    }
}

/// The laser has left the screen: a player laser above the window height,
/// an enemy laser below the bottom edge by more than the margin.
pub open spec fn laser_gone(y: int, from: Faction, win_h: int) -> bool {
    match from {
        Faction::Player => y > win_h,
        Faction::Enemy => y < -(win_h / 2) - LASER_MARGIN,
    }
}

/// One tick of straight-line laser motion; returns whether the laser is now
/// off screen and is to be removed.
pub fn laser_movement(pos: &mut Point, speed: i64, from: Faction, win_h: i64) -> (gone: bool)
    requires
        old(pos).in_bounds(),
        0 <= speed <= SPEED_LIMIT,
        0 <= win_h <= COORD_LIMIT,
    ensures
        final(pos).x == old(pos).x,
        final(pos).y == spec_laser_y(old(pos).y as int, speed as int, from),
        gone == laser_gone(final(pos).y as int, from, win_h as int),
{
    let step: i64 = max_distance(speed);
    match from {
        Faction::Player => {
            pos.y = pos.y + step;
            pos.y > win_h
        }
        Faction::Enemy => {
            pos.y = pos.y - step;
            pos.y < -(win_h / 2) - LASER_MARGIN
        }
    }
}

} // verus!
