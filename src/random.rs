use vstd::prelude::*;
use rand::Rng;
use crate::geom::{Point, COORD_LIMIT};
use crate::formation::{FormationSeed, TAU_MICRORAD};

verus! {

/// Relies on rand::thread_rng with Rng::gen_range: a value of the half-open
/// range `lo..hi`; it panics only on an empty range.
#[verifier::external_body]
fn draw_range(lo: i64, hi: i64) -> (r: i64)
    requires
        lo < hi,
    ensures
        lo <= r < hi,
{
    rand::thread_rng().gen_range(lo..hi)
}

/// Relies on rand::thread_rng with Rng::gen::<bool>: a fair coin.
#[verifier::external_body]
fn draw_bool() -> (r: bool) {
    rand::thread_rng().gen::<bool>()
}

/// Inset of the spawn band from the top and bottom edges.
pub const EDGE_INSET: i64 = 100_000;

/// Smallest and largest (exclusive) horizontal semi-axis, and the vertical one.
pub const RADIUS_X_MIN: i64 = 80_000;
pub const RADIUS_X_MAX: i64 = 150_000;
pub const RADIUS_Y: i64 = 100_000;

/// A sampled formation path, before its initial parameter is known.
#[derive(Clone, Copy, Debug, PartialEq, Eq, Structural)]
pub struct FormationLayout {
    pub start: Point,
    pub offset: Point,
    pub radius: Point,
}

/// The window is large enough for the sampling bands to be non-empty.
pub open spec fn window_ok(win_w: int, win_h: int) -> bool {
    4 <= win_w <= COORD_LIMIT && 2 * EDGE_INSET + 2 <= win_h <= COORD_LIMIT
}

/// Samples a new formation path for a window of `win_w` by `win_h`: the
/// start on the left or right edge within a vertical band inset from the top
/// and bottom, the centre within the middle half horizontally and the upper
/// band vertically, and the horizontal semi-axis in a fixed range.
pub fn sample_layout(win_w: i64, win_h: i64) -> (r: FormationLayout)
    requires
        window_ok(win_w as int, win_h as int),
    ensures
        r.start.x == win_w || r.start.x == -win_w,
        -(win_h / 2 - EDGE_INSET) <= r.start.y < win_h / 2 - EDGE_INSET,
        -(win_w / 4) <= r.offset.x < win_w / 4,
        0 <= r.offset.y < win_h / 2 - EDGE_INSET,
        RADIUS_X_MIN <= r.radius.x < RADIUS_X_MAX,
        r.radius.y == RADIUS_Y,
{
    let h_span: i64 = win_h / 2 - EDGE_INSET;
    let w_span: i64 = win_w / 4;
    let right: bool = draw_bool();
    let y: i64 = draw_range(-h_span, h_span);
    let ox: i64 = draw_range(-w_span, w_span);
    let oy: i64 = draw_range(0, h_span);
    let rx: i64 = draw_range(RADIUS_X_MIN, RADIUS_X_MAX);
    layout_from_draws(win_w, right, y, ox, oy, rx)
}

/// The layout that a set of draws gives: the start on the right edge when
/// `right` holds and on the left edge otherwise, at height `y`; the centre at
/// `(ox, oy)`; the horizontal semi-axis `rx` and the fixed vertical one.
pub fn layout_from_draws(win_w: i64, right: bool, y: i64, ox: i64, oy: i64, rx: i64) -> (r: FormationLayout)
    requires
        0 <= win_w <= COORD_LIMIT,
    ensures
        r == (FormationLayout {
            start: Point { x: if right { win_w } else { (-win_w) as i64 }, y },
            offset: Point { x: ox, y: oy },
            radius: Point { x: rx, y: RADIUS_Y },
        }),
{
    let x: i64 = if right { win_w } else { -win_w };
    FormationLayout {
        start: Point { x, y },
        offset: Point { x: ox, y: oy },
        radius: Point { x: rx, y: RADIUS_Y },
    }
}

/// An angle within one turn either way, brought into `0..TAU_MICRORAD`.
pub fn normalize_angle(a: i64) -> (r: i64)
    requires
        -TAU_MICRORAD <= a <= TAU_MICRORAD,
    ensures
        r == (a as int) % (TAU_MICRORAD as int),
        0 <= r < TAU_MICRORAD,
{
    if a < 0 {
        assert(((a + TAU_MICRORAD) as int) % (TAU_MICRORAD as int) == (a as int) % (TAU_MICRORAD as int)) by {
            vstd::arithmetic::div_mod::lemma_fundamental_div_mod_converse(
                a as int, TAU_MICRORAD as int, -1, a + TAU_MICRORAD);
        }
        a + TAU_MICRORAD
    } else if a == TAU_MICRORAD {
        0
    } else {
        a
    }
}

/// The seed of a new formation: `layout` with its initial parameter `angle`
/// (in microradians, within one turn either way), brought into one turn.
pub fn seed_from(layout: FormationLayout, angle: i64) -> (r: FormationSeed)
    requires
        layout.start.in_bounds(),
        layout.offset.in_bounds(),
        layout.radius.in_bounds(),
        layout.radius.x > 0,
        layout.radius.y > 0,
        -TAU_MICRORAD <= angle <= TAU_MICRORAD,
    ensures
        r.wf(),
        r == (FormationSeed {
            start: layout.start,
            offset: layout.offset,
            radius: layout.radius,
            angle: ((angle as int) % (TAU_MICRORAD as int)) as i64,
        }),
{
    FormationSeed {
        start: layout.start,
        offset: layout.offset,
        radius: layout.radius,
        angle: normalize_angle(angle),
    }
}

} // verus!
