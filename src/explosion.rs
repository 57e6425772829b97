use vstd::prelude::*;
use crate::geom::Point;
use vstd::arithmetic::div_mod::{lemma_div_is_ordered, lemma_fundamental_div_mod, lemma_fundamental_div_mod_converse};

verus! {

/// Time each explosion frame is shown, in microseconds.
pub const EXPLOSION_FRAME_MICROS: u64 = 50_000;

/// Frames in the explosion sheet (four by four).
pub const EXPLOSION_FRAMES: u32 = 16;

/// A short-lived animated explosion with a repeating frame timer.
#[derive(Clone, Copy, Debug, PartialEq, Eq, Structural)]
pub struct Explosion {
    pub center: Point,
    /// Frame shown now.
    pub index: u32,
    /// Time accumulated toward the next frame.
    pub elapsed: u64,
    /// Time per frame.
    pub interval: u64,
    /// Frames in the sheet; the explosion ends when the index reaches it.
    pub frame_count: u32,
}

impl Explosion {
    pub open spec fn wf(self) -> bool {
        self.interval > 0 && self.elapsed < self.interval && self.index < self.frame_count
    }

    /// The explosion after one tick of `delta`: the timer accumulates, and
    /// when it reaches the interval it wraps and the frame advances by one.
    pub open spec fn spec_animate(self, delta: int) -> Explosion {
        let total = self.elapsed + delta;
        if total >= self.interval {
            Explosion {
                index: (self.index + 1) as u32,
                elapsed: (total % (self.interval as int)) as u64,
                ..self
            }
        } else {
            Explosion { elapsed: total as u64, ..self }
        }
    }

    /// An explosion at `center` on its first frame.
    pub open spec fn fresh(center: Point) -> Explosion {
        Explosion {
            center,
            index: 0,
            elapsed: 0,
            interval: EXPLOSION_FRAME_MICROS,
            frame_count: EXPLOSION_FRAMES,
        }
    }

    /// Turns an explosion request at `center` into an explosion on its first
    /// frame.
    pub fn spawn_at(center: Point) -> (r: Explosion)
        ensures
            r.wf(),
            r == Explosion::fresh(center),
    {
        Explosion {
            center,
            index: 0,
            elapsed: 0,
            interval: EXPLOSION_FRAME_MICROS,
            frame_count: EXPLOSION_FRAMES,
        }
    }

    /// One tick of the animation; returns whether the last frame has been
    /// passed, so that the explosion is to be removed.
    pub fn animate_explosion(&mut self, delta: u64) -> (done: bool)
        requires
            old(self).wf(),
        ensures
            *final(self) == old(self).spec_animate(delta as int),
            done == (final(self).index == final(self).frame_count),
            !done ==> final(self).wf(),
    {
        let total: u128 = self.elapsed as u128 + delta as u128;
        if total >= self.interval as u128 {
            self.elapsed = (total % (self.interval as u128)) as u64;
            self.index = self.index + 1;
        } else {
            self.elapsed = total as u64;
        }
        self.index == self.frame_count
    }
}

/// Total time of a run of ticks.
pub open spec fn total_time(deltas: Seq<u64>) -> int
    decreases deltas.len(),
{
    if deltas.len() == 0 {
        0
    } else {
        total_time(deltas.drop_last()) + deltas.last()
    }
}

/// The explosion after one tick for each of `deltas`, in order.
pub open spec fn animated_by(e: Explosion, deltas: Seq<u64>) -> Explosion
    decreases deltas.len(),
{
    if deltas.len() == 0 {
        e
    } else {
        animated_by(e, deltas.drop_last()).spec_animate(deltas.last() as int)
    }
}

proof fn lemma_total_time_prefix(deltas: Seq<u64>)
    requires
        deltas.len() > 0,
    ensures
        0 <= total_time(deltas.drop_last()) <= total_time(deltas),
    decreases deltas.len(),
{
    if deltas.drop_last().len() > 0 {
        lemma_total_time_prefix(deltas.drop_last());
    }
}

/// Explosion termination, for ticks of any length up to the interval: the
/// frame index is always the number of whole intervals elapsed, it goes up
/// by at most one per tick, and so the explosion ends (its index reaches
/// `frame_count`) on the tick in which the timer finishes for the
/// `frame_count`-th time, neither earlier nor later.
pub proof fn lemma_explosion_frames(e: Explosion, deltas: Seq<u64>)
    requires
        e.wf(),
        e.index == 0,
        e.elapsed == 0,
        forall|i: int| 0 <= i < deltas.len() ==> #[trigger] deltas[i] <= e.interval,
        total_time(deltas) / (e.interval as int) <= e.frame_count,
    ensures
        animated_by(e, deltas).index == total_time(deltas) / (e.interval as int),
        animated_by(e, deltas).elapsed == total_time(deltas) % (e.interval as int),
        animated_by(e, deltas).interval == e.interval,
        animated_by(e, deltas).frame_count == e.frame_count,
        deltas.len() > 0 ==> animated_by(e, deltas).index <= animated_by(e, deltas.drop_last()).index + 1,
        (animated_by(e, deltas).index == e.frame_count)
            == (total_time(deltas) / (e.interval as int) == e.frame_count),
    decreases deltas.len(),
{
    let iv = e.interval as int;
    if deltas.len() == 0 {
        assert(0int / iv == 0 && 0int % iv == 0) by (nonlinear_arith)
            requires iv > 0;
    } else {
        let pre = deltas.drop_last();
        let d = deltas.last() as int;
        lemma_total_time_prefix(deltas);
        lemma_div_is_ordered(total_time(pre), total_time(deltas), iv);
        assert forall|i: int| 0 <= i < pre.len() implies #[trigger] pre[i] <= e.interval by {
            assert(pre[i] == deltas[i]);
        }
        lemma_explosion_frames(e, pre);
        let s = total_time(pre);
        let p = animated_by(e, pre);
        assert(d <= iv) by {
            assert(deltas[deltas.len() - 1] <= e.interval);
        }
        lemma_fundamental_div_mod(s, iv);
        assert(s == iv * (s / iv) + s % iv);
        assert(total_time(deltas) == s + d);
        if p.elapsed + d >= iv {
            assert(s + d == (s / iv + 1) * iv + (p.elapsed + d - iv)) by (nonlinear_arith)
                requires s == iv * (s / iv) + s % iv, p.elapsed == s % iv;
            lemma_fundamental_div_mod_converse(s + d, iv, s / iv + 1, p.elapsed + d - iv);
            lemma_fundamental_div_mod_converse(p.elapsed + d, iv, 1, p.elapsed + d - iv);
        } else {
            assert(s + d == (s / iv) * iv + (p.elapsed + d)) by (nonlinear_arith)
                requires s == iv * (s / iv) + s % iv, p.elapsed == s % iv;
            lemma_fundamental_div_mod_converse(s + d, iv, s / iv, p.elapsed + d);
        }
    }
}

} // verus!
