use vstd::prelude::*;
use crate::geom::{boxes_overlap, collide, Body, Point};
use crate::player::PlayerState;

verus! {

/// Some laser among `lasers[..n]` overlaps `target`.
pub open spec fn hit_by_prefix(lasers: Seq<Body>, n: int, target: Body) -> bool {
    exists|k: int| 0 <= k < n && #[trigger] boxes_overlap(lasers[k], target)
}

/// Some laser overlaps `target`.
pub open spec fn hit_by_any(lasers: Seq<Body>, target: Body) -> bool {
    hit_by_prefix(lasers, lasers.len() as int, target)
}

/// `laser` overlaps some box among `targets[..n]`.
pub open spec fn hits_prefix(laser: Body, targets: Seq<Body>, n: int) -> bool {
    exists|j: int| 0 <= j < n && #[trigger] boxes_overlap(laser, targets[j])
}

/// `laser` overlaps some box of `targets`.
pub open spec fn hits_any(laser: Body, targets: Seq<Body>) -> bool {
    hits_prefix(laser, targets, targets.len() as int)
}

/// The centres of the enemies that some laser hits, one per enemy, in the
/// order of `enemies`.
pub open spec fn blasted_centers(lasers: Seq<Body>, enemies: Seq<Body>) -> Seq<Point>
    decreases enemies.len(),
{
    if enemies.len() == 0 {
        seq![]
    } else {
        let rest = blasted_centers(lasers, enemies.drop_last());
        if hit_by_any(lasers, enemies.last()) {
            rest.push(enemies.last().center)
        } else {
            rest
        }
    }
}

pub open spec fn all_in_bounds(bodies: Seq<Body>) -> bool {
    forall|i: int| 0 <= i < bodies.len() ==> #[trigger] bodies[i].in_bounds()
}

/// What one pass of player lasers against enemies resolved.
pub struct EnemyHits {
    /// For each enemy: it was hit, and is to be removed (once).
    pub enemy_hit: Vec<bool>,
    /// For each laser: it touched an enemy, and is to be removed (once).
    pub laser_hit: Vec<bool>,
    /// Where explosions are to appear: one per destroyed enemy.
    pub explosions: Vec<Point>,
}

/// Player lasers against enemies. Every enemy that at least one laser
/// overlaps is destroyed exactly once, with one explosion at its centre;
/// every laser that overlaps at least one enemy is consumed, even where that
/// enemy was already destroyed by another laser in this pass.
pub fn player_laser_hit_enemy(lasers: &Vec<Body>, enemies: &Vec<Body>) -> (r: EnemyHits)
    requires
        all_in_bounds(lasers@),
        all_in_bounds(enemies@),
    ensures
        r.enemy_hit@.len() == enemies.len(),
        r.laser_hit@.len() == lasers.len(),
        forall|j: int| 0 <= j < enemies.len() ==>
            #[trigger] r.enemy_hit@[j] == hit_by_any(lasers@, enemies@[j]),
        forall|i: int| 0 <= i < lasers.len() ==>
            #[trigger] r.laser_hit@[i] == hits_any(lasers@[i], enemies@),
        r.explosions@ == blasted_centers(lasers@, enemies@),
{
    // enemies already destroyed in this pass
    let mut blasted: Vec<bool> = Vec::new();
    let mut j: usize = 0;
    while j < enemies.len()
        invariant
            j <= enemies.len(),
            blasted@.len() == j,
            forall|k: int| 0 <= k < j ==> !#[trigger] blasted@[k],
        decreases enemies.len() - j,
    {
        blasted.push(false);
        j = j + 1;
    }
    let mut laser_hit: Vec<bool> = Vec::new();
    let mut i: usize = 0;
    while i < lasers.len()
        invariant
            i <= lasers.len(),
            blasted@.len() == enemies.len(),
            laser_hit@.len() == i,
            all_in_bounds(lasers@),
            all_in_bounds(enemies@),
            forall|k: int| 0 <= k < enemies.len() ==>
                #[trigger] blasted@[k] == hit_by_prefix(lasers@, i as int, enemies@[k]),
            forall|k: int| 0 <= k < i ==>
                #[trigger] laser_hit@[k] == hits_any(lasers@[k], enemies@),
        decreases lasers.len() - i,
    {
        let mut hit: bool = false;
        let mut j: usize = 0;
        while j < enemies.len()
            invariant
                i < lasers.len(),
                j <= enemies.len(),
                blasted@.len() == enemies.len(),
                all_in_bounds(lasers@),
                all_in_bounds(enemies@),
                forall|k: int| 0 <= k < j ==>
                    #[trigger] blasted@[k] == hit_by_prefix(lasers@, i + 1, enemies@[k]),
                forall|k: int| j <= k < enemies.len() ==>
                    #[trigger] blasted@[k] == hit_by_prefix(lasers@, i as int, enemies@[k]),
                hit == hits_prefix(lasers@[i as int], enemies@, j as int),
            decreases enemies.len() - j,
        {
            let overlap = collide(&lasers[i], &enemies[j]);
            proof {
                let e = enemies@[j as int];
                if overlap {
                    assert(boxes_overlap(lasers@[i as int], e));
                } else {
                    assert forall|k: int| 0 <= k < i + 1 && #[trigger] boxes_overlap(lasers@[k], e)
                        implies 0 <= k < i by {}
                }
            }
            if overlap {
                if !blasted[j] {
                    blasted.set(j, true);
                }
                hit = true;
            }
            j = j + 1;
        }
        laser_hit.push(hit);
        i = i + 1;
    }
    let mut explosions: Vec<Point> = Vec::new();
    let mut j: usize = 0;
    while j < enemies.len()
        invariant
            j <= enemies.len(),
            blasted@.len() == enemies.len(),
            forall|k: int| 0 <= k < enemies.len() ==>
                #[trigger] blasted@[k] == hit_by_any(lasers@, enemies@[k]),
            explosions@ == blasted_centers(lasers@, enemies@.take(j as int)),
        decreases enemies.len() - j,
    {
        assert(enemies@.take(j + 1).drop_last() =~= enemies@.take(j as int));
        if blasted[j] {
            explosions.push(enemies[j].center);
        }
        j = j + 1;
    }
    assert(enemies@.take(enemies.len() as int) =~= enemies@);
    EnemyHits { enemy_hit: blasted, laser_hit, explosions }
}

/// One laser over two enemies at once: both enemies are destroyed, exactly
/// two explosions are requested (one at each enemy), and the laser is
/// consumed.
pub proof fn lemma_one_laser_two_enemies(laser: Body, e1: Body, e2: Body)
    requires
        boxes_overlap(laser, e1),
        boxes_overlap(laser, e2),
    ensures
        hit_by_any(seq![laser], e1),
        hit_by_any(seq![laser], e2),
        hits_any(laser, seq![e1, e2]),
        blasted_centers(seq![laser], seq![e1, e2]) == seq![e1.center, e2.center],
        blasted_centers(seq![laser], seq![e1, e2]).len() == 2,
{
    let ls = seq![laser];
    let es = seq![e1, e2];
    assert(boxes_overlap(ls[0], e1));
    assert(boxes_overlap(ls[0], e2));
    assert(boxes_overlap(laser, es[0]));
    assert(es.drop_last() =~= seq![e1]);
    assert(seq![e1].drop_last() =~= Seq::<Body>::empty());
    reveal_with_fuel(blasted_centers, 3);
    assert(blasted_centers(ls, seq![e1]) =~= seq![e1.center]);
    assert(blasted_centers(ls, es) =~= seq![e1.center, e2.center]);
}

/// The index of the first laser that overlaps `player`, if any.
pub open spec fn first_hit(lasers: Seq<Body>, player: Body, r: Option<usize>) -> bool {
    match r {
        None => !hit_by_any(lasers, player),
        Some(i) => {
            &&& i < lasers.len()
            &&& boxes_overlap(lasers[i as int], player)
            &&& !hit_by_prefix(lasers, i as int, player)
        },
    }
}

/// Finds the first enemy laser that overlaps the player.
pub fn first_laser_hitting(lasers: &Vec<Body>, player: &Body) -> (r: Option<usize>)
    requires
        all_in_bounds(lasers@),
        player.in_bounds(),
    ensures
        first_hit(lasers@, *player, r),
{
    let mut i: usize = 0;
    while i < lasers.len()
        invariant
            i <= lasers.len(),
            all_in_bounds(lasers@),
            player.in_bounds(),
            !hit_by_prefix(lasers@, i as int, *player),
        decreases lasers.len() - i,
    {
        if collide(&lasers[i], player) {
            return Some(i);
        }
        assert forall|k: int| 0 <= k < i + 1 && #[trigger] boxes_overlap(lasers@[k], *player)
            implies 0 <= k < i by {}
        i = i + 1;
    }
    None
}

/// Enemy lasers against the player. With the player present and hit, the
/// first overlapping laser is consumed, the player is removed, the time of
/// the hit is recorded and one explosion is requested at the player's centre;
/// otherwise nothing changes. Returns the index of the consumed laser.
pub fn enemy_laser_hit_player(
    lasers: &Vec<Body>,
    player: &mut Option<Body>,
    state: &mut PlayerState,
    now: u64,
    explosions: &mut Vec<Point>,
) -> (r: Option<usize>)
    requires
        all_in_bounds(lasers@),
        old(player).is_some() ==> old(player)->Some_0.in_bounds(),
    ensures
        match *old(player) {
            None => r is None,
            Some(p) => first_hit(lasers@, p, r),
        },
        r is None ==> *final(player) == *old(player) && *final(state) == *old(state)
            && final(explosions)@ == old(explosions)@,
        r is Some ==> *final(player) == None::<Body>
            && *final(state) == (PlayerState { on: false, last_shot: now })
            && final(explosions)@ == old(explosions)@.push(old(player)->Some_0.center),
{
    match *player {
        None => None,
        Some(p) => {
            let hit = first_laser_hitting(lasers, &p);
            if hit.is_some() {
                *player = None;
                state.shot(now);
                explosions.push(p.center);
            }
            hit
        },
    }
}

} // verus!
