use vstd::prelude::*;
use crate::geom::{boxes_overlap, Body, Extent, Point};
use crate::formation::{Formation, FormationMaker, FormationSeed};
use crate::motion::{
    approach_spec, candidate_angle, enemy_movement, laser_gone, laser_movement, spec_candidate_angle,
    spec_laser_y, tick_distance, Approach, Faction, SPEED_LIMIT,
};
use crate::geom::COORD_LIMIT;
use crate::player::{key_dir, player_movement, PlayerState};
use crate::spawn::{Cadence, EnemySpawner};
use crate::explosion::Explosion;
use crate::collision::{
    all_in_bounds, blasted_centers, lemma_one_laser_two_enemies, enemy_laser_hit_player, first_hit, hit_by_any, hits_any,
    player_laser_hit_enemy, EnemyHits,
};
use crate::DEFAULT_SPEED;

verus! {

/// An enemy: its box, its speed and its own copy of its formation.
#[derive(Clone, Copy, Debug, PartialEq, Eq, Structural)]
pub struct Enemy {
    pub body: Body,
    pub speed: i64,
    pub formation: Formation,
}

impl Enemy {
    pub open spec fn wf(self) -> bool {
        self.body.in_bounds() && self.formation.wf() && 0 <= self.speed <= SPEED_LIMIT
    }
}

/// The items whose flag is not set, in order.
pub open spec fn kept<T>(items: Seq<T>, flags: Seq<bool>) -> Seq<T>
    decreases items.len(),
{
    if items.len() == 0 {
        seq![]
    } else {
        let rest = kept(items.drop_last(), flags.drop_last());
        if flags.last() {
            rest
        } else {
            rest.push(items.last())
        }
    }
}

proof fn lemma_kept_len<T>(items: Seq<T>, flags: Seq<bool>)
    ensures
        kept(items, flags).len() <= items.len(),
    decreases items.len(),
{
    if items.len() > 0 {
        lemma_kept_len(items.drop_last(), flags.drop_last());
    }
}

proof fn lemma_kept_all<T>(items: Seq<T>, flags: Seq<bool>, p: spec_fn(T) -> bool)
    requires
        flags.len() == items.len(),
        forall|i: int| 0 <= i < items.len() ==> p(#[trigger] items[i]),
    ensures
        forall|i: int| 0 <= i < kept(items, flags).len() ==> p(#[trigger] kept(items, flags)[i]),
    decreases items.len(),
{
    if items.len() > 0 {
        let rest = items.drop_last();
        assert forall|i: int| 0 <= i < rest.len() implies p(#[trigger] rest[i]) by {
            assert(rest[i] == items[i]);
        }
        lemma_kept_all(rest, flags.drop_last(), p);
        let rk = kept(rest, flags.drop_last());
        assert(p(items.last()));
        if !flags.last() {
            assert forall|i: int| 0 <= i < rk.len() + 1 implies p(#[trigger] rk.push(items.last())[i]) by {
                if i < rk.len() {
                    assert(rk.push(items.last())[i] == rk[i]);
                }
            }
        }
    }
}

/// A copy of `items` without those whose flag is set.
pub fn keep_unflagged<T: Copy>(items: &Vec<T>, flags: &Vec<bool>) -> (r: Vec<T>)
    requires
        flags.len() == items.len(),
    ensures
        r@ == kept(items@, flags@),
{
    let mut r: Vec<T> = Vec::new();
    let mut i: usize = 0;
    while i < items.len()
        invariant
            i <= items.len(),
            flags.len() == items.len(),
            r@ == kept(items@.take(i as int), flags@.take(i as int)),
        decreases items.len() - i,
    {
        assert(items@.take(i + 1).drop_last() =~= items@.take(i as int));
        assert(flags@.take(i + 1).drop_last() =~= flags@.take(i as int));
        if !flags[i] {
            r.push(items[i]);
        }
        i = i + 1;
    }
    assert(items@.take(items.len() as int) =~= items@);
    assert(flags@.take(items.len() as int) =~= flags@);
    r
}

pub open spec fn enemy_bodies(es: Seq<Enemy>) -> Seq<Body> {
    es.map_values(|e: Enemy| e.body)
}

/// Which enemies some player laser hits.
pub open spec fn enemy_flags(es: Seq<Enemy>, lasers: Seq<Body>) -> Seq<bool> {
    Seq::new(es.len(), |j: int| hit_by_any(lasers, es[j].body))
}

/// Which player lasers hit some enemy.
pub open spec fn laser_flags(lasers: Seq<Body>, es: Seq<Enemy>) -> Seq<bool> {
    Seq::new(lasers.len(), |i: int| hits_any(lasers[i], enemy_bodies(es)))
}

/// The part of the simulation state that spawning and collisions touch.
pub struct World {
    pub enemies: Vec<Enemy>,
    pub player_lasers: Vec<Body>,
    pub enemy_lasers: Vec<Body>,
    pub player: Option<Body>,
    pub player_state: PlayerState,
    pub spawner: EnemySpawner,
    pub maker: FormationMaker,
    pub spawn_cadence: Cadence,
    /// Explosions requested in this tick, not yet shown.
    pub explosion_requests: Vec<Point>,
    pub explosions: Vec<Explosion>,
    /// Size of an enemy's box.
    pub enemy_size: Extent,
    /// Simulated time since start, in microseconds.
    pub clock: u64,
}

impl World {
    pub open spec fn wf(self) -> bool {
        &&& self.spawner.wf()
        &&& self.maker.wf()
        &&& self.spawn_cadence.wf()
        &&& self.spawner.active == self.enemies.len()
        &&& forall|j: int| 0 <= j < self.enemies.len() ==> (#[trigger] self.enemies@[j]).wf()
        &&& all_in_bounds(self.player_lasers@)
        &&& all_in_bounds(self.enemy_lasers@)
        &&& (self.player.is_some() ==> self.player->Some_0.in_bounds())
        &&& self.enemy_size.in_bounds()
        &&& forall|j: int| 0 <= j < self.explosions.len() ==> (#[trigger] self.explosions@[j]).wf()
    }

    /// The formation maker, the spawn trigger and the enemy size are those
    /// of `other`.
    pub open spec fn keeps_spawn_state(self, other: World) -> bool {
        &&& self.maker == other.maker
        &&& self.spawn_cadence == other.spawn_cadence
        &&& self.enemy_size == other.enemy_size
    }

    /// An empty field with a population cap of `cap`, spawning every
    /// `spawn_period` microseconds.
    pub fn new(cap: u32, spawn_period: u64, enemy_size: Extent) -> (r: World)
        requires
            spawn_period > 0,
            enemy_size.in_bounds(),
        ensures
            r.wf(),
            r.enemies@.len() == 0,
            r.spawner == (EnemySpawner { active: 0, cap }),
            r.spawn_cadence == (Cadence { period: spawn_period, elapsed: 0 }),
            r.player is None,
            r.clock == 0,
    {
        World {
            enemies: Vec::new(),
            player_lasers: Vec::new(),
            enemy_lasers: Vec::new(),
            player: None,
            player_state: PlayerState::new(),
            spawner: EnemySpawner::new(cap),
            maker: FormationMaker::new(),
            spawn_cadence: Cadence::new(spawn_period),
            explosion_requests: Vec::new(),
            explosions: Vec::new(),
            enemy_size,
            clock: 0,
        }
    }

    /// Lets `delta` microseconds pass on the spawn trigger, and spawns one
    /// enemy for each firing while the population is below the cap. A new
    /// formation, where one is opened, takes its path from `seed`.
    /// Returns how many enemies were spawned.
    pub fn enemy_spawn_tick(&mut self, delta: u64, seed: FormationSeed) -> (spawned: u64)
        requires
            old(self).wf(),
            seed.wf(),
        ensures
            final(self).wf(),
            final(self).spawner.cap == old(self).spawner.cap,
            final(self).spawn_cadence.period == old(self).spawn_cadence.period,
            final(self).spawn_cadence.elapsed == (old(self).spawn_cadence.elapsed + delta)
                % (old(self).spawn_cadence.period as int),
            ({
                let fired = (old(self).spawn_cadence.elapsed + delta) / (old(self).spawn_cadence.period as int);
                let room = old(self).spawner.cap - old(self).enemies.len();
                spawned == if fired < room { fired } else { room }
            }),
            final(self).enemies@.len() == old(self).enemies@.len() + spawned,
            final(self).enemies@.take(old(self).enemies@.len() as int) == old(self).enemies@,
            forall|j: int| old(self).enemies@.len() <= j < final(self).enemies@.len() ==> {
                let e = #[trigger] final(self).enemies@[j];
                e.body.center == e.formation.start && e.body.size == old(self).enemy_size
                    && e.speed == DEFAULT_SPEED
                    && e.formation == repeat_make(old(self).maker, seed, spawned as nat).1[j - old(self).enemies@.len()]
            },
            final(self).maker == repeat_make(old(self).maker, seed, spawned as nat).0,
            final(self).player_lasers == old(self).player_lasers,
            final(self).enemy_lasers == old(self).enemy_lasers,
            final(self).player == old(self).player,
            final(self).explosions == old(self).explosions,
            final(self).clock == old(self).clock,
            final(self).player_state == old(self).player_state,
            final(self).explosion_requests == old(self).explosion_requests,
            final(self).enemy_size == old(self).enemy_size,
    {
        let ghost n0 = self.enemies@.len();
        let ghost e0 = self.enemies@;
        let fired: u64 = self.spawn_cadence.tick(delta);
        let mut k: u64 = 0;
        while k < fired && self.spawner.active < self.spawner.cap
            invariant
                self.wf(),
                seed.wf(),
                k <= fired,
                self.enemies@.len() == n0 + k,
                self.enemies@.take(n0 as int) == e0,
                self.enemy_size == old(self).enemy_size,
                self.spawner.cap == old(self).spawner.cap,
                n0 == old(self).enemies@.len(),
                n0 <= self.spawner.cap,
                self.spawn_cadence.period == old(self).spawn_cadence.period,
                self.spawn_cadence.elapsed == (old(self).spawn_cadence.elapsed + delta)
                    % (old(self).spawn_cadence.period as int),
                fired == (old(self).spawn_cadence.elapsed + delta) / (old(self).spawn_cadence.period as int),
                forall|j: int| n0 <= j < self.enemies@.len() ==> {
                    let e = #[trigger] self.enemies@[j];
                    e.body.center == e.formation.start && e.body.size == old(self).enemy_size
                        && e.speed == DEFAULT_SPEED
                        && e.formation == repeat_make(old(self).maker, seed, k as nat).1[j - n0]
                },
                self.maker == repeat_make(old(self).maker, seed, k as nat).0,
                repeat_make(old(self).maker, seed, k as nat).1.len() == k,
                self.player_state == old(self).player_state,
                self.explosion_requests == old(self).explosion_requests,
                self.player_lasers == old(self).player_lasers,
                self.enemy_lasers == old(self).enemy_lasers,
                self.player == old(self).player,
                self.explosions == old(self).explosions,
                self.clock == old(self).clock,
            decreases fired - k,
        {
            let ghost m0 = self.maker;
            let made = self.spawner.enemy_spawn(&mut self.maker, seed);
            let f: Formation = made.unwrap();
            let enemy = Enemy {
                body: Body { center: f.start, size: self.enemy_size },
                speed: DEFAULT_SPEED,
                formation: f,
            };
            self.enemies.push(enemy);
            assert(self.enemies@.take(n0 as int) =~= e0);
            assert(repeat_make(old(self).maker, seed, (k + 1) as nat)
                == (self.maker, repeat_make(old(self).maker, seed, k as nat).1.push(f)));
            k = k + 1;
        }
        k
    }

    /// Player lasers against enemies: the enemies hit are removed (each
    /// once) and the live count follows, the lasers that touched an enemy
    /// are removed, and one explosion is requested per destroyed enemy.
    pub fn resolve_player_lasers(&mut self)
        requires
            old(self).wf(),
        ensures
            final(self).wf(),
            final(self).enemies@ == kept(old(self).enemies@,
                enemy_flags(old(self).enemies@, old(self).player_lasers@)),
            final(self).player_lasers@ == kept(old(self).player_lasers@,
                laser_flags(old(self).player_lasers@, old(self).enemies@)),
            final(self).explosion_requests@ == old(self).explosion_requests@
                + blasted_centers(old(self).player_lasers@, enemy_bodies(old(self).enemies@)),
            final(self).spawner.active == final(self).enemies@.len(),
            final(self).spawner.cap == old(self).spawner.cap,
            final(self).enemy_lasers == old(self).enemy_lasers,
            final(self).player == old(self).player,
            final(self).player_state == old(self).player_state,
            final(self).explosions == old(self).explosions,
            final(self).clock == old(self).clock,
            final(self).keeps_spawn_state(*old(self)),
    {
        let mut bodies: Vec<Body> = Vec::new();
        let mut j: usize = 0;
        while j < self.enemies.len()
            invariant
                j <= self.enemies.len(),
                bodies@ == enemy_bodies(self.enemies@.take(j as int)),
            decreases self.enemies.len() - j,
        {
            bodies.push(self.enemies[j].body);
            assert(enemy_bodies(self.enemies@.take(j + 1)) =~= enemy_bodies(self.enemies@.take(j as int)).push(self.enemies@[j as int].body));
            j = j + 1;
        }
        assert(self.enemies@.take(self.enemies.len() as int) =~= self.enemies@);
        assert(all_in_bounds(bodies@));
        let hits: EnemyHits = player_laser_hit_enemy(&self.player_lasers, &bodies);
        assert(hits.enemy_hit@ =~= enemy_flags(self.enemies@, self.player_lasers@));
        assert(hits.laser_hit@ =~= laser_flags(self.player_lasers@, self.enemies@));
        let survivors = keep_unflagged(&self.enemies, &hits.enemy_hit);
        let lasers_left = keep_unflagged(&self.player_lasers, &hits.laser_hit);
        proof {
            lemma_kept_len(self.enemies@, hits.enemy_hit@);
            lemma_kept_all(self.enemies@, hits.enemy_hit@, |e: Enemy| e.wf());
            lemma_kept_all(self.player_lasers@, hits.laser_hit@, |b: Body| b.in_bounds());
        }
        let destroyed: usize = self.enemies.len() - survivors.len();
        self.spawner.destroyed(destroyed as u32);
        self.enemies = survivors;
        self.player_lasers = lasers_left;
        let mut requests: Vec<Point> = Vec::new();
        std::mem::swap(&mut requests, &mut self.explosion_requests);
        let ghost r0 = requests@;
        let mut k: usize = 0;
        while k < hits.explosions.len()
            invariant
                k <= hits.explosions.len(),
                requests@ == r0 + hits.explosions@.take(k as int),
            decreases hits.explosions.len() - k,
        {
            requests.push(hits.explosions[k]);
            assert(hits.explosions@.take(k + 1) =~= hits.explosions@.take(k as int).push(hits.explosions@[k as int]));
            assert(r0 + hits.explosions@.take(k + 1) =~= (r0 + hits.explosions@.take(k as int)).push(hits.explosions@[k as int]));
            k = k + 1;
        }
        self.explosion_requests = requests;
        assert(hits.explosions@.take(hits.explosions.len() as int) =~= hits.explosions@);
    }

    /// Enemy lasers against the player: with the player present and hit by
    /// some laser, the first such laser is removed, the player is removed,
    /// the time of the hit is recorded, and one explosion is requested at the
    /// player's centre. Otherwise nothing changes.
    pub fn resolve_enemy_lasers(&mut self) -> (r: Option<usize>)
        requires
            old(self).wf(),
        ensures
            final(self).wf(),
            match old(self).player {
                None => r is None,
                Some(p) => first_hit(old(self).enemy_lasers@, p, r),
            },
            r is None ==> final(self).enemy_lasers == old(self).enemy_lasers
                && final(self).player == old(self).player
                && final(self).player_state == old(self).player_state
                && final(self).explosion_requests@ == old(self).explosion_requests@,
            r is Some ==> final(self).enemy_lasers@ == old(self).enemy_lasers@.remove(r->Some_0 as int)
                && final(self).player == None::<Body>
                && final(self).player_state == (PlayerState { on: false, last_shot: old(self).clock })
                && final(self).explosion_requests@
                    == old(self).explosion_requests@.push(old(self).player->Some_0.center),
            final(self).enemies == old(self).enemies,
            final(self).spawner == old(self).spawner,
            final(self).player_lasers == old(self).player_lasers,
            final(self).explosions == old(self).explosions,
            final(self).clock == old(self).clock,
            final(self).keeps_spawn_state(*old(self)),
    {
        let hit = enemy_laser_hit_player(
            &self.enemy_lasers,
            &mut self.player,
            &mut self.player_state,
            self.clock,
            &mut self.explosion_requests,
        );
        match hit {
            Some(i) => {
                let ghost l0 = self.enemy_lasers@;
                self.enemy_lasers.remove(i);
                assert forall|k: int| 0 <= k < self.enemy_lasers@.len()
                    implies #[trigger] self.enemy_lasers@[k].in_bounds() by {
                    if k < i {
                        assert(self.enemy_lasers@[k] == l0[k]);
                    } else {
                        assert(self.enemy_lasers@[k] == l0[k + 1]);
                    }
                }
            },
            None => {},
        }
        hit
    }

    /// Turns every pending explosion request into an explosion on its first
    /// frame, in order, and clears the requests.
    pub fn explosion_to_spawn(&mut self)
        requires
            old(self).wf(),
        ensures
            final(self).wf(),
            final(self).explosions@ == old(self).explosions@
                + old(self).explosion_requests@.map_values(|c: Point| Explosion::fresh(c)),
            final(self).explosion_requests@.len() == 0,
            final(self).enemies == old(self).enemies,
            final(self).spawner == old(self).spawner,
            final(self).player_lasers == old(self).player_lasers,
            final(self).enemy_lasers == old(self).enemy_lasers,
            final(self).player == old(self).player,
            final(self).player_state == old(self).player_state,
            final(self).clock == old(self).clock,
            final(self).keeps_spawn_state(*old(self)),
    {
        let ghost x0 = self.explosions@;
        let ghost q = self.explosion_requests@;
        let mut k: usize = 0;
        while k < self.explosion_requests.len()
            invariant
                self.wf(),
                k <= self.explosion_requests.len(),
                self.explosion_requests@ == q,
                self.explosions@ == x0 + q.take(k as int).map_values(|c: Point| Explosion::fresh(c)),
                self.enemies == old(self).enemies,
                self.spawner == old(self).spawner,
                self.player_lasers == old(self).player_lasers,
                self.enemy_lasers == old(self).enemy_lasers,
                self.player == old(self).player,
                self.player_state == old(self).player_state,
                self.clock == old(self).clock,
                self.keeps_spawn_state(*old(self)),
            decreases self.explosion_requests.len() - k,
        {
            let e = Explosion::spawn_at(self.explosion_requests[k]);
            self.explosions.push(e);
            assert(x0 + q.take(k + 1).map_values(|c: Point| Explosion::fresh(c))
                =~= (x0 + q.take(k as int).map_values(|c: Point| Explosion::fresh(c))).push(e));
            k = k + 1;
        }
        assert(q.take(q.len() as int) =~= q);
        self.explosion_requests.clear();
    }
    /// One tick of every explosion's animation; those past their last frame
    /// are removed.
    pub fn animate_explosions(&mut self, delta: u64)
        requires
            old(self).wf(),
        ensures
            final(self).wf(),
            final(self).explosions@ == kept(animated_all(old(self).explosions@, delta as int),
                finished_flags(animated_all(old(self).explosions@, delta as int))),
            final(self).enemies == old(self).enemies,
            final(self).spawner == old(self).spawner,
            final(self).player_lasers == old(self).player_lasers,
            final(self).enemy_lasers == old(self).enemy_lasers,
            final(self).player == old(self).player,
            final(self).explosion_requests == old(self).explosion_requests,
            final(self).clock == old(self).clock,
            final(self).keeps_spawn_state(*old(self)),
            final(self).player_state == old(self).player_state,
    {
        let ghost x0 = self.explosions@;
        let mut next: Vec<Explosion> = Vec::new();
        let mut done: Vec<bool> = Vec::new();
        let mut k: usize = 0;
        while k < self.explosions.len()
            invariant
                k <= self.explosions.len(),
                self.explosions@ == x0,
                forall|j: int| 0 <= j < x0.len() ==> (#[trigger] x0[j]).wf(),
                next@ == animated_all(x0.take(k as int), delta as int),
                done@ == finished_flags(next@),
            decreases self.explosions.len() - k,
        {
            let mut e = self.explosions[k];
            let finished = e.animate_explosion(delta);
            next.push(e);
            done.push(finished);
            assert(animated_all(x0.take(k + 1), delta as int)
                =~= animated_all(x0.take(k as int), delta as int).push(e));
            assert(done@ =~= finished_flags(next@));
            k = k + 1;
        }
        assert(x0.take(x0.len() as int) =~= x0);
        proof {
            assert forall|j: int| 0 <= j < next@.len() && !done@[j] implies #[trigger] next@[j].wf() by {
                assert(next@[j] == x0[j].spec_animate(delta as int));
            }
            lemma_kept_unflagged_wf(next@, done@);
        }
        self.explosions = keep_unflagged(&next, &done);
    }

    /// One tick of straight-line motion for every laser at the default
    /// speed: player lasers up, enemy lasers down; those that leave the
    /// screen of height `win_h` are removed.
    pub fn move_lasers(&mut self, win_h: i64)
        requires
            old(self).wf(),
            0 <= win_h <= COORD_LIMIT,
        ensures
            final(self).wf(),
            final(self).player_lasers@ == kept(moved_lasers(old(self).player_lasers@, Faction::Player),
                gone_flags(moved_lasers(old(self).player_lasers@, Faction::Player), Faction::Player, win_h as int)),
            final(self).enemy_lasers@ == kept(moved_lasers(old(self).enemy_lasers@, Faction::Enemy),
                gone_flags(moved_lasers(old(self).enemy_lasers@, Faction::Enemy), Faction::Enemy, win_h as int)),
            final(self).enemies == old(self).enemies,
            final(self).spawner == old(self).spawner,
            final(self).player == old(self).player,
            final(self).explosions == old(self).explosions,
            final(self).explosion_requests == old(self).explosion_requests,
            final(self).clock == old(self).clock,
            final(self).keeps_spawn_state(*old(self)),
            final(self).player_state == old(self).player_state,
    {
        let p = move_laser_list(&self.player_lasers, Faction::Player, win_h);
        let e = move_laser_list(&self.enemy_lasers, Faction::Enemy, win_h);
        self.player_lasers = p;
        self.enemy_lasers = e;
    }

    /// The parameter at which each enemy's target point is to be taken on
    /// this tick; the host evaluates the ellipse there and hands the points
    /// to `move_enemies`.
    pub fn candidate_angles(&self) -> (r: Vec<i64>)
        requires
            self.wf(),
        ensures
            r@.len() == self.enemies@.len(),
            forall|j: int| 0 <= j < r@.len() ==> #[trigger] r@[j] == spec_candidate_angle(
                self.enemies@[j].formation, tick_distance(self.enemies@[j].speed as int)),
    {
        let mut r: Vec<i64> = Vec::new();
        let mut k: usize = 0;
        while k < self.enemies.len()
            invariant
                self.wf(),
                k <= self.enemies.len(),
                r@.len() == k,
                forall|j: int| 0 <= j < k ==> #[trigger] r@[j] == spec_candidate_angle(
                    self.enemies@[j].formation, tick_distance(self.enemies@[j].speed as int)),
            decreases self.enemies.len() - k,
        {
            let e = self.enemies[k];
            assert(e.wf());
            let step = crate::motion::max_distance(e.speed);
            r.push(candidate_angle(&e.formation, step));
            k = k + 1;
        }
        r
    }

    /// One tick of formation motion for every enemy; `targets[j]` is the
    /// point of enemy `j`'s ellipse at its candidate parameter.
    pub fn move_enemies(&mut self, targets: &Vec<Point>)
        requires
            old(self).wf(),
            targets@.len() == old(self).enemies@.len(),
            forall|j: int| 0 <= j < targets@.len() ==> (#[trigger] targets@[j]).in_bounds(),
        ensures
            final(self).wf(),
            final(self).enemies@.len() == old(self).enemies@.len(),
            forall|j: int| 0 <= j < targets@.len() ==> #[trigger] moved_enemy(
                old(self).enemies@[j], targets@[j], final(self).enemies@[j]),
            final(self).spawner == old(self).spawner,
            final(self).player_lasers == old(self).player_lasers,
            final(self).enemy_lasers == old(self).enemy_lasers,
            final(self).player == old(self).player,
            final(self).explosions == old(self).explosions,
            final(self).explosion_requests == old(self).explosion_requests,
            final(self).clock == old(self).clock,
            final(self).keeps_spawn_state(*old(self)),
            final(self).player_state == old(self).player_state,
    {
        let ghost e0 = self.enemies@;
        let mut next: Vec<Enemy> = Vec::new();
        let mut k: usize = 0;
        while k < self.enemies.len()
            invariant
                k <= self.enemies.len(),
                self.enemies@ == e0,
                targets@.len() == e0.len(),
                forall|j: int| 0 <= j < e0.len() ==> (#[trigger] e0[j]).wf(),
                forall|j: int| 0 <= j < targets@.len() ==> (#[trigger] targets@[j]).in_bounds(),
                next@.len() == k,
                forall|j: int| 0 <= j < k ==> #[trigger] moved_enemy(e0[j], targets@[j], next@[j]),
                forall|j: int| 0 <= j < k ==> (#[trigger] next@[j]).wf(),
            decreases self.enemies.len() - k,
        {
            let mut e = self.enemies[k];
            assert(e.wf());
            let mut pos = e.body.center;
            enemy_movement(&mut pos, &mut e.formation, e.speed, targets[k]);
            e.body.center = pos;
            next.push(e);
            k = k + 1;
        }
        self.enemies = next;
    }

    /// Every enemy fires one laser of size `size`, starting just below it;
    /// a laser whose start would leave the coordinate range is not fired.
    pub fn enemy_fire(&mut self, size: Extent)
        requires
            old(self).wf(),
            size.in_bounds(),
        ensures
            final(self).wf(),
            final(self).enemy_lasers@ == old(self).enemy_lasers@ + fired_lasers(old(self).enemies@, size),
            final(self).enemies == old(self).enemies,
            final(self).spawner == old(self).spawner,
            final(self).player_lasers == old(self).player_lasers,
            final(self).player == old(self).player,
            final(self).explosions == old(self).explosions,
            final(self).explosion_requests == old(self).explosion_requests,
            final(self).clock == old(self).clock,
            final(self).keeps_spawn_state(*old(self)),
            final(self).player_state == old(self).player_state,
    {
        let ghost l0 = self.enemy_lasers@;
        let mut lasers: Vec<Body> = Vec::new();
        std::mem::swap(&mut lasers, &mut self.enemy_lasers);
        let mut k: usize = 0;
        while k < self.enemies.len()
            invariant
                k <= self.enemies.len(),
                size.in_bounds(),
                forall|j: int| 0 <= j < l0.len() ==> (#[trigger] l0[j]).in_bounds(),
                forall|j: int| 0 <= j < self.enemies.len() ==> (#[trigger] self.enemies@[j]).wf(),
                lasers@ == l0 + fired_lasers(self.enemies@.take(k as int), size),
                all_in_bounds(lasers@),
            decreases self.enemies.len() - k,
        {
            let c = self.enemies[k].body.center;
            assert(self.enemies@[k as int].wf());
            let y: i64 = c.y - ENEMY_LASER_DROP;
            let ghost t = self.enemies@.take(k + 1);
            assert(t.drop_last() =~= self.enemies@.take(k as int));
            if y >= -COORD_LIMIT {
                lasers.push(Body { center: Point { x: c.x, y }, size });
                assert(l0 + fired_lasers(t, size) =~= (l0 + fired_lasers(self.enemies@.take(k as int), size))
                    .push(Body { center: Point { x: c.x, y }, size }));
            } else {
                assert(l0 + fired_lasers(t, size) =~= l0 + fired_lasers(self.enemies@.take(k as int), size));
            }
            k = k + 1;
        }
        assert(self.enemies@.take(self.enemies.len() as int) =~= self.enemies@);
        self.enemy_lasers = lasers;
    }

    /// The player, if present, fires two lasers of size `size`, one to each
    /// side of its centre and just above it; a laser whose start would leave
    /// the coordinate range is not fired. Returns how many were fired.
    pub fn player_fire(&mut self, size: Extent) -> (n: usize)
        requires
            old(self).wf(),
            size.in_bounds(),
        ensures
            final(self).wf(),
            final(self).player_lasers@ == old(self).player_lasers@ + match old(self).player {
                None => Seq::<Body>::empty(),
                Some(p) => player_shots(p, size),
            },
            n == final(self).player_lasers@.len() - old(self).player_lasers@.len(),
            final(self).enemies == old(self).enemies,
            final(self).spawner == old(self).spawner,
            final(self).enemy_lasers == old(self).enemy_lasers,
            final(self).player == old(self).player,
            final(self).explosions == old(self).explosions,
            final(self).explosion_requests == old(self).explosion_requests,
            final(self).clock == old(self).clock,
            final(self).keeps_spawn_state(*old(self)),
            final(self).player_state == old(self).player_state,
    {
        match self.player {
            None => 0,
            Some(p) => {
                let ghost l0 = self.player_lasers@;
                let y: i64 = p.center.y + PLAYER_LASER_LIFT;
                let mut n: usize = 0;
                if y <= COORD_LIMIT {
                    let right: i64 = p.center.x + PLAYER_GUN_OFFSET;
                    if right <= COORD_LIMIT {
                        self.player_lasers.push(Body { center: Point { x: right, y }, size });
                        n = n + 1;
                    }
                    let left: i64 = p.center.x - PLAYER_GUN_OFFSET;
                    if left >= -COORD_LIMIT {
                        self.player_lasers.push(Body { center: Point { x: left, y }, size });
                        n = n + 1;
                    }
                }
                assert(self.player_lasers@ =~= l0 + player_shots(p, size));
                n
            },
        }
    }

    /// One tick of player motion at the default speed from the arrow keys
    /// held; a move that would leave the coordinate range is not made.
    pub fn move_player(&mut self, left: bool, right: bool)
        requires
            old(self).wf(),
        ensures
            final(self).wf(),
            match old(self).player {
                None => final(self).player == None::<Body>,
                Some(p) => {
                    let x = p.center.x + key_dir(left, right) * tick_distance(DEFAULT_SPEED as int);
                    final(self).player == Some(if -COORD_LIMIT <= x <= COORD_LIMIT {
                        Body { center: Point { x: x as i64, y: p.center.y }, ..p }
                    } else {
                        p
                    })
                },
            },
            final(self).enemies == old(self).enemies,
            final(self).spawner == old(self).spawner,
            final(self).player_lasers == old(self).player_lasers,
            final(self).enemy_lasers == old(self).enemy_lasers,
            final(self).explosions == old(self).explosions,
            final(self).explosion_requests == old(self).explosion_requests,
            final(self).clock == old(self).clock,
            final(self).keeps_spawn_state(*old(self)),
            final(self).player_state == old(self).player_state,
    {
        match self.player {
            None => {},
            Some(p) => {
                let mut pos = p.center;
                player_movement(&mut pos, DEFAULT_SPEED, left, right);
                if -COORD_LIMIT <= pos.x && pos.x <= COORD_LIMIT {
                    self.player = Some(Body { center: pos, ..p });
                }
            },
        }
    }

    /// Lets `delta` microseconds of simulated time pass.
    pub fn advance_clock(&mut self, delta: u64)
        requires
            old(self).wf(),
            old(self).clock + delta <= u64::MAX,
        ensures
            final(self).wf(),
            final(self).clock == old(self).clock + delta,
            final(self).enemies == old(self).enemies,
            final(self).player_lasers == old(self).player_lasers,
            final(self).enemy_lasers == old(self).enemy_lasers,
            final(self).player == old(self).player,
            final(self).player_state == old(self).player_state,
            final(self).spawner == old(self).spawner,
            final(self).explosion_requests == old(self).explosion_requests,
            final(self).explosions == old(self).explosions,
            final(self).keeps_spawn_state(*old(self)),
    {
        self.clock = self.clock + delta;
    }
}

/// Enemy `after` is enemy `before` after one tick of formation motion
/// toward `target`.
pub open spec fn moved_enemy(before: Enemy, target: Point, after: Enemy) -> bool {
    exists|a: Approach|
        #![trigger approach_spec(before.body.center, target, tick_distance(before.speed as int), before.speed as int, a)]
        approach_spec(before.body.center, target, tick_distance(before.speed as int), before.speed as int, a)
        && after == (Enemy {
            body: Body { center: a.pos, ..before.body },
            formation: if a.advance {
                Formation {
                    angle: spec_candidate_angle(before.formation, tick_distance(before.speed as int)) as i64,
                    ..before.formation
                }
            } else {
                before.formation
            },
            ..before
        })
}

pub open spec fn animated_all(es: Seq<Explosion>, delta: int) -> Seq<Explosion> {
    es.map_values(|e: Explosion| e.spec_animate(delta))
}

/// Which explosions have passed their last frame.
pub open spec fn finished_flags(es: Seq<Explosion>) -> Seq<bool> {
    es.map_values(|e: Explosion| e.index == e.frame_count)
}

proof fn lemma_kept_unflagged_wf(es: Seq<Explosion>, flags: Seq<bool>)
    requires
        flags.len() == es.len(),
        forall|j: int| 0 <= j < es.len() && !flags[j] ==> (#[trigger] es[j]).wf(),
    ensures
        forall|j: int| 0 <= j < kept(es, flags).len() ==> (#[trigger] kept(es, flags)[j]).wf(),
    decreases es.len(),
{
    if es.len() > 0 {
        let rest = es.drop_last();
        let fr = flags.drop_last();
        assert forall|j: int| 0 <= j < rest.len() && !fr[j] implies (#[trigger] rest[j]).wf() by {
            assert(rest[j] == es[j]);
            assert(fr[j] == flags[j]);
        }
        lemma_kept_unflagged_wf(rest, fr);
        let rk = kept(rest, fr);
        if !flags.last() {
            assert(es.last().wf()) by {
                assert(!flags[es.len() - 1]);
            }
            assert forall|j: int| 0 <= j < rk.len() + 1 implies (#[trigger] rk.push(es.last())[j]).wf() by {
                if j < rk.len() {
                    assert(rk.push(es.last())[j] == rk[j]);
                }
            }
        }
    }
}

/// Every laser after one tick of motion at the default speed.
pub open spec fn moved_lasers(ls: Seq<Body>, from: Faction) -> Seq<Body> {
    ls.map_values(|b: Body| Body {
        center: Point { x: b.center.x, y: spec_laser_y(b.center.y as int, DEFAULT_SPEED as int, from) as i64 },
        ..b
    })
}

/// Which lasers have left a screen of height `win_h`.
pub open spec fn gone_flags(ls: Seq<Body>, from: Faction, win_h: int) -> Seq<bool> {
    ls.map_values(|b: Body| laser_gone(b.center.y as int, from, win_h))
}

fn move_laser_list(lasers: &Vec<Body>, from: Faction, win_h: i64) -> (r: Vec<Body>)
    requires
        all_in_bounds(lasers@),
        0 <= win_h <= COORD_LIMIT,
    ensures
        r@ == kept(moved_lasers(lasers@, from), gone_flags(moved_lasers(lasers@, from), from, win_h as int)),
        all_in_bounds(r@),
{
    let mut moved: Vec<Body> = Vec::new();
    let mut gone: Vec<bool> = Vec::new();
    let mut k: usize = 0;
    while k < lasers.len()
        invariant
            k <= lasers.len(),
            all_in_bounds(lasers@),
            0 <= win_h <= COORD_LIMIT,
            moved@ == moved_lasers(lasers@.take(k as int), from),
            gone@ == gone_flags(moved@, from, win_h as int),
            forall|j: int| 0 <= j < k && !gone@[j] ==> (#[trigger] moved@[j]).in_bounds(),
        decreases lasers.len() - k,
    {
        let mut b = lasers[k];
        assert(b.in_bounds());
        let g = laser_movement(&mut b.center, DEFAULT_SPEED, from, win_h);
        moved.push(b);
        gone.push(g);
        assert(moved_lasers(lasers@.take(k + 1), from) =~= moved_lasers(lasers@.take(k as int), from).push(b));
        assert(gone@ =~= gone_flags(moved@, from, win_h as int));
        k = k + 1;
    }
    assert(lasers@.take(lasers.len() as int) =~= lasers@);
    proof {
        lemma_kept_bodies_in_bounds(moved@, gone@);
    }
    keep_unflagged(&moved, &gone)
}

proof fn lemma_kept_bodies_in_bounds(bs: Seq<Body>, flags: Seq<bool>)
    requires
        flags.len() == bs.len(),
        forall|j: int| 0 <= j < bs.len() && !flags[j] ==> (#[trigger] bs[j]).in_bounds(),
    ensures
        all_in_bounds(kept(bs, flags)),
    decreases bs.len(),
{
    if bs.len() > 0 {
        let rest = bs.drop_last();
        let fr = flags.drop_last();
        assert forall|j: int| 0 <= j < rest.len() && !fr[j] implies (#[trigger] rest[j]).in_bounds() by {
            assert(rest[j] == bs[j]);
            assert(fr[j] == flags[j]);
        }
        lemma_kept_bodies_in_bounds(rest, fr);
        let rk = kept(rest, fr);
        if !flags.last() {
            assert(bs.last().in_bounds()) by {
                assert(!flags[bs.len() - 1]);
            }
            assert forall|j: int| 0 <= j < rk.len() + 1 implies (#[trigger] rk.push(bs.last())[j]).in_bounds() by {
                if j < rk.len() {
                    assert(rk.push(bs.last())[j] == rk[j]);
                }
            }
        }
    }
}

/// The formation maker after `n` calls of `make` with the same `seed`, and
/// the formations handed out, in order.
pub open spec fn repeat_make(m: FormationMaker, seed: FormationSeed, n: nat) -> (FormationMaker, Seq<Formation>)
    decreases n,
{
    if n == 0 {
        (m, seq![])
    } else {
        let (prev, fs) = repeat_make(m, seed, (n - 1) as nat);
        let (next, f) = prev.spec_make(seed);
        (next, fs.push(f))
    }
}

/// Capacity: in every well-formed state, which every operation on the
/// world keeps, the live enemies number at most the population cap, and the
/// live count equals the number of enemies.
pub proof fn lemma_capacity(w: World)
    requires
        w.wf(),
    ensures
        w.enemies@.len() <= w.spawner.cap,
        w.spawner.active == w.enemies@.len(),
{
}

/// One player laser over two enemies at once: the collision pass removes
/// both enemies (so the live count, which follows the enemy list, drops by
/// two), requests exactly two explosions, one at each enemy, and removes the
/// laser once.
pub proof fn lemma_one_laser_two_enemies_world(laser: Body, e1: Enemy, e2: Enemy)
    requires
        boxes_overlap(laser, e1.body),
        boxes_overlap(laser, e2.body),
    ensures
        kept(seq![e1, e2], enemy_flags(seq![e1, e2], seq![laser])).len() == 0,
        kept(seq![laser], laser_flags(seq![laser], seq![e1, e2])).len() == 0,
        blasted_centers(seq![laser], enemy_bodies(seq![e1, e2])) == seq![e1.body.center, e2.body.center],
{
    let es = seq![e1, e2];
    let ls = seq![laser];
    assert(enemy_bodies(es) =~= seq![e1.body, e2.body]);
    lemma_one_laser_two_enemies(laser, e1.body, e2.body);
    let ef = enemy_flags(es, ls);
    assert(ef[0] && ef[1]);
    assert(es.drop_last() =~= seq![e1]);
    assert(ef.drop_last()[0]);
    reveal_with_fuel(kept, 3);
    assert(kept(seq![e1], ef.drop_last()).len() == 0) by {
        assert(seq![e1].drop_last() =~= Seq::<Enemy>::empty());
    }
    let lf = laser_flags(ls, es);
    assert(lf[0]);
    assert(ls.drop_last() =~= Seq::<Body>::empty());
}

/// How far below an enemy its lasers start.
pub const ENEMY_LASER_DROP: i64 = 15_000;

/// How far above the player its lasers start.
pub const PLAYER_LASER_LIFT: i64 = 15_000;

/// Horizontal distance from the player's centre to each of its two guns: a
/// quarter of the sprite width, less a small inset.
pub const PLAYER_GUN_OFFSET: i64 = 31_000;

/// The lasers that `enemies` fire, in order: one per enemy just below it,
/// skipping any whose start would leave the coordinate range.
pub open spec fn fired_lasers(enemies: Seq<Enemy>, size: Extent) -> Seq<Body>
    decreases enemies.len(),
{
    if enemies.len() == 0 {
        seq![]
    } else {
        let rest = fired_lasers(enemies.drop_last(), size);
        let c = enemies.last().body.center;
        if c.y - ENEMY_LASER_DROP >= -COORD_LIMIT {
            rest.push(Body { center: Point { x: c.x, y: (c.y - ENEMY_LASER_DROP) as i64 }, size })
        } else {
            rest
        }
    }
}

/// The lasers the player at `p` fires: right gun, then left gun, skipping any
/// whose start would leave the coordinate range.
pub open spec fn player_shots(p: Body, size: Extent) -> Seq<Body> {
    let y = p.center.y + PLAYER_LASER_LIFT;
    let right = p.center.x + PLAYER_GUN_OFFSET;
    let left = p.center.x - PLAYER_GUN_OFFSET;
    if y > COORD_LIMIT {
        seq![]
    } else {
        let r = if right <= COORD_LIMIT {
            seq![Body { center: Point { x: right as i64, y: y as i64 }, size }]
        } else {
            seq![]
        };
        if left >= -COORD_LIMIT {
            r.push(Body { center: Point { x: left as i64, y: y as i64 }, size })
        } else {
            r
        }
    }
}

} // verus!
