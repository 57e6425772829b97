use vstd::prelude::*;
use crate::geom::{Point, COORD_LIMIT};

verus! {

/// Number of enemies that share one formation before a new one is opened.
pub const MAX_FORMATION_MEMBERS: u32 = 2;

/// One full turn, in microradians.
pub const TAU_MICRORAD: i64 = 6_283_185;

/// The shape of an elliptical path, before it is given a group identifier.
#[derive(Clone, Copy, Debug, PartialEq, Eq, Structural)]
pub struct FormationSeed {
    pub start: Point,
    pub offset: Point,
    pub radius: Point,
    pub angle: i64,
}

impl FormationSeed {
    pub open spec fn wf(self) -> bool {
        &&& self.start.in_bounds()
        &&& self.offset.in_bounds()
        &&& self.radius.in_bounds()
        &&& self.radius.x > 0
        &&& self.radius.y > 0
        &&& 0 <= self.angle < TAU_MICRORAD
    }
}

/// An elliptical path shared by a group of enemies; each enemy holds its own
/// copy, whose `angle` evolves independently.
#[derive(Clone, Copy, Debug, PartialEq, Eq, Structural)]
pub struct Formation {
    pub start: Point,
    pub offset: Point,
    pub radius: Point,
    pub angle: i64,
    pub group_id: u32,
}

impl Formation {
    pub open spec fn wf(self) -> bool {
        &&& self.start.in_bounds()
        &&& self.offset.in_bounds()
        &&& self.radius.in_bounds()
        &&& self.radius.x > 0
        &&& self.radius.y > 0
        &&& 0 <= self.angle < TAU_MICRORAD
    }

    pub open spec fn from_seed(seed: FormationSeed, group_id: u32) -> Formation {
        Formation {
            start: seed.start,
            offset: seed.offset,
            radius: seed.radius,
            angle: seed.angle,
            group_id,
        }
    }

    /// Same path: equal start, centre and semi-axes.
    pub open spec fn same_path(self, other: Formation) -> bool {
        self.start == other.start && self.offset == other.offset && self.radius == other.radius
    }
}

/// The identifier that follows `seq`.
pub open spec fn next_group(seq: u32) -> u32 {
    if seq == u32::MAX {
        0
    } else {
        (seq + 1) as u32
    }
}

/// Hands out formations: a fresh one whenever none is open or the open one is
/// full, a copy of the open one otherwise.
#[derive(Clone, Copy, Debug)]
pub struct FormationMaker {
    pub group_seq: u32,
    pub current_formation: Option<Formation>,
    pub current_formation_members: u32,
}

impl FormationMaker {
    pub open spec fn wf(self) -> bool {
        match self.current_formation {
            Some(f) => f.wf() && 1 <= self.current_formation_members <= MAX_FORMATION_MEMBERS,
            None => self.current_formation_members == 0,
        }
    }

    /// The next call of `make` opens a new formation.
    pub open spec fn opens_new(self) -> bool {
        self.current_formation is None || self.current_formation_members >= MAX_FORMATION_MEMBERS
    }

    /// The state after one `make` with `seed`, and the formation handed out.
    pub open spec fn spec_make(self, seed: FormationSeed) -> (FormationMaker, Formation) {
        if self.opens_new() {
            let f = Formation::from_seed(seed, next_group(self.group_seq));
            (
                FormationMaker {
                    group_seq: next_group(self.group_seq),
                    current_formation: Some(f),
                    current_formation_members: 1,
                },
                f,
            )
        } else {
            (
                FormationMaker {
                    current_formation_members: (self.current_formation_members + 1) as u32,
                    ..self
                },
                self.current_formation->Some_0,
            )
        }
    }

    pub fn new() -> (r: FormationMaker)
        ensures
            r.wf(),
            r.group_seq == 0,
            r.current_formation is None,
            r.current_formation_members == 0,
    {
        FormationMaker { group_seq: 0, current_formation: None, current_formation_members: 0 }
    }

    pub fn needs_new_formation(&self) -> (r: bool)
        ensures
            r == self.opens_new(),
    {
        match self.current_formation {
            None => true,
            Some(_) => self.current_formation_members >= MAX_FORMATION_MEMBERS,
        }
    }

    /// Hands out the formation for the next enemy. `seed` gives the path of
    /// a new formation and is ignored while the open one has room.
    pub fn make(&mut self, seed: FormationSeed) -> (r: Formation)
        requires
            old(self).wf(),
            seed.wf(),
        ensures
            (*final(self), r) == old(self).spec_make(seed),
            final(self).wf(),
            r.wf(),
    {
        if self.needs_new_formation() {
            let group_id = if self.group_seq == u32::MAX {
                0
            } else {
                self.group_seq + 1
            };
            self.group_seq = group_id;
            let formation = Formation {
                start: seed.start,
                offset: seed.offset,
                radius: seed.radius,
                angle: seed.angle,
                group_id,
            };
            self.current_formation = Some(formation);
            self.current_formation_members = 1;
            formation
        } else {
            self.current_formation_members = self.current_formation_members + 1;
            self.current_formation.unwrap()
        }
    }
}

impl Default for FormationMaker {
    fn default() -> (r: FormationMaker)
        ensures
            r.wf(),
            r.group_seq == 0,
            r.current_formation is None,
            r.current_formation_members == 0,
    {
        FormationMaker::new()
    }
}

/// The states and formations of successive `make` calls, one per seed.
pub open spec fn made(m: FormationMaker, seeds: Seq<FormationSeed>) -> Seq<Formation>
    decreases seeds.len(),
{
    if seeds.len() == 0 {
        seq![]
    } else {
        let (next, f) = m.spec_make(seeds[0]);
        seq![f] + made(next, seeds.drop_first())
    }
}

/// Formation grouping: once a formation opens, the enemies that follow it up
/// to the member limit get the same formation (same path, same group), and
/// the spawn after them opens a new group.
pub proof fn lemma_formation_grouping(m: FormationMaker, seeds: Seq<FormationSeed>)
    requires
        m.wf(),
        m.opens_new(),
        seeds.len() == MAX_FORMATION_MEMBERS + 1,
    ensures
        made(m, seeds).len() == seeds.len(),
        forall|i: int| 0 <= i < MAX_FORMATION_MEMBERS ==> #[trigger] made(m, seeds)[i] == made(m, seeds)[0],
        forall|i: int| 0 <= i < MAX_FORMATION_MEMBERS ==> #[trigger] made(m, seeds)[i].same_path(made(m, seeds)[0]),
        made(m, seeds)[0].group_id == next_group(m.group_seq),
        made(m, seeds)[MAX_FORMATION_MEMBERS as int].group_id != made(m, seeds)[0].group_id,
{
    reveal_with_fuel(made, 4);
    let (m1, f0) = m.spec_make(seeds[0]);
    let s1 = seeds.drop_first();
    let (m2, f1) = m1.spec_make(s1[0]);
    let s2 = s1.drop_first();
    let (m3, f2) = m2.spec_make(s2[0]);
    let s3 = s2.drop_first();
    assert(s3.len() == 0);
    assert(made(m2, s2) == seq![f2] + made(m3, s3));
    assert(made(m1, s1) == seq![f1] + made(m2, s2));
    assert(made(m, seeds) == seq![f0] + made(m1, s1));
    assert(made(m, seeds) =~= seq![f0, f1, f2]);
}

} // verus!
