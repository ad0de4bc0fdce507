use vstd::prelude::*;
use crate::entity::Entity;
use crate::health::{status_after_day, Status};

verus! {

/// One day's census: how many entities are in each of six categories.
#[derive(Clone, Copy, Debug, PartialEq, Eq, Structural)]
pub struct Datum {
    pub healthy: u32,
    pub vaccinated: u32,
    pub recovered: u32,
    pub incubating: u32,
    pub infected: u32,
    pub dead: u32,
}

/// Census category of an entity: 0 healthy, 1 vaccinated and healthy,
/// 2 recovered, 3 incubating, 4 infected, 5 dead.
pub open spec fn category(e: Entity) -> int {
    match e.status {
        Status::Healthy => if e.vaccinated { 1 } else { 0 },
        Status::Recovered => 2,
        Status::Incubating(_, _) => 3,
        Status::Infected(_, _) => 4,
        Status::Dead => 5,
    }
}

/// Number of entities of `s` in category `k`.
pub open spec fn tally(s: Seq<Entity>, k: int) -> nat
    decreases s.len(),
{
    if s.len() == 0 {
        0
    } else {
        tally(s.drop_last(), k) + if category(s.last()) == k { 1nat } else { 0nat }
    }
}

/// The census of a population.
pub open spec fn census_of(s: Seq<Entity>) -> Datum {
    Datum {
        healthy: tally(s, 0) as u32,
        vaccinated: tally(s, 1) as u32,
        recovered: tally(s, 2) as u32,
        incubating: tally(s, 3) as u32,
        infected: tally(s, 4) as u32,
        dead: tally(s, 5) as u32,
    }
}

impl Datum {
    /// The sum of the six counts.
    pub open spec fn count_sum(&self) -> int {
        self.healthy + self.vaccinated + self.recovered + self.incubating + self.infected + self.dead
    }

    /// The sum of the six counts.
    pub fn total(&self) -> (r: u64)
        ensures
            r == self.count_sum(),
    {
        self.healthy as u64 + self.vaccinated as u64 + self.recovered as u64 + self.incubating as u64
            + self.infected as u64 + self.dead as u64
    }
}

/// Each entity falls in exactly one category, so the six tallies add up to
/// the population and none exceeds it.
pub proof fn lemma_tallies_sum(s: Seq<Entity>)
    ensures
        tally(s, 0) + tally(s, 1) + tally(s, 2) + tally(s, 3) + tally(s, 4) + tally(s, 5) == s.len(),
        forall|k: int| #[trigger] tally(s, k) <= s.len(),
    decreases s.len(),
{
    if s.len() > 0 {
        lemma_tallies_sum(s.drop_last());
        assert forall|k: int| #[trigger] tally(s, k) <= s.len() by {
            assert(tally(s.drop_last(), k) <= s.drop_last().len());
        }
    }
}

/// Counts the population by category.
pub fn census(entities: &Vec<Entity>) -> (r: Datum)
    requires
        entities@.len() <= 0xffff_ffff,
    ensures
        r == census_of(entities@),
        r.count_sum() == entities@.len(),
{
    let mut d = Datum { healthy: 0, vaccinated: 0, recovered: 0, incubating: 0, infected: 0, dead: 0 };
    let mut i: usize = 0;
    while i < entities.len()
        invariant
            i <= entities@.len() <= 0xffff_ffff,
            d == census_of(entities@.subrange(0, i as int)),
        decreases entities@.len() - i,
    {
        let ghost before = entities@.subrange(0, i as int);
        let ghost after = entities@.subrange(0, i + 1);
        proof {
            assert(after.drop_last() =~= before);
            lemma_tallies_sum(before);
        }
        let e = &entities[i];
        match e.status {
            Status::Healthy => if e.vaccinated {
                d.vaccinated = d.vaccinated + 1;
            } else {
                d.healthy = d.healthy + 1;
            },
            Status::Recovered => d.recovered = d.recovered + 1,
            Status::Incubating(_, _) => d.incubating = d.incubating + 1,
            Status::Infected(_, _) => d.infected = d.infected + 1,
            Status::Dead => d.dead = d.dead + 1,
        }
        i = i + 1;
    }
    proof {
        assert(entities@.subrange(0, i as int) =~= entities@);
        lemma_tallies_sum(entities@);
    }
    d
}

/// Every census record sums to the population it counts.
pub proof fn lemma_census_total(s: Seq<Entity>)
    requires
        s.len() <= 0xffff_ffff,
    ensures
        census_of(s).count_sum() == s.len(),
{
    lemma_tallies_sum(s);
}

proof fn lemma_tally_replay(s: Seq<Entity>, t: Seq<Entity>, k: int)
    requires
        s.len() == t.len(),
        forall|i: int| 0 <= i < s.len() ==> category(#[trigger] s[i]) == category(t[i]),
    ensures
        tally(s, k) == tally(t, k),
    decreases s.len(),
{
    if s.len() > 0 {
        assert(category(s[s.len() - 1]) == category(t[t.len() - 1]));
        lemma_tally_replay(s.drop_last(), t.drop_last(), k);
    }
}

/// A census depends only on each entity's status and vaccination: two
/// populations that agree on those record the same census.
pub proof fn lemma_census_replay(s: Seq<Entity>, t: Seq<Entity>)
    requires
        s.len() == t.len(),
        forall|i: int| 0 <= i < s.len() ==> (#[trigger] s[i]).status == t[i].status && s[i].vaccinated == t[i].vaccinated,
    ensures
        census_of(s) == census_of(t),
{
    assert forall|i: int| 0 <= i < s.len() implies category(#[trigger] s[i]) == category(t[i]) by {}
    lemma_tally_replay(s, t, 0);
    lemma_tally_replay(s, t, 1);
    lemma_tally_replay(s, t, 2);
    lemma_tally_replay(s, t, 3);
    lemma_tally_replay(s, t, 4);
    lemma_tally_replay(s, t, 5);
}

/// Replaying a day transition with the same rolls on a population that
/// agrees in status and vaccination gives the same census before and after.
pub proof fn lemma_day_replay(s: Seq<Entity>, t: Seq<Entity>, rolls: Seq<int>, s2: Seq<Entity>, t2: Seq<Entity>)
    requires
        s.len() == t.len() == rolls.len() == s2.len() == t2.len(),
        forall|i: int| 0 <= i < s.len() ==> (#[trigger] s[i]).status == t[i].status && s[i].vaccinated == t[i].vaccinated,
        forall|i: int| 0 <= i < s.len() ==> (#[trigger] s2[i]).status == status_after_day(s[i].status, s[i].vaccinated, rolls[i])
            && s2[i].vaccinated == s[i].vaccinated,
        forall|i: int| 0 <= i < s.len() ==> (#[trigger] t2[i]).status == status_after_day(t[i].status, t[i].vaccinated, rolls[i])
            && t2[i].vaccinated == t[i].vaccinated,
    ensures
        census_of(s) == census_of(t),
        census_of(s2) == census_of(t2),
{
    lemma_census_replay(s, t);
    assert forall|i: int| 0 <= i < s2.len() implies (#[trigger] s2[i]).status == t2[i].status && s2[i].vaccinated == t2[i].vaccinated by {
        assert(s[i].status == t[i].status);
    }
    lemma_census_replay(s2, t2);
}

/// In a population where everyone is healthy, the census counts only the
/// two healthy categories.
pub proof fn lemma_healthy_census(s: Seq<Entity>)
    requires
        s.len() <= 0xffff_ffff,
        forall|i: int| 0 <= i < s.len() ==> (#[trigger] s[i]).status is Healthy,
    ensures
        census_of(s).recovered == 0,
        census_of(s).incubating == 0,
        census_of(s).infected == 0,
        census_of(s).dead == 0,
        census_of(s).healthy + census_of(s).vaccinated == s.len(),
    decreases s.len(),
{
    lemma_tallies_sum(s);
    if s.len() > 0 {
        let t = s.drop_last();
        assert forall|i: int| 0 <= i < t.len() implies (#[trigger] t[i]).status is Healthy by {
            assert(t[i] == s[i]);
        }
        assert(s[s.len() - 1].status is Healthy);
        lemma_healthy_census(t);
    }
}

} // verus!
