use vstd::prelude::*;
use crate::census::{census, census_of, lemma_census_total, lemma_healthy_census, Datum};
use crate::entity::{contact, exposed, in_reach, same_identity, Building, BuildingKind, Entity};
use crate::geometry::{block_to_pos, center_of, Pos};
use crate::health::{carried, is_contagious, may_follow, status_after_day, transmits, Days, Status, Virus, ROLL_SCALE};
use crate::random::random_below;
use crate::route::{is_route, tick_route, Waypoint};

verus! {

/// Largest population; each census count must fit in a `u32`.
pub const MAX_POPULATION: usize = 0xffff_ffff;
/// Largest number of buildings.
pub const MAX_BUILDINGS: usize = 0xffff_ffff;
/// Under quarantine, an infected entity with more days left than this stays home.
pub const QUARANTINE_DAYS: Days = 2;

/// The whole population and the town it lives in.
#[derive(Clone)]
pub struct Simulation {
    pub entities: Vec<Entity>,
    pub buildings: Vec<Building>,
    pub store_ids: Vec<usize>,
    pub days: Days,
    pub morning: bool,
    pub quarantine: bool,
    pub data: Vec<Datum>,
}

/// The world position of a building's cell centre.
pub open spec fn center(b: Building) -> Pos {
    Pos { x: center_of(b.block.x as int) as i64, y: center_of(b.block.y as int) as i64 }
}

pub open spec fn entity_ok(e: Entity, n_buildings: int) -> bool {
    e.wf() && e.house_id < n_buildings && e.workplace_id < n_buildings
}

pub open spec fn population_ok(s: Seq<Entity>, n_buildings: int) -> bool {
    forall|i: int| 0 <= i < s.len() ==> entity_ok(#[trigger] s[i], n_buildings)
}

/// Every store id names a store.
pub open spec fn stores_ok(ids: Seq<usize>, b: Seq<Building>) -> bool {
    forall|k: int| 0 <= k < ids.len() ==> (#[trigger] ids[k]) < b.len() && b[ids[k] as int].kind == BuildingKind::Store
}

/// Every entity has arrived (its route is empty) or is dead.
pub open spec fn all_arrived(s: Seq<Entity>) -> bool {
    forall|i: int| 0 <= i < s.len() ==> (#[trigger] s[i]).waypoints@.len() == 0 || s[i].status is Dead
}

/// A quarantined entity: infected, with more than `QUARANTINE_DAYS` left.
pub open spec fn stays_home(s: Status, quarantine: bool) -> bool {
    quarantine && match s {
        Status::Infected(_, d) => d > QUARANTINE_DAYS,
        _ => false,
    }
}

/// `b` is `a` with waypoints appended and nothing else changed.
pub open spec fn extends(a: Entity, b: Entity) -> bool {
    &&& b.pos == a.pos
    &&& b.status == a.status
    &&& same_identity(a, b)
    &&& a.waypoints@.len() <= b.waypoints@.len()
    &&& b.waypoints@.subrange(0, a.waypoints@.len() as int) == a.waypoints@
}

/// The waypoints appended from `a` to `b`.
pub open spec fn added(a: Entity, b: Entity) -> Seq<Waypoint> {
    b.waypoints@.subrange(a.waypoints@.len() as int, b.waypoints@.len() as int)
}

/// A route to `store` followed by a route from where it ends to `home`.
pub open spec fn detour(r: Seq<Waypoint>, from: Pos, store: Pos, home: Pos) -> bool {
    r.len() == 16 && is_route(r.subrange(0, 8), from, store) && match r[7] {
        Waypoint::Point(e) => is_route(r.subrange(8, 16), e, home),
        _ => false,
    }
}

/// What the commute does to one entity: the dead and the quarantined keep
/// their route; in the morning the others walk to work; in the evening they
/// walk home, some by way of one of the stores.
pub open spec fn commute_step(a: Entity, b: Entity, buildings: Seq<Building>, stores: Seq<usize>, morning: bool, quarantine: bool) -> bool {
    &&& extends(a, b)
    &&& if a.status is Dead || stays_home(a.status, quarantine) {
        added(a, b).len() == 0
    } else if morning {
        is_route(added(a, b), a.pos, center(buildings[a.workplace_id as int]))
    } else {
        is_route(added(a, b), a.pos, center(buildings[a.house_id as int]))
        || exists|k: int| 0 <= k < stores.len() && #[trigger] detour(
            added(a, b),
            a.pos,
            center(buildings[stores[k] as int]),
            center(buildings[a.house_id as int]),
        )
    }
}

/// What one day of the health machine does to one entity.
pub open spec fn day_step(a: Entity, b: Entity) -> bool {
    &&& exists|roll: int| 0 <= roll < ROLL_SCALE && b.status == #[trigger] status_after_day(a.status, a.vaccinated, roll)
    &&& b.pos == a.pos
    &&& b.waypoints@ == a.waypoints@
    &&& same_identity(a, b)
}

/// What one tick of movement does to one entity.
pub open spec fn move_step(a: Entity, b: Entity) -> bool {
    &&& b.status == a.status
    &&& same_identity(a, b)
    &&& b.wf()
    &&& a.status is Dead ==> b.pos == a.pos && b.waypoints@ == a.waypoints@
    &&& !(a.status is Dead) ==> (b.pos, b.waypoints@) == tick_route(a.pos, a.waypoints@)
}

/// A status after the contact scan: unchanged, or a healthy entity newly
/// incubating a virus with its full incubation ahead.
pub open spec fn contact_step(a: Status, b: Status) -> bool {
    b == a || (a is Healthy && match b {
        Status::Incubating(v, d) => d == v.incubation,
        _ => false,
    })
}

pub open spec fn any_contagious(s: Seq<Entity>) -> bool {
    exists|i: int| 0 <= i < s.len() && is_contagious(#[trigger] s[i].status)
}

/// One entity up to the contact scan, by way of its state after the day
/// transition (`w.0`) and after route assignment (`w.1`); `m` is its state
/// after moving.
pub open spec fn pre_chain(
    a: Entity,
    w: (Entity, Entity),
    m: Entity,
    buildings: Seq<Building>,
    stores: Seq<usize>,
    arrived: bool,
    morning: bool,
    quarantine: bool,
) -> bool {
    &&& if arrived && morning { day_step(a, w.0) } else { w.0 == a }
    &&& if arrived { commute_step(w.0, w.1, buildings, stores, morning, quarantine) } else { w.1 == w.0 }
    &&& move_step(w.1, m)
}

/// `m` is what the day transition, route assignment and one step of
/// movement can make of `a`.
pub open spec fn readied(
    a: Entity,
    m: Entity,
    buildings: Seq<Building>,
    stores: Seq<usize>,
    arrived: bool,
    morning: bool,
    quarantine: bool,
) -> bool {
    exists|w: (Entity, Entity)| #[trigger] pre_chain(a, w, m, buildings, stores, arrived, morning, quarantine)
}

/// `m` is the population `s` after every entity has been readied for the
/// contact scan.
pub open spec fn prepared(
    s: Seq<Entity>,
    m: Seq<Entity>,
    buildings: Seq<Building>,
    stores: Seq<usize>,
    arrived: bool,
    morning: bool,
    quarantine: bool,
) -> bool {
    &&& m.len() == s.len()
    &&& forall|k: int| 0 <= k < s.len() ==> #[trigger] readied(s[k], m[k], buildings, stores, arrived, morning, quarantine)
}

/// Every census record of `data` sums to `n`.
pub open spec fn records_sum_to(data: Seq<Datum>, n: int) -> bool {
    forall|d: int| 0 <= d < data.len() ==> (#[trigger] data[d]).count_sum() == n
}

/// Runs the health machine for one day over every entity.
fn progress_day(entities: &mut Vec<Entity>)
    ensures
        final(entities)@.len() == old(entities)@.len(),
        forall|i: int| 0 <= i < old(entities)@.len() ==> day_step(#[trigger] old(entities)@[i], final(entities)@[i]),
{
    let mut i: usize = 0;
    while i < entities.len()
        invariant
            i <= entities@.len() == old(entities)@.len(),
            forall|k: int| 0 <= k < i ==> day_step(#[trigger] old(entities)@[k], entities@[k]),
            forall|k: int| i <= k < entities@.len() ==> #[trigger] entities@[k] == old(entities)@[k],
        decreases entities@.len() - i,
    {
        entities[i].day();
        i = i + 1;
    }
}

/// Advances every entity one tick along its route.
fn move_all(entities: &mut Vec<Entity>)
    requires
        forall|i: int| 0 <= i < old(entities)@.len() ==> (#[trigger] old(entities)@[i]).wf(),
    ensures
        final(entities)@.len() == old(entities)@.len(),
        forall|i: int| 0 <= i < old(entities)@.len() ==> move_step(#[trigger] old(entities)@[i], final(entities)@[i]),
{
    let mut i: usize = 0;
    while i < entities.len()
        invariant
            i <= entities@.len() == old(entities)@.len(),
            forall|k: int| 0 <= k < i ==> move_step(#[trigger] old(entities)@[k], entities@[k]),
            forall|k: int| i <= k < entities@.len() ==> #[trigger] entities@[k] == old(entities)@[k],
            forall|k: int| 0 <= k < old(entities)@.len() ==> (#[trigger] old(entities)@[k]).wf(),
        decreases entities@.len() - i,
    {
        entities[i].update();
        i = i + 1;
    }
}

/// Entity `j` of `t` carries the virus of entity `i`, which is contagious in
/// `t` and was within reach of `j` in `s`.
pub open spec fn infected_by(s: Seq<Entity>, t: Seq<Entity>, j: int, i: int) -> bool {
    &&& 0 <= i < t.len()
    &&& i != j
    &&& is_contagious(t[i].status)
    &&& t[j].status == exposed(carried(t[i].status))
    &&& in_reach(carried(t[i].status), s[j].pos, s[i].pos)
}

/// Entity `j` kept its status, or was healthy and caught the virus of a
/// contagious entity in reach.
pub open spec fn traced(s: Seq<Entity>, t: Seq<Entity>, j: int) -> bool {
    t[j].status == s[j].status || (s[j].status is Healthy && exists|i: int| #[trigger] infected_by(s, t, j, i))
}

/// A contact of healthy `j` with contagious `i` in reach that passes the
/// virus on whatever the roll.
pub open spec fn sure_contact(s: Seq<Entity>, j: int, i: int) -> bool {
    &&& 0 <= i < s.len()
    &&& 0 <= j < s.len()
    &&& i != j
    &&& s[j].status is Healthy
    &&& is_contagious(s[i].status)
    &&& in_reach(carried(s[i].status), s[j].pos, s[i].pos)
    &&& forall|roll: int| 0 <= roll < ROLL_SCALE ==> #[trigger] transmits(carried(s[i].status), s[j].vaccinated, roll)
}

/// What the contact scan keeps of entity `k`, and how its status may change.
pub open spec fn scan_kept(s: Seq<Entity>, t: Seq<Entity>, k: int) -> bool {
    &&& t[k].pos == s[k].pos
    &&& t[k].waypoints@ == s[k].waypoints@
    &&& same_identity(s[k], t[k])
    &&& contact_step(s[k].status, t[k].status)
    &&& traced(s, t, k)
}

/// `t` is what the contact scan can make of `s`: positions, routes and
/// identities stay, every new infection comes from a contagious entity in
/// reach, and every sure contact infects.
pub open spec fn scanned(s: Seq<Entity>, t: Seq<Entity>) -> bool {
    &&& t.len() == s.len()
    &&& forall|k: int| 0 <= k < s.len() ==> #[trigger] scan_kept(s, t, k)
    &&& forall|j: int, i: int| #[trigger] sure_contact(s, j, i) ==> t[j].status is Incubating
    &&& !any_contagious(s) || s.len() <= 1 ==> forall|k: int| 0 <= k < s.len() ==> (#[trigger] t[k]).status == s[k].status
}

/// The pair `{a, b}` comes before pair `(oi, oj)` in scan order.
pub open spec fn pair_done(a: int, b: int, oi: int, oj: int) -> bool {
    let (lo, hi) = if a < b { (a, b) } else { (b, a) };
    lo < oi || (lo == oi && hi < oj)
}

/// The contact scan has handled every pair before `(oi, oj)`.
pub open spec fn scan_progress(s: Seq<Entity>, t: Seq<Entity>, oi: int, oj: int) -> bool {
    &&& t.len() == s.len()
    &&& forall|k: int| 0 <= k < s.len() ==> #[trigger] scan_kept(s, t, k)
    &&& forall|j: int, i: int| #[trigger] sure_contact(s, j, i) && pair_done(j, i, oi, oj) ==> t[j].status is Incubating
    &&& !any_contagious(s) || s.len() <= 1 ==> forall|k: int| 0 <= k < s.len() ==> (#[trigger] t[k]).status == s[k].status
}

proof fn lemma_scan_start(s: Seq<Entity>)
    ensures
        scan_progress(s, s, 0, 0),
{
    assert forall|k: int| 0 <= k < s.len() implies #[trigger] scan_kept(s, s, k) by {
        assert(s[k].waypoints@ =~= s[k].waypoints@);
    }
}

/// One contact of target `x` with source `y` keeps the scan's progress.
proof fn lemma_scan_contact(s: Seq<Entity>, t: Seq<Entity>, u: Seq<Entity>, x: int, y: int, oi: int, oj: int)
    requires
        scan_progress(s, t, oi, oj),
        0 <= x < t.len(),
        0 <= y < t.len(),
        x != y,
        (x == oi && y == oj) || (x == oj && y == oi),
        t[x].status is Healthy,
        is_contagious(t[y].status),
        u.len() == t.len(),
        forall|k: int| 0 <= k < t.len() && k != x ==> #[trigger] u[k] == t[k],
        u[x].pos == t[x].pos,
        u[x].waypoints@ == t[x].waypoints@,
        same_identity(t[x], u[x]),
        !in_reach(carried(t[y].status), t[x].pos, t[y].pos) ==> u[x].status == t[x].status,
        in_reach(carried(t[y].status), t[x].pos, t[y].pos) ==> exists|roll: int|
            0 <= roll < ROLL_SCALE && u[x].status == if #[trigger] transmits(carried(t[y].status), t[x].vaccinated, roll) {
                exposed(carried(t[y].status))
            } else {
                t[x].status
            },
    ensures
        scan_progress(s, u, oi, oj + 1),
{
    assert(scan_kept(s, t, x));
    assert(scan_kept(s, t, y));
    assert forall|k: int| 0 <= k < s.len() implies #[trigger] scan_kept(s, u, k) by {
        assert(scan_kept(s, t, k));
        if k == x {
            if u[x].status != s[x].status {
                assert(infected_by(s, u, x, y));
            }
        } else if u[k].status != s[k].status {
            let w = choose|w: int| #[trigger] infected_by(s, t, k, w);
            assert(w != x);
            assert(infected_by(s, u, k, w));
        }
    }
    assert forall|j: int, i: int| #[trigger] sure_contact(s, j, i) && pair_done(j, i, oi, oj + 1) implies u[j].status is Incubating by {
        assert(scan_kept(s, t, j));
        assert(scan_kept(s, t, i));
        if pair_done(j, i, oi, oj) {
            if j == x {
                assert(t[x].status is Incubating);
            }
        } else {
            assert(j == x && i == y);
            let roll = choose|roll: int|
                0 <= roll < ROLL_SCALE && u[x].status == if #[trigger] transmits(carried(t[y].status), t[x].vaccinated, roll) {
                    exposed(carried(t[y].status))
                } else {
                    t[x].status
                };
            assert(transmits(carried(s[i].status), s[j].vaccinated, roll));
        }
    }
    if !any_contagious(s) {
        assert(t[y].status == s[y].status);
        assert(is_contagious(s[y].status));
    }
}

/// A pair that calls for no contact keeps the scan's progress.
proof fn lemma_scan_skip(s: Seq<Entity>, t: Seq<Entity>, oi: int, oj: int)
    requires
        scan_progress(s, t, oi, oj),
        0 <= oi < oj < t.len(),
        !(t[oi].status is Healthy && is_contagious(t[oj].status)),
        !(t[oj].status is Healthy && is_contagious(t[oi].status)),
    ensures
        scan_progress(s, t, oi, oj + 1),
{
    assert forall|j: int, i: int| #[trigger] sure_contact(s, j, i) && pair_done(j, i, oi, oj + 1) implies t[j].status is Incubating by {
        assert(scan_kept(s, t, j));
        assert(scan_kept(s, t, i));
        if !pair_done(j, i, oi, oj) {
            assert(t[i].status == s[i].status);
        }
    }
}

/// The contact scan: every pair `i < j` where exactly one side is contagious
/// and the other healthy is a contact, in order.
fn spread(entities: &mut Vec<Entity>)
    requires
        forall|i: int| 0 <= i < old(entities)@.len() ==> (#[trigger] old(entities)@[i]).wf(),
    ensures
        scanned(old(entities)@, final(entities)@),
{
    let n = entities.len();
    let ghost s = entities@;
    proof {
        lemma_scan_start(s);
    }
    let mut i: usize = 0;
    while i < n
        invariant
            i <= n == entities@.len() == s.len(),
            s == old(entities)@,
            forall|k: int| 0 <= k < n ==> (#[trigger] s[k]).wf(),
            scan_progress(s, entities@, i as int, 0),
        decreases n - i,
    {
        proof {
            assert forall|j: int, k: int| #[trigger] sure_contact(s, j, k) && pair_done(j, k, i as int, i + 1)
                implies entities@[j].status is Incubating by {
                assert(pair_done(j, k, i as int, 0));
            }
        }
        let mut j: usize = i + 1;
        while j < n
            invariant
                i < n,
                i + 1 <= j <= n == entities@.len() == s.len(),
                s == old(entities)@,
                forall|k: int| 0 <= k < n ==> (#[trigger] s[k]).wf(),
                scan_progress(s, entities@, i as int, j as int),
            decreases n - j,
        {
            let first = entities[i].status;
            let second = entities[j].status;
            let pick: Option<(usize, usize, Virus)> = match (first, second) {
                (Status::Infected(v, _), Status::Healthy) => Some((j, i, v)),
                (Status::Incubating(v, _), Status::Healthy) => Some((j, i, v)),
                (Status::Healthy, Status::Infected(v, _)) => Some((i, j, v)),
                (Status::Healthy, Status::Incubating(v, _)) => Some((i, j, v)),
                _ => None,
            };
            match pick {
                Some((x, y, v)) => {
                    let ghost t = entities@;
                    proof {
                        assert(scan_kept(s, t, x as int));
                        assert(scan_kept(s, t, y as int));
                        assert(s[y as int].wf());
                    }
                    let src = entities[y].pos;
                    contact(&mut entities[x], v, src);
                    proof {
                        lemma_scan_contact(s, t, entities@, x as int, y as int, i as int, j as int);
                    }
                },
                None => {
                    proof {
                        lemma_scan_skip(s, entities@, i as int, j as int);
                    }
                },
            }
            j = j + 1;
        }
        proof {
            let t = entities@;
            assert forall|a: int, b: int| #[trigger] sure_contact(s, a, b) && pair_done(a, b, i + 1, 0)
                implies t[a].status is Incubating by {
                assert(pair_done(a, b, i as int, n as int));
            }
        }
        i = i + 1;
    }
    proof {
        let t = entities@;
        assert forall|a: int, b: int| #[trigger] sure_contact(s, a, b) implies t[a].status is Incubating by {
            assert(pair_done(a, b, n as int, 0));
        }
    }
}

/// Gives every entity its route for the half-day that begins.
fn assign_routes(entities: &mut Vec<Entity>, buildings: &Vec<Building>, store_ids: &Vec<usize>, morning: bool, quarantine: bool)
    requires
        population_ok(old(entities)@, buildings@.len() as int),
        stores_ok(store_ids@, buildings@),
        store_ids@.len() <= 0x1_0000_0000,
        !morning && old(entities)@.len() > 0 ==> store_ids@.len() > 0,
    ensures
        final(entities)@.len() == old(entities)@.len(),
        population_ok(final(entities)@, buildings@.len() as int),
        forall|i: int| 0 <= i < old(entities)@.len() ==> commute_step(
            #[trigger] old(entities)@[i],
            final(entities)@[i],
            buildings@,
            store_ids@,
            morning,
            quarantine,
        ),
{
    let mut i: usize = 0;
    while i < entities.len()
        invariant
            i <= entities@.len() == old(entities)@.len(),
            population_ok(entities@, buildings@.len() as int),
            stores_ok(store_ids@, buildings@),
            store_ids@.len() <= 0x1_0000_0000,
            !morning && old(entities)@.len() > 0 ==> store_ids@.len() > 0,
            forall|k: int| 0 <= k < i ==> commute_step(#[trigger] old(entities)@[k], entities@[k], buildings@, store_ids@, morning, quarantine),
            forall|k: int| i <= k < entities@.len() ==> #[trigger] entities@[k] == old(entities)@[k],
        decreases entities@.len() - i,
    {
        let ghost a = entities@[i as int];
        assert(entity_ok(entities@[i as int], buildings@.len() as int));
        let status = entities[i].status;
        let skip = match status {
            Status::Dead => true,
            Status::Infected(_, d) => quarantine && d > QUARANTINE_DAYS,
            _ => false,
        };
        if skip {
            assert(entities@[i as int].waypoints@.subrange(0, a.waypoints@.len() as int) =~= a.waypoints@);
        } else if morning {
            let to = block_to_pos(buildings[entities[i].workplace_id].block);
            entities[i].walk_to(to);
        } else {
            let home = block_to_pos(buildings[entities[i].house_id].block);
            let coin = random_below(2);
            if coin == 0 {
                let k = random_below(store_ids.len() as u64) as usize;
                let store = block_to_pos(buildings[store_ids[k]].block);
                let from = entities[i].pos;
                let end = entities[i].plan_walk(from, store);
                let ghost mid = entities@[i as int];
                entities[i].walk(end, home);
                proof {
                    let b = entities@[i as int];
                    let n = a.waypoints@.len() as int;
                    let r = added(a, b);
                    assert(b.waypoints@.len() == n + 16);
                    assert(b.waypoints@.subrange(0, n) =~= mid.waypoints@.subrange(0, n));
                    assert(r.subrange(0, 8) =~= mid.waypoints@.subrange(n, n + 8));
                    assert(r.subrange(8, 16) =~= added(mid, b));
                    assert(r[7] == mid.waypoints@[n + 7]);
                    assert(detour(r, a.pos, store, home));
                    assert(0 <= k < store_ids@.len());
                    assert(store == center(buildings@[store_ids@[k as int] as int]));
                    assert(home == center(buildings@[a.house_id as int]));
                    assert(detour(added(a, b), a.pos, center(buildings@[store_ids@[k as int] as int]), center(buildings@[a.house_id as int])));
                    assert(extends(a, b));
                    assert(commute_step(a, b, buildings@, store_ids@, morning, quarantine));
                }
            } else {
                entities[i].walk_to(home);
            }
        }
        i = i + 1;
    }
}

impl Simulation {
    /// Every index names a building, every store id a store, every entity
    /// lies in the world, and the population fits the census counts.
    pub open spec fn wf(&self) -> bool {
        &&& self.entities@.len() <= MAX_POPULATION
        &&& self.buildings@.len() <= MAX_BUILDINGS
        &&& population_ok(self.entities@, self.buildings@.len() as int)
        &&& stores_ok(self.store_ids@, self.buildings@)
        &&& self.store_ids@.len() <= self.buildings@.len()
    }

    /// An empty town on day zero, in the evening, with the given quarantine policy.
    pub fn new(quarantine: bool) -> (r: Self)
        ensures
            r.wf(),
            r.entities@.len() == 0,
            r.buildings@.len() == 0,
            r.store_ids@.len() == 0,
            r.days == 0,
            !r.morning,
            r.quarantine == quarantine,
            r.data@.len() == 0,
    {
        Simulation {
            entities: Vec::new(),
            buildings: Vec::new(),
            store_ids: Vec::new(),
            days: 0,
            morning: false,
            quarantine,
            data: Vec::new(),
        }
    }

    /// Adds an entity and returns its id.
    pub fn spawn(&mut self, entity: Entity) -> (id: usize)
        requires
            old(self).wf(),
            old(self).entities@.len() < MAX_POPULATION,
            entity_ok(entity, old(self).buildings@.len() as int),
        ensures
            final(self).wf(),
            final(self).entities@ == old(self).entities@.push(entity),
            id == old(self).entities@.len(),
            final(self).buildings == old(self).buildings,
            final(self).store_ids == old(self).store_ids,
            final(self).days == old(self).days,
            final(self).morning == old(self).morning,
            final(self).quarantine == old(self).quarantine,
            final(self).data == old(self).data,
    {
        self.entities.push(entity);
        proof {
            assert forall|i: int| 0 <= i < self.entities@.len() implies entity_ok(#[trigger] self.entities@[i], self.buildings@.len() as int) by {
                if i < old(self).entities@.len() {
                    assert(self.entities@[i] == old(self).entities@[i]);
                }
            }
        }
        self.entities.len() - 1
    }

    /// Places a building and returns its id; a store is also listed in `store_ids`.
    pub fn build(&mut self, building: Building) -> (id: usize)
        requires
            old(self).wf(),
            old(self).buildings@.len() < MAX_BUILDINGS,
        ensures
            final(self).wf(),
            id == old(self).buildings@.len(),
            final(self).buildings@ == old(self).buildings@.push(building),
            final(self).store_ids@ == if building.kind == BuildingKind::Store {
                old(self).store_ids@.push(id)
            } else {
                old(self).store_ids@
            },
            final(self).entities == old(self).entities,
            final(self).days == old(self).days,
            final(self).morning == old(self).morning,
            final(self).quarantine == old(self).quarantine,
            final(self).data == old(self).data,
    {
        let id = self.buildings.len();
        if let BuildingKind::Store = building.kind {
            self.store_ids.push(id);
        }
        self.buildings.push(building);
        proof {
            assert forall|k: int| 0 <= k < self.store_ids@.len() implies (#[trigger] self.store_ids@[k]) < self.buildings@.len()
                && self.buildings@[self.store_ids@[k] as int].kind == BuildingKind::Store by {
                if k < old(self).store_ids@.len() {
                    assert(self.store_ids@[k] == old(self).store_ids@[k]);
                }
            }
            assert forall|i: int| 0 <= i < self.entities@.len() implies entity_ok(#[trigger] self.entities@[i], self.buildings@.len() as int) by {
                assert(entity_ok(old(self).entities@[i], old(self).buildings@.len() as int));
            }
        }
        id
    }

    /// A day transition: records the census of the population as it stands,
    /// runs the health machine over every entity, and counts the day.
    pub fn day(&mut self)
        requires
            old(self).wf(),
            old(self).days < Days::MAX,
        ensures
            final(self).wf(),
            final(self).data@ == old(self).data@.push(census_of(old(self).entities@)),
            final(self).data@.last().count_sum() == final(self).entities@.len(),
            records_sum_to(old(self).data@, old(self).entities@.len() as int)
                ==> records_sum_to(final(self).data@, final(self).entities@.len() as int),
            (forall|i: int| 0 <= i < old(self).entities@.len() ==> (#[trigger] old(self).entities@[i]).status is Healthy) ==> {
                let d = final(self).data@.last();
                &&& forall|i: int| 0 <= i < final(self).entities@.len() ==> (#[trigger] final(self).entities@[i]).status is Healthy
                &&& d.recovered == 0 && d.incubating == 0 && d.infected == 0 && d.dead == 0
                &&& d.healthy + d.vaccinated == final(self).entities@.len()
            },
            final(self).days == old(self).days + 1,
            final(self).entities@.len() == old(self).entities@.len(),
            forall|i: int| 0 <= i < old(self).entities@.len() ==> day_step(#[trigger] old(self).entities@[i], final(self).entities@[i]),
            final(self).buildings == old(self).buildings,
            final(self).store_ids == old(self).store_ids,
            final(self).morning == old(self).morning,
            final(self).quarantine == old(self).quarantine,
    {
        let datum = census(&self.entities);
        progress_day(&mut self.entities);
        self.data.push(datum);
        self.days = self.days + 1;
        proof {
            lemma_census_total(old(self).entities@);
            if forall|i: int| 0 <= i < old(self).entities@.len() ==> (#[trigger] old(self).entities@[i]).status is Healthy {
                lemma_healthy_census(old(self).entities@);
                assert forall|i: int| 0 <= i < self.entities@.len() implies (#[trigger] self.entities@[i]).status is Healthy by {
                    assert(day_step(old(self).entities@[i], self.entities@[i]));
                    assert(old(self).entities@[i].status is Healthy);
                }
            }
            if records_sum_to(old(self).data@, old(self).entities@.len() as int) {
                assert forall|d: int| 0 <= d < self.data@.len() implies (#[trigger] self.data@[d]).count_sum()
                    == self.entities@.len() by {
                    if d < old(self).data@.len() {
                        assert(self.data@[d] == old(self).data@[d]);
                    }
                }
            }
        }
        proof {
            assert forall|i: int| 0 <= i < self.entities@.len() implies entity_ok(#[trigger] self.entities@[i], self.buildings@.len() as int) by {
                assert(entity_ok(old(self).entities@[i], old(self).buildings@.len() as int));
                assert(day_step(old(self).entities@[i], self.entities@[i]));
            }
        }
    }

    /// Whether every entity has arrived or is dead.
    pub fn arrived(&self) -> (r: bool)
        ensures
            r == all_arrived(self.entities@),
    {
        let mut i: usize = 0;
        while i < self.entities.len()
            invariant
                i <= self.entities@.len(),
                forall|k: int| 0 <= k < i ==> (#[trigger] self.entities@[k]).waypoints@.len() == 0 || self.entities@[k].status is Dead,
            decreases self.entities@.len() - i,
        {
            let e = &self.entities[i];
            let dead = match e.status {
                Status::Dead => true,
                _ => false,
            };
            if !(e.waypoints.len() == 0 || dead) {
                return false;
            }
            i = i + 1;
        }
        true
    }

    /// The contact scan over every pair of entities.
    pub fn infections(&mut self)
        requires
            old(self).wf(),
        ensures
            final(self).wf(),
            scanned(old(self).entities@, final(self).entities@),
            final(self).buildings == old(self).buildings,
            final(self).store_ids == old(self).store_ids,
            final(self).days == old(self).days,
            final(self).morning == old(self).morning,
            final(self).quarantine == old(self).quarantine,
            final(self).data == old(self).data,
    {
        proof {
            assert forall|i: int| 0 <= i < self.entities@.len() implies (#[trigger] self.entities@[i]).wf() by {
                assert(entity_ok(self.entities@[i], self.buildings@.len() as int));
            }
        }
        spread(&mut self.entities);
        proof {
            assert forall|i: int| 0 <= i < self.entities@.len() implies entity_ok(#[trigger] self.entities@[i], self.buildings@.len() as int) by {
                assert(entity_ok(old(self).entities@[i], old(self).buildings@.len() as int));
                assert(scan_kept(old(self).entities@, self.entities@, i));
            }
        }
    }

    /// One tick. When every entity has arrived or died, the morning/evening
    /// flag flips; on the flip to morning a day transition runs; then every
    /// live entity that is not quarantined gets its next route. Then every
    /// entity moves one step, and the contact scan runs.
    pub fn update(&mut self)
        requires
            old(self).wf(),
            old(self).days < Days::MAX,
            old(self).entities@.len() > 0 ==> old(self).store_ids@.len() > 0,
        ensures
            final(self).wf(),
            final(self).entities@.len() == old(self).entities@.len(),
            final(self).morning == (old(self).morning != all_arrived(old(self).entities@)),
            final(self).days == if all_arrived(old(self).entities@) && !old(self).morning {
                old(self).days + 1
            } else {
                old(self).days as int
            },
            final(self).data@ == if all_arrived(old(self).entities@) && !old(self).morning {
                old(self).data@.push(census_of(old(self).entities@))
            } else {
                old(self).data@
            },
            final(self).data@.len() > old(self).data@.len() ==> final(self).data@.last().count_sum()
                == final(self).entities@.len(),
            records_sum_to(old(self).data@, old(self).entities@.len() as int)
                ==> records_sum_to(final(self).data@, final(self).entities@.len() as int),
            forall|i: int| 0 <= i < old(self).entities@.len() ==> {
                let (a, b) = (#[trigger] old(self).entities@[i], final(self).entities@[i]);
                &&& same_identity(a, b)
                &&& may_follow(a.status, b.status)
                &&& a.status is Dead ==> b.status is Dead && b.pos == a.pos
                &&& old(self).quarantine && a.waypoints@.len() == 0 && stays_home(b.status, old(self).quarantine)
                    ==> b.waypoints@.len() == 0
                &&& all_arrived(old(self).entities@) && stays_home(b.status, old(self).quarantine)
                    ==> b.waypoints@.len() == 0
                &&& old(self).entities@.len() == 1 && a.status is Healthy ==> b.status is Healthy
            },
            exists|m: Seq<Entity>|
                #[trigger] prepared(
                    old(self).entities@,
                    m,
                    old(self).buildings@,
                    old(self).store_ids@,
                    all_arrived(old(self).entities@),
                    final(self).morning,
                    old(self).quarantine,
                ) && scanned(m, final(self).entities@),
            final(self).buildings == old(self).buildings,
            final(self).store_ids == old(self).store_ids,
            final(self).quarantine == old(self).quarantine,
    {
        let ghost start = self.entities@;
        proof {
            lemma_census_total(start);
        }
        let commuted = self.arrived();
        let ghost mut dayed = self.entities@;
        if commuted {
            self.morning = !self.morning;
            if self.morning {
                self.day();
            }
            proof {
                dayed = self.entities@;
            }
            let ghost before = self.entities@;
            assign_routes(&mut self.entities, &self.buildings, &self.store_ids, self.morning, self.quarantine);
            proof {
                assert forall|i: int| 0 <= i < start.len() implies {
                    let (a, b) = (#[trigger] start[i], self.entities@[i]);
                    &&& same_identity(a, b)
                    &&& b.pos == a.pos
                    &&& (a.status is Dead ==> b.status is Dead)
                    &&& stays_home(b.status, self.quarantine) ==> b.waypoints@ == a.waypoints@
                    &&& (exists|roll: int| 0 <= roll < ROLL_SCALE && #[trigger] status_after_day(a.status, a.vaccinated, roll) == b.status)
                        || b.status == a.status
                } by {
                    let a = start[i];
                    let m = before[i];
                    let b = self.entities@[i];
                    assert(commute_step(m, b, self.buildings@, self.store_ids@, self.morning, self.quarantine));
                    if self.morning {
                        assert(day_step(a, m));
                        let roll = choose|roll: int| 0 <= roll < ROLL_SCALE && m.status == #[trigger] status_after_day(a.status, a.vaccinated, roll);
                        assert(status_after_day(a.status, a.vaccinated, roll) == b.status);
                    } else {
                        assert(m == a);
                    }
                    if stays_home(b.status, self.quarantine) {
                        assert(b.waypoints@ =~= b.waypoints@.subrange(0, m.waypoints@.len() as int));
                    }
                }
            }
        }
        let ghost routed = self.entities@;
        proof {
            assert forall|i: int| 0 <= i < self.entities@.len() implies (#[trigger] self.entities@[i]).wf() by {
                assert(entity_ok(self.entities@[i], self.buildings@.len() as int));
            }
        }
        move_all(&mut self.entities);
        let ghost moved = self.entities@;
        proof {
            assert forall|i: int| 0 <= i < self.entities@.len() implies entity_ok(#[trigger] self.entities@[i], self.buildings@.len() as int) by {
                assert(entity_ok(routed[i], self.buildings@.len() as int));
                assert(move_step(routed[i], self.entities@[i]));
            }
        }
        self.infections();
        proof {
            assert(commuted == all_arrived(old(self).entities@));
            assert forall|i: int| 0 <= i < old(self).entities@.len() implies #[trigger] readied(
                old(self).entities@[i],
                moved[i],
                old(self).buildings@,
                old(self).store_ids@,
                all_arrived(old(self).entities@),
                self.morning,
                old(self).quarantine,
            ) by {
                let w = (dayed[i], routed[i]);
                if !commuted {
                    assert(dayed[i] == start[i]);
                    assert(routed[i] == dayed[i]);
                } else if !self.morning {
                    assert(dayed[i] == start[i]);
                }
                assert(move_step(routed[i], moved[i]));
                assert(pre_chain(old(self).entities@[i], w, moved[i], old(self).buildings@, old(self).store_ids@, all_arrived(old(self).entities@), self.morning, old(self).quarantine));
            }
            assert(prepared(old(self).entities@, moved, old(self).buildings@, old(self).store_ids@, all_arrived(old(self).entities@), self.morning, old(self).quarantine));
            assert(scanned(moved, self.entities@));
        }
        proof {
            assert forall|i: int| 0 <= i < start.len() implies {
                let (a, b) = (#[trigger] start[i], self.entities@[i]);
                &&& same_identity(a, b)
                &&& may_follow(a.status, b.status)
                &&& a.status is Dead ==> b.status is Dead && b.pos == a.pos
                &&& self.quarantine && a.waypoints@.len() == 0 && stays_home(b.status, self.quarantine)
                    ==> b.waypoints@.len() == 0
                &&& all_arrived(start) && stays_home(b.status, self.quarantine) ==> b.waypoints@.len() == 0
                &&& start.len() == 1 && a.status is Healthy ==> b.status is Healthy
            } by {
                let a = start[i];
                let r = routed[i];
                let m = moved[i];
                let b = self.entities@[i];
                assert(move_step(r, m));
                assert(scan_kept(moved, self.entities@, i));
                if start.len() == 1 {
                    assert(b.status == m.status);
                }
                if !commuted {
                    assert(r == a);
                }
                if a.status is Dead {
                    assert(r.status is Dead);
                }
                if stays_home(b.status, self.quarantine) {
                    assert(b.status == m.status);
                    assert(r.waypoints@ == a.waypoints@);
                    if all_arrived(start) {
                        assert(a.waypoints@.len() == 0 || a.status is Dead);
                    }
                    if a.waypoints@.len() == 0 {
                        assert(tick_route(r.pos, r.waypoints@).1 =~= r.waypoints@);
                    }
                }
            }
            if records_sum_to(old(self).data@, old(self).entities@.len() as int) {
                assert forall|d: int| 0 <= d < self.data@.len() implies (#[trigger] self.data@[d]).count_sum()
                    == self.entities@.len() by {
                    if d < old(self).data@.len() {
                        assert(self.data@[d] == old(self).data@[d]);
                    }
                }
            }
        }
    }
}

} // verus!
