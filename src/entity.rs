use vstd::prelude::*;
use crate::geometry::{fuzz, in_world, Block, Pos};
use crate::health::{status_after_day, transmits, Status, Virus, ROLL_SCALE};
use crate::random::random_below;
use crate::route::{
    advance, is_route, plan_route, route_in_world, tick_route, Waypoint, DELAY_MIN,
    DELAY_SPAN, WEIGHT_MIN, WEIGHT_SPAN,
};

verus! {

/// One member of the population.
#[derive(Clone)]
pub struct Entity {
    pub pos: Pos,
    pub waypoints: Vec<Waypoint>,
    pub status: Status,
    pub vaccinated: bool,
    pub house_id: usize,
    pub workplace_id: usize,
}

#[derive(Clone, Copy, Debug, PartialEq, Eq, Structural)]
pub enum BuildingKind {
    House,
    Workplace,
    Store,
}

/// A building: the grid cell it stands on and its kind.
#[derive(Clone, Copy, Debug, PartialEq, Eq, Structural)]
pub struct Building {
    pub block: Block,
    pub kind: BuildingKind,
}

/// Squared distance between two points.
pub open spec fn dist_sq(a: Pos, b: Pos) -> int {
    (a.x - b.x) * (a.x - b.x) + (a.y - b.y) * (a.y - b.y)
}

/// Whether a carrier of `v` at `b` is close enough to reach `a`.
pub open spec fn in_reach(v: Virus, a: Pos, b: Pos) -> bool {
    dist_sq(a, b) <= v.radius * v.radius
}

/// The fields that never change after an entity is made.
pub open spec fn same_identity(a: Entity, b: Entity) -> bool {
    a.vaccinated == b.vaccinated && a.house_id == b.house_id && a.workplace_id == b.workplace_id
}

/// Status the health machine gives a healthy entity that `v` reaches.
pub open spec fn exposed(v: Virus) -> Status {
    Status::Incubating(v, v.incubation)
}

impl Entity {
    /// Positions and route points lie in the world.
    pub open spec fn wf(&self) -> bool {
        in_world(self.pos) && route_in_world(self.waypoints@)
    }

    /// An entity at `pos` with no route, infected by `virus` for its full
    /// duration when one is given, healthy otherwise.
    pub fn new(pos: Pos, virus: Option<Virus>, vaccinated: bool, house_id: usize, workplace_id: usize) -> (r: Self)
        ensures
            r.pos == pos,
            r.waypoints@.len() == 0,
            r.status == (match virus {
                Some(v) => Status::Infected(v, v.duration),
                None => Status::Healthy,
            }),
            r.vaccinated == vaccinated,
            r.house_id == house_id,
            r.workplace_id == workplace_id,
            in_world(pos) ==> r.wf(),
    {
        Entity {
            pos,
            waypoints: Vec::new(),
            status: match virus {
                Some(v) => Status::Infected(v, v.duration),
                None => Status::Healthy,
            },
            vaccinated,
            house_id,
            workplace_id,
        }
    }

    /// One day of the health machine. A roll is drawn only where the
    /// machine needs one (`Infected` with days left).
    pub fn day(&mut self)
        ensures
            exists|roll: int|
                0 <= roll < ROLL_SCALE
                && final(self).status == #[trigger] status_after_day(old(self).status, old(self).vaccinated, roll),
            final(self).pos == old(self).pos,
            final(self).waypoints@ == old(self).waypoints@,
            same_identity(*final(self), *old(self)),
    {
        let roll = match self.status {
            Status::Infected(_, d) => if d > 0 { random_below(ROLL_SCALE) } else { 0 },
            _ => 0,
        };
        self.status = self.status.after_day(self.vaccinated, roll);
    }

    /// One tick of movement: a dead entity stays where it is; any other
    /// moves along its route as `tick_route` says.
    pub fn update(&mut self)
        requires
            old(self).wf(),
        ensures
            final(self).wf(),
            final(self).status == old(self).status,
            same_identity(*final(self), *old(self)),
            old(self).status is Dead ==> final(self).pos == old(self).pos
                && final(self).waypoints@ == old(self).waypoints@,
            !(old(self).status is Dead) ==> (final(self).pos, final(self).waypoints@)
                == tick_route(old(self).pos, old(self).waypoints@),
    {
        if let Status::Dead = self.status {
            return;
        }
        advance(&mut self.pos, &mut self.waypoints);
    }

    /// Appends a route from `from` to `to` and returns the point it ends on.
    pub(crate) fn plan_walk(&mut self, from: Pos, to: Pos) -> (end: Pos)
        requires
            old(self).wf(),
            in_world(from),
            in_world(to),
        ensures
            final(self).wf(),
            final(self).pos == old(self).pos,
            final(self).status == old(self).status,
            same_identity(*final(self), *old(self)),
            final(self).waypoints@.len() == old(self).waypoints@.len() + 8,
            final(self).waypoints@.subrange(0, old(self).waypoints@.len() as int) == old(self).waypoints@,
            is_route(final(self).waypoints@.subrange(old(self).waypoints@.len() as int, final(self).waypoints@.len() as int), from, to),
            final(self).waypoints@.last() == Waypoint::Point(end),
            in_world(end),
    {
        let weight = WEIGHT_MIN + random_below(WEIGHT_SPAN as u64) as i64;
        let delay = DELAY_MIN + random_below(DELAY_SPAN as u64) as u32;
        let end = fuzz(to);
        let mut steps = plan_route(from, to, weight, delay, end);
        let ghost before = self.waypoints@;
        let ghost planned = steps@;
        self.waypoints.append(&mut steps);
        proof {
            let w = self.waypoints@;
            assert(w =~= before + planned);
            assert(w.subrange(0, before.len() as int) =~= before);
            assert(w.subrange(before.len() as int, w.len() as int) =~= planned);
            assert(is_route(planned, from, to));
            assert forall|i: int| 0 <= i < w.len() implies crate::route::wp_in_world(#[trigger] w[i]) by {
                if i >= before.len() {
                    assert(w[i] == planned[i - before.len()]);
                }
            }
        }
        assert(crate::geometry::clamped(end.x as int, end.y as int) == end);
        end
    }

    /// Appends a route from `from` to `to`: a dwell, then an axis-aligned walk
    /// through a random grid corner, ending near `to`.
    pub fn walk(&mut self, from: Pos, to: Pos)
        requires
            old(self).wf(),
            in_world(from),
            in_world(to),
        ensures
            final(self).wf(),
            final(self).pos == old(self).pos,
            final(self).status == old(self).status,
            same_identity(*final(self), *old(self)),
            final(self).waypoints@.len() == old(self).waypoints@.len() + 8,
            final(self).waypoints@.subrange(0, old(self).waypoints@.len() as int) == old(self).waypoints@,
            is_route(final(self).waypoints@.subrange(old(self).waypoints@.len() as int, final(self).waypoints@.len() as int), from, to),
    {
        self.plan_walk(from, to);
    }

    /// Appends a route from the entity's position to `to`.
    pub fn walk_to(&mut self, to: Pos)
        requires
            old(self).wf(),
            in_world(to),
        ensures
            final(self).wf(),
            final(self).pos == old(self).pos,
            final(self).status == old(self).status,
            same_identity(*final(self), *old(self)),
            final(self).waypoints@.len() == old(self).waypoints@.len() + 8,
            final(self).waypoints@.subrange(0, old(self).waypoints@.len() as int) == old(self).waypoints@,
            is_route(final(self).waypoints@.subrange(old(self).waypoints@.len() as int, final(self).waypoints@.len() as int), old(self).pos, to),
    {
        let from = self.pos;
        self.walk(from, to);
    }
}

impl Building {
    pub fn new(block: Block, kind: BuildingKind) -> (r: Self)
        ensures
            r.block == block,
            r.kind == kind,
    {
        Building { block, kind }
    }
}

/// Whether a carrier of `virus` at `pos` reaches `target`.
pub fn reaches(virus: &Virus, target: Pos, pos: Pos) -> (r: bool)
    requires
        in_world(target),
        in_world(pos),
    ensures
        r == in_reach(*virus, target, pos),
{
    let dx = target.x as i128 - pos.x as i128;
    let dy = target.y as i128 - pos.y as i128;
    let rad = virus.radius as i128;
    proof {
        assert(dx * dx <= 0x40_0000_0000_0000_0000_0000_0000) by (nonlinear_arith)
            requires -0x8_0000_0000_0000 <= dx <= 0x8_0000_0000_0000;
        assert(dy * dy <= 0x40_0000_0000_0000_0000_0000_0000) by (nonlinear_arith)
            requires -0x8_0000_0000_0000 <= dy <= 0x8_0000_0000_0000;
        assert(rad * rad <= 0xffff_ffff * 0xffff_ffff) by (nonlinear_arith)
            requires 0 <= rad <= 0xffff_ffff;
        assert(dx * dx >= 0 && dy * dy >= 0) by (nonlinear_arith);
    }
    dx * dx + dy * dy <= rad * rad
}

/// A contact between `entity` and a carrier of `virus` at `pos`. Out of
/// reach nothing happens; in reach a roll is drawn, and the entity becomes
/// `Incubating(virus, virus.incubation)` when the virus transmits on it.
pub(crate) fn contact(entity: &mut Entity, virus: Virus, pos: Pos)
    requires
        old(entity).wf(),
        in_world(pos),
    ensures
        final(entity).pos == old(entity).pos,
        final(entity).waypoints@ == old(entity).waypoints@,
        same_identity(*final(entity), *old(entity)),
        !in_reach(virus, old(entity).pos, pos) ==> final(entity).status == old(entity).status,
        in_reach(virus, old(entity).pos, pos) ==> exists|roll: int|
            0 <= roll < ROLL_SCALE && final(entity).status == if #[trigger] transmits(virus, old(entity).vaccinated, roll) {
                exposed(virus)
            } else {
                old(entity).status
            },
{
    if !reaches(&virus, entity.pos, pos) {
        return;
    }
    let roll = random_below(ROLL_SCALE);
    if virus.transmits(entity.vaccinated, roll) {
        entity.status = Status::Incubating(virus, virus.incubation);
    }
}

} // verus!
