use vstd::prelude::*;

verus! {

pub type Days = u32;

/// One draw of chance: a roll in `0..ROLL_SCALE` stands for `roll / ROLL_SCALE`.
pub const ROLL_SCALE: u64 = 1_000_000;
/// Distance an entity covers in one tick.
pub const ENTITY_VELOCITY: i64 = 3_000;
/// A vaccinated entity keeps one part in `VACCINE_RESIDUAL` of the risk of infection.
pub const VACCINE_RESIDUAL: u64 = 5;

/// A pathogen. `infectivity` and `lethality` are scales counted in millionths,
/// `radius` is the contact distance in sub-units.
#[derive(Clone, Copy, Debug, PartialEq, Eq, Structural)]
pub struct Virus {
    pub infectivity: u32,
    pub lethality: u32,
    pub incubation: Days,
    pub duration: Days,
    pub radius: u32,
}

/// Health of one entity; the countdowns are in days.
#[derive(Clone, Copy, Debug, PartialEq, Eq, Structural)]
pub enum Status {
    Healthy,
    Incubating(Virus, Days),
    Infected(Virus, Days),
    Recovered,
    Dead,
}

/// A roll kills: `roll < lethality`, halved for a vaccinated entity.
pub open spec fn dies(v: Virus, vaccinated: bool, roll: int) -> bool {
    if vaccinated {
        2 * roll < v.lethality
    } else {
        roll < v.lethality
    }
}

/// Status after one day's transition, given the roll drawn for it.
pub open spec fn status_after_day(s: Status, vaccinated: bool, roll: int) -> Status {
    match s {
        Status::Incubating(v, d) => if d == 0 {
            Status::Infected(v, v.duration)
        } else {
            Status::Incubating(v, (d - 1) as Days)
        },
        Status::Infected(v, d) => if d == 0 {
            Status::Recovered
        } else if dies(v, vaccinated, roll) {
            Status::Dead
        } else {
            Status::Infected(v, (d - 1) as Days)
        },
        _ => s,
    }
}

/// A contact passes the virus on when
/// `roll / ROLL_SCALE < infectivity / (2 * radius / velocity) * residual`,
/// written here without division.
pub open spec fn transmits(v: Virus, vaccinated: bool, roll: int) -> bool {
    roll * 2 * v.radius * (if vaccinated { VACCINE_RESIDUAL as int } else { 1 })
        < v.infectivity * ENTITY_VELOCITY
}

pub open spec fn is_contagious(s: Status) -> bool {
    s is Incubating || s is Infected
}

/// The virus that a contagious status carries.
pub open spec fn carried(s: Status) -> Virus
    recommends
        is_contagious(s),
{
    match s {
        Status::Incubating(v, _) => v,
        Status::Infected(v, _) => v,
        _ => arbitrary(),
    }
}

/// How a status may change within one tick: `Dead` and `Recovered` stay put,
/// countdowns never rise while the state holds, and every other move is one
/// of the machine's forward transitions.
pub open spec fn may_follow(a: Status, b: Status) -> bool {
    match a {
        Status::Healthy => b is Healthy || b is Incubating,
        Status::Incubating(v, d) => match b {
            Status::Incubating(w, e) => w == v && e <= d,
            Status::Infected(w, e) => w == v && e == v.duration,
            _ => false,
        },
        Status::Infected(v, d) => match b {
            Status::Infected(w, e) => w == v && e <= d,
            Status::Recovered => true,
            Status::Dead => true,
            _ => false,
        },
        Status::Recovered => b is Recovered,
        Status::Dead => b is Dead,
    }
}

impl Virus {
    /// Whether a contact with an entity of the given vaccination passes this
    /// virus on, for the roll drawn.
    pub fn transmits(&self, vaccinated: bool, roll: u64) -> (r: bool)
        ensures
            r == transmits(*self, vaccinated, roll as int),
    {
        let residual: u128 = if vaccinated { VACCINE_RESIDUAL as u128 } else { 1 };
        let (a, b, c) = (roll as u128, self.radius as u128, self.infectivity as u128);
        proof {
            assert(a * 2 * b * residual <= 0xffff_ffff_ffff_ffff * 2 * 0xffff_ffff * 5)
                by (nonlinear_arith)
                requires a <= 0xffff_ffff_ffff_ffff, b <= 0xffff_ffff, residual <= 5;
            assert(c * 3000 <= 0xffff_ffff * 3000) by (nonlinear_arith)
                requires c <= 0xffff_ffff;
        }
        a * 2 * b * residual < c * ENTITY_VELOCITY as u128
    }
}

impl Status {
    /// The status after one day, for the roll drawn (used only by an
    /// `Infected` status with days left).
    pub fn after_day(self, vaccinated: bool, roll: u64) -> (r: Status)
        ensures
            r == status_after_day(self, vaccinated, roll as int),
    {
        match self {
            Status::Incubating(v, d) => if d == 0 {
                Status::Infected(v, v.duration)
            } else {
                Status::Incubating(v, d - 1)
            },
            Status::Infected(v, d) => if d == 0 {
                Status::Recovered
            } else {
                let dead = if vaccinated {
                    (roll as u128) * 2 < v.lethality as u128
                } else {
                    (roll as u128) < v.lethality as u128
                };
                if dead {
                    Status::Dead
                } else {
                    Status::Infected(v, d - 1)
                }
            },
            _ => self,
        }
    }
}

} // verus!
