use vstd::prelude::*;
use vstd::arithmetic::div_mod::{
    lemma_div_is_ordered, lemma_div_is_ordered_by_denominator, lemma_div_multiples_vanish, lemma_div_pos_is_pos,
};
use crate::geometry::{
    clamp, clamp_coord, clamped, center_of, floor_cell, floor_div, in_world, manhattan, recenter, sign, Pos,
    CELL_WIDTH, FUZZ_SPAN, HALF_CELL, WORLD_LIMIT,
};
use crate::health::ENTITY_VELOCITY;

verus! {

/// Weights of the intermediate point are counted in millionths of the way.
pub const WEIGHT_SCALE: i64 = 1_000_000;
/// Smallest weight of the intermediate point.
pub const WEIGHT_MIN: i64 = 200_000;
/// Weights are drawn from `WEIGHT_MIN..WEIGHT_MIN + WEIGHT_SPAN`.
pub const WEIGHT_SPAN: i64 = 600_000;
/// Shortest dwell before departure, in ticks.
pub const DELAY_MIN: u32 = 60;
/// Dwell times are drawn from `DELAY_MIN..DELAY_MIN + DELAY_SPAN`.
pub const DELAY_SPAN: u32 = 30;
/// Squared distance within which an entity lands on its target.
pub const GRID_EPSILON_SQ: i128 = 4_000_000;

/// One step of a route.
#[derive(Clone, Copy, Debug, PartialEq, Eq, Structural)]
pub enum Waypoint {
    /// Hold position for this many more ticks.
    Delay(u32),
    /// Travel to this point.
    Point(Pos),
}

pub open spec fn wp_in_world(w: Waypoint) -> bool {
    match w {
        Waypoint::Delay(_) => true,
        Waypoint::Point(p) => in_world(p),
    }
}

pub open spec fn route_in_world(r: Seq<Waypoint>) -> bool {
    forall|i: int| 0 <= i < r.len() ==> wp_in_world(#[trigger] r[i])
}

/// The point `w` millionths of the way from `a` to `b`, rounded down.
pub open spec fn lerp(a: int, b: int, w: int) -> int {
    (a * (WEIGHT_SCALE - w) + b * w) / (WEIGHT_SCALE as int)
}

/// The grid corner the route passes through: the corner of the cell that
/// holds the point `w` of the way from `from` to `to`.
pub open spec fn via_corner(from: Pos, to: Pos, w: int) -> Pos {
    clamped(
        floor_cell(lerp(from.x as int, to.x as int, w)) * CELL_WIDTH,
        floor_cell(lerp(from.y as int, to.y as int, w)) * CELL_WIDTH,
    )
}

/// The corner of the cell of `from` that faces `via`.
pub open spec fn from_corner(from: Pos, via: Pos) -> Pos {
    let cx = center_of(floor_cell(from.x as int));
    let cy = center_of(floor_cell(from.y as int));
    clamped(cx + HALF_CELL * sign(via.x - cx), cy + HALF_CELL * sign(via.y - cy))
}

/// The corner next to `to`, on the side that faces `via`.
pub open spec fn to_corner(to: Pos, via: Pos) -> Pos {
    clamped(to.x - HALF_CELL * sign(to.x - via.x), to.y - HALF_CELL * sign(to.y - via.y))
}

/// The route from `from` to `to` through the corner at weight `w`: a dwell of
/// `delay` ticks, the start, the corner of the start cell, an axis-then-axis
/// walk to `via`, another to the corner by the target, and `end`. Every
/// computed point is pulled back into the world square.
pub open spec fn route(from: Pos, to: Pos, w: int, delay: u32, end: Pos) -> Seq<Waypoint> {
    let via = via_corner(from, to, w);
    let fc = from_corner(from, via);
    let tc = to_corner(to, via);
    seq![
        Waypoint::Delay(delay),
        Waypoint::Point(from),
        Waypoint::Point(fc),
        Waypoint::Point(Pos { x: via.x, y: fc.y }),
        Waypoint::Point(via),
        Waypoint::Point(Pos { x: tc.x, y: via.y }),
        Waypoint::Point(tc),
        Waypoint::Point(clamped(end.x as int, end.y as int)),
    ]
}

/// `end` is `to` moved by less than `FUZZ_SPAN` on each axis, kept in the world.
pub open spec fn jittered(to: Pos, end: Pos) -> bool {
    exists|rx: int, ry: int|
        0 <= rx < 2 * FUZZ_SPAN && 0 <= ry < 2 * FUZZ_SPAN
        && end == #[trigger] clamped(to.x + rx - FUZZ_SPAN, to.y + ry - FUZZ_SPAN)
}

/// A route that the generator can produce from `from` to `to`.
pub open spec fn is_route(r: Seq<Waypoint>, from: Pos, to: Pos) -> bool {
    exists|w: int, delay: u32, end: Pos|
        WEIGHT_MIN <= w < WEIGHT_MIN + WEIGHT_SPAN
        && DELAY_MIN <= delay < DELAY_MIN + DELAY_SPAN
        && jittered(to, end)
        && r == #[trigger] route(from, to, w, delay, end)
}

proof fn lemma_clamped_in_world(x: int, y: int)
    ensures
        in_world(clamped(x, y)),
        clamped(x, y).x == clamp(x),
        clamped(x, y).y == clamp(y),
{
}

fn sign_of(v: i128) -> (r: i128)
    ensures
        r == sign(v as int),
{
    if v >= 0 { 1 } else { -1 }
}

fn lerp_coord(a: i64, b: i64, w: i64) -> (r: i128)
    requires
        -WORLD_LIMIT <= a <= WORLD_LIMIT,
        -WORLD_LIMIT <= b <= WORLD_LIMIT,
        0 <= w <= WEIGHT_SCALE,
    ensures
        r == lerp(a as int, b as int, w as int),
        -WORLD_LIMIT <= r <= WORLD_LIMIT,
{
    let (a, b, w) = (a as i128, b as i128, w as i128);
    let v = WEIGHT_SCALE as i128 - w;
    proof {
        assert(-0x3d09_0000_0000_0000_00 <= a * v <= 0x3d09_0000_0000_0000_00) by (nonlinear_arith)
            requires -0x4_0000_0000_0000 <= a <= 0x4_0000_0000_0000, 0 <= v <= 1_000_000;
        assert(-0x3d09_0000_0000_0000_00 <= b * w <= 0x3d09_0000_0000_0000_00) by (nonlinear_arith)
            requires -0x4_0000_0000_0000 <= b <= 0x4_0000_0000_0000, 0 <= w <= 1_000_000;
        assert(-WORLD_LIMIT * v <= a * v <= WORLD_LIMIT * v) by (nonlinear_arith)
            requires -WORLD_LIMIT <= a <= WORLD_LIMIT, v >= 0;
        assert(-WORLD_LIMIT * w <= b * w <= WORLD_LIMIT * w) by (nonlinear_arith)
            requires -WORLD_LIMIT <= b <= WORLD_LIMIT, w >= 0;
        assert(WORLD_LIMIT * v + WORLD_LIMIT * w == WORLD_LIMIT * WEIGHT_SCALE) by (nonlinear_arith)
            requires v + w == WEIGHT_SCALE;
    }
    let n = a * v + b * w;
    let r = floor_div(n, WEIGHT_SCALE as i128);
    proof {
        let s = WEIGHT_SCALE as int;
        lemma_div_is_ordered(n as int, WORLD_LIMIT * s, s);
        lemma_div_is_ordered(-WORLD_LIMIT * s, n as int, s);
        lemma_div_multiples_vanish(WORLD_LIMIT as int, s);
        lemma_div_multiples_vanish(-WORLD_LIMIT as int, s);
    }
    r
}

/// The waypoints of `route(from, to, weight, delay, end)`.
pub fn plan_route(from: Pos, to: Pos, weight: i64, delay: u32, end: Pos) -> (r: Vec<Waypoint>)
    requires
        in_world(from),
        in_world(to),
        0 <= weight <= WEIGHT_SCALE,
    ensures
        r@ == route(from, to, weight as int, delay, end),
        route_in_world(r@),
{
    let lx = lerp_coord(from.x, to.x, weight);
    let ly = lerp_coord(from.y, to.y, weight);
    let via = Pos {
        x: clamp_coord(floor_div(lx, CELL_WIDTH as i128) * CELL_WIDTH as i128),
        y: clamp_coord(floor_div(ly, CELL_WIDTH as i128) * CELL_WIDTH as i128),
    };
    let center = recenter(from);
    let fc = Pos {
        x: clamp_coord(center.x as i128 + HALF_CELL as i128 * sign_of(via.x as i128 - center.x as i128)),
        y: clamp_coord(center.y as i128 + HALF_CELL as i128 * sign_of(via.y as i128 - center.y as i128)),
    };
    let tc = Pos {
        x: clamp_coord(to.x as i128 - HALF_CELL as i128 * sign_of(to.x as i128 - via.x as i128)),
        y: clamp_coord(to.y as i128 - HALF_CELL as i128 * sign_of(to.y as i128 - via.y as i128)),
    };
    let last = Pos { x: clamp_coord(end.x as i128), y: clamp_coord(end.y as i128) };
    let mut r: Vec<Waypoint> = Vec::new();
    r.push(Waypoint::Delay(delay));
    r.push(Waypoint::Point(from));
    let first = manhattan(fc, via);
    r.push(Waypoint::Point(first[0]));
    r.push(Waypoint::Point(first[1]));
    let second = manhattan(via, tc);
    r.push(Waypoint::Point(second[0]));
    r.push(Waypoint::Point(second[1]));
    r.push(Waypoint::Point(second[2]));
    r.push(Waypoint::Point(last));
    proof {
        let w = weight as int;
        let v = via_corner(from, to, w);
        assert(via == v);
        assert(fc == from_corner(from, v));
        assert(tc == to_corner(to, v));
        assert(r@ =~= route(from, to, w, delay, end));
        lemma_clamped_in_world(end.x as int, end.y as int);
    }
    r
}

/// `r` is the integer square root of `n`.
pub open spec fn is_root(n: int, r: int) -> bool {
    0 <= r && r * r <= n < (r + 1) * (r + 1)
}

/// The integer square root of `n`.
pub open spec fn isqrt(n: int) -> int {
    choose|r: int| #[trigger] is_root(n, r)
}

proof fn lemma_root_unique(n: int, r: int, s: int)
    requires
        0 <= r && r * r <= n < (r + 1) * (r + 1),
        0 <= s && s * s <= n < (s + 1) * (s + 1),
    ensures
        r == s,
{
    if r < s {
        assert((r + 1) * (r + 1) <= s * s) by (nonlinear_arith)
            requires 0 <= r, r + 1 <= s;
    } else if s < r {
        assert((s + 1) * (s + 1) <= r * r) by (nonlinear_arith)
            requires 0 <= s, s + 1 <= r;
    }
}

fn integer_sqrt(n: u128) -> (r: u128)
    requires
        n < 0x100_0000_0000_0000_0000_0000_0000,
    ensures
        r == isqrt(n as int),
        is_root(n as int, r as int),
{
    let mut lo: u128 = 0;
    let mut hi: u128 = 0x10_0000_0000_0000;
    assert(hi * hi == 0x100_0000_0000_0000_0000_0000_0000) by (nonlinear_arith)
        requires hi == 0x10_0000_0000_0000;
    while lo + 1 < hi
        invariant
            lo < hi <= 0x10_0000_0000_0000,
            lo * lo <= n < hi * hi,
        decreases hi - lo,
    {
        let mid = lo + (hi - lo) / 2;
        assert(mid * mid <= 0x100_0000_0000_0000_0000_0000_0000) by (nonlinear_arith)
            requires mid <= 0x10_0000_0000_0000;
        if mid * mid <= n {
            lo = mid;
        } else {
            hi = mid;
        }
    }
    proof {
        let k = lo as int;
        assert(0 <= k && k * k <= n && n < (k + 1) * (k + 1));
        assert(is_root(n as int, k));
        let c = isqrt(n as int);
        assert(is_root(n as int, c));
        lemma_root_unique(n as int, k, c);
    }
    lo
}

/// Share of a per-axis difference `d` covered in one tick over a path of
/// length `len`, rounded toward zero.
pub open spec fn step_coord(d: int, len: int) -> int {
    if d >= 0 {
        d * ENTITY_VELOCITY / len
    } else {
        -((-d) * ENTITY_VELOCITY / len)
    }
}

/// Position and route after one tick of movement along `wps`: a dwell counts
/// down and is dropped at zero; a target within reach (`GRID_EPSILON_SQ`) is
/// landed on and dropped; otherwise the position moves `ENTITY_VELOCITY`
/// toward it (possibly past it), kept inside the world.
pub open spec fn tick_route(pos: Pos, wps: Seq<Waypoint>) -> (Pos, Seq<Waypoint>) {
    if wps.len() == 0 {
        (pos, wps)
    } else {
        match wps[0] {
            Waypoint::Delay(t) => if t == 0 {
                (pos, wps.drop_first())
            } else {
                (pos, wps.update(0, Waypoint::Delay((t - 1) as u32)))
            },
            Waypoint::Point(p) => {
                let dx = p.x - pos.x;
                let dy = p.y - pos.y;
                let n = dx * dx + dy * dy;
                if n <= GRID_EPSILON_SQ {
                    (p, wps.drop_first())
                } else {
                    (clamped(pos.x + step_coord(dx, isqrt(n)), pos.y + step_coord(dy, isqrt(n))), wps)
                }
            },
        }
    }
}

/// Moves one step from `a` toward `b` over a path of length `len`, kept
/// inside the world.
fn step_toward(a: i64, b: i64, len: u128) -> (r: i64)
    requires
        -WORLD_LIMIT <= a <= WORLD_LIMIT,
        -WORLD_LIMIT <= b <= WORLD_LIMIT,
        len >= 1,
    ensures
        r == clamp(a + step_coord(b - a, len as int)),
{
    let d = b as i128 - a as i128;
    let m: u128 = if d >= 0 { d as u128 } else { (-d) as u128 };
    proof {
        let k = m as int;
        lemma_div_is_ordered_by_denominator(k * 3000, 1, len as int);
        lemma_div_pos_is_pos(k * 3000, len as int);
    }
    let s = (m * ENTITY_VELOCITY as u128 / len) as i128;
    if d >= 0 {
        clamp_coord(a as i128 + s)
    } else {
        clamp_coord(a as i128 - s)
    }
}

/// Advances `pos` along `wps` by one tick, as `tick_route` says.
pub fn advance(pos: &mut Pos, wps: &mut Vec<Waypoint>)
    requires
        in_world(*old(pos)),
        route_in_world(old(wps)@),
    ensures
        (*final(pos), final(wps)@) == tick_route(*old(pos), old(wps)@),
        in_world(*final(pos)),
        route_in_world(final(wps)@),
{
    if wps.len() == 0 {
        return;
    }
    match wps[0] {
        Waypoint::Delay(t) => {
            if t == 0 {
                wps.remove(0);
                assert(wps@ =~= old(wps)@.drop_first());
            } else {
                wps.set(0, Waypoint::Delay(t - 1));
            }
        },
        Waypoint::Point(p) => {
            assert(wp_in_world(old(wps)@[0]));
            let dx = p.x as i128 - pos.x as i128;
            let dy = p.y as i128 - pos.y as i128;
            proof {
                assert(dx * dx <= 0x40_0000_0000_0000_0000_0000_0000) by (nonlinear_arith)
                    requires -0x8_0000_0000_0000 <= dx <= 0x8_0000_0000_0000;
                assert(dy * dy <= 0x40_0000_0000_0000_0000_0000_0000) by (nonlinear_arith)
                    requires -0x8_0000_0000_0000 <= dy <= 0x8_0000_0000_0000;
                assert(dx * dx >= 0 && dy * dy >= 0) by (nonlinear_arith);
            }
            let n = dx * dx + dy * dy;
            if n <= GRID_EPSILON_SQ {
                *pos = p;
                wps.remove(0);
                assert(wps@ =~= old(wps)@.drop_first());
            } else {
                let len = integer_sqrt(n as u128);
                proof {
                    let l = len as int;
                    assert(is_root(n as int, l));
                    if l < 2000 {
                        assert((l + 1) * (l + 1) <= 4_000_000) by (nonlinear_arith)
                            requires 0 <= l < 2000;
                    }
                }
                let x = step_toward(pos.x, p.x, len);
                let y = step_toward(pos.y, p.y, len);
                *pos = Pos { x, y };
            }
        },
    }
}

} // verus!
