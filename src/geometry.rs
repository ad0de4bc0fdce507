use vstd::prelude::*;
use vstd::arithmetic::div_mod::lemma_hoist_over_denominator;
use crate::random::random_below;

verus! {

/// Sub-units in one world unit.
pub const UNIT: i64 = 1000;
/// Width of one grid cell.
pub const CELL_WIDTH: i64 = 100_000;
/// Half the width of a grid cell.
pub const HALF_CELL: i64 = 50_000;
/// Largest distance of a jitter offset from the point it moves (0.3 of a cell).
pub const FUZZ_SPAN: i64 = 30_000;
/// Every coordinate of a position lies in `-WORLD_LIMIT..=WORLD_LIMIT`.
pub const WORLD_LIMIT: i64 = 0x4_0000_0000_0000;
/// Every grid cell lies in `-BLOCK_LIMIT..=BLOCK_LIMIT` on both axes.
pub const BLOCK_LIMIT: i32 = 0x7fff_ffff;

const DIV_OFFSET: i128 = 0x1_0000_0000_0000_0000_0000_0000;

/// A point of world space, in sub-units.
#[derive(Clone, Copy, Debug, PartialEq, Eq, Structural)]
pub struct Pos {
    pub x: i64,
    pub y: i64,
}

/// A grid cell, by column and row.
#[derive(Clone, Copy, Debug, PartialEq, Eq, Structural)]
pub struct Block {
    pub x: i32,
    pub y: i32,
}

pub open spec fn in_world(p: Pos) -> bool {
    -WORLD_LIMIT <= p.x <= WORLD_LIMIT && -WORLD_LIMIT <= p.y <= WORLD_LIMIT
}

/// The cell index that a coordinate falls into (rounding down).
pub open spec fn floor_cell(v: int) -> int {
    v / (CELL_WIDTH as int)
}

/// The coordinate of the centre of a cell.
pub open spec fn center_of(c: int) -> int {
    c * CELL_WIDTH + HALF_CELL
}

/// `v` pulled back into the world's range.
pub open spec fn clamp(v: int) -> int {
    if v < -WORLD_LIMIT {
        -WORLD_LIMIT as int
    } else if v > WORLD_LIMIT {
        WORLD_LIMIT as int
    } else {
        v
    }
}

/// Sign of a coordinate difference, with zero counted as positive.
pub open spec fn sign(v: int) -> int {
    if v >= 0 { 1 } else { -1 }
}

pub open spec fn clamped(x: int, y: int) -> Pos {
    Pos { x: clamp(x) as i64, y: clamp(y) as i64 }
}

/// Division rounding down, for a positive divisor of at most a million.
pub(crate) fn floor_div(n: i128, d: i128) -> (r: i128)
    requires
        0 < d <= 1_000_000,
        -0x1_0000_0000_0000_0000_0000_0000 <= n <= 0x1_0000_0000_0000_0000_0000_0000,
    ensures
        r == n / d,
{
    proof {
        assert(DIV_OFFSET * d <= DIV_OFFSET * 1_000_000) by (nonlinear_arith)
            requires 0 < d <= 1_000_000, DIV_OFFSET > 0;
        assert(DIV_OFFSET * d >= DIV_OFFSET) by (nonlinear_arith)
            requires 0 < d, DIV_OFFSET > 0;
        lemma_hoist_over_denominator(n as int, DIV_OFFSET as int, d as nat);
    }
    let shift = DIV_OFFSET * d;
    let q = (n + shift) / d;
    q - DIV_OFFSET
}

/// `v` pulled back into the world's range.
pub(crate) fn clamp_coord(v: i128) -> (r: i64)
    ensures
        r == clamp(v as int),
{
    if v < -(WORLD_LIMIT as i128) {
        -WORLD_LIMIT
    } else if v > WORLD_LIMIT as i128 {
        WORLD_LIMIT
    } else {
        v as i64
    }
}

/// The world position of the centre of a cell.
pub fn block_to_pos(block: Block) -> (r: Pos)
    ensures
        r.x == center_of(block.x as int),
        r.y == center_of(block.y as int),
        in_world(r),
{
    Pos {
        x: block.x as i64 * CELL_WIDTH + HALF_CELL,
        y: block.y as i64 * CELL_WIDTH + HALF_CELL,
    }
}

/// The centre of the cell that holds `pos`.
pub fn recenter(pos: Pos) -> (r: Pos)
    requires
        in_world(pos),
    ensures
        r.x == center_of(floor_cell(pos.x as int)),
        r.y == center_of(floor_cell(pos.y as int)),
{
    let cx = floor_div(pos.x as i128, CELL_WIDTH as i128);
    let cy = floor_div(pos.y as i128, CELL_WIDTH as i128);
    Pos { x: (cx * CELL_WIDTH as i128 + HALF_CELL as i128) as i64, y: (cy * CELL_WIDTH as i128 + HALF_CELL as i128) as i64 }
}

/// The lower corner of the cell that holds `pos`.
pub fn snap(pos: Pos) -> (r: Pos)
    requires
        in_world(pos),
    ensures
        r.x == floor_cell(pos.x as int) * CELL_WIDTH,
        r.y == floor_cell(pos.y as int) * CELL_WIDTH,
{
    let cx = floor_div(pos.x as i128, CELL_WIDTH as i128);
    let cy = floor_div(pos.y as i128, CELL_WIDTH as i128);
    Pos { x: (cx * CELL_WIDTH as i128) as i64, y: (cy * CELL_WIDTH as i128) as i64 }
}

/// `pos` moved by `rx - FUZZ_SPAN` along x and `ry - FUZZ_SPAN` along y,
/// kept inside the world.
pub fn jitter(pos: Pos, rx: u64, ry: u64) -> (r: Pos)
    requires
        in_world(pos),
        rx < 2 * FUZZ_SPAN as u64,
        ry < 2 * FUZZ_SPAN as u64,
    ensures
        r == clamped(pos.x + rx - FUZZ_SPAN, pos.y + ry - FUZZ_SPAN),
        in_world(r),
{
    Pos {
        x: clamp_coord(pos.x as i128 + rx as i128 - FUZZ_SPAN as i128),
        y: clamp_coord(pos.y as i128 + ry as i128 - FUZZ_SPAN as i128),
    }
}

/// `pos` moved by a random offset in `-FUZZ_SPAN..FUZZ_SPAN` on each axis,
/// kept inside the world.
pub fn fuzz(pos: Pos) -> (r: Pos)
    requires
        in_world(pos),
    ensures
        in_world(r),
        exists|rx: int, ry: int|
            0 <= rx < 2 * FUZZ_SPAN && 0 <= ry < 2 * FUZZ_SPAN
            && r == #[trigger] clamped(pos.x + rx - FUZZ_SPAN, pos.y + ry - FUZZ_SPAN),
{
    let rx = random_below(2 * FUZZ_SPAN as u64);
    let ry = random_below(2 * FUZZ_SPAN as u64);
    jitter(pos, rx, ry)
}

/// The axis-then-axis walk from `from` to `to`: along x first, then along y.
pub fn manhattan(from: Pos, to: Pos) -> (r: Vec<Pos>)
    ensures
        r@ == seq![from, Pos { x: to.x, y: from.y }, to],
{
    let r = vec![from, Pos { x: to.x, y: from.y }, to];
    assert(r@ == seq![from, Pos { x: to.x, y: from.y }, to]);
    r
}

} // verus!
