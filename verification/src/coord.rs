//! Grid coordinates: world positions in fixed-point sub-units and the integer
//! cells of the chunk grid they fall into.
//!
//! Lengths are whole numbers of sub-units, so that the cell of a position is
//! an exact floor division and distances compare without rounding.

use vstd::prelude::*;
use vstd::arithmetic::div_mod::{
    lemma_div_basics,
    lemma_div_is_ordered_by_denominator,
    lemma_fundamental_div_mod,
    lemma_fundamental_div_mod_converse,
    lemma_mod_bound,
};

verus! {

/// Number of fixed-point sub-units that make up one world unit.
pub const SUBUNITS_PER_UNIT: u32 = 1024;

/// Number of lattice layers that neighbouring chunks share.
pub const BOUNDARY_OVERLAP: u32 = 2;

/// A cell of the world's chunk grid.
#[derive(Clone, Copy, Debug, PartialEq, Eq, Structural, Hash)]
pub struct ChunkCoord {
    pub x: i32,
    pub y: i32,
    pub z: i32,
}

/// A world-space position, each axis in fixed-point sub-units.
#[derive(Clone, Copy, Debug, PartialEq, Eq, Structural, Hash)]
pub struct WorldPos {
    pub x: i32,
    pub y: i32,
    pub z: i32,
}

/// Edge length of one grid cell in sub-units: the lattice edge without the
/// shared boundary layers, times the size of a voxel.
pub open spec fn cell_size(data_resolution: u32, voxel_size: u32) -> int {
    (data_resolution - BOUNDARY_OVERLAP) * voxel_size
}

/// The grid cell of a world position. Only the horizontal plane is
/// quantized; the vertical axis is held at zero.
pub open spec fn quantized(pos: WorldPos, cell: int) -> ChunkCoord {
    ChunkCoord { x: ((pos.x as int) / cell) as i32, y: 0, z: ((pos.z as int) / cell) as i32 }
}

/// Squared Euclidean distance between two grid cells.
pub open spec fn dist_sq(a: ChunkCoord, b: ChunkCoord) -> int {
    (a.x - b.x) * (a.x - b.x) + (a.y - b.y) * (a.y - b.y) + (a.z - b.z) * (a.z - b.z)
}

/// Squared Euclidean distance between two world positions, in sub-units.
pub open spec fn pos_dist_sq(a: WorldPos, b: WorldPos) -> int {
    (a.x - b.x) * (a.x - b.x) + (a.y - b.y) * (a.y - b.y) + (a.z - b.z) * (a.z - b.z)
}

/// The cell of a position is the one whose span holds it: along each
/// horizontal axis the position lies at or above the cell's lower edge and
/// below the lower edge of the next cell.
pub proof fn lemma_quantized_span(pos: WorldPos, cell: int)
    requires
        cell > 0,
    ensures
        quantized(pos, cell).x * cell <= pos.x < (quantized(pos, cell).x + 1) * cell,
        quantized(pos, cell).z * cell <= pos.z < (quantized(pos, cell).z + 1) * cell,
        quantized(pos, cell).y == 0,
{
    lemma_axis_span(pos.x as int, cell);
    lemma_axis_span(pos.z as int, cell);
}

proof fn lemma_axis_span(a: int, cell: int)
    requires
        cell > 0,
        i32::MIN <= a <= i32::MAX,
    ensures
        i32::MIN <= a / cell <= i32::MAX,
        (a / cell) * cell <= a < (a / cell + 1) * cell,
{
    let q = a / cell;
    lemma_fundamental_div_mod(a, cell);
    lemma_mod_bound(a, cell);
    assert(q * cell <= a < (q + 1) * cell) by (nonlinear_arith)
        requires
            a == cell * q + a % cell,
            0 <= a % cell < cell,
    ;
    assert(i32::MIN <= q <= i32::MAX) by (nonlinear_arith)
        requires
            q * cell <= a < (q + 1) * cell,
            cell >= 1,
            i32::MIN <= a <= i32::MAX,
    ;
}

/// Floor of `a / cell` for a positive `cell`.
pub fn floor_div(a: i32, cell: u64) -> (q: i32)
    requires
        cell > 0,
    ensures
        q == (a as int) / (cell as int),
{
    if a >= 0 {
        let q: u64 = (a as u64) / cell;
        proof {
            lemma_div_is_ordered_by_denominator(a as int, 1, cell as int);
            lemma_div_basics(a as int);
        }
        q as i32
    } else {
        let m: u64 = (-(a as i64)) as u64;
        let k: u64 = (m - 1) / cell;
        let r: u64 = (m - 1) % cell;
        proof {
            lemma_fundamental_div_mod((m - 1) as int, cell as int);
            lemma_div_is_ordered_by_denominator((m - 1) as int, 1, cell as int);
            lemma_div_basics((m - 1) as int);
            assert(a as int == (-(k as int) - 1) * (cell as int) + (cell - 1 - r)) by (nonlinear_arith)
                requires
                    m - 1 == (cell as int) * (k as int) + (r as int),
                    a as int == -(m as int),
            ;
            lemma_fundamental_div_mod_converse(
                a as int,
                cell as int,
                -(k as int) - 1,
                (cell - 1 - r) as int,
            );
        }
        (-((k + 1) as i64)) as i32
    }
}

/// Absolute difference of two axis values.
pub fn axis_gap(a: i32, b: i32) -> (d: u64)
    ensures
        d == if a >= b { a - b } else { b - a },
{
    if a >= b {
        ((a as i64) - (b as i64)) as u64
    } else {
        ((b as i64) - (a as i64)) as u64
    }
}

/// Squared Euclidean distance between two grid cells.
pub fn coord_dist_sq(a: ChunkCoord, b: ChunkCoord) -> (d: u128)
    ensures
        d == dist_sq(a, b),
{
    let dx: u128 = axis_gap(a.x, b.x) as u128;
    let dy: u128 = axis_gap(a.y, b.y) as u128;
    let dz: u128 = axis_gap(a.z, b.z) as u128;
    assert(dx * dx <= 0x1_0000_0000 * 0x1_0000_0000) by (nonlinear_arith)
        requires
            dx <= 0x1_0000_0000,
    ;
    assert(dy * dy <= 0x1_0000_0000 * 0x1_0000_0000) by (nonlinear_arith)
        requires
            dy <= 0x1_0000_0000,
    ;
    assert(dz * dz <= 0x1_0000_0000 * 0x1_0000_0000) by (nonlinear_arith)
        requires
            dz <= 0x1_0000_0000,
    ;
    assert(dx * dx == (a.x - b.x) * (a.x - b.x)) by (nonlinear_arith)
        requires
            dx == a.x - b.x || dx == b.x - a.x,
    ;
    assert(dy * dy == (a.y - b.y) * (a.y - b.y)) by (nonlinear_arith)
        requires
            dy == a.y - b.y || dy == b.y - a.y,
    ;
    assert(dz * dz == (a.z - b.z) * (a.z - b.z)) by (nonlinear_arith)
        requires
            dz == a.z - b.z || dz == b.z - a.z,
    ;
    dx * dx + dy * dy + dz * dz
}

/// Whether two world positions lie more than `limit` sub-units apart.
pub fn farther_than(a: WorldPos, b: WorldPos, limit: u32) -> (far: bool)
    ensures
        far == (pos_dist_sq(a, b) > limit * limit),
{
    let d: u128 = coord_dist_sq(
        ChunkCoord { x: a.x, y: a.y, z: a.z },
        ChunkCoord { x: b.x, y: b.y, z: b.z },
    );
    let l: u128 = limit as u128;
    assert(l * l <= 0x1_0000_0000 * 0x1_0000_0000) by (nonlinear_arith)
        requires
            l <= 0x1_0000_0000,
    ;
    d > l * l
}

} // verus!
