//! Integer vectors and the coordinate transforms between world positions,
//! chunk-grid coordinates, chunk-local cell coordinates and linear cell
//! indices.

use vstd::prelude::*;

verus! {

/// Edge length of a chunk, in cells.
pub const CHUNK_CUBE_SIZE: usize = 16;

/// Cells per chunk axis: the sample grid is `(CHUNK_CUBE_SIZE + 1)^3` so that
/// neighboring chunks share their boundary samples.
pub const CELL_GRID_SIZE: usize = 17;

/// `CELL_GRID_SIZE` squared.
pub const CELL_GRID_SIZE_2: usize = 289;

/// `CELL_GRID_SIZE` cubed: the number of cells a chunk holds.
pub const CELL_GRID_SIZE_3: usize = 4913;

/// Milli-units per world cell.
pub const CELL_MILLI: i64 = 1000;

/// Milli-units per chunk edge.
pub const CHUNK_MILLI: i64 = 16000;

/// Largest chunk-grid coordinate magnitude the engine accepts; keeps every
/// derived world coordinate comfortably inside `i32`/`i64` arithmetic.
pub const CHUNK_POS_LIMIT: i32 = 1000000;

/// A chunk-grid or integer world-cell coordinate.
#[derive(Clone, Copy, PartialEq, Eq, Structural, Debug)]
pub struct IVec3 {
    pub x: i32,
    pub y: i32,
    pub z: i32,
}

/// A world-space position in milli-units (1000 per cell edge).
#[derive(Clone, Copy, PartialEq, Eq, Structural, Debug)]
pub struct MilliVec3 {
    pub x: i64,
    pub y: i64,
    pub z: i64,
}

/// Whether a chunk-grid coordinate is within the accepted window.
pub open spec fn chunk_pos_ok(p: IVec3) -> bool {
    -CHUNK_POS_LIMIT <= p.x <= CHUNK_POS_LIMIT && -CHUNK_POS_LIMIT <= p.y <= CHUNK_POS_LIMIT
        && -CHUNK_POS_LIMIT <= p.z <= CHUNK_POS_LIMIT
}

/// The linear offset of the cell at local coordinate `(x, y, z)`.
pub open spec fn cell_index_spec(x: int, y: int, z: int) -> int {
    x * 289 + y * 17 + z
}

/// Linear offset of local cell `(x, y, z)`; the inverse of [`index_to_cell`].
pub fn cell_to_index(cell_x: usize, cell_y: usize, cell_z: usize) -> (i: usize)
    requires
        cell_x < CELL_GRID_SIZE,
        cell_y < CELL_GRID_SIZE,
        cell_z < CELL_GRID_SIZE,
    ensures
        i == cell_index_spec(cell_x as int, cell_y as int, cell_z as int),
        i < CELL_GRID_SIZE_3,
{
    cell_x * CELL_GRID_SIZE_2 + cell_y * CELL_GRID_SIZE + cell_z
}

/// Local cell coordinate of the linear offset `i`; the inverse of
/// [`cell_to_index`].
pub fn index_to_cell(index: usize) -> (c: (usize, usize, usize))
    requires
        index < CELL_GRID_SIZE_3,
    ensures
        c.0 < CELL_GRID_SIZE,
        c.1 < CELL_GRID_SIZE,
        c.2 < CELL_GRID_SIZE,
        cell_index_spec(c.0 as int, c.1 as int, c.2 as int) == index,
{
    let z: usize = index % CELL_GRID_SIZE;
    let y: usize = (index / CELL_GRID_SIZE) % CELL_GRID_SIZE;
    let x: usize = index / CELL_GRID_SIZE_2;
    proof {
        lemma_index_decomposition(index as int);
    }
    (x, y, z)
}

/// `i` decomposes as `289 * (i / 289) + 17 * ((i / 17) % 17) + i % 17`, and
/// the leading digit is below 17 whenever `i < 4913`.
pub proof fn lemma_index_decomposition(i: int)
    requires
        0 <= i < 4913,
    ensures
        i / 289 < 17,
        i == 289 * (i / 289) + 17 * ((i / 17) % 17) + i % 17,
{
    assert(i / 289 < 17) by (nonlinear_arith)
        requires 0 <= i < 4913;
    assert(i / 17 / 17 == i / 289) by {
        vstd::arithmetic::div_mod::lemma_div_denominator(i, 17, 17);
    }
    assert(i == 17 * (i / 17) + i % 17) by {
        vstd::arithmetic::div_mod::lemma_fundamental_div_mod(i, 17);
    }
    assert(i / 17 == 17 * (i / 17 / 17) + (i / 17) % 17) by {
        vstd::arithmetic::div_mod::lemma_fundamental_div_mod(i / 17, 17);
    }
}

/// World cell coordinate of local cell `(x, y, z)` of the chunk at `pos`.
pub open spec fn cell_world_spec(pos: IVec3, x: int, y: int, z: int) -> (int, int, int) {
    (pos.x * 16 + x, pos.y * 16 + y, pos.z * 16 + z)
}

/// World cell coordinate of a local cell of the chunk at `pos`.
pub fn cell_to_world(pos: IVec3, cell_x: usize, cell_y: usize, cell_z: usize) -> (w: IVec3)
    requires
        chunk_pos_ok(pos),
        cell_x < CELL_GRID_SIZE,
        cell_y < CELL_GRID_SIZE,
        cell_z < CELL_GRID_SIZE,
    ensures
        (w.x as int, w.y as int, w.z as int) == cell_world_spec(
            pos,
            cell_x as int,
            cell_y as int,
            cell_z as int,
        ),
{
    IVec3 {
        x: pos.x * 16 + cell_x as i32,
        y: pos.y * 16 + cell_y as i32,
        z: pos.z * 16 + cell_z as i32,
    }
}

/// Local cell coordinate of the world cell `world` inside the chunk at `pos`.
pub fn world_to_cell(pos: IVec3, world: IVec3) -> (c: IVec3)
    requires
        chunk_pos_ok(pos),
        pos.x * 16 <= world.x <= pos.x * 16 + 16,
        pos.y * 16 <= world.y <= pos.y * 16 + 16,
        pos.z * 16 <= world.z <= pos.z * 16 + 16,
    ensures
        c.x == world.x - pos.x * 16,
        c.y == world.y - pos.y * 16,
        c.z == world.z - pos.z * 16,
        0 <= c.x <= 16 && 0 <= c.y <= 16 && 0 <= c.z <= 16,
{
    IVec3 {
        x: world.x - pos.x * 16,
        y: world.y - pos.y * 16,
        z: world.z - pos.z * 16,
    }
}

/// Nearest world cell to the milli-unit coordinate `v`, halves away from zero.
pub open spec fn round_milli_spec(v: int) -> int {
    if v >= 0 {
        (v + 500) / 1000
    } else {
        -((-v + 500) / 1000)
    }
}

/// Bound on milli coordinates fed to rounding; far wider than any world
/// position the engine produces.
pub const MILLI_ROUND_LIMIT: i64 = 4000000000000;

/// Nearest world cell to the milli coordinate `v`, halves away from zero.
pub fn round_milli(v: i64) -> (r: i64)
    requires
        -MILLI_ROUND_LIMIT <= v <= MILLI_ROUND_LIMIT,
    ensures
        r == round_milli_spec(v as int),
{
    if v >= 0 {
        (v + 500) / 1000
    } else {
        -((-v + 500) / 1000)
    }
}

/// Chunk-grid coordinate containing the milli coordinate `v`: the floor of
/// `v / 16000`.
pub open spec fn chunk_coord_spec(v: int) -> int {
    v / 16000
}

/// Chunk-grid coordinate containing the milli coordinate `v`.
pub fn chunk_coord_of(v: i64) -> (r: i64)
    requires
        -MILLI_ROUND_LIMIT <= v <= MILLI_ROUND_LIMIT,
    ensures
        r == chunk_coord_spec(v as int),
{
    if v >= 0 {
        v / 16000
    } else {
        let q: i64 = (-v + 15999) / 16000;
        proof {
            lemma_neg_floor_div(v as int);
        }
        -q
    }
}

/// For negative `v`, the floor of `v / 16000` is `-((-v + 15999) / 16000)`.
proof fn lemma_neg_floor_div(v: int)
    requires
        v < 0,
    ensures
        -((-v + 15999) / 16000) == v / 16000,
{
    let n = -v;
    assert(n == 16000 * (n / 16000) + n % 16000) by {
        vstd::arithmetic::div_mod::lemma_fundamental_div_mod(n, 16000);
    }
    assert(0 <= n % 16000 < 16000) by {
        vstd::arithmetic::div_mod::lemma_mod_bound(n, 16000);
    }
    if n % 16000 == 0 {
        assert((n + 15999) / 16000 == n / 16000) by (nonlinear_arith)
            requires n == 16000 * (n / 16000), n > 0;
        assert(v == 16000 * -(n / 16000));
        assert(v / 16000 == -(n / 16000)) by (nonlinear_arith)
            requires v == 16000 * -(n / 16000);
    } else {
        assert((n + 15999) / 16000 == n / 16000 + 1) by (nonlinear_arith)
            requires n == 16000 * (n / 16000) + n % 16000, 0 < n % 16000 < 16000;
        assert(v == 16000 * -(n / 16000 + 1) + (16000 - n % 16000));
        assert(v / 16000 == -(n / 16000 + 1)) by (nonlinear_arith)
            requires
                v == 16000 * -(n / 16000 + 1) + (16000 - n % 16000),
                0 < 16000 - n % 16000 < 16000;
    }
}

} // verus!
