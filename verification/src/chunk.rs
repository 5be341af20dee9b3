//! A chunk: one `(N+1)^3` grid of density/material cells at a chunk-grid
//! coordinate, with its dirty/destroy bookkeeping and its cached mesh.
//!
//! Grids are edge-shared: the cells on a chunk's boundary faces occupy the
//! same world positions as the matching boundary cells of its neighbors,
//! which is why edits must cascade to neighbors.

use vstd::prelude::*;
use crate::cell::{Cell, CellType, Color, cell_type_spec, get_cell_type};
use crate::events::{TerrainCellEvent, event_radius};
use crate::marching_cube::{chunk_mesh, colors_of, polygonize_cells, verts_of};
use crate::math::{
    IVec3, MilliVec3, CELL_GRID_SIZE_3, cell_index_spec, chunk_pos_ok,
    index_to_cell, round_milli, round_milli_spec,
};

verus! {

/// A chunk's polygonized surface: one position and one color per triangle
/// vertex, three consecutive vertices per triangle (no shared vertex buffer;
/// the index list is the identity).
#[derive(Clone, Debug)]
pub struct MeshData {
    pub verts: Vec<MilliVec3>,
    pub colors: Vec<Color>,
}

/// A fixed-size cubic region of the voxel field, independently meshed.
#[derive(Debug)]
pub struct Chunk {
    pub position: IVec3,
    pub cells: Vec<Cell>,
    pub is_dirty: bool,
    pub should_destroy: bool,
    pub mesh: Option<MeshData>,
}

/// Cells generated from per-cell density samples and material-noise samples:
/// the density is stored as sampled, the material classified by its bands.
pub open spec fn generated_cells(density: Seq<u32>, type_noise: Seq<u32>) -> Seq<Cell> {
    Seq::new(4913, |i: int| Cell { value: density[i], cell_type: cell_type_spec(type_noise[i] as int) })
}

/// Whether a world position in milli-units lies in the chunk's inclusive
/// box; the boxes of adjacent chunks overlap on the shared face, by design.
pub open spec fn in_chunk_spec(p: IVec3, w: MilliVec3) -> bool {
    p.x * 16000 <= w.x <= p.x * 16000 + 16000 && p.y * 16000 <= w.y <= p.y * 16000 + 16000
        && p.z * 16000 <= w.z <= p.z * 16000 + 16000
}

/// Whether a world position is within the range the engine accepts.
pub open spec fn world_milli_ok(w: MilliVec3) -> bool {
    -17000000000 <= w.x <= 17000000000 && -17000000000 <= w.y <= 17000000000 && -17000000000
        <= w.z <= 17000000000
}

/// Smallest world cell touched by an edit of radius `r` at `end`.
pub open spec fn edit_min(end: MilliVec3, r: int) -> (int, int, int) {
    (
        round_milli_spec(end.x - r),
        round_milli_spec(end.y - r),
        round_milli_spec(end.z - r),
    )
}

/// Largest world cell touched by an edit of radius `r` at `end`.
pub open spec fn edit_max(end: MilliVec3, r: int) -> (int, int, int) {
    (
        round_milli_spec(end.x + r),
        round_milli_spec(end.y + r),
        round_milli_spec(end.z + r),
    )
}

/// Whether the integer edit box `[bmin, bmax]` intersects the chunk's
/// inclusive world-cell box `[p * 16, p * 16 + 16]`.
pub open spec fn box_intersects_chunk(p: IVec3, bmin: (int, int, int), bmax: (int, int, int)) -> bool {
    bmin.0 <= p.x * 16 + 16 && bmin.1 <= p.y * 16 + 16 && bmin.2 <= p.z * 16 + 16 && bmax.0
        >= p.x * 16 && bmax.1 >= p.y * 16 && bmax.2 >= p.z * 16
}

/// A cell after an edit wrote it: the new density, and the new material if
/// one was given.
pub open spec fn apply_cell(c: Cell, value: u32, mat: Option<CellType>) -> Cell {
    Cell {
        value,
        cell_type: match mat {
            Some(t) => t,
            None => c.cell_type,
        },
    }
}

/// A chunk grid after an edit: every cell whose world coordinate falls in
/// the edit box is written, all others keep their value.
pub open spec fn edited_cells(
    cells: Seq<Cell>,
    p: IVec3,
    bmin: (int, int, int),
    bmax: (int, int, int),
    value: u32,
    mat: Option<CellType>,
) -> Seq<Cell> {
    Seq::new(
        cells.len(),
        |i: int|
            {
                let wx = p.x * 16 + i / 289;
                let wy = p.y * 16 + (i / 17) % 17;
                let wz = p.z * 16 + i % 17;
                if bmin.0 <= wx <= bmax.0 && bmin.1 <= wy <= bmax.1 && bmin.2 <= wz <= bmax.2 {
                    apply_cell(cells[i], value, mat)
                } else {
                    cells[i]
                }
            },
    )
}

/// A local cell coordinate determines, and is determined by, its linear
/// offset.
pub proof fn lemma_cell_index_unique(i: int, x: int, y: int, z: int)
    requires
        0 <= x < 17,
        0 <= y < 17,
        0 <= z < 17,
        cell_index_spec(x, y, z) == i,
    ensures
        x == i / 289,
        y == (i / 17) % 17,
        z == i % 17,
{
    vstd::arithmetic::div_mod::lemma_fundamental_div_mod_converse(i, 289, x, 17 * y + z);
    vstd::arithmetic::div_mod::lemma_fundamental_div_mod_converse(i, 17, 17 * x + y, z);
    vstd::arithmetic::div_mod::lemma_fundamental_div_mod_converse(17 * x + y, 17, x, y);
}

/// An edit box that misses the chunk leaves every cell unchanged.
pub proof fn lemma_edit_miss(
    cells: Seq<Cell>,
    p: IVec3,
    bmin: (int, int, int),
    bmax: (int, int, int),
    value: u32,
    mat: Option<CellType>,
)
    requires
        cells.len() == 4913,
        !box_intersects_chunk(p, bmin, bmax),
    ensures
        edited_cells(cells, p, bmin, bmax, value, mat) == cells,
{
    assert forall|i: int| 0 <= i < 4913 implies #[trigger] edited_cells(
        cells,
        p,
        bmin,
        bmax,
        value,
        mat,
    )[i] == cells[i] by {
        vstd::arithmetic::div_mod::lemma_multiply_divide_lt(i, 289, 17);
        vstd::arithmetic::div_mod::lemma_div_pos_is_pos(i, 289);
        vstd::arithmetic::div_mod::lemma_mod_bound(i / 17, 17);
        vstd::arithmetic::div_mod::lemma_mod_bound(i, 17);
    }
    assert(edited_cells(cells, p, bmin, bmax, value, mat) =~= cells);
}

/// Offset of the `j`-th of the 26 neighbors (all combinations of `-1..=1`
/// per axis except the zero offset), in a fixed, deterministic order.
pub open spec fn neighbor_offset(j: int) -> (int, int, int) {
    let d = if j < 13 {
        j
    } else {
        j + 1
    };
    (d / 9 - 1, (d / 3) % 3 - 1, d % 3 - 1)
}

/// The `j`-th neighbor coordinate of chunk coordinate `p`.
pub open spec fn neighbor_pos(p: IVec3, j: int) -> IVec3 {
    IVec3 {
        x: (p.x + neighbor_offset(j).0) as i32,
        y: (p.y + neighbor_offset(j).1) as i32,
        z: (p.z + neighbor_offset(j).2) as i32,
    }
}

/// Whether `b` is one of the 26 chunk coordinates adjacent to `a`.
pub open spec fn is_neighbor(a: IVec3, b: IVec3) -> bool {
    a != b && -1 <= b.x - a.x <= 1 && -1 <= b.y - a.y <= 1 && -1 <= b.z - a.z <= 1
}

/// How one edit changes one chunk: cells inside the edit box are written,
/// the rest keep their value; the chunk turns dirty exactly when the edit box
/// meets its box; everything else is untouched.
pub open spec fn edit_rel(c0: Chunk, c1: Chunk, end_pos: MilliVec3, e: TerrainCellEvent) -> bool {
    &&& c1.position == c0.position
    &&& c1.mesh == c0.mesh
    &&& c1.should_destroy == c0.should_destroy
    &&& c1.cells@ == edited_cells(
        c0.cells@,
        c0.position,
        edit_min(end_pos, event_radius(e)),
        edit_max(end_pos, event_radius(e)),
        e.value,
        e.cell_type,
    )
    &&& c1.is_dirty == (c0.is_dirty || box_intersects_chunk(
        c0.position,
        edit_min(end_pos, event_radius(e)),
        edit_max(end_pos, event_radius(e)),
    ))
}

impl Chunk {
    /// A chunk's internal invariant: a full grid and an in-range coordinate.
    pub open spec fn wf(self) -> bool {
        self.cells@.len() == CELL_GRID_SIZE_3 && chunk_pos_ok(self.position)
    }

    /// Build the chunk at chunk coordinate `(x, y, z)` from one density
    /// sample and one material-noise sample per cell (both in milli-units,
    /// sampled at the cell's world position by the caller's noise source).
    /// The new chunk is dirty and has no mesh yet.
    pub fn new(x: i32, y: i32, z: i32, density: &Vec<u32>, type_noise: &Vec<u32>) -> (c: Chunk)
        requires
            density@.len() == CELL_GRID_SIZE_3,
            type_noise@.len() == CELL_GRID_SIZE_3,
            chunk_pos_ok(IVec3 { x, y, z }),
        ensures
            c.wf(),
            c.position == (IVec3 { x, y, z }),
            c.cells@ == generated_cells(density@, type_noise@),
            c.is_dirty,
            !c.should_destroy,
            c.mesh is None,
    {
        let mut cells: Vec<Cell> = Vec::new();
        let mut i: usize = 0;
        while i < CELL_GRID_SIZE_3
            invariant
                density@.len() == CELL_GRID_SIZE_3,
                type_noise@.len() == CELL_GRID_SIZE_3,
                i <= CELL_GRID_SIZE_3,
                cells@.len() == i,
                forall|j: int|
                    0 <= j < i ==> cells@[j] == generated_cells(density@, type_noise@)[j],
            decreases CELL_GRID_SIZE_3 - i,
        {
            cells.push(
                Cell { value: density[i], cell_type: get_cell_type(type_noise[i]) },
            );
            i += 1;
        }
        proof {
            assert(cells@ =~= generated_cells(density@, type_noise@));
        }
        Chunk {
            position: IVec3 { x, y, z },
            cells,
            is_dirty: true,
            should_destroy: false,
            mesh: None,
        }
    }

    /// Whether a world position (milli-units) lies in this chunk's inclusive
    /// box.
    pub fn is_in_chunk(&self, world_pos: MilliVec3) -> (r: bool)
        requires
            chunk_pos_ok(self.position),
        ensures
            r == in_chunk_spec(self.position, world_pos),
    {
        let min_x: i64 = self.position.x as i64 * 16000;
        let min_y: i64 = self.position.y as i64 * 16000;
        let min_z: i64 = self.position.z as i64 * 16000;
        if world_pos.x < min_x || world_pos.y < min_y || world_pos.z < min_z {
            return false;
        }
        if world_pos.x > min_x + 16000 || world_pos.y > min_y + 16000 || world_pos.z > min_z
            + 16000 {
            return false;
        }
        true
    }

    /// The 26 neighboring chunk coordinates, diagonals included, in a fixed
    /// order.
    pub fn get_neighbors(&self) -> (ns: Vec<IVec3>)
        requires
            chunk_pos_ok(self.position),
        ensures
            ns@.len() == 26,
            forall|j: int| 0 <= j < 26 ==> ns@[j] == neighbor_pos(self.position, j),
    {
        let mut ns: Vec<IVec3> = Vec::new();
        let mut j: usize = 0;
        while j < 26
            invariant
                chunk_pos_ok(self.position),
                j <= 26,
                ns@.len() == j,
                forall|k: int| 0 <= k < j ==> ns@[k] == neighbor_pos(self.position, k),
            decreases 26 - j,
        {
            let d: usize = if j < 13 {
                j
            } else {
                j + 1
            };
            proof {
                vstd::arithmetic::div_mod::lemma_multiply_divide_lt(d as int, 9, 3);
                vstd::arithmetic::div_mod::lemma_div_pos_is_pos(d as int, 9);
                vstd::arithmetic::div_mod::lemma_mod_bound(d as int / 3, 3);
                vstd::arithmetic::div_mod::lemma_mod_bound(d as int, 3);
            }
            let dx: i32 = (d / 9) as i32 - 1;
            let dy: i32 = ((d / 3) % 3) as i32 - 1;
            let dz: i32 = (d % 3) as i32 - 1;
            ns.push(
                IVec3 {
                    x: self.position.x + dx,
                    y: self.position.y + dy,
                    z: self.position.z + dz,
                },
            );
            j += 1;
        }
        ns
    }

    /// Apply an edit resolved to the world position `end_pos` to this chunk:
    /// every cell of this chunk inside the edit's integer bounding box takes
    /// the edit's density (and material, if one was given), and the chunk
    /// turns dirty; a chunk whose box misses the edit box is untouched.
    pub fn edit(&mut self, end_pos: MilliVec3, event: &TerrainCellEvent)
        requires
            old(self).wf(),
            world_milli_ok(end_pos),
        ensures
            final(self).wf(),
            edit_rel(*old(self), *final(self), end_pos, *event),
    {
        let r: i64 = match event.shape {
            crate::events::TerrainEditShape::Sphere(rad) => rad as i64,
        };
        let bmin_x: i64 = round_milli(end_pos.x - r);
        let bmin_y: i64 = round_milli(end_pos.y - r);
        let bmin_z: i64 = round_milli(end_pos.z - r);
        let bmax_x: i64 = round_milli(end_pos.x + r);
        let bmax_y: i64 = round_milli(end_pos.y + r);
        let bmax_z: i64 = round_milli(end_pos.z + r);
        let ghost bmin = edit_min(end_pos, event_radius(*event));
        let ghost bmax = edit_max(end_pos, event_radius(*event));
        let cmin_x: i64 = self.position.x as i64 * 16;
        let cmin_y: i64 = self.position.y as i64 * 16;
        let cmin_z: i64 = self.position.z as i64 * 16;
        if bmin_x > cmin_x + 16 || bmin_y > cmin_y + 16 || bmin_z > cmin_z + 16 || bmax_x < cmin_x
            || bmax_y < cmin_y || bmax_z < cmin_z {
            proof {
                lemma_edit_miss(
                    self.cells@,
                    self.position,
                    bmin,
                    bmax,
                    event.value,
                    event.cell_type,
                );
            }
            return ;
        }
        let ghost cells0 = self.cells@;
        let ghost edited = edited_cells(
            cells0,
            self.position,
            bmin,
            bmax,
            event.value,
            event.cell_type,
        );
        let mut i: usize = 0;
        while i < CELL_GRID_SIZE_3
            invariant
                self.position == old(self).position,
                self.is_dirty == old(self).is_dirty,
                self.mesh == old(self).mesh,
                self.should_destroy == old(self).should_destroy,
                chunk_pos_ok(self.position),
                self.cells@.len() == CELL_GRID_SIZE_3,
                cells0.len() == CELL_GRID_SIZE_3,
                i <= CELL_GRID_SIZE_3,
                bmin_x == bmin.0 && bmin_y == bmin.1 && bmin_z == bmin.2,
                bmax_x == bmax.0 && bmax_y == bmax.1 && bmax_z == bmax.2,
                edited == edited_cells(
                    cells0,
                    self.position,
                    bmin,
                    bmax,
                    event.value,
                    event.cell_type,
                ),
                forall|j: int| 0 <= j < i ==> self.cells@[j] == edited[j],
                forall|j: int| i <= j < CELL_GRID_SIZE_3 ==> self.cells@[j] == cells0[j],
            decreases CELL_GRID_SIZE_3 - i,
        {
            let (lx, ly, lz) = index_to_cell(i);
            let wx: i64 = self.position.x as i64 * 16 + lx as i64;
            let wy: i64 = self.position.y as i64 * 16 + ly as i64;
            let wz: i64 = self.position.z as i64 * 16 + lz as i64;
            proof {
                lemma_cell_index_unique(i as int, lx as int, ly as int, lz as int);
            }
            if bmin_x <= wx && wx <= bmax_x && bmin_y <= wy && wy <= bmax_y && bmin_z <= wz && wz
                <= bmax_z {
                let cur = self.cells[i];
                let written = Cell {
                    value: event.value,
                    cell_type: match event.cell_type {
                        Some(t) => t,
                        None => cur.cell_type,
                    },
                };
                self.cells.set(i, written);
            }
            i += 1;
        }
        proof {
            assert(self.cells@ =~= edited);
        }
        self.is_dirty = true;
    }

    /// Polygonize this chunk's grid with marching cubes: clears the dirty
    /// flag and returns the mesh, or `None` when the grid has no visible
    /// surface (nothing to publish — not an error).
    pub fn polygonize(&mut self) -> (m: Option<MeshData>)
        requires
            old(self).wf(),
        ensures
            final(self).wf(),
            final(self).position == old(self).position,
            final(self).cells@ == old(self).cells@,
            final(self).mesh == old(self).mesh,
            final(self).should_destroy == old(self).should_destroy,
            !final(self).is_dirty,
            match m {
                Some(md) => {
                    &&& chunk_mesh(old(self).cells@, old(self).position).len() > 0
                    &&& md.verts@ == verts_of(chunk_mesh(old(self).cells@, old(self).position))
                    &&& md.colors@ == colors_of(chunk_mesh(old(self).cells@, old(self).position))
                },
                None => chunk_mesh(old(self).cells@, old(self).position).len() == 0,
            },
    {
        self.is_dirty = false;
        let (verts, colors) = polygonize_cells(&self.cells, self.position);
        if verts.len() == 0 {
            return None;
        }
        Some(MeshData { verts, colors })
    }
}

} // verus!
