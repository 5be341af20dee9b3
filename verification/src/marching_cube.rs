//! Marching-cubes polygonization: per unit cube of eight adjacent cells, an
//! 8-bit corner case selects which of the twelve cube edges the iso surface
//! crosses; a vertex is interpolated on every crossed edge and the
//! triangulation table turns the crossings into triangles.
//!
//! Corners are numbered bottom face first (counter-clockwise from the cube
//! origin), then the top face; edges `0..=3` ring the bottom face, `4..=7`
//! the top face, and `8..=11` are the vertical edges.

use vstd::prelude::*;
use crate::cell::{Cell, CellType, Color, cell_color_spec, get_cell_color};
use crate::math::{
    IVec3, MilliVec3, CELL_GRID_SIZE_3, cell_index_spec, cell_to_index, cell_to_world,
    cell_world_spec, chunk_pos_ok,
};
use crate::tables::{tri_entry, tri_entry_at, tri_row, tri_row_bits};

verus! {

/// Local offset of cube corner `i` from the cube origin.
pub open spec fn corner_offset(i: int) -> (int, int, int) {
    if i == 0 {
        (0, 0, 0)
    } else if i == 1 {
        (1, 0, 0)
    } else if i == 2 {
        (1, 0, 1)
    } else if i == 3 {
        (0, 0, 1)
    } else if i == 4 {
        (0, 1, 0)
    } else if i == 5 {
        (1, 1, 0)
    } else if i == 6 {
        (1, 1, 1)
    } else {
        (0, 1, 1)
    }
}

/// The two corners joined by cube edge `k`.
pub open spec fn edge_ends(k: int) -> (int, int) {
    if k == 0 {
        (0, 1)
    } else if k == 1 {
        (1, 2)
    } else if k == 2 {
        (2, 3)
    } else if k == 3 {
        (3, 0)
    } else if k == 4 {
        (4, 5)
    } else if k == 5 {
        (5, 6)
    } else if k == 6 {
        (6, 7)
    } else if k == 7 {
        (7, 4)
    } else if k == 8 {
        (0, 4)
    } else if k == 9 {
        (1, 5)
    } else if k == 10 {
        (2, 6)
    } else {
        (3, 7)
    }
}

/// Cell at corner `i` of the cube with local origin `(cx, cy, cz)`.
pub open spec fn corner_cell(cells: Seq<Cell>, cx: int, cy: int, cz: int, i: int) -> Cell {
    let o = corner_offset(i);
    cells[cell_index_spec(cx + o.0, cy + o.1, cz + o.2)]
}

/// Whether corner `i` lies below the iso level (outside the surface).
pub open spec fn corner_below(cells: Seq<Cell>, cx: int, cy: int, cz: int, i: int) -> bool {
    corner_cell(cells, cx, cy, cz, i).value < 500
}

/// The 8-bit corner case of a cube: bit `i` set iff corner `i` is below the
/// iso level.
pub open spec fn cube_case(cells: Seq<Cell>, cx: int, cy: int, cz: int) -> int {
    (if corner_below(cells, cx, cy, cz, 0) {
        1int
    } else {
        0int
    }) + (if corner_below(cells, cx, cy, cz, 1) {
        2int
    } else {
        0int
    }) + (if corner_below(cells, cx, cy, cz, 2) {
        4int
    } else {
        0int
    }) + (if corner_below(cells, cx, cy, cz, 3) {
        8int
    } else {
        0int
    }) + (if corner_below(cells, cx, cy, cz, 4) {
        16int
    } else {
        0int
    }) + (if corner_below(cells, cx, cy, cz, 5) {
        32int
    } else {
        0int
    }) + (if corner_below(cells, cx, cy, cz, 6) {
        64int
    } else {
        0int
    }) + (if corner_below(cells, cx, cy, cz, 7) {
        128int
    } else {
        0int
    })
}

/// Whether the iso surface crosses edge `k`: its endpoints lie on opposite
/// sides of the iso level.
pub open spec fn edge_crossed(cells: Seq<Cell>, cx: int, cy: int, cz: int, k: int) -> bool {
    corner_below(cells, cx, cy, cz, edge_ends(k).0) != corner_below(
        cells,
        cx,
        cy,
        cz,
        edge_ends(k).1,
    )
}

/// The 12-bit edge mask of a cube: bit `k` set iff the surface crosses edge
/// `k`.
pub open spec fn edge_mask(cells: Seq<Cell>, cx: int, cy: int, cz: int) -> int {
    (if edge_crossed(cells, cx, cy, cz, 0) {
        1int
    } else {
        0int
    }) + (if edge_crossed(cells, cx, cy, cz, 1) {
        2int
    } else {
        0int
    }) + (if edge_crossed(cells, cx, cy, cz, 2) {
        4int
    } else {
        0int
    }) + (if edge_crossed(cells, cx, cy, cz, 3) {
        8int
    } else {
        0int
    }) + (if edge_crossed(cells, cx, cy, cz, 4) {
        16int
    } else {
        0int
    }) + (if edge_crossed(cells, cx, cy, cz, 5) {
        32int
    } else {
        0int
    }) + (if edge_crossed(cells, cx, cy, cz, 6) {
        64int
    } else {
        0int
    }) + (if edge_crossed(cells, cx, cy, cz, 7) {
        128int
    } else {
        0int
    }) + (if edge_crossed(cells, cx, cy, cz, 8) {
        256int
    } else {
        0int
    }) + (if edge_crossed(cells, cx, cy, cz, 9) {
        512int
    } else {
        0int
    }) + (if edge_crossed(cells, cx, cy, cz, 10) {
        1024int
    } else {
        0int
    }) + (if edge_crossed(cells, cx, cy, cz, 11) {
        2048int
    } else {
        0int
    })
}

/// Distance of a milli-density from the iso level.
pub open spec fn dist_to_iso(v: int) -> int {
    if v < 500 {
        500 - v
    } else {
        v - 500
    }
}

/// Interpolation parameter (in milli-units of the edge length) of the point
/// where the surface crosses an edge whose endpoint densities are `va`, `vb`.
pub open spec fn interp_t_spec(va: int, vb: int) -> int {
    if va <= vb {
        ((500 - va) * 1000) / (vb - va)
    } else {
        ((va - 500) * 1000) / (va - vb)
    }
}

/// The vertex the surface places on the edge from world cell `pa` (cell
/// `ca`) to world cell `pb` (cell `cb`): the linear interpolation of the two
/// corner positions at the iso crossing, carrying the material of the corner
/// whose density is nearer the iso level (ties go to the first corner).
pub open spec fn interp_vertex_spec(
    pa: (int, int, int),
    pb: (int, int, int),
    ca: Cell,
    cb: Cell,
) -> (MilliVec3, CellType) {
    let t = interp_t_spec(ca.value as int, cb.value as int);
    (
        MilliVec3 {
            x: (pa.0 * 1000 + (pb.0 - pa.0) * t) as i64,
            y: (pa.1 * 1000 + (pb.1 - pa.1) * t) as i64,
            z: (pa.2 * 1000 + (pb.2 - pa.2) * t) as i64,
        },
        if dist_to_iso(ca.value as int) <= dist_to_iso(cb.value as int) {
            ca.cell_type
        } else {
            cb.cell_type
        },
    )
}

/// Whether a world cell coordinate lies in the range the engine produces.
pub open spec fn world_coord_ok(w: IVec3) -> bool {
    -17000000 <= w.x <= 17000000 && -17000000 <= w.y <= 17000000 && -17000000 <= w.z <= 17000000
}

/// A bounded corner difference times a bounded interpolation parameter stays
/// far inside `i64`.
proof fn lemma_interp_term_bound(d: int, t: int)
    by (nonlinear_arith)
    requires
        -34000000 <= d <= 34000000,
        0 <= t <= 1000,
    ensures
        -34000000000 <= d * t <= 34000000000,
{
}

/// Interpolate the surface vertex on the edge from `pa` to `pb`.
pub fn interpolate_vertex(pa: IVec3, pb: IVec3, ca: Cell, cb: Cell) -> (v: (MilliVec3, CellType))
    requires
        (ca.value < 500) != (cb.value < 500),
        world_coord_ok(pa),
        world_coord_ok(pb),
    ensures
        v == interp_vertex_spec(
            (pa.x as int, pa.y as int, pa.z as int),
            (pb.x as int, pb.y as int, pb.z as int),
            ca,
            cb,
        ),
{
    let va: u32 = ca.value;
    let vb: u32 = cb.value;
    let num: u64;
    let den: u64;
    if va <= vb {
        num = (500 - va) as u64 * 1000;
        den = (vb - va) as u64;
    } else {
        num = (va - 500) as u64 * 1000;
        den = (va - vb) as u64;
    }
    proof {
        assert(num <= den * 1000);
    }
    let t_u: u64 = num / den;
    proof {
        vstd::arithmetic::div_mod::lemma_multiply_divide_le(num as int, den as int, 1000);
        assert(t_u <= 1000);
    }
    let t: i64 = t_u as i64;
    proof {
        lemma_interp_term_bound(pb.x as int - pa.x as int, t as int);
        lemma_interp_term_bound(pb.y as int - pa.y as int, t as int);
        lemma_interp_term_bound(pb.z as int - pa.z as int, t as int);
    }
    let x: i64 = pa.x as i64 * 1000 + (pb.x as i64 - pa.x as i64) * t;
    let y: i64 = pa.y as i64 * 1000 + (pb.y as i64 - pa.y as i64) * t;
    let z: i64 = pa.z as i64 * 1000 + (pb.z as i64 - pa.z as i64) * t;
    let da: u32 = if va < 500 {
        500 - va
    } else {
        va - 500
    };
    let db: u32 = if vb < 500 {
        500 - vb
    } else {
        vb - 500
    };
    let ty: CellType = if da <= db {
        ca.cell_type
    } else {
        cb.cell_type
    };
    (MilliVec3 { x, y, z }, ty)
}

/// World cell coordinate of corner `i` of the cube at `(cx, cy, cz)`.
pub open spec fn corner_world(pos: IVec3, cx: int, cy: int, cz: int, i: int) -> (int, int, int) {
    let o = corner_offset(i);
    cell_world_spec(pos, cx + o.0, cy + o.1, cz + o.2)
}

/// Candidate vertex on edge `k` of a cube: the interpolated surface vertex
/// where the surface crosses the edge, a placeholder where it does not.
pub open spec fn slot_vertex(cells: Seq<Cell>, pos: IVec3, cx: int, cy: int, cz: int, k: int) -> (
    MilliVec3,
    CellType,
) {
    let a = edge_ends(k).0;
    let b = edge_ends(k).1;
    if corner_below(cells, cx, cy, cz, a) != corner_below(cells, cx, cy, cz, b) {
        interp_vertex_spec(
            corner_world(pos, cx, cy, cz, a),
            corner_world(pos, cx, cy, cz, b),
            corner_cell(cells, cx, cy, cz, a),
            corner_cell(cells, cx, cy, cz, b),
        )
    } else {
        (MilliVec3 { x: 0, y: 0, z: 0 }, CellType::Stone)
    }
}

/// The twelve candidate vertices of a cube, one per edge.
pub open spec fn cube_slots(cells: Seq<Cell>, pos: IVec3, cx: int, cy: int, cz: int) -> Seq<
    (MilliVec3, CellType),
> {
    Seq::new(12, |k: int| slot_vertex(cells, pos, cx, cy, cz, k))
}

/// Triangle vertices emitted from triple `t` onward of a triangulation row,
/// over a cube's twelve candidate vertices; emission stops at the first
/// entry that names no edge.
pub open spec fn emit_from(row: u64, slots: Seq<(MilliVec3, CellType)>, t: int) -> Seq<
    (MilliVec3, CellType),
>
    decreases 5 - t,
{
    if t < 0 || t >= 5 {
        Seq::empty()
    } else {
        let e0 = tri_entry(row, 3 * t);
        let e1 = tri_entry(row, 3 * t + 1);
        let e2 = tri_entry(row, 3 * t + 2);
        if e0 < 12 && e1 < 12 && e2 < 12 {
            seq![slots[e0 as int], slots[e1 as int], slots[e2 as int]] + emit_from(
                row,
                slots,
                t + 1,
            )
        } else {
            Seq::empty()
        }
    }
}

/// Triangle vertices one cube contributes to the chunk mesh: none when the
/// surface crosses no edge, otherwise the triangulation row of its corner
/// case read over its candidate vertices.
pub open spec fn cube_verts(cells: Seq<Cell>, pos: IVec3, cx: int, cy: int, cz: int) -> Seq<
    (MilliVec3, CellType),
> {
    if edge_mask(cells, cx, cy, cz) == 0 {
        Seq::empty()
    } else {
        emit_from(
            tri_row_bits(cube_case(cells, cx, cy, cz) as u8),
            cube_slots(cells, pos, cx, cy, cz),
            0,
        )
    }
}

/// Triangle vertices of the first `n` cubes, in linear cube order
/// (`cx * 256 + cy * 16 + cz`).
pub open spec fn mesh_upto(cells: Seq<Cell>, pos: IVec3, n: int) -> Seq<(MilliVec3, CellType)>
    decreases n,
{
    if n <= 0 {
        Seq::empty()
    } else {
        mesh_upto(cells, pos, n - 1) + cube_verts(
            cells,
            pos,
            (n - 1) / 256,
            ((n - 1) / 16) % 16,
            (n - 1) % 16,
        )
    }
}

/// Every triangle vertex of the chunk's mesh, with its material: the
/// concatenation over all `16^3` cubes.
pub open spec fn chunk_mesh(cells: Seq<Cell>, pos: IVec3) -> Seq<(MilliVec3, CellType)> {
    mesh_upto(cells, pos, 4096)
}

/// The positions of a run of triangle vertices.
pub open spec fn verts_of(s: Seq<(MilliVec3, CellType)>) -> Seq<MilliVec3> {
    Seq::new(s.len(), |i: int| s[i].0)
}

/// The display colors of a run of triangle vertices.
pub open spec fn colors_of(s: Seq<(MilliVec3, CellType)>) -> Seq<Color> {
    Seq::new(s.len(), |i: int| cell_color_spec(s[i].1))
}

/// Positions and colors distribute over concatenation of vertex runs.
pub proof fn lemma_parts_split(a: Seq<(MilliVec3, CellType)>, b: Seq<(MilliVec3, CellType)>)
    ensures
        verts_of(a + b) == verts_of(a) + verts_of(b),
        colors_of(a + b) == colors_of(a) + colors_of(b),
{
    assert(verts_of(a + b) =~= verts_of(a) + verts_of(b));
    assert(colors_of(a + b) =~= colors_of(a) + colors_of(b));
}

/// Append the triangles from triple `t` onward of a triangulation row.
fn emit_triangles(
    row: u64,
    slots: &Vec<(MilliVec3, CellType)>,
    t: usize,
    verts: &mut Vec<MilliVec3>,
    colors: &mut Vec<Color>,
)
    requires
        slots@.len() == 12,
        t <= 5,
    ensures
        final(verts)@ == old(verts)@ + verts_of(emit_from(row, slots@, t as int)),
        final(colors)@ == old(colors)@ + colors_of(emit_from(row, slots@, t as int)),
    decreases 5 - t,
{
    if t == 5 {
        proof {
            assert(verts@ =~= verts@ + verts_of(emit_from(row, slots@, 5)));
            assert(colors@ =~= colors@ + colors_of(emit_from(row, slots@, 5)));
        }
        return ;
    }
    let e0 = tri_entry_at(row, 3 * t);
    let e1 = tri_entry_at(row, 3 * t + 1);
    let e2 = tri_entry_at(row, 3 * t + 2);
    if e0 < 12 && e1 < 12 && e2 < 12 {
        let s0 = slots[e0 as usize];
        let s1 = slots[e1 as usize];
        let s2 = slots[e2 as usize];
        verts.push(s0.0);
        verts.push(s1.0);
        verts.push(s2.0);
        colors.push(get_cell_color(s0.1));
        colors.push(get_cell_color(s1.1));
        colors.push(get_cell_color(s2.1));
        emit_triangles(row, slots, t + 1, verts, colors);
        proof {
            let head = seq![s0, s1, s2];
            let rest = emit_from(row, slots@, t as int + 1);
            lemma_parts_split(head, rest);
            assert(verts@ =~= old(verts)@ + verts_of(emit_from(row, slots@, t as int)));
            assert(colors@ =~= old(colors)@ + colors_of(emit_from(row, slots@, t as int)));
        }
    } else {
        proof {
            assert(verts@ =~= verts@ + verts_of(emit_from(row, slots@, t as int)));
            assert(colors@ =~= colors@ + colors_of(emit_from(row, slots@, t as int)));
        }
    }
}

/// Append the triangles one cube contributes to the chunk mesh.
#[verifier::rlimit(100)]
fn polygonize_cube(
    cells: &Vec<Cell>,
    pos: IVec3,
    cx: usize,
    cy: usize,
    cz: usize,
    verts: &mut Vec<MilliVec3>,
    colors: &mut Vec<Color>,
)
    requires
        cells@.len() == CELL_GRID_SIZE_3,
        chunk_pos_ok(pos),
        cx < 16,
        cy < 16,
        cz < 16,
    ensures
        final(verts)@ == old(verts)@ + verts_of(
            cube_verts(cells@, pos, cx as int, cy as int, cz as int),
        ),
        final(colors)@ == old(colors)@ + colors_of(
            cube_verts(cells@, pos, cx as int, cy as int, cz as int),
        ),
{
    let ghost gcx = cx as int;
    let ghost gcy = cy as int;
    let ghost gcz = cz as int;
    let c0 = cells[cell_to_index(cx, cy, cz)];
    let c1 = cells[cell_to_index(cx + 1, cy, cz)];
    let c2 = cells[cell_to_index(cx + 1, cy, cz + 1)];
    let c3 = cells[cell_to_index(cx, cy, cz + 1)];
    let c4 = cells[cell_to_index(cx, cy + 1, cz)];
    let c5 = cells[cell_to_index(cx + 1, cy + 1, cz)];
    let c6 = cells[cell_to_index(cx + 1, cy + 1, cz + 1)];
    let c7 = cells[cell_to_index(cx, cy + 1, cz + 1)];
    proof {
        assert(c0 == corner_cell(cells@, gcx, gcy, gcz, 0));
        assert(c1 == corner_cell(cells@, gcx, gcy, gcz, 1));
        assert(c2 == corner_cell(cells@, gcx, gcy, gcz, 2));
        assert(c3 == corner_cell(cells@, gcx, gcy, gcz, 3));
        assert(c4 == corner_cell(cells@, gcx, gcy, gcz, 4));
        assert(c5 == corner_cell(cells@, gcx, gcy, gcz, 5));
        assert(c6 == corner_cell(cells@, gcx, gcy, gcz, 6));
        assert(c7 == corner_cell(cells@, gcx, gcy, gcz, 7));
    }
    let b0 = c0.value < 500;
    let b1 = c1.value < 500;
    let b2 = c2.value < 500;
    let b3 = c3.value < 500;
    let b4 = c4.value < 500;
    let b5 = c5.value < 500;
    let b6 = c6.value < 500;
    let b7 = c7.value < 500;
    let e0 = b0 != b1;
    let e1 = b1 != b2;
    let e2 = b2 != b3;
    let e3 = b3 != b0;
    let e4 = b4 != b5;
    let e5 = b5 != b6;
    let e6 = b6 != b7;
    let e7 = b7 != b4;
    let e8 = b0 != b4;
    let e9 = b1 != b5;
    let e10 = b2 != b6;
    let e11 = b3 != b7;
    if !(e0 || e1 || e2 || e3 || e4 || e5 || e6 || e7 || e8 || e9 || e10 || e11) {
        proof {
            assert(edge_mask(cells@, gcx, gcy, gcz) == 0);
            assert(verts@ =~= verts@ + verts_of(cube_verts(cells@, pos, gcx, gcy, gcz)));
            assert(colors@ =~= colors@ + colors_of(cube_verts(cells@, pos, gcx, gcy, gcz)));
        }
        return ;
    }
    let mut case: usize = 0;
    if b0 {
        case += 1;
    }
    if b1 {
        case += 2;
    }
    if b2 {
        case += 4;
    }
    if b3 {
        case += 8;
    }
    if b4 {
        case += 16;
    }
    if b5 {
        case += 32;
    }
    if b6 {
        case += 64;
    }
    if b7 {
        case += 128;
    }
    proof {
        assert(case == cube_case(cells@, gcx, gcy, gcz));
        assert(edge_mask(cells@, gcx, gcy, gcz) != 0);
    }
    let row = tri_row(case as u8);
    let w0 = cell_to_world(pos, cx, cy, cz);
    let w1 = cell_to_world(pos, cx + 1, cy, cz);
    let w2 = cell_to_world(pos, cx + 1, cy, cz + 1);
    let w3 = cell_to_world(pos, cx, cy, cz + 1);
    let w4 = cell_to_world(pos, cx, cy + 1, cz);
    let w5 = cell_to_world(pos, cx + 1, cy + 1, cz);
    let w6 = cell_to_world(pos, cx + 1, cy + 1, cz + 1);
    let w7 = cell_to_world(pos, cx, cy + 1, cz + 1);
    let hole = (MilliVec3 { x: 0, y: 0, z: 0 }, CellType::Stone);
    let mut slots: Vec<(MilliVec3, CellType)> = Vec::new();
    slots.push(if e0 { interpolate_vertex(w0, w1, c0, c1) } else { hole });
    slots.push(if e1 { interpolate_vertex(w1, w2, c1, c2) } else { hole });
    slots.push(if e2 { interpolate_vertex(w2, w3, c2, c3) } else { hole });
    slots.push(if e3 { interpolate_vertex(w3, w0, c3, c0) } else { hole });
    slots.push(if e4 { interpolate_vertex(w4, w5, c4, c5) } else { hole });
    slots.push(if e5 { interpolate_vertex(w5, w6, c5, c6) } else { hole });
    slots.push(if e6 { interpolate_vertex(w6, w7, c6, c7) } else { hole });
    slots.push(if e7 { interpolate_vertex(w7, w4, c7, c4) } else { hole });
    slots.push(if e8 { interpolate_vertex(w0, w4, c0, c4) } else { hole });
    slots.push(if e9 { interpolate_vertex(w1, w5, c1, c5) } else { hole });
    slots.push(if e10 { interpolate_vertex(w2, w6, c2, c6) } else { hole });
    slots.push(if e11 { interpolate_vertex(w3, w7, c3, c7) } else { hole });
    proof {
        assert(slots@[0] == slot_vertex(cells@, pos, gcx, gcy, gcz, 0));
        assert(slots@[1] == slot_vertex(cells@, pos, gcx, gcy, gcz, 1));
        assert(slots@[2] == slot_vertex(cells@, pos, gcx, gcy, gcz, 2));
        assert(slots@[3] == slot_vertex(cells@, pos, gcx, gcy, gcz, 3));
        assert(slots@[4] == slot_vertex(cells@, pos, gcx, gcy, gcz, 4));
        assert(slots@[5] == slot_vertex(cells@, pos, gcx, gcy, gcz, 5));
        assert(slots@[6] == slot_vertex(cells@, pos, gcx, gcy, gcz, 6));
        assert(slots@[7] == slot_vertex(cells@, pos, gcx, gcy, gcz, 7));
        assert(slots@[8] == slot_vertex(cells@, pos, gcx, gcy, gcz, 8));
        assert(slots@[9] == slot_vertex(cells@, pos, gcx, gcy, gcz, 9));
        assert(slots@[10] == slot_vertex(cells@, pos, gcx, gcy, gcz, 10));
        assert(slots@[11] == slot_vertex(cells@, pos, gcx, gcy, gcz, 11));
        assert(slots@ =~= cube_slots(cells@, pos, gcx, gcy, gcz));
    }
    emit_triangles(row, &slots, 0, verts, colors);
    proof {
        assert(cube_verts(cells@, pos, gcx, gcy, gcz) == emit_from(
            row,
            cube_slots(cells@, pos, gcx, gcy, gcz),
            0,
        ));
    }
}

/// Polygonize a whole chunk grid: the triangle-vertex positions and colors
/// of every cube's contribution, in linear cube order.
pub fn polygonize_cells(cells: &Vec<Cell>, pos: IVec3) -> (m: (Vec<MilliVec3>, Vec<Color>))
    requires
        cells@.len() == CELL_GRID_SIZE_3,
        chunk_pos_ok(pos),
    ensures
        m.0@ == verts_of(chunk_mesh(cells@, pos)),
        m.1@ == colors_of(chunk_mesh(cells@, pos)),
{
    let mut verts: Vec<MilliVec3> = Vec::new();
    let mut colors: Vec<Color> = Vec::new();
    let mut n: usize = 0;
    while n < 4096
        invariant
            cells@.len() == CELL_GRID_SIZE_3,
            chunk_pos_ok(pos),
            n <= 4096,
            verts@ == verts_of(mesh_upto(cells@, pos, n as int)),
            colors@ == colors_of(mesh_upto(cells@, pos, n as int)),
        decreases 4096 - n,
    {
        let cx: usize = n / 256;
        let cy: usize = (n / 16) % 16;
        let cz: usize = n % 16;
        proof {
            vstd::arithmetic::div_mod::lemma_multiply_divide_lt(n as int, 256, 16);
            vstd::arithmetic::div_mod::lemma_mod_bound(n as int / 16, 16);
            vstd::arithmetic::div_mod::lemma_mod_bound(n as int, 16);
        }
        polygonize_cube(cells, pos, cx, cy, cz, &mut verts, &mut colors);
        proof {
            lemma_parts_split(
                mesh_upto(cells@, pos, n as int),
                cube_verts(cells@, pos, cx as int, cy as int, cz as int),
            );
            assert(mesh_upto(cells@, pos, n as int + 1) == mesh_upto(cells@, pos, n as int)
                + cube_verts(cells@, pos, cx as int, cy as int, cz as int));
        }
        n += 1;
    }
    (verts, colors)
}

} // verus!
