//! The library's global laws: properties that hold across functions —
//! coordinate round-trips, deterministic generation, idempotent edits, seam
//! consistency under the edit cascade, the no-surface skip, the extreme
//! marching-cubes cases, and streaming convergence.

use vstd::prelude::*;
use crate::cell::Cell;
use crate::chunk::{
    Chunk, apply_cell, edit_min, edit_max, edit_rel, edited_cells, lemma_cell_index_unique,
};
use crate::events::{TerrainCellEvent, event_radius};
use crate::field::in_cascade;
use crate::marching_cube::{chunk_mesh, corner_below, cube_case, edge_mask, mesh_upto};
use crate::math::{IVec3, MilliVec3, cell_index_spec, lemma_index_decomposition};
use crate::streamer::{
    lemma_missing_seq_props, lemma_wanted_props, missing_seq, stream_params_ok, wanted_contains,
    wanted_seq,
};

verus! {

/// Coordinate round-trip: decomposing a valid linear cell offset into its
/// local coordinate and re-encoding it yields the same offset, and the
/// decomposed coordinate is in range.
pub proof fn lemma_coordinate_round_trip(i: int)
    requires
        0 <= i < 4913,
    ensures
        0 <= i / 289 < 17,
        0 <= (i / 17) % 17 < 17,
        0 <= i % 17 < 17,
        cell_index_spec(i / 289, (i / 17) % 17, i % 17) == i,
{
    lemma_index_decomposition(i);
    vstd::arithmetic::div_mod::lemma_mod_bound(i / 17, 17);
    vstd::arithmetic::div_mod::lemma_mod_bound(i, 17);
    vstd::arithmetic::div_mod::lemma_div_pos_is_pos(i, 289);
}

/// Generation determinism: a chunk grid is a pure function of its density
/// and material-noise samples — equal samples give bit-identical grids.
/// (Sampling the noise itself at a cell's world position is the caller's
/// side of the boundary; this pins everything the library does with it.)
pub proof fn lemma_generation_deterministic(
    d1: Seq<u32>,
    t1: Seq<u32>,
    d2: Seq<u32>,
    t2: Seq<u32>,
)
    requires
        d1 == d2,
        t1 == t2,
    ensures
        crate::chunk::generated_cells(d1, t1) == crate::chunk::generated_cells(d2, t2),
{
}

/// Edit idempotence: applying the same edit twice to a grid leaves the same
/// grid as applying it once — an edit writes absolute values, it does not
/// accumulate.
pub proof fn lemma_edit_idempotent(
    cells: Seq<Cell>,
    p: IVec3,
    bmin: (int, int, int),
    bmax: (int, int, int),
    value: u32,
    mat: Option<crate::cell::CellType>,
)
    ensures
        edited_cells(edited_cells(cells, p, bmin, bmax, value, mat), p, bmin, bmax, value, mat)
            == edited_cells(cells, p, bmin, bmax, value, mat),
{
    let once = edited_cells(cells, p, bmin, bmax, value, mat);
    let twice = edited_cells(once, p, bmin, bmax, value, mat);
    assert(twice =~= once);
}

/// Case-table coverage at the extremes: a cube whose corners are all below
/// the iso level (case 255) or all at or above it (case 0) crosses no edge.
pub proof fn lemma_case_extremes(cells: Seq<Cell>, cx: int, cy: int, cz: int)
    ensures
        cube_case(cells, cx, cy, cz) == 0 ==> edge_mask(cells, cx, cy, cz) == 0,
        cube_case(cells, cx, cy, cz) == 255 ==> edge_mask(cells, cx, cy, cz) == 0,
{
    if cube_case(cells, cx, cy, cz) == 0 || cube_case(cells, cx, cy, cz) == 255 {
        assert(corner_below(cells, cx, cy, cz, 0) == corner_below(cells, cx, cy, cz, 1)
            && corner_below(cells, cx, cy, cz, 1) == corner_below(cells, cx, cy, cz, 2)
            && corner_below(cells, cx, cy, cz, 2) == corner_below(cells, cx, cy, cz, 3)
            && corner_below(cells, cx, cy, cz, 3) == corner_below(cells, cx, cy, cz, 4)
            && corner_below(cells, cx, cy, cz, 4) == corner_below(cells, cx, cy, cz, 5)
            && corner_below(cells, cx, cy, cz, 5) == corner_below(cells, cx, cy, cz, 6)
            && corner_below(cells, cx, cy, cz, 6) == corner_below(cells, cx, cy, cz, 7));
    }
}

/// No-surface skip, one cube: when every cell of the grid is on the same
/// side of the iso level, no edge of any cube is crossed.
proof fn lemma_uniform_cube_mask(cells: Seq<Cell>, cx: int, cy: int, cz: int)
    requires
        cells.len() == 4913,
        0 <= cx < 16,
        0 <= cy < 16,
        0 <= cz < 16,
        (forall|i: int| 0 <= i < 4913 ==> (#[trigger] cells[i]).value >= 500) || (forall|i: int|
            0 <= i < 4913 ==> (#[trigger] cells[i]).value < 500),
    ensures
        edge_mask(cells, cx, cy, cz) == 0,
{
    assert forall|i: int| 0 <= i < 8 implies (#[trigger] corner_below(cells, cx, cy, cz, i))
        == corner_below(cells, cx, cy, cz, 0) by {
        let oi = crate::marching_cube::corner_offset(i);
        let o0 = crate::marching_cube::corner_offset(0);
        assert(0 <= cell_index_spec(cx + oi.0, cy + oi.1, cz + oi.2) < 4913);
        assert(0 <= cell_index_spec(cx + o0.0, cy + o0.1, cz + o0.2) < 4913);
    }
}

/// No-surface skip, prefix induction: a grid entirely at or above the iso
/// level, or entirely below it, yields no triangles from its first `n`
/// cubes.
proof fn lemma_mesh_upto_empty(cells: Seq<Cell>, pos: IVec3, n: int)
    requires
        cells.len() == 4913,
        0 <= n <= 4096,
        (forall|i: int| 0 <= i < 4913 ==> (#[trigger] cells[i]).value >= 500) || (forall|i: int|
            0 <= i < 4913 ==> (#[trigger] cells[i]).value < 500),
    ensures
        mesh_upto(cells, pos, n).len() == 0,
    decreases n,
{
    if n > 0 {
        lemma_mesh_upto_empty(cells, pos, n - 1);
        let m = n - 1;
        vstd::arithmetic::div_mod::lemma_multiply_divide_lt(m, 256, 16);
        vstd::arithmetic::div_mod::lemma_div_pos_is_pos(m, 256);
        vstd::arithmetic::div_mod::lemma_mod_bound(m / 16, 16);
        vstd::arithmetic::div_mod::lemma_mod_bound(m, 16);
        lemma_uniform_cube_mask(cells, m / 256, (m / 16) % 16, m % 16);
    }
}

/// No-surface skip: a grid filled entirely at or above the iso level
/// produces zero triangles, and so does one filled entirely below it.
pub proof fn lemma_no_surface(cells: Seq<Cell>, pos: IVec3)
    requires
        cells.len() == 4913,
        (forall|i: int| 0 <= i < 4913 ==> (#[trigger] cells[i]).value >= 500) || (forall|i: int|
            0 <= i < 4913 ==> (#[trigger] cells[i]).value < 500),
    ensures
        chunk_mesh(cells, pos).len() == 0,
{
    lemma_mesh_upto_empty(cells, pos, 4096);
}

/// Whether the world cell `w` lies in the inclusive box of the chunk at
/// chunk coordinate `p`.
pub open spec fn in_box(p: IVec3, w: (int, int, int)) -> bool {
    p.x * 16 <= w.0 <= p.x * 16 + 16 && p.y * 16 <= w.1 <= p.y * 16 + 16 && p.z * 16 <= w.2
        <= p.z * 16 + 16
}

/// Linear offset of world cell `w` inside the chunk at `p`.
pub open spec fn widx(p: IVec3, w: (int, int, int)) -> int {
    cell_index_spec(w.0 - p.x * 16, w.1 - p.y * 16, w.2 - p.z * 16)
}

/// The cell a chunk holds at world cell `w` (meaningful when `w` is in its
/// box).
pub open spec fn cell_at(c: Chunk, w: (int, int, int)) -> Cell {
    c.cells@[widx(c.position, w)]
}

/// Seam consistency: wherever the boxes of two chunks overlap — on shared
/// faces, edges and corners — both hold the same cell.
pub open spec fn seam_consistent(chunks: Seq<Chunk>) -> bool {
    forall|i: int, j: int, w: (int, int, int)|
        #![trigger cell_at(chunks[i], w), cell_at(chunks[j], w)]
        0 <= i < chunks.len() && 0 <= j < chunks.len() && in_box(chunks[i].position, w) && in_box(
            chunks[j].position,
            w,
        ) ==> cell_at(chunks[i], w) == cell_at(chunks[j], w)
}

/// Whether the integer edit box stays strictly inside the 3x3x3 block of
/// chunks centered on the hit chunk — the region the 26-neighbor cascade
/// reaches. Holds for any edit whose radius is at most one chunk size less
/// a cell, the cascade's stated design envelope.
pub open spec fn edit_box_in_ring(hp: IVec3, bmin: (int, int, int), bmax: (int, int, int)) -> bool {
    (hp.x - 1) * 16 < bmin.0 && bmax.0 < (hp.x + 2) * 16 && (hp.y - 1) * 16 < bmin.1 && bmax.1 < (
    hp.y + 2) * 16 && (hp.z - 1) * 16 < bmin.2 && bmax.2 < (hp.z + 2) * 16
}

/// What an edit leaves at world cell `w` of a chunk: the written cell when
/// `w` is in the edit box, the old cell otherwise.
proof fn lemma_edited_at(
    cells: Seq<Cell>,
    p: IVec3,
    bmin: (int, int, int),
    bmax: (int, int, int),
    value: u32,
    mat: Option<crate::cell::CellType>,
    w: (int, int, int),
)
    requires
        cells.len() == 4913,
        in_box(p, w),
    ensures
        0 <= widx(p, w) < 4913,
        edited_cells(cells, p, bmin, bmax, value, mat)[widx(p, w)] == if bmin.0 <= w.0 <= bmax.0
            && bmin.1 <= w.1 <= bmax.1 && bmin.2 <= w.2 <= bmax.2 {
            apply_cell(cells[widx(p, w)], value, mat)
        } else {
            cells[widx(p, w)]
        },
{
    let lx = w.0 - p.x * 16;
    let ly = w.1 - p.y * 16;
    let lz = w.2 - p.z * 16;
    lemma_cell_index_unique(widx(p, w), lx, ly, lz);
}

/// Seam consistency is preserved by the edit cascade: starting from
/// seam-consistent chunks, editing the hit chunk and its 26 neighbors (each
/// clamped to its own box) leaves every overlapping pair of chunks agreeing
/// on their shared cells — provided the edit box stays within the cascade's
/// one-ring envelope.
pub proof fn lemma_cascade_preserves_seams(
    chunks0: Seq<Chunk>,
    chunks1: Seq<Chunk>,
    hit_pos: IVec3,
    end_pos: MilliVec3,
    e: TerrainCellEvent,
)
    requires
        forall|i: int| 0 <= i < chunks0.len() ==> (#[trigger] chunks0[i]).wf(),
        seam_consistent(chunks0),
        chunks1.len() == chunks0.len(),
        forall|j: int|
            0 <= j < chunks0.len() ==> if in_cascade(
                hit_pos,
                (#[trigger] chunks0[j]).position,
            ) {
                edit_rel(chunks0[j], chunks1[j], end_pos, e)
            } else {
                chunks1[j] == chunks0[j]
            },
        edit_box_in_ring(
            hit_pos,
            edit_min(end_pos, event_radius(e)),
            edit_max(end_pos, event_radius(e)),
        ),
    ensures
        seam_consistent(chunks1),
{
    let bmin = edit_min(end_pos, event_radius(e));
    let bmax = edit_max(end_pos, event_radius(e));
    assert forall|i: int, j: int, w: (int, int, int)|
        #![trigger cell_at(chunks1[i], w), cell_at(chunks1[j], w)]
        0 <= i < chunks1.len() && 0 <= j < chunks1.len() && in_box(chunks1[i].position, w)
            && in_box(chunks1[j].position, w) implies cell_at(chunks1[i], w) == cell_at(
        chunks1[j],
        w,
    ) by {
        let pi = chunks0[i].position;
        let pj = chunks0[j].position;
        assert(chunks1[i].position == pi && chunks1[j].position == pj);
        let in_b = bmin.0 <= w.0 <= bmax.0 && bmin.1 <= w.1 <= bmax.1 && bmin.2 <= w.2 <= bmax.2;
        if in_cascade(hit_pos, pi) {
            lemma_edited_at(chunks0[i].cells@, pi, bmin, bmax, e.value, e.cell_type, w);
        }
        if in_cascade(hit_pos, pj) {
            lemma_edited_at(chunks0[j].cells@, pj, bmin, bmax, e.value, e.cell_type, w);
        }
        assert(cell_at(chunks0[i], w) == cell_at(chunks0[j], w));
        if in_b {
            assert(in_cascade(hit_pos, pi)) by {
                assert(pi.x * 16 <= w.0 && w.0 <= bmax.0 && bmax.0 < (hit_pos.x + 2) * 16);
                assert(w.0 <= pi.x * 16 + 16 && bmin.0 <= w.0 && (hit_pos.x - 1) * 16 < bmin.0);
            }
            assert(in_cascade(hit_pos, pj)) by {
                assert(pj.x * 16 <= w.0 && w.0 <= bmax.0 && bmax.0 < (hit_pos.x + 2) * 16);
                assert(w.0 <= pj.x * 16 + 16 && bmin.0 <= w.0 && (hit_pos.x - 1) * 16 < bmin.0);
            }
        }
    }
}

/// The wanted window as a set of chunk coordinates.
pub open spec fn wanted_set(rc: IVec3, d: int) -> Set<IVec3> {
    Set::new(|q: IVec3| wanted_contains(rc, d, q))
}

/// Intersecting the live set with the wanted window changes no wanted
/// coordinate's missing status.
proof fn lemma_missing_after_trim(s: Seq<IVec3>, live: Set<IVec3>, rc: IVec3, d: int)
    requires
        forall|i: int| 0 <= i < s.len() ==> wanted_contains(rc, d, #[trigger] s[i]),
    ensures
        missing_seq(s, live.intersect(wanted_set(rc, d))) == missing_seq(s, live),
    decreases s.len(),
{
    if s.len() > 0 {
        lemma_missing_after_trim(s.drop_last(), live, rc, d);
        assert(s[s.len() - 1] == s.last());
    }
}

/// Inserting a coordinate that `s` does not list leaves the missing
/// subsequence unchanged.
proof fn lemma_missing_insert_absent(s: Seq<IVec3>, live: Set<IVec3>, q: IVec3)
    requires
        !s.contains(q),
    ensures
        missing_seq(s, live.insert(q)) == missing_seq(s, live),
    decreases s.len(),
{
    if s.len() > 0 {
        assert(s[s.len() - 1] == s.last());
        assert(!s.drop_last().contains(q)) by {
            if s.drop_last().contains(q) {
                let i = choose|i: int| 0 <= i < s.drop_last().len() && s.drop_last()[i] == q;
                assert(s[i] == q);
            }
        }
        lemma_missing_insert_absent(s.drop_last(), live, q);
    }
}

/// Going live at one listed missing coordinate shrinks the missing
/// subsequence by exactly one.
proof fn lemma_missing_after_insert(s: Seq<IVec3>, live: Set<IVec3>, q: IVec3)
    requires
        s.no_duplicates(),
        s.contains(q),
        !live.contains(q),
    ensures
        missing_seq(s, live.insert(q)).len() == missing_seq(s, live).len() - 1,
    decreases s.len(),
{
    let e = s.last();
    assert(s[s.len() - 1] == e);
    if e == q {
        assert(!s.drop_last().contains(q)) by {
            if s.drop_last().contains(q) {
                let i = choose|i: int| 0 <= i < s.drop_last().len() && s.drop_last()[i] == q;
                assert(s[i] == s[s.len() - 1]);
            }
        }
        lemma_missing_insert_absent(s.drop_last(), live, q);
    } else {
        assert(s.drop_last().contains(q)) by {
            let i = choose|i: int| 0 <= i < s.len() && s[i] == q;
            assert(s.drop_last()[i] == q);
        }
        lemma_missing_after_insert(s.drop_last(), live, q);
    }
}

/// Going live at a duplicate-free batch of listed missing coordinates
/// shrinks the missing subsequence by the batch size.
proof fn lemma_missing_after_batch(s: Seq<IVec3>, live: Set<IVec3>, picks: Seq<IVec3>)
    requires
        s.no_duplicates(),
        picks.no_duplicates(),
        forall|k: int|
            0 <= k < picks.len() ==> s.contains(#[trigger] picks[k]) && !live.contains(picks[k]),
    ensures
        missing_seq(s, live.union(picks.to_set())).len() == missing_seq(s, live).len()
            - picks.len(),
    decreases picks.len(),
{
    if picks.len() == 0 {
        assert(live.union(picks.to_set()) =~= live);
    } else {
        let q = picks.last();
        let rest = picks.drop_last();
        assert(picks[picks.len() - 1] == q);
        assert(forall|k: int| 0 <= k < rest.len() ==> rest[k] == picks[k]);
        lemma_missing_after_batch(s, live, rest);
        assert(!live.union(rest.to_set()).contains(q)) by {
            if rest.contains(q) {
                let i = choose|i: int| 0 <= i < rest.len() && rest[i] == q;
                assert(picks[i] == picks[picks.len() - 1]);
            }
        }
        lemma_missing_after_insert(s, live.union(rest.to_set()), q);
        assert(live.union(picks.to_set()) =~= live.union(rest.to_set()).insert(q)) by {
            assert forall|x: IVec3| picks.contains(x) <==> rest.contains(x) || x == q by {
                if picks.contains(x) {
                    let i = choose|i: int| 0 <= i < picks.len() && picks[i] == x;
                    if i < picks.len() - 1 {
                        assert(rest[i] == x);
                    }
                }
                if rest.contains(x) {
                    let i = choose|i: int| 0 <= i < rest.len() && rest[i] == x;
                    assert(picks[i] == x);
                }
            }
        }
    }
}

/// Streaming convergence, one cycle: after marking and sweeping every
/// unwanted chunk and spawning a duplicate-free batch of missing wanted
/// coordinates — what one tick plus one update pass does — the live set
/// stays inside the wanted window and the number of missing wanted chunks
/// drops by exactly the batch size. With any spawn budget of at least one
/// per cycle, the count strictly decreases until nothing is missing, and a
/// live set with nothing missing is exactly the wanted window.
pub proof fn lemma_streaming_progress(
    live: Set<IVec3>,
    picks: Seq<IVec3>,
    rc: IVec3,
    d: int,
    k: int,
)
    requires
        stream_params_ok(rc, d),
        picks.no_duplicates(),
        forall|i: int|
            0 <= i < picks.len() ==> wanted_contains(rc, d, #[trigger] picks[i]) && !live.contains(
                picks[i],
            ),
        picks.len() == if k <= missing_seq(wanted_seq(rc, d), live).len() as int {
            k
        } else {
            missing_seq(wanted_seq(rc, d), live).len() as int
        },
        k >= 0,
    ensures
        ({
            let live1 = live.intersect(wanted_set(rc, d)).union(picks.to_set());
            let missing0 = missing_seq(wanted_seq(rc, d), live).len() as int;
            let missing1 = missing_seq(wanted_seq(rc, d), live1).len() as int;
            &&& forall|q: IVec3| live1.contains(q) ==> wanted_contains(rc, d, q)
            &&& missing1 == missing0 - picks.len()
            &&& (missing0 > 0 && k >= 1 ==> missing1 < missing0)
            &&& (missing1 == 0 ==> live1 =~= wanted_set(rc, d))
        }),
{
    let s = wanted_seq(rc, d);
    let live_trim = live.intersect(wanted_set(rc, d));
    let live1 = live_trim.union(picks.to_set());
    lemma_wanted_props(rc, d);
    lemma_missing_seq_props(s, live);
    lemma_missing_seq_props(s, live1);
    lemma_missing_after_trim(s, live, rc, d);
    assert forall|i: int|
        0 <= i < picks.len() implies s.contains(#[trigger] picks[i]) && !live_trim.contains(
        picks[i],
    ) by {
        assert(wanted_contains(rc, d, picks[i]));
    }
    lemma_missing_after_batch(s, live_trim, picks);
    let missing1 = missing_seq(s, live1).len() as int;
    if missing1 == 0 {
        assert forall|q: IVec3| wanted_contains(rc, d, q) implies live1.contains(q) by {
            assert(s.contains(q));
            if !live1.contains(q) {
                assert(missing_seq(s, live1).contains(q));
            }
        }
        assert(live1 =~= wanted_set(rc, d));
    }
}

/// Rounding to the nearest cell is monotone.
proof fn lemma_round_milli_monotone(a: int, b: int)
    requires
        a <= b,
    ensures
        crate::math::round_milli_spec(a) <= crate::math::round_milli_spec(b),
{
    if a >= 0 {
        vstd::arithmetic::div_mod::lemma_div_is_ordered(a + 500, b + 500, 1000);
    } else if b < 0 {
        vstd::arithmetic::div_mod::lemma_div_is_ordered(-b + 500, -a + 500, 1000);
    } else {
        vstd::arithmetic::div_mod::lemma_div_pos_is_pos(-a + 500, 1000);
        vstd::arithmetic::div_mod::lemma_div_pos_is_pos(b + 500, 1000);
    }
}

/// A whole number of cells rounds to itself.
proof fn lemma_round_milli_exact(k: int)
    ensures
        crate::math::round_milli_spec(k * 1000) == k,
{
    if k >= 0 {
        vstd::arithmetic::div_mod::lemma_fundamental_div_mod_converse(k * 1000 + 500, 1000, k, 500);
    } else {
        vstd::arithmetic::div_mod::lemma_fundamental_div_mod_converse(
            -(k * 1000) + 500,
            1000,
            -k,
            500,
        );
    }
}

/// The cascade's design envelope, concretely: a sphere edit of radius at
/// most 15 cells, resolved to a point inside the hit chunk's box, has its
/// integer bounding box strictly inside the one-ring block around the hit
/// chunk — so [`lemma_cascade_preserves_seams`] applies to it.
pub proof fn lemma_radius_within_ring(hp: IVec3, end_pos: MilliVec3, e: TerrainCellEvent)
    requires
        crate::chunk::in_chunk_spec(hp, end_pos),
        0 <= event_radius(e) <= 15000,
    ensures
        edit_box_in_ring(
            hp,
            edit_min(end_pos, event_radius(e)),
            edit_max(end_pos, event_radius(e)),
        ),
{
    let r = event_radius(e);
    lemma_round_milli_monotone(((hp.x - 1) * 16 + 1) * 1000, end_pos.x - r);
    lemma_round_milli_monotone(end_pos.x + r, ((hp.x + 2) * 16 - 1) * 1000);
    lemma_round_milli_monotone(((hp.y - 1) * 16 + 1) * 1000, end_pos.y - r);
    lemma_round_milli_monotone(end_pos.y + r, ((hp.y + 2) * 16 - 1) * 1000);
    lemma_round_milli_monotone(((hp.z - 1) * 16 + 1) * 1000, end_pos.z - r);
    lemma_round_milli_monotone(end_pos.z + r, ((hp.z + 2) * 16 - 1) * 1000);
    lemma_round_milli_exact((hp.x - 1) * 16 + 1);
    lemma_round_milli_exact((hp.x + 2) * 16 - 1);
    lemma_round_milli_exact((hp.y - 1) * 16 + 1);
    lemma_round_milli_exact((hp.y + 2) * 16 - 1);
    lemma_round_milli_exact((hp.z - 1) * 16 + 1);
    lemma_round_milli_exact((hp.z + 2) * 16 - 1);
}

/// What one cycle's spawn batch must look like to match the streamer's
/// contract: duplicate-free missing wanted coordinates, as many as the
/// throttle `k` allows.
pub open spec fn batch_valid(live: Set<IVec3>, batch: Seq<IVec3>, rc: IVec3, d: int, k: int) -> bool {
    &&& batch.no_duplicates()
    &&& forall|i: int|
        0 <= i < batch.len() ==> wanted_contains(rc, d, #[trigger] batch[i]) && !live.contains(
            batch[i],
        )
    &&& batch.len() == if k <= missing_seq(wanted_seq(rc, d), live).len() as int {
        k
    } else {
        missing_seq(wanted_seq(rc, d), live).len() as int
    }
}

/// What the streamer returns is a valid batch: a tick's picks over a field
/// instantiate `batch_valid` for the field's live set. The streamer's
/// postconditions state the same three facts over `has_pos`; this restates
/// them over the set model the convergence law runs on.
pub proof fn lemma_tick_batch_valid(
    chunks: Seq<Chunk>,
    picks: Seq<IVec3>,
    rc: IVec3,
    d: int,
    k: int,
)
    requires
        picks.no_duplicates(),
        forall|i: int|
            0 <= i < picks.len() ==> wanted_contains(rc, d, #[trigger] picks[i]) && !crate::field::has_pos(
                chunks,
                picks[i],
            ),
        picks.len() == if k <= missing_seq(wanted_seq(rc, d), crate::streamer::live_set(chunks)).len() as int {
            k
        } else {
            missing_seq(wanted_seq(rc, d), crate::streamer::live_set(chunks)).len() as int
        },
    ensures
        batch_valid(crate::streamer::live_set(chunks), picks, rc, d, k),
{
}

/// The live set after running a sequence of cycles: each cycle sweeps the
/// chunks outside the wanted window and spawns its batch.
pub open spec fn run_cycles(live: Set<IVec3>, batches: Seq<Seq<IVec3>>, rc: IVec3, d: int) -> Set<
    IVec3,
>
    decreases batches.len(),
{
    if batches.len() == 0 {
        live
    } else {
        run_cycles(live, batches.drop_last(), rc, d).intersect(wanted_set(rc, d)).union(
            batches.last().to_set(),
        )
    }
}

/// Whether every cycle's batch matches the streamer's contract against the
/// live set its cycle starts from.
pub open spec fn trace_valid(
    live: Set<IVec3>,
    batches: Seq<Seq<IVec3>>,
    rc: IVec3,
    d: int,
    k: int,
) -> bool
    decreases batches.len(),
{
    if batches.len() == 0 {
        true
    } else {
        trace_valid(live, batches.drop_last(), rc, d, k) && batch_valid(
            run_cycles(live, batches.drop_last(), rc, d),
            batches.last(),
            rc,
            d,
            k,
        )
    }
}

/// Each cycle with a spawn budget of at least one shrinks the number of
/// missing wanted chunks by at least one until it reaches zero, and from
/// the first cycle on the live set stays inside the wanted window.
proof fn lemma_trace_bound(live: Set<IVec3>, batches: Seq<Seq<IVec3>>, rc: IVec3, d: int, k: int)
    requires
        stream_params_ok(rc, d),
        k >= 1,
        trace_valid(live, batches, rc, d, k),
    ensures
        ({
            let missing0 = missing_seq(wanted_seq(rc, d), live).len() as int;
            let missing_n = missing_seq(
                wanted_seq(rc, d),
                run_cycles(live, batches, rc, d),
            ).len() as int;
            missing_n <= if missing0 - batches.len() >= 0 {
                missing0 - batches.len()
            } else {
                0
            }
        }),
        batches.len() >= 1 ==> forall|q: IVec3|
            run_cycles(live, batches, rc, d).contains(q) ==> wanted_contains(rc, d, q),
    decreases batches.len(),
{
    if batches.len() > 0 {
        lemma_trace_bound(live, batches.drop_last(), rc, d, k);
        let prev = run_cycles(live, batches.drop_last(), rc, d);
        lemma_streaming_progress(prev, batches.last(), rc, d, k);
    }
}

/// Streaming convergence: starting from any live set, running at least as
/// many tick/update cycles as there are missing wanted chunks — each cycle
/// spawning what the streamer returns, with any throttle of at least one —
/// leaves exactly the wanted window live, no more and no less.
pub proof fn lemma_streaming_converges(
    live: Set<IVec3>,
    batches: Seq<Seq<IVec3>>,
    rc: IVec3,
    d: int,
    k: int,
)
    requires
        stream_params_ok(rc, d),
        k >= 1,
        trace_valid(live, batches, rc, d, k),
        batches.len() >= 1,
        batches.len() >= missing_seq(wanted_seq(rc, d), live).len(),
    ensures
        run_cycles(live, batches, rc, d) == wanted_set(rc, d),
{
    lemma_trace_bound(live, batches.drop_last(), rc, d, k);
    let prev = run_cycles(live, batches.drop_last(), rc, d);
    lemma_streaming_progress(prev, batches.last(), rc, d, k);
    assert(missing_seq(wanted_seq(rc, d), run_cycles(live, batches, rc, d)).len() == 0);
}

} // verus!
