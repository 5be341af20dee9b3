//! Chunk streaming: each tick, the coordinates within a fixed cubic radius
//! of the reference chunk are wanted; live chunks outside that window are
//! marked for destruction, and a bounded number of missing wanted chunks —
//! nearest first — are chosen to be spawned.

use vstd::prelude::*;
use crate::chunk::Chunk;
use crate::field::{TerrainField, has_pos};
use crate::math::{IVec3, MilliVec3, chunk_coord_of, chunk_coord_spec, chunk_pos_ok};

verus! {

broadcast use vstd::seq_lib::group_seq_properties;

/// How many chunks out from the reference chunk stay rendered.
pub const RENDER_DISTANCE_CHUNKS: u32 = 5;

/// Radius of the wanted window: one chunk beyond the render distance.
pub const CHUNK_SPAWN_DISTANCE: u32 = RENDER_DISTANCE_CHUNKS + 1;

/// Largest spawn-window radius the streamer accepts.
pub const MAX_SPAWN_DIST: u32 = 100;

/// Largest reference-chunk coordinate magnitude the streamer accepts; keeps
/// every wanted coordinate inside the engine's chunk-coordinate window.
pub const STREAM_POS_LIMIT: i32 = 900000;

/// Largest reference world position (milli-units) accepted when computing
/// the reference chunk: `STREAM_POS_LIMIT` chunks out.
pub const REF_MILLI_LIMIT: i64 = 14400000000;

/// Whether chunk coordinate `q` is inside the cubic window of radius `d`
/// around the reference chunk `rc`, inclusive.
pub open spec fn wanted_contains(rc: IVec3, d: int, q: IVec3) -> bool {
    rc.x - d <= q.x <= rc.x + d && rc.y - d <= q.y <= rc.y + d && rc.z - d <= q.z <= rc.z + d
}

/// Coordinates per axis of the wanted window.
pub open spec fn wanted_side(d: int) -> int {
    2 * d + 1
}

/// Number of coordinates in the wanted window.
pub open spec fn wanted_total(d: int) -> int {
    wanted_side(d) * wanted_side(d) * wanted_side(d)
}

/// The `n`-th coordinate of the wanted window, in a fixed enumeration order.
pub open spec fn wanted_coord(rc: IVec3, d: int, n: int) -> IVec3 {
    IVec3 {
        x: (rc.x - d + n / (wanted_side(d) * wanted_side(d))) as i32,
        y: (rc.y - d + (n / wanted_side(d)) % wanted_side(d)) as i32,
        z: (rc.z - d + n % wanted_side(d)) as i32,
    }
}

/// The wanted window as a sequence, in enumeration order.
pub open spec fn wanted_seq(rc: IVec3, d: int) -> Seq<IVec3> {
    Seq::new(wanted_total(d) as nat, |n: int| wanted_coord(rc, d, n))
}

/// The set of coordinates at which the chunk sequence has a live chunk.
pub open spec fn live_set(chunks: Seq<Chunk>) -> Set<IVec3> {
    Set::new(|p: IVec3| has_pos(chunks, p))
}

/// The subsequence of `s` whose coordinates have no live chunk.
pub open spec fn missing_seq(s: Seq<IVec3>, live: Set<IVec3>) -> Seq<IVec3>
    decreases s.len(),
{
    if s.len() == 0 {
        Seq::empty()
    } else {
        missing_seq(s.drop_last(), live) + if !live.contains(s.last()) {
            seq![s.last()]
        } else {
            Seq::empty()
        }
    }
}

/// Squared distance between two chunk coordinates.
pub open spec fn dist2(a: IVec3, b: IVec3) -> int {
    (b.x - a.x) * (b.x - a.x) + (b.y - a.y) * (b.y - a.y) + (b.z - a.z) * (b.z - a.z)
}

/// Whether `q` lies within 200 chunks of `rc` on every axis (true of every
/// wanted coordinate; lets squared distances be computed exactly).
pub open spec fn near(rc: IVec3, q: IVec3) -> bool {
    -200 <= q.x - rc.x <= 200 && -200 <= q.y - rc.y <= 200 && -200 <= q.z - rc.z <= 200
}

/// Every entry of the missing subsequence comes from `s` and is missing; on
/// a duplicate-free `s` the subsequence is duplicate-free and holds exactly
/// the missing coordinates of `s`.
pub proof fn lemma_missing_seq_props(s: Seq<IVec3>, live: Set<IVec3>)
    ensures
        forall|i: int|
            0 <= i < missing_seq(s, live).len() ==> s.contains(#[trigger] missing_seq(s, live)[i])
                && !live.contains(missing_seq(s, live)[i]),
        forall|q: IVec3|
            missing_seq(s, live).contains(q) <==> s.contains(q) && !live.contains(q),
        s.no_duplicates() ==> missing_seq(s, live).no_duplicates(),
        missing_seq(s, live).len() <= s.len(),
    decreases s.len(),
{
    if s.len() == 0 {
        assert forall|q: IVec3|
            missing_seq(s, live).contains(q) <==> s.contains(q) && !live.contains(q) by {
            assert(!missing_seq(s, live).contains(q));
            assert(!s.contains(q));
        }
    } else {
        let pre = s.drop_last();
        lemma_missing_seq_props(pre, live);
        assert forall|q: IVec3|
            missing_seq(s, live).contains(q) <==> s.contains(q) && !live.contains(q) by {
            if s.contains(q) && !live.contains(q) {
                let i = choose|i: int| 0 <= i < s.len() && s[i] == q;
                if i < s.len() - 1 {
                    assert(pre.contains(q));
                    let j = choose|j: int|
                        0 <= j < missing_seq(pre, live).len() && missing_seq(pre, live)[j] == q;
                    assert(missing_seq(s, live)[j] == q);
                } else {
                    assert(missing_seq(s, live).last() == q);
                }
            }
            if missing_seq(s, live).contains(q) {
                let j = choose|j: int|
                    0 <= j < missing_seq(s, live).len() && missing_seq(s, live)[j] == q;
                if j < missing_seq(pre, live).len() {
                    assert(missing_seq(pre, live)[j] == q);
                    assert(pre.contains(q));
                    let i = choose|i: int| 0 <= i < pre.len() && pre[i] == q;
                    assert(s[i] == q);
                } else {
                    assert(q == s.last());
                    assert(s[s.len() - 1] == q);
                }
            }
        }
        if s.no_duplicates() {
            if !live.contains(s.last()) {
                assert(!pre.contains(s.last())) by {
                    if pre.contains(s.last()) {
                        let i = choose|i: int| 0 <= i < pre.len() && pre[i] == s.last();
                        assert(s[i] == s[s.len() - 1]);
                    }
                }
                assert(!missing_seq(pre, live).contains(s.last()));
            }
        }
    }
}

/// Removing one entry of a duplicate-free sequence keeps it duplicate-free
/// and removes exactly that coordinate.
pub proof fn lemma_remove_keeps(s: Seq<IVec3>, i: int)
    requires
        s.no_duplicates(),
        0 <= i < s.len(),
    ensures
        s.remove(i).no_duplicates(),
        forall|q: IVec3| s.remove(i).contains(q) <==> s.contains(q) && q != s[i],
{
    s.remove_ensures(i);
    assert forall|q: IVec3| s.remove(i).contains(q) <==> s.contains(q) && q != s[i] by {
        if s.remove(i).contains(q) {
            let j = choose|j: int| 0 <= j < s.remove(i).len() && s.remove(i)[j] == q;
            if j < i {
                assert(s[j] == q);
            } else {
                assert(s[j + 1] == q);
            }
        }
        if s.contains(q) && q != s[i] {
            let j = choose|j: int| 0 <= j < s.len() && s[j] == q;
            if j < i {
                assert(s.remove(i)[j] == q);
            } else {
                assert(s.remove(i)[j - 1] == q);
            }
        }
    }
}

/// The chunk-grid coordinate containing a reference world position: the
/// floor of each milli coordinate over the chunk edge length.
pub fn reference_chunk(reference: MilliVec3) -> (rc: IVec3)
    requires
        -REF_MILLI_LIMIT <= reference.x <= REF_MILLI_LIMIT,
        -REF_MILLI_LIMIT <= reference.y <= REF_MILLI_LIMIT,
        -REF_MILLI_LIMIT <= reference.z <= REF_MILLI_LIMIT,
    ensures
        rc.x == chunk_coord_spec(reference.x as int),
        rc.y == chunk_coord_spec(reference.y as int),
        rc.z == chunk_coord_spec(reference.z as int),
        -STREAM_POS_LIMIT <= rc.x <= STREAM_POS_LIMIT,
        -STREAM_POS_LIMIT <= rc.y <= STREAM_POS_LIMIT,
        -STREAM_POS_LIMIT <= rc.z <= STREAM_POS_LIMIT,
{
    proof {
        lemma_coord_in_window(reference.x as int);
        lemma_coord_in_window(reference.y as int);
        lemma_coord_in_window(reference.z as int);
    }
    let x: i64 = chunk_coord_of(reference.x);
    let y: i64 = chunk_coord_of(reference.y);
    let z: i64 = chunk_coord_of(reference.z);
    IVec3 { x: x as i32, y: y as i32, z: z as i32 }
}

/// A reference position within the accepted window floors to a chunk
/// coordinate within the streamer's window.
proof fn lemma_coord_in_window(v: int)
    requires
        -REF_MILLI_LIMIT <= v <= REF_MILLI_LIMIT,
    ensures
        -STREAM_POS_LIMIT <= v / 16000 <= STREAM_POS_LIMIT,
{
    vstd::arithmetic::div_mod::lemma_div_is_ordered(v, 14400000000, 16000);
    vstd::arithmetic::div_mod::lemma_div_is_ordered(-14400000000, v, 16000);
    vstd::arithmetic::div_mod::lemma_div_multiples_vanish(900000, 16000);
    vstd::arithmetic::div_mod::lemma_div_multiples_vanish(-900000, 16000);
    assert(16000 * 900000 == 14400000000int);
    assert(16000 * (-900000) == -14400000000int);
}

/// Squared distance between two chunk coordinates within 200 chunks of each
/// other.
fn dist2_at(rc: IVec3, q: IVec3) -> (r: i64)
    requires
        near(rc, q),
    ensures
        r == dist2(rc, q),
{
    let dx: i64 = q.x as i64 - rc.x as i64;
    let dy: i64 = q.y as i64 - rc.y as i64;
    let dz: i64 = q.z as i64 - rc.z as i64;
    proof {
        lemma_square_bound(dx as int);
        lemma_square_bound(dy as int);
        lemma_square_bound(dz as int);
    }
    dx * dx + dy * dy + dz * dz
}

/// The square of a value within `-200..=200` is within `0..=40000`.
proof fn lemma_square_bound(d: int)
    by (nonlinear_arith)
    requires
        -200 <= d <= 200,
    ensures
        0 <= d * d <= 40000,
{
}

/// Pick the `k` nearest-to-`rc` coordinates of `pool`, ascending by squared
/// distance, ties broken toward the earlier pool entry; every picked
/// coordinate is at least as near as every coordinate left unpicked.
fn select_nearest(pool: Vec<IVec3>, rc: IVec3, k: usize) -> (picks: Vec<IVec3>)
    requires
        pool@.no_duplicates(),
        forall|i: int| 0 <= i < pool@.len() ==> near(rc, #[trigger] pool@[i]),
    ensures
        picks@.len() == if k <= pool@.len() {
            k as int
        } else {
            pool@.len() as int
        },
        picks@.no_duplicates(),
        forall|i: int| 0 <= i < picks@.len() ==> pool@.contains(#[trigger] picks@[i]),
        forall|i: int, j: int|
            0 <= i < j < picks@.len() ==> dist2(rc, #[trigger] picks@[i]) <= dist2(
                rc,
                #[trigger] picks@[j],
            ),
        forall|q: IVec3, i: int|
            #![trigger pool@.contains(q), picks@[i]]
            pool@.contains(q) && !picks@.contains(q) && 0 <= i < picks@.len() ==> dist2(
                rc,
                picks@[i],
            ) <= dist2(rc, q),
{
    let ghost pool0 = pool@;
    let mut pool = pool;
    let mut picks: Vec<IVec3> = Vec::new();
    while picks.len() < k && pool.len() > 0
        invariant
            picks@.len() + pool@.len() == pool0.len(),
            picks@.len() <= k,
            picks@.no_duplicates(),
            pool@.no_duplicates(),
            forall|q: IVec3| !(picks@.contains(q) && pool@.contains(q)),
            forall|q: IVec3| pool0.contains(q) <==> picks@.contains(q) || pool@.contains(q),
            forall|i: int| 0 <= i < picks@.len() ==> pool0.contains(#[trigger] picks@[i]),
            forall|i: int| 0 <= i < pool@.len() ==> near(rc, #[trigger] pool@[i]),
            forall|i: int| 0 <= i < picks@.len() ==> near(rc, #[trigger] picks@[i]),
            forall|i: int, j: int|
                0 <= i < j < picks@.len() ==> dist2(rc, #[trigger] picks@[i]) <= dist2(
                    rc,
                    #[trigger] picks@[j],
                ),
            forall|i: int, j: int|
                0 <= i < picks@.len() && 0 <= j < pool@.len() ==> dist2(
                    rc,
                    #[trigger] picks@[i],
                ) <= dist2(rc, #[trigger] pool@[j]),
        decreases pool@.len(),
    {
        let mut best: usize = 0;
        let mut best_d: i64 = dist2_at(rc, pool[0]);
        let mut t: usize = 1;
        while t < pool.len()
            invariant
                pool@.len() > 0,
                best < t <= pool@.len(),
                forall|i: int| 0 <= i < pool@.len() ==> near(rc, #[trigger] pool@[i]),
                best_d == dist2(rc, pool@[best as int]),
                forall|i: int| 0 <= i < t ==> best_d <= dist2(rc, #[trigger] pool@[i]),
            decreases pool@.len() - t,
        {
            let dt = dist2_at(rc, pool[t]);
            if dt < best_d {
                best = t;
                best_d = dt;
            }
            t += 1;
        }
        let ghost pool_before = pool@;
        let q0 = pool.remove(best);
        proof {
            lemma_remove_keeps(pool_before, best as int);
        }
        picks.push(q0);
    }
    picks
}

/// Bounds of the wanted-window parameters the streamer accepts.
pub open spec fn stream_params_ok(rc: IVec3, d: int) -> bool {
    0 <= d <= MAX_SPAWN_DIST && -STREAM_POS_LIMIT <= rc.x <= STREAM_POS_LIMIT
        && -STREAM_POS_LIMIT <= rc.y <= STREAM_POS_LIMIT && -STREAM_POS_LIMIT <= rc.z
        <= STREAM_POS_LIMIT
}

/// The wanted enumeration lists each window coordinate exactly once, every
/// listed coordinate is wanted, near the reference, and a valid chunk
/// coordinate — and every wanted coordinate is listed.
pub proof fn lemma_wanted_props(rc: IVec3, d: int)
    requires
        stream_params_ok(rc, d),
    ensures
        wanted_seq(rc, d).no_duplicates(),
        forall|n: int|
            0 <= n < wanted_seq(rc, d).len() ==> {
                let q = #[trigger] wanted_seq(rc, d)[n];
                wanted_contains(rc, d, q) && near(rc, q) && chunk_pos_ok(q)
            },
        forall|q: IVec3| wanted_contains(rc, d, q) ==> #[trigger] wanted_seq(rc, d).contains(q),
{
    let side = wanted_side(d);
    let s2 = side * side;
    let total = wanted_total(d);
    assert(side * side * side == total);
    assert(1 <= side <= 201);
    assert(s2 <= 40401 && total <= 8120601) by (nonlinear_arith)
        requires 1 <= side <= 201 && s2 == side * side && total == s2 * side;
    assert forall|n: int| 0 <= n < wanted_seq(rc, d).len() implies {
        let q = #[trigger] wanted_seq(rc, d)[n];
        wanted_contains(rc, d, q) && near(rc, q) && chunk_pos_ok(q)
    } by {
        lemma_decode_bounds(n, side, s2, total);
    }
    assert forall|m: int, n: int|
        0 <= m < wanted_seq(rc, d).len() && 0 <= n < wanted_seq(rc, d).len() && m != n implies
        wanted_seq(rc, d)[m] != wanted_seq(rc, d)[n] by {
        lemma_decode_bounds(m, side, s2, total);
        lemma_decode_bounds(n, side, s2, total);
        if wanted_coord(rc, d, m) == wanted_coord(rc, d, n) {
            assert(m / s2 == n / s2 && (m / side) % side == (n / side) % side && m % side == n
                % side);
            lemma_decode_recompose(m, side, s2, total);
            lemma_decode_recompose(n, side, s2, total);
        }
    }
    assert forall|q: IVec3| wanted_contains(rc, d, q) implies #[trigger] wanted_seq(
        rc,
        d,
    ).contains(q) by {
        let ox = q.x - rc.x + d;
        let oy = q.y - rc.y + d;
        let oz = q.z - rc.z + d;
        let n = ox * s2 + oy * side + oz;
        assert(0 <= n < total) by (nonlinear_arith)
            requires
                0 <= ox < side,
                0 <= oy < side,
                0 <= oz < side,
                s2 == side * side,
                total == s2 * side,
                n == ox * s2 + oy * side + oz,
        ;
        assert(n == (ox * side + oy) * side + oz) by (nonlinear_arith)
            requires
                s2 == side * side,
                n == ox * s2 + oy * side + oz,
        ;
        assert(oy * side + oz < s2) by (nonlinear_arith)
            requires
                0 <= oy < side,
                0 <= oz < side,
                s2 == side * side,
        ;
        vstd::arithmetic::div_mod::lemma_fundamental_div_mod_converse(
            n,
            s2,
            ox,
            oy * side + oz,
        );
        vstd::arithmetic::div_mod::lemma_fundamental_div_mod_converse(n, side, ox * side + oy, oz);
        vstd::arithmetic::div_mod::lemma_fundamental_div_mod_converse(ox * side + oy, side, ox, oy);
        assert(wanted_seq(rc, d)[n] == q);
    }
}

/// Decoded offsets of a wanted-enumeration index are in range.
proof fn lemma_decode_bounds(n: int, side: int, s2: int, total: int)
    requires
        1 <= side,
        s2 == side * side,
        total == s2 * side,
        0 <= n < total,
    ensures
        0 <= n / s2 < side,
        0 <= (n / side) % side < side,
        0 <= n % side < side,
{
    assert(0 < s2) by (nonlinear_arith)
        requires 1 <= side && s2 == side * side;
    vstd::arithmetic::div_mod::lemma_multiply_divide_lt(n, s2, side);
    vstd::arithmetic::div_mod::lemma_div_pos_is_pos(n, s2);
    vstd::arithmetic::div_mod::lemma_mod_bound(n / side, side);
    vstd::arithmetic::div_mod::lemma_mod_bound(n, side);
}

/// A wanted-enumeration index is recomposed from its decoded offsets.
proof fn lemma_decode_recompose(n: int, side: int, s2: int, total: int)
    requires
        1 <= side,
        s2 == side * side,
        total == s2 * side,
        0 <= n < total,
    ensures
        n == (n / s2) * s2 + ((n / side) % side) * side + n % side,
{
    vstd::arithmetic::div_mod::lemma_fundamental_div_mod(n, side);
    vstd::arithmetic::div_mod::lemma_fundamental_div_mod(n / side, side);
    assert(n / side / side == n / s2) by {
        vstd::arithmetic::div_mod::lemma_div_denominator(n, side, side);
    }
    assert(side * (side * (n / s2) + (n / side) % side) == (n / s2) * s2 + ((n / side) % side)
        * side) by (nonlinear_arith)
        requires s2 == side * side;
}

/// How one streaming tick changes one chunk: it is marked for destruction
/// exactly when its coordinate leaves the wanted window (marks are never
/// cleared), and nothing else changes.
pub open spec fn marked_rel(c0: Chunk, c1: Chunk, rc: IVec3, d: int) -> bool {
    &&& c1.position == c0.position
    &&& c1.cells@ == c0.cells@
    &&& c1.is_dirty == c0.is_dirty
    &&& c1.mesh == c0.mesh
    &&& c1.should_destroy == (c0.should_destroy || !wanted_contains(rc, d, c0.position))
}

/// One streaming tick: mark every live chunk outside the wanted window of
/// radius `spawn_dist` around the reference chunk `rc` for destruction, and
/// return at most `max_spawn` missing wanted coordinates — nearest first —
/// for the caller to spawn.
pub fn stream_tick(
    field: &mut TerrainField,
    rc: IVec3,
    spawn_dist: u32,
    max_spawn: usize,
) -> (picks: Vec<IVec3>)
    requires
        old(field).wf(),
        stream_params_ok(rc, spawn_dist as int),
    ensures
        final(field).wf(),
        final(field).chunks@.len() == old(field).chunks@.len(),
        forall|j: int|
            0 <= j < old(field).chunks@.len() ==> marked_rel(
                #[trigger] old(field).chunks@[j],
                final(field).chunks@[j],
                rc,
                spawn_dist as int,
            ),
        picks@.no_duplicates(),
        forall|i: int|
            0 <= i < picks@.len() ==> {
                let q = #[trigger] picks@[i];
                wanted_contains(rc, spawn_dist as int, q) && !has_pos(old(field).chunks@, q)
                    && chunk_pos_ok(q)
            },
        picks@.len() == {
            let m = missing_seq(
                wanted_seq(rc, spawn_dist as int),
                live_set(old(field).chunks@),
            ).len();
            if max_spawn <= m {
                max_spawn as int
            } else {
                m as int
            }
        },
        forall|i: int, j: int|
            0 <= i < j < picks@.len() ==> dist2(rc, #[trigger] picks@[i]) <= dist2(
                rc,
                #[trigger] picks@[j],
            ),
        forall|q: IVec3, i: int|
            #![trigger wanted_contains(rc, spawn_dist as int, q), picks@[i]]
            wanted_contains(rc, spawn_dist as int, q) && !has_pos(old(field).chunks@, q)
                && !picks@.contains(q) && 0 <= i < picks@.len() ==> dist2(rc, picks@[i]) <= dist2(
                rc,
                q,
            ),
{
    let ghost gd = spawn_dist as int;
    let ghost live = live_set(old(field).chunks@);
    let d: i32 = spawn_dist as i32;
    let side: usize = 2 * (spawn_dist as usize) + 1;
    proof {
        assert(side * side <= 40401 && side * side * side <= 8120601) by (nonlinear_arith)
            requires 1 <= side <= 201;
    }
    let s2: usize = side * side;
    let total: usize = s2 * side;
    let mut missing: Vec<IVec3> = Vec::new();
    let mut n: usize = 0;
    while n < total
        invariant
            field.wf(),
            field.chunks@ == old(field).chunks@,
            stream_params_ok(rc, gd),
            d == gd,
            live == live_set(old(field).chunks@),
            side == wanted_side(gd),
            s2 == side * side,
            total == wanted_total(gd),
            total <= 8120601,
            n <= total,
            missing@ == missing_seq(wanted_seq(rc, gd).take(n as int), live),
        decreases total - n,
    {
        proof {
            lemma_decode_bounds(n as int, side as int, s2 as int, total as int);
        }
        let ox: usize = n / s2;
        let oy: usize = (n / side) % side;
        let oz: usize = n % side;
        let q = IVec3 { x: rc.x - d + ox as i32, y: rc.y - d + oy as i32, z: rc.z - d + oz as i32 };
        proof {
            assert(q == wanted_seq(rc, gd)[n as int]);
        }
        let present = field.find_chunk(q);
        proof {
            assert(live.contains(q) == has_pos(old(field).chunks@, q));
        }
        match present {
            Some(_) => {
            },
            None => {
                missing.push(q);
            },
        }
        proof {
            assert(wanted_seq(rc, gd).take(n as int + 1).drop_last() =~= wanted_seq(rc, gd).take(
                n as int,
            ));
            assert(wanted_seq(rc, gd).take(n as int + 1).last() == q);
        }
        n += 1;
    }
    proof {
        assert(wanted_seq(rc, gd).take(total as int) =~= wanted_seq(rc, gd));
    }
    let mut j: usize = 0;
    while j < field.chunks.len()
        invariant
            stream_params_ok(rc, gd),
            d == gd,
            field.chunks@.len() == old(field).chunks@.len(),
            j <= field.chunks@.len(),
            forall|k: int|
                0 <= k < j ==> marked_rel(
                    #[trigger] old(field).chunks@[k],
                    field.chunks@[k],
                    rc,
                    gd,
                ),
            forall|k: int|
                j <= k < field.chunks@.len() ==> field.chunks@[k] == old(field).chunks@[k],
            forall|k: int|
                0 <= k < field.chunks@.len() ==> (#[trigger] field.chunks@[k]).wf()
                    && field.chunks@[k].position == old(field).chunks@[k].position,
        decreases field.chunks@.len() - j,
    {
        let p = field.chunks[j].position;
        let inside = p.x >= rc.x - d && p.x <= rc.x + d && p.y >= rc.y - d && p.y <= rc.y + d
            && p.z >= rc.z - d && p.z <= rc.z + d;
        if !inside {
            let cj = &mut field.chunks[j];
            cj.should_destroy = true;
        }
        j += 1;
    }
    proof {
        lemma_wanted_props(rc, gd);
        lemma_missing_seq_props(wanted_seq(rc, gd), live);
    }
    let ghost pool_view = missing@;
    let picks = select_nearest(missing, rc, max_spawn);
    proof {
        assert forall|q: IVec3, i: int|
            wanted_contains(rc, gd, q) && !has_pos(old(field).chunks@, q) && !picks@.contains(q)
                && 0 <= i < picks@.len() implies dist2(rc, picks@[i]) <= dist2(rc, q) by {
            assert(live.contains(q) == has_pos(old(field).chunks@, q));
            assert(wanted_seq(rc, gd).contains(q));
            assert(pool_view.contains(q));
        }
    }
    picks
}

} // verus!
