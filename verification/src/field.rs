//! The terrain field: every live chunk, keyed by its unique chunk-grid
//! coordinate, with chunk lookup and the edit cascade that keeps shared
//! boundary cells of neighboring chunks consistent.

use vstd::prelude::*;
use crate::chunk::{Chunk, edit_rel, in_chunk_spec, is_neighbor, world_milli_ok};
use crate::events::TerrainCellEvent;
use crate::math::{IVec3, MilliVec3, chunk_pos_ok};

verus! {

/// Whether some chunk of the sequence sits at coordinate `p`.
pub open spec fn has_pos(chunks: Seq<Chunk>, p: IVec3) -> bool {
    exists|i: int| 0 <= i < chunks.len() && chunks[i].position == p
}

/// The collection of all live chunks.
pub struct TerrainField {
    pub chunks: Vec<Chunk>,
}

/// Whether `b` is `a` or one of its 26 neighbors: the chunks an edit hitting
/// `a` cascades to.
pub open spec fn in_cascade(a: IVec3, b: IVec3) -> bool {
    a == b || is_neighbor(a, b)
}

/// Whether `b` is one of the 26 chunk coordinates adjacent to `a`.
pub fn neighbor_test(a: IVec3, b: IVec3) -> (r: bool)
    ensures
        r == is_neighbor(a, b),
{
    let dx: i64 = b.x as i64 - a.x as i64;
    let dy: i64 = b.y as i64 - a.y as i64;
    let dz: i64 = b.z as i64 - a.z as i64;
    (dx != 0 || dy != 0 || dz != 0) && -1 <= dx && dx <= 1 && -1 <= dy && dy <= 1 && -1 <= dz
        && dz <= 1
}

impl TerrainField {
    /// The field's internal invariant: every chunk is well formed and no two
    /// chunks share a coordinate.
    pub open spec fn wf(self) -> bool {
        &&& forall|i: int| 0 <= i < self.chunks@.len() ==> (#[trigger] self.chunks@[i]).wf()
        &&& forall|i: int, j: int|
            0 <= i < j < self.chunks@.len() ==> (#[trigger] self.chunks@[i]).position != (
            #[trigger] self.chunks@[j]).position
    }

    /// An empty field.
    pub fn new() -> (f: TerrainField)
        ensures
            f.wf(),
            f.chunks@.len() == 0,
    {
        TerrainField { chunks: Vec::new() }
    }

    /// The index of the chunk at chunk coordinate `p`, if one is live.
    pub fn find_chunk(&self, p: IVec3) -> (r: Option<usize>)
        ensures
            match r {
                Some(i) => i < self.chunks@.len() && self.chunks@[i as int].position == p,
                None => !has_pos(self.chunks@, p),
            },
    {
        let mut i: usize = 0;
        while i < self.chunks.len()
            invariant
                i <= self.chunks@.len(),
                forall|j: int| 0 <= j < i ==> self.chunks@[j].position != p,
            decreases self.chunks@.len() - i,
        {
            if self.chunks[i].position.x == p.x && self.chunks[i].position.y == p.y
                && self.chunks[i].position.z == p.z {
                return Some(i);
            }
            i += 1;
        }
        None
    }

    /// The index of a chunk whose inclusive box contains the world position
    /// `w` (the lowest such index; adjacent chunks overlap on shared faces).
    pub fn find_chunk_at(&self, w: MilliVec3) -> (r: Option<usize>)
        requires
            self.wf(),
        ensures
            match r {
                Some(i) => i < self.chunks@.len() && in_chunk_spec(
                    self.chunks@[i as int].position,
                    w,
                ),
                None => forall|j: int|
                    0 <= j < self.chunks@.len() ==> !in_chunk_spec(
                        (#[trigger] self.chunks@[j]).position,
                        w,
                    ),
            },
    {
        let mut i: usize = 0;
        while i < self.chunks.len()
            invariant
                self.wf(),
                i <= self.chunks@.len(),
                forall|j: int|
                    0 <= j < i ==> !in_chunk_spec((#[trigger] self.chunks@[j]).position, w),
            decreases self.chunks@.len() - i,
        {
            if self.chunks[i].is_in_chunk(w) {
                return Some(i);
            }
            i += 1;
        }
        None
    }

    /// Add a freshly generated chunk at a coordinate no live chunk holds.
    pub fn insert_chunk(&mut self, c: Chunk)
        requires
            old(self).wf(),
            c.wf(),
            !has_pos(old(self).chunks@, c.position),
        ensures
            final(self).wf(),
            final(self).chunks@ == old(self).chunks@.push(c),
    {
        self.chunks.push(c);
    }

    /// Apply an edit resolved to world position `end_pos`, hitting the chunk
    /// at `hit_pos`: the hit chunk and each of its 26 neighbors receive the
    /// edit (each writes only the cells in its own box, which on shared
    /// boundary cells is the same write — so seams stay consistent); all
    /// other chunks are untouched. A `hit_pos` with no live chunk is a no-op.
    pub fn apply_edit(&mut self, hit_pos: IVec3, end_pos: MilliVec3, event: &TerrainCellEvent)
        requires
            old(self).wf(),
            world_milli_ok(end_pos),
        ensures
            final(self).wf(),
            final(self).chunks@.len() == old(self).chunks@.len(),
            !has_pos(old(self).chunks@, hit_pos) ==> final(self).chunks@ == old(self).chunks@,
            has_pos(old(self).chunks@, hit_pos) ==> forall|j: int|
                0 <= j < old(self).chunks@.len() ==> if in_cascade(
                    hit_pos,
                    (#[trigger] old(self).chunks@[j]).position,
                ) {
                    edit_rel(old(self).chunks@[j], final(self).chunks@[j], end_pos, *event)
                } else {
                    final(self).chunks@[j] == old(self).chunks@[j]
                },
    {
        let hit = self.find_chunk(hit_pos);
        match hit {
            None => {
            },
            Some(h) => {
                let mut j: usize = 0;
                while j < self.chunks.len()
                    invariant
                        old(self).wf(),
                        world_milli_ok(end_pos),
                        self.chunks@.len() == old(self).chunks@.len(),
                        h < old(self).chunks@.len(),
                        old(self).chunks@[h as int].position == hit_pos,
                        j <= self.chunks@.len(),
                        forall|k: int|
                            0 <= k < j ==> if in_cascade(
                                hit_pos,
                                (#[trigger] old(self).chunks@[k]).position,
                            ) {
                                edit_rel(old(self).chunks@[k], self.chunks@[k], end_pos, *event)
                            } else {
                                self.chunks@[k] == old(self).chunks@[k]
                            },
                        forall|k: int|
                            j <= k < self.chunks@.len() ==> self.chunks@[k] == old(self).chunks@[k],
                        forall|k: int|
                            0 <= k < self.chunks@.len() ==> (#[trigger] self.chunks@[k]).wf()
                                && self.chunks@[k].position == old(self).chunks@[k].position,
                    decreases self.chunks@.len() - j,
                {
                    let p = self.chunks[j].position;
                    if j == h || neighbor_test(hit_pos, p) {
                        let cj = &mut self.chunks[j];
                        cj.edit(end_pos, event);
                    }
                    j += 1;
                }
            },
        }
    }
}

/// The owning chunk recorded for a collider id, if any.
pub open spec fn collider_lookup(entries: Seq<(u64, IVec3)>, id: u64) -> Option<IVec3>
    decreases entries.len(),
{
    if entries.len() == 0 {
        None
    } else if entries.last().0 == id {
        Some(entries.last().1)
    } else {
        collider_lookup(entries.drop_last(), id)
    }
}

/// The collider-to-chunk side table the publish pass maintains: it maps the
/// id of each published collision shape back to the chunk coordinate that
/// owns it, so a ray hit can be resolved to a chunk.
pub struct ColliderMap {
    pub entries: Vec<(u64, IVec3)>,
}

impl ColliderMap {
    /// The table's internal invariant: one entry per collider id.
    pub open spec fn wf(self) -> bool {
        forall|i: int, j: int|
            0 <= i < j < self.entries@.len() ==> (#[trigger] self.entries@[i]).0 != (
            #[trigger] self.entries@[j]).0
    }

    /// An empty table.
    pub fn new() -> (m: ColliderMap)
        ensures
            m.wf(),
            m.entries@.len() == 0,
    {
        ColliderMap { entries: Vec::new() }
    }

    /// The chunk coordinate owning collider `id`, if one is recorded.
    pub fn get(&self, id: u64) -> (r: Option<IVec3>)
        ensures
            r == collider_lookup(self.entries@, id),
    {
        let mut i: usize = self.entries.len();
        proof {
            assert(self.entries@.take(i as int) =~= self.entries@);
        }
        while i > 0
            invariant
                i <= self.entries@.len(),
                collider_lookup(self.entries@, id) == collider_lookup(
                    self.entries@.take(i as int),
                    id,
                ),
            decreases i,
        {
            let e = self.entries[i - 1];
            proof {
                assert(self.entries@.take(i as int).last() == self.entries@[i - 1]);
                assert(self.entries@.take(i as int).drop_last() =~= self.entries@.take(
                    i as int - 1,
                ));
            }
            if e.0 == id {
                return Some(e.1);
            }
            i -= 1;
        }
        None
    }

    /// Record the owning chunk of a freshly published collider.
    pub fn insert(&mut self, id: u64, owner: IVec3)
        requires
            old(self).wf(),
            collider_lookup(old(self).entries@, id) is None,
        ensures
            final(self).wf(),
            final(self).entries@ == old(self).entries@.push((id, owner)),
            collider_lookup(final(self).entries@, id) == Some(owner),
    {
        proof {
            lemma_lookup_none_no_entry(self.entries@, id);
            assert(self.entries@.push((id, owner)).drop_last() =~= self.entries@);
        }
        self.entries.push((id, owner));
    }

    /// Forget a collider that was torn down; an unknown id is a no-op.
    pub fn remove(&mut self, id: u64)
        requires
            old(self).wf(),
        ensures
            final(self).wf(),
            collider_lookup(final(self).entries@, id) is None,
            forall|other: u64|
                other != id ==> #[trigger] collider_lookup(final(self).entries@, other)
                    == collider_lookup(old(self).entries@, other),
    {
        let mut i: usize = 0;
        while i < self.entries.len()
            invariant
                old(self).wf(),
                i <= self.entries@.len(),
                self.entries@ == old(self).entries@,
                forall|j: int| 0 <= j < i ==> (#[trigger] self.entries@[j]).0 != id,
            decreases self.entries@.len() - i,
        {
            if self.entries[i].0 == id {
                let ghost before = self.entries@;
                self.entries.remove(i);
                proof {
                    before.remove_ensures(i as int);
                    lemma_lookup_after_remove(before, i as int, id);
                }
                return ;
            }
            i += 1;
        }
        proof {
            lemma_no_entry_lookup_none(self.entries@, id);
        }
    }
}

/// A table with no entry for `id` looks `id` up to `None`.
proof fn lemma_no_entry_lookup_none(entries: Seq<(u64, IVec3)>, id: u64)
    requires
        forall|j: int| 0 <= j < entries.len() ==> (#[trigger] entries[j]).0 != id,
    ensures
        collider_lookup(entries, id) is None,
    decreases entries.len(),
{
    if entries.len() > 0 {
        assert(entries[entries.len() - 1] == entries.last());
        lemma_no_entry_lookup_none(entries.drop_last(), id);
    }
}

/// A table that looks `id` up to `None` has no entry for it.
proof fn lemma_lookup_none_no_entry(entries: Seq<(u64, IVec3)>, id: u64)
    requires
        collider_lookup(entries, id) is None,
    ensures
        forall|j: int| 0 <= j < entries.len() ==> (#[trigger] entries[j]).0 != id,
    decreases entries.len(),
{
    if entries.len() > 0 {
        lemma_lookup_none_no_entry(entries.drop_last(), id);
        assert forall|j: int| 0 <= j < entries.len() implies (#[trigger] entries[j]).0 != id by {
            if j < entries.len() - 1 {
                assert(entries.drop_last()[j] == entries[j]);
            }
        }
    }
}

/// Removing the unique entry of `id` from a duplicate-free table makes `id`
/// unknown, keeps every other id's entry, and keeps the table
/// duplicate-free.
proof fn lemma_lookup_after_remove(entries: Seq<(u64, IVec3)>, i: int, id: u64)
    requires
        0 <= i < entries.len(),
        entries[i].0 == id,
        forall|a: int, b: int|
            0 <= a < b < entries.len() ==> (#[trigger] entries[a]).0 != (#[trigger] entries[b]).0,
    ensures
        collider_lookup(entries.remove(i), id) is None,
        forall|other: u64|
            other != id ==> #[trigger] collider_lookup(entries.remove(i), other)
                == collider_lookup(entries, other),
        forall|a: int, b: int|
            0 <= a < b < entries.remove(i).len() ==> (#[trigger] entries.remove(i)[a]).0 != (
            #[trigger] entries.remove(i)[b]).0,
    decreases entries.len(),
{
    entries.remove_ensures(i);
    assert(collider_lookup(entries.remove(i), id) is None) by {
        lemma_no_entry_lookup_none(entries.remove(i), id);
    }
    assert forall|other: u64| other != id implies #[trigger] collider_lookup(
        entries.remove(i),
        other,
    ) == collider_lookup(entries, other) by {
        lemma_lookup_skips_other(entries, i, other);
    }
}

/// Removing an entry whose id is not `other` does not change what `other`
/// looks up to.
proof fn lemma_lookup_skips_other(entries: Seq<(u64, IVec3)>, i: int, other: u64)
    requires
        0 <= i < entries.len(),
        entries[i].0 != other,
    ensures
        collider_lookup(entries.remove(i), other) == collider_lookup(entries, other),
    decreases entries.len(),
{
    if i == entries.len() - 1 {
        assert(entries.remove(i) =~= entries.drop_last());
    } else {
        assert(entries.remove(i).last() == entries.last());
        assert(entries.remove(i).drop_last() =~= entries.drop_last().remove(i));
        if entries.last().0 != other {
            lemma_lookup_skips_other(entries.drop_last(), i, other);
        }
    }
}

} // verus!
