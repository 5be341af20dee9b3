//! The per-tick update/publish pass: destroy-flagged chunks are removed,
//! dirty chunks are re-polygonized, and a command list tells the embedding
//! layer which published resources to tear down or create, in order.

use vstd::prelude::*;
use crate::chunk::Chunk;
use crate::field::TerrainField;
use crate::marching_cube::{chunk_mesh, colors_of, verts_of};
use crate::math::IVec3;

verus! {

broadcast use vstd::seq_lib::group_seq_properties;

/// One instruction to the embedding layer. For a chunk, `Despawn` tears
/// down its entity and resources; `Unpublish` discards its stale visual and
/// collision resources; `Publish` uploads its cached mesh and derives a new
/// collision shape (a derivation that fails to produce a usable shape is
/// non-fatal: the chunk keeps its visual mesh and retries when next dirty).
#[derive(Clone, Copy, Debug, PartialEq, Eq, Structural)]
pub enum ChunkCommand {
    Despawn(IVec3),
    Unpublish(IVec3),
    Publish(IVec3),
}

/// The commands one chunk contributes: destruction wins; a dirty chunk
/// always unpublishes its stale resources and republishes only if its new
/// grid has a visible surface; a clean chunk contributes nothing.
pub open spec fn chunk_cmds(c: Chunk) -> Seq<ChunkCommand> {
    if c.should_destroy {
        seq![ChunkCommand::Despawn(c.position)]
    } else if c.is_dirty {
        if chunk_mesh(c.cells@, c.position).len() > 0 {
            seq![ChunkCommand::Unpublish(c.position), ChunkCommand::Publish(c.position)]
        } else {
            seq![ChunkCommand::Unpublish(c.position)]
        }
    } else {
        Seq::empty()
    }
}

/// The commands of a whole pass: each chunk's commands, in field order.
pub open spec fn field_cmds(s: Seq<Chunk>) -> Seq<ChunkCommand>
    decreases s.len(),
{
    if s.len() == 0 {
        Seq::empty()
    } else {
        field_cmds(s.drop_last()) + chunk_cmds(s.last())
    }
}

/// How many chunks of the sequence survive the pass.
pub open spec fn count_kept(s: Seq<Chunk>) -> int
    decreases s.len(),
{
    if s.len() == 0 {
        0
    } else {
        count_kept(s.drop_last()) + if s.last().should_destroy {
            0int
        } else {
            1int
        }
    }
}

/// The index in `s` of the `i`-th chunk that survives the pass.
pub open spec fn kept_index(s: Seq<Chunk>, i: int) -> int
    decreases s.len(),
{
    if s.len() == 0 {
        0
    } else if !s.last().should_destroy && i == count_kept(s) - 1 {
        s.len() - 1
    } else {
        kept_index(s.drop_last(), i)
    }
}

/// How the pass changes one surviving chunk: a dirty chunk is polygonized
/// (its mesh cache now reflects its grid, its dirty flag clears), a clean
/// one is untouched.
pub open spec fn updated_rel(c0: Chunk, c1: Chunk) -> bool {
    &&& !c0.should_destroy
    &&& if c0.is_dirty {
        &&& c1.position == c0.position
        &&& c1.cells@ == c0.cells@
        &&& !c1.should_destroy
        &&& !c1.is_dirty
        &&& match c1.mesh {
            Some(md) => {
                &&& chunk_mesh(c0.cells@, c0.position).len() > 0
                &&& md.verts@ == verts_of(chunk_mesh(c0.cells@, c0.position))
                &&& md.colors@ == colors_of(chunk_mesh(c0.cells@, c0.position))
            },
            None => chunk_mesh(c0.cells@, c0.position).len() == 0,
        }
    } else {
        c1 == c0
    }
}

/// The index of a surviving chunk is in range and names an unmarked chunk.
pub proof fn lemma_kept_index_props(s: Seq<Chunk>, i: int)
    requires
        0 <= i < count_kept(s),
    ensures
        0 <= kept_index(s, i) < s.len(),
        !s[kept_index(s, i)].should_destroy,
    decreases s.len(),
{
    if s.len() == 0 {
    } else if !s.last().should_destroy && i == count_kept(s) - 1 {
    } else {
        lemma_kept_index_props(s.drop_last(), i);
    }
}

/// Surviving chunks keep their relative order.
pub proof fn lemma_kept_index_increasing(s: Seq<Chunk>, i: int, j: int)
    requires
        0 <= i < j < count_kept(s),
    ensures
        kept_index(s, i) < kept_index(s, j),
    decreases s.len(),
{
    if s.len() == 0 {
    } else if !s.last().should_destroy && j == count_kept(s) - 1 {
        lemma_kept_index_props(s.drop_last(), i);
    } else {
        lemma_kept_index_increasing(s.drop_last(), i, j);
    }
}

impl TerrainField {
    /// Run one update/publish pass over every live chunk, in field order:
    /// remove each destroy-flagged chunk, re-polygonize each dirty chunk,
    /// and return the resource commands for the embedding layer.
    pub fn update_chunks(&mut self) -> (cmds: Vec<ChunkCommand>)
        requires
            old(self).wf(),
        ensures
            final(self).wf(),
            cmds@ == field_cmds(old(self).chunks@),
            final(self).chunks@.len() == count_kept(old(self).chunks@),
            forall|i: int|
                0 <= i < final(self).chunks@.len() ==> updated_rel(
                    old(self).chunks@[kept_index(old(self).chunks@, i)],
                    #[trigger] final(self).chunks@[i],
                ),
    {
        let ghost orig = old(self).chunks@;
        let n0: usize = self.chunks.len();
        let mut out: Vec<Chunk> = Vec::new();
        let mut cmds: Vec<ChunkCommand> = Vec::new();
        let mut done: usize = 0;
        while self.chunks.len() > 0
            invariant
                old(self).wf(),
                orig == old(self).chunks@,
                n0 == orig.len(),
                done + self.chunks@.len() == n0,
                self.chunks@ == orig.skip(done as int),
                out@.len() == count_kept(orig.take(done as int)),
                cmds@ == field_cmds(orig.take(done as int)),
                forall|i: int|
                    0 <= i < out@.len() ==> updated_rel(
                        orig.take(done as int)[kept_index(orig.take(done as int), i)],
                        #[trigger] out@[i],
                    ),
                forall|i: int| 0 <= i < out@.len() ==> (#[trigger] out@[i]).wf(),
                forall|i: int, j: int|
                    0 <= i < j < out@.len() ==> (#[trigger] out@[i]).position != (
                    #[trigger] out@[j]).position,
            decreases self.chunks@.len(),
        {
            let ghost gdone = done as int;
            let mut c = self.chunks.remove(0);
            proof {
                assert(orig.skip(gdone)[0] == orig[gdone]);
                assert(orig.skip(gdone).remove(0) =~= orig.skip(gdone + 1));
                assert(orig.take(gdone + 1).drop_last() =~= orig.take(gdone));
                assert(orig.take(gdone + 1).last() == orig[gdone]);
            }
            let ghost c0 = orig[gdone];
            if c.should_destroy {
                cmds.push(ChunkCommand::Despawn(c.position));
                proof {
                    let taken = orig.take(gdone + 1);
                    assert forall|i: int| 0 <= i < out@.len() implies updated_rel(
                        taken[kept_index(taken, i)],
                        #[trigger] out@[i],
                    ) by {
                        assert(kept_index(taken, i) == kept_index(orig.take(gdone), i));
                        lemma_kept_index_props(orig.take(gdone), i);
                    }
                }
            } else {
                if c.is_dirty {
                    let m = c.polygonize();
                    c.mesh = m;
                    cmds.push(ChunkCommand::Unpublish(c.position));
                    if c.mesh.is_some() {
                        cmds.push(ChunkCommand::Publish(c.position));
                    }
                }
                out.push(c);
                proof {
                    let taken = orig.take(gdone + 1);
                    assert(kept_index(taken, count_kept(taken) - 1) == gdone);
                    assert forall|i: int| 0 <= i < out@.len() implies updated_rel(
                        taken[kept_index(taken, i)],
                        #[trigger] out@[i],
                    ) by {
                        if i < out@.len() - 1 {
                            assert(kept_index(taken, i) == kept_index(orig.take(gdone), i));
                            lemma_kept_index_props(orig.take(gdone), i);
                        }
                    }
                    assert forall|i: int, j: int| 0 <= i < j < out@.len() implies (
                    #[trigger] out@[i]).position != (#[trigger] out@[j]).position by {
                        if j == out@.len() - 1 {
                            lemma_kept_index_props(orig.take(gdone), i);
                            assert(out@[i].position == orig[kept_index(
                                orig.take(gdone),
                                i,
                            )].position);
                        }
                    }
                }
            }
            proof {
                assert(cmds@ =~= field_cmds(orig.take(gdone + 1)));
            }
            done += 1;
        }
        proof {
            assert(orig.take(done as int) =~= orig);
        }
        self.chunks = out;
        cmds
    }
}

} // verus!
