//! The sequence of render pass commands that draws a grass entity's chunks.
use vstd::prelude::*;
use crate::grass::chunk::GrassLOD;

verus! {

/// Where one level-of-detail blade mesh lives in the mesh allocator's buffers.
#[derive(Clone, Copy, Debug, PartialEq, Eq, Structural)]
pub struct MeshSlices {
    /// First vertex of the mesh in its vertex buffer.
    pub vertex_start: u32,
    /// One past the last vertex of the mesh.
    pub vertex_end: u32,
    /// The number of indices, when the mesh is indexed.
    pub index_count: Option<u32>,
    /// First index of the mesh in its index buffer, when one was allocated.
    pub index_start: Option<u32>,
}

impl MeshSlices {
    /// The index range of an indexed mesh fits in `u32`.
    pub open spec fn wf(self) -> bool {
        match (self.index_count, self.index_start) {
            (Some(count), Some(start)) => start + count <= u32::MAX,
            _ => true,
        }
    }

    /// An indexed mesh has an index slice.
    pub open spec fn indices_present(self) -> bool {
        self.index_count is Some ==> self.index_start is Some
    }
}

/// One chunk to draw: its level of detail, and its instance count when its
/// instance buffer is ready.
#[derive(Clone, Copy, Debug, PartialEq, Eq, Structural)]
pub struct ChunkDrawInput {
    pub lod: GrassLOD,
    pub instances: Option<usize>,
}

/// One render pass command.
#[derive(Clone, Copy, Debug, PartialEq, Eq, Structural)]
pub enum GrassDrawOp {
    /// Bind the blade mesh of this level of detail to vertex slot 0.
    BindMeshVertices(GrassLOD),
    /// Bind the index buffer of this level of detail's blade mesh.
    BindMeshIndices(GrassLOD),
    /// Bind the instance buffer of the chunk at this position to vertex slot 1.
    BindInstances(usize),
    /// Draw indices `first_index..end_index` with `base_vertex`, instances `0..instance_count`.
    DrawIndexed { first_index: u32, end_index: u32, base_vertex: i32, instance_count: u32 },
    /// Draw vertices `first_vertex..end_vertex`, instances `0..instance_count`.
    Draw { first_vertex: u32, end_vertex: u32, instance_count: u32 },
}

/// Whether some chunk has the given level of detail.
pub open spec fn has_lod(chunks: Seq<ChunkDrawInput>, lod: GrassLOD) -> bool {
    exists|i: int| 0 <= i < chunks.len() && (#[trigger] chunks[i]).lod == lod
}

/// The mesh used for a level of detail.
pub open spec fn mesh_for(lod: GrassLOD, high: Option<MeshSlices>, low: Option<MeshSlices>) -> Option<MeshSlices> {
    match lod {
        GrassLOD::High => high,
        GrassLOD::Low => low,
    }
}

/// The draw command of a chunk with `len` instances on mesh `m`, if it can be drawn.
pub open spec fn draw_command(m: MeshSlices, len: usize) -> Option<GrassDrawOp> {
    match m.index_count {
        Some(count) => match m.index_start {
            Some(start) => Some(GrassDrawOp::DrawIndexed {
                first_index: start,
                end_index: (start + count) as u32,
                base_vertex: m.vertex_start as i32,
                instance_count: len as u32,
            }),
            None => None,
        },
        None => Some(GrassDrawOp::Draw {
            first_vertex: m.vertex_start,
            end_vertex: m.vertex_end,
            instance_count: len as u32,
        }),
    }
}

/// The commands for the chunk at position `i`, given the level of detail whose
/// mesh is bound: the new bound level of detail and the commands. A chunk
/// without an instance buffer or without a mesh is passed over. When the level
/// of detail changes, its mesh vertices are bound, and for an indexed mesh its
/// indices; an indexed mesh without an index slice stops the chunk right after
/// its vertices were bound, and the bound level of detail stays as it was.
pub open spec fn chunk_step(
    bound: Option<GrassLOD>,
    i: int,
    c: ChunkDrawInput,
    high: Option<MeshSlices>,
    low: Option<MeshSlices>,
) -> (Option<GrassLOD>, Seq<GrassDrawOp>) {
    match c.instances {
        None => (bound, Seq::empty()),
        Some(len) => match mesh_for(c.lod, high, low) {
            None => (bound, Seq::empty()),
            Some(m) => {
                let rebind = bound != Some(c.lod);
                if rebind && m.index_count is Some && m.index_start is None {
                    (bound, seq![GrassDrawOp::BindMeshVertices(c.lod)])
                } else {
                    let binds = if !rebind {
                        Seq::empty()
                    } else if m.index_count is Some {
                        seq![GrassDrawOp::BindMeshVertices(c.lod), GrassDrawOp::BindMeshIndices(c.lod)]
                    } else {
                        seq![GrassDrawOp::BindMeshVertices(c.lod)]
                    };
                    let draw = match draw_command(m, len) {
                        Some(d) => seq![d],
                        None => Seq::empty(),
                    };
                    (Some(c.lod), binds + seq![GrassDrawOp::BindInstances(i as usize)] + draw)
                }
            },
        },
    }
}

/// The bound level of detail and the commands after the first `n` chunks.
pub open spec fn chunk_ops(
    chunks: Seq<ChunkDrawInput>,
    n: int,
    high: Option<MeshSlices>,
    low: Option<MeshSlices>,
) -> (Option<GrassLOD>, Seq<GrassDrawOp>)
    decreases n,
{
    if n <= 0 {
        (None, Seq::empty())
    } else {
        let prev = chunk_ops(chunks, n - 1, high, low);
        let step = chunk_step(prev.0, n - 1, chunks[n - 1], high, low);
        (step.0, prev.1 + step.1)
    }
}

/// The commands that draw `chunks`: `None` when a high level-of-detail chunk
/// exists but the high mesh does not. The low mesh is used only when some chunk
/// has a low level of detail.
pub open spec fn grass_draw_plan(
    chunks: Seq<ChunkDrawInput>,
    high: Option<MeshSlices>,
    low: Option<MeshSlices>,
) -> Option<Seq<GrassDrawOp>> {
    if has_lod(chunks, GrassLOD::High) && high is None {
        None
    } else {
        let h = if has_lod(chunks, GrassLOD::High) { high } else { None };
        let l = if has_lod(chunks, GrassLOD::Low) { low } else { None };
        Some(chunk_ops(chunks, chunks.len() as int, h, l).1)
    }
}

/// The level of detail whose mesh vertices were bound last among the first `k` commands.
pub open spec fn vertices_bound_at(ops: Seq<GrassDrawOp>, k: int) -> Option<GrassLOD>
    decreases k,
{
    if k <= 0 {
        None
    } else {
        match ops[k - 1] {
            GrassDrawOp::BindMeshVertices(l) => Some(l),
            _ => vertices_bound_at(ops, k - 1),
        }
    }
}

/// The level of detail whose mesh indices were bound last among the first `k` commands.
pub open spec fn indices_bound_at(ops: Seq<GrassDrawOp>, k: int) -> Option<GrassLOD>
    decreases k,
{
    if k <= 0 {
        None
    } else {
        match ops[k - 1] {
            GrassDrawOp::BindMeshIndices(l) => Some(l),
            _ => indices_bound_at(ops, k - 1),
        }
    }
}

/// Whether a command draws.
pub open spec fn is_draw(op: GrassDrawOp) -> bool {
    op is DrawIndexed || op is Draw
}

/// The instance count of a draw command.
pub open spec fn draw_instances(op: GrassDrawOp) -> u32 {
    match op {
        GrassDrawOp::DrawIndexed { instance_count, .. } => instance_count,
        GrassDrawOp::Draw { instance_count, .. } => instance_count,
        _ => 0,
    }
}

/// What holds of the draw at position `k`: it follows the binding of its
/// chunk's instances, it draws all of that chunk's instances, the vertices bound
/// are those of the chunk's level of detail, and for an indexed draw so are the
/// indices, and the draw covers exactly that mesh: an indexed draw runs over
/// the mesh's index range with its first vertex as base vertex, a plain draw
/// over the mesh's vertex range.
pub open spec fn draw_well_bound(
    chunks: Seq<ChunkDrawInput>,
    ops: Seq<GrassDrawOp>,
    k: int,
    high: Option<MeshSlices>,
    low: Option<MeshSlices>,
) -> bool {
    &&& 1 <= k < ops.len()
    &&& ops[k - 1] is BindInstances
    &&& {
        let i: int = ops[k - 1]->BindInstances_0 as int;
        &&& 0 <= i < chunks.len()
        &&& chunks[i].instances matches Some(len) && draw_instances(ops[k]) == len as u32
        &&& vertices_bound_at(ops, k) == Some(chunks[i].lod)
        &&& ops[k] is DrawIndexed ==> indices_bound_at(ops, k) == Some(chunks[i].lod)
        &&& mesh_for(chunks[i].lod, high, low) matches Some(m) && match ops[k] {
            GrassDrawOp::DrawIndexed { first_index, end_index, base_vertex, .. } => {
                &&& m.index_start == Some(first_index)
                &&& m.index_count matches Some(c) && end_index == first_index + c
                &&& base_vertex == m.vertex_start as i32
            },
            GrassDrawOp::Draw { first_vertex, end_vertex, .. } => {
                &&& m.index_count is None
                &&& first_vertex == m.vertex_start
                &&& end_vertex == m.vertex_end
            },
            _ => false,
        }
    }
}

proof fn lemma_bound_prefix(a: Seq<GrassDrawOp>, b: Seq<GrassDrawOp>, k: int)
    requires
        0 <= k <= a.len(),
    ensures
        vertices_bound_at(a + b, k) == vertices_bound_at(a, k),
        indices_bound_at(a + b, k) == indices_bound_at(a, k),
    decreases k,
{
    if k > 0 {
        lemma_bound_prefix(a, b, k - 1);
        assert((a + b)[k - 1] == a[k - 1]);
    }
}

/// The bound level of detail agrees with the last bindings among `ops`.
spec fn bound_consistent(
    bound: Option<GrassLOD>,
    ops: Seq<GrassDrawOp>,
    high: Option<MeshSlices>,
    low: Option<MeshSlices>,
) -> bool {
    bound matches Some(l) ==> {
        &&& vertices_bound_at(ops, ops.len() as int) == Some(l)
        &&& mesh_for(l, high, low) is Some
        &&& (mesh_for(l, high, low)->0.index_count is Some
            ==> indices_bound_at(ops, ops.len() as int) == Some(l))
    }
}

proof fn lemma_step(
    chunks: Seq<ChunkDrawInput>,
    prev: Seq<GrassDrawOp>,
    bound: Option<GrassLOD>,
    i: int,
    high: Option<MeshSlices>,
    low: Option<MeshSlices>,
)
    requires
        0 <= i < chunks.len() <= usize::MAX,
        high matches Some(m) ==> m.indices_present(),
        low matches Some(m) ==> m.indices_present(),
        high matches Some(m) ==> m.wf(),
        low matches Some(m) ==> m.wf(),
        bound_consistent(bound, prev, high, low),
    ensures
        ({
            let step = chunk_step(bound, i, chunks[i], high, low);
            let ops = prev + step.1;
            &&& bound_consistent(step.0, ops, high, low)
            &&& forall|k: int| prev.len() <= k < ops.len() && is_draw(#[trigger] ops[k])
                ==> draw_well_bound(chunks, ops, k, high, low)
            &&& forall|k: int| prev.len() <= k < ops.len() && (#[trigger] ops[k]) is BindInstances
                ==> ops[k]->BindInstances_0 == i
        }),
{
    let c = chunks[i];
    let step = chunk_step(bound, i, c, high, low);
    let ops = prev + step.1;
    let p: int = prev.len() as int;
    lemma_bound_prefix(prev, step.1, p);
    match c.instances {
        None => {
            assert(ops =~= prev);
        },
        Some(len) => match mesh_for(c.lod, high, low) {
            None => {
                assert(ops =~= prev);
            },
            Some(m) => {
                let rebind = bound != Some(c.lod);
                let d = draw_command(m, len);
                assert(d is Some);
                let inst = GrassDrawOp::BindInstances(i as usize);
                if !rebind {
                    assert(step.1 =~= seq![inst, d->0]);
                    assert(ops[p] == inst);
                    assert(ops[p + 1] == d->0);
                    assert(vertices_bound_at(ops, p + 1) == vertices_bound_at(ops, p));
                    assert(indices_bound_at(ops, p + 1) == indices_bound_at(ops, p));
                    assert(vertices_bound_at(ops, p + 2) == vertices_bound_at(ops, p));
                    assert(indices_bound_at(ops, p + 2) == indices_bound_at(ops, p));
                    assert(draw_well_bound(chunks, ops, p + 1, high, low));
                } else if m.index_count is Some {
                    let v = GrassDrawOp::BindMeshVertices(c.lod);
                    let x = GrassDrawOp::BindMeshIndices(c.lod);
                    assert(step.1 =~= seq![v, x, inst, d->0]);
                    assert(ops[p] == v);
                    assert(ops[p + 1] == x);
                    assert(ops[p + 2] == inst);
                    assert(ops[p + 3] == d->0);
                    assert(vertices_bound_at(ops, p + 1) == Some(c.lod));
                    assert(vertices_bound_at(ops, p + 2) == Some(c.lod));
                    assert(vertices_bound_at(ops, p + 3) == Some(c.lod));
                    assert(vertices_bound_at(ops, p + 4) == Some(c.lod));
                    assert(indices_bound_at(ops, p + 2) == Some(c.lod));
                    assert(indices_bound_at(ops, p + 3) == Some(c.lod));
                    assert(indices_bound_at(ops, p + 4) == Some(c.lod));
                    assert(draw_well_bound(chunks, ops, p + 3, high, low));
                } else {
                    let v = GrassDrawOp::BindMeshVertices(c.lod);
                    assert(step.1 =~= seq![v, inst, d->0]);
                    assert(ops[p] == v);
                    assert(ops[p + 1] == inst);
                    assert(ops[p + 2] == d->0);
                    assert(vertices_bound_at(ops, p + 1) == Some(c.lod));
                    assert(vertices_bound_at(ops, p + 2) == Some(c.lod));
                    assert(vertices_bound_at(ops, p + 3) == Some(c.lod));
                    assert(draw_well_bound(chunks, ops, p + 2, high, low));
                }
            },
        },
    }
}

proof fn lemma_chunk_ops_invariant(
    chunks: Seq<ChunkDrawInput>,
    n: int,
    high: Option<MeshSlices>,
    low: Option<MeshSlices>,
)
    requires
        0 <= n <= chunks.len() <= usize::MAX,
        high matches Some(m) ==> m.indices_present(),
        low matches Some(m) ==> m.indices_present(),
        high matches Some(m) ==> m.wf(),
        low matches Some(m) ==> m.wf(),
    ensures
        ({
            let (bound, ops) = chunk_ops(chunks, n, high, low);
            &&& bound_consistent(bound, ops, high, low)
            &&& forall|k: int| 0 <= k < ops.len() && is_draw(#[trigger] ops[k])
                ==> draw_well_bound(chunks, ops, k, high, low)
            &&& forall|k: int| 0 <= k < ops.len() && (#[trigger] ops[k]) is BindInstances
                ==> 0 <= ops[k]->BindInstances_0 < n
        }),
    decreases n,
{
    if n > 0 {
        lemma_chunk_ops_invariant(chunks, n - 1, high, low);
        let (bound, prev) = chunk_ops(chunks, n - 1, high, low);
        let step = chunk_step(bound, n - 1, chunks[n - 1], high, low);
        let ops = prev + step.1;
        let p: int = prev.len() as int;
        lemma_step(chunks, prev, bound, n - 1, high, low);
        assert forall|k: int| 0 <= k < p && is_draw(#[trigger] ops[k])
            implies draw_well_bound(chunks, ops, k, high, low) by {
            assert(prev[k] == ops[k]);
            assert(draw_well_bound(chunks, prev, k, high, low));
            assert(ops[k - 1] == prev[k - 1]);
            lemma_bound_prefix(prev, step.1, k);
        }
        assert forall|k: int| 0 <= k < p && (#[trigger] ops[k]) is BindInstances
            implies 0 <= ops[k]->BindInstances_0 < n by {
            assert(prev[k] == ops[k]);
        }
    }
}

/// When every indexed blade mesh has its index slice, each draw command of a
/// plan comes right after the binding of its chunk's instance buffer, draws all
/// of that chunk's instances, and runs with the vertices (and, when indexed, the
/// indices) of the mesh for that chunk's level of detail bound.
pub proof fn lemma_draws_use_their_mesh(
    chunks: Seq<ChunkDrawInput>,
    high: Option<MeshSlices>,
    low: Option<MeshSlices>,
)
    requires
        chunks.len() <= usize::MAX,
        high matches Some(m) ==> m.indices_present(),
        low matches Some(m) ==> m.indices_present(),
        high matches Some(m) ==> m.wf(),
        low matches Some(m) ==> m.wf(),
        grass_draw_plan(chunks, high, low) is Some,
    ensures
        ({
            let ops = grass_draw_plan(chunks, high, low)->0;
            forall|k: int| 0 <= k < ops.len() && is_draw(#[trigger] ops[k])
                ==> draw_well_bound(chunks, ops, k, high, low)
        }),
{
    let h = if has_lod(chunks, GrassLOD::High) { high } else { None };
    let l = if has_lod(chunks, GrassLOD::Low) { low } else { None };
    lemma_chunk_ops_invariant(chunks, chunks.len() as int, h, l);
    let ops = chunk_ops(chunks, chunks.len() as int, h, l).1;
    assert forall|k: int| 0 <= k < ops.len() && is_draw(#[trigger] ops[k])
        implies draw_well_bound(chunks, ops, k, high, low) by {
        assert(draw_well_bound(chunks, ops, k, h, l));
        let i: int = ops[k - 1]->BindInstances_0 as int;
        if chunks[i].lod == GrassLOD::High {
            assert(has_lod(chunks, GrassLOD::High));
        } else {
            assert(has_lod(chunks, GrassLOD::Low));
        }
    }
}

/// Whether the chunk at position `i` can be drawn: its instance buffer is ready
/// and the mesh of its level of detail exists.
pub open spec fn chunk_ready(chunks: Seq<ChunkDrawInput>, i: int, high: Option<MeshSlices>, low: Option<MeshSlices>) -> bool {
    chunks[i].instances is Some && mesh_for(chunks[i].lod, high, low) is Some
}

/// The chunks whose instances `ops` binds: in increasing chunk order, each one
/// drawn by the command right after its binding; a chunk is bound exactly
/// when it is ready.
pub open spec fn draws_complete(
    chunks: Seq<ChunkDrawInput>,
    n: int,
    ops: Seq<GrassDrawOp>,
    high: Option<MeshSlices>,
    low: Option<MeshSlices>,
) -> bool {
    &&& forall|k: int, m: int| 0 <= k < m < ops.len() && ops[k] is BindInstances && ops[m] is BindInstances
        ==> (#[trigger] ops[k])->BindInstances_0 < (#[trigger] ops[m])->BindInstances_0
    &&& forall|k: int| 0 <= k < ops.len() && (#[trigger] ops[k]) is BindInstances
        ==> k + 1 < ops.len() && is_draw(ops[k + 1])
            && 0 <= ops[k]->BindInstances_0 < n
            && chunk_ready(chunks, ops[k]->BindInstances_0 as int, high, low)
    &&& forall|i: int| 0 <= i < n && chunk_ready(chunks, i, high, low)
        ==> exists|k: int| 0 <= k < ops.len() && #[trigger] ops[k] == GrassDrawOp::BindInstances(i as usize)
}

proof fn lemma_step_shape(
    chunks: Seq<ChunkDrawInput>,
    bound: Option<GrassLOD>,
    i: int,
    high: Option<MeshSlices>,
    low: Option<MeshSlices>,
)
    requires
        0 <= i < chunks.len() <= usize::MAX,
        high matches Some(m) ==> m.indices_present(),
        low matches Some(m) ==> m.indices_present(),
    ensures
        ({
            let s = chunk_step(bound, i, chunks[i], high, low).1;
            &&& chunk_ready(chunks, i, high, low) ==> {
                &&& s.len() >= 2
                &&& s[s.len() - 2] == GrassDrawOp::BindInstances(i as usize)
                &&& is_draw(s[s.len() - 1])
                &&& forall|j: int| 0 <= j < s.len() - 2 ==> !((#[trigger] s[j]) is BindInstances)
            }
            &&& !chunk_ready(chunks, i, high, low) ==> s.len() == 0
        }),
{
    let c = chunks[i];
    if chunk_ready(chunks, i, high, low) {
        let m = mesh_for(c.lod, high, low)->0;
        let d = draw_command(m, c.instances->0);
        let inst = GrassDrawOp::BindInstances(i as usize);
        let rebind = bound != Some(c.lod);
        let s = chunk_step(bound, i, c, high, low).1;
        if !rebind {
            assert(s =~= seq![inst, d->0]);
        } else if m.index_count is Some {
            assert(s =~= seq![GrassDrawOp::BindMeshVertices(c.lod), GrassDrawOp::BindMeshIndices(c.lod), inst, d->0]);
        } else {
            assert(s =~= seq![GrassDrawOp::BindMeshVertices(c.lod), inst, d->0]);
        }
    }
}

#[verifier::rlimit(30)]
proof fn lemma_chunk_ops_complete(
    chunks: Seq<ChunkDrawInput>,
    n: int,
    high: Option<MeshSlices>,
    low: Option<MeshSlices>,
)
    requires
        0 <= n <= chunks.len() <= usize::MAX,
        high matches Some(m) ==> m.indices_present(),
        low matches Some(m) ==> m.indices_present(),
    ensures
        draws_complete(chunks, n, chunk_ops(chunks, n, high, low).1, high, low),
    decreases n,
{
    if n > 0 {
        lemma_chunk_ops_complete(chunks, n - 1, high, low);
        let (bound, prev) = chunk_ops(chunks, n - 1, high, low);
        let i: int = n - 1;
        let s = chunk_step(bound, i, chunks[i], high, low).1;
        lemma_step_shape(chunks, bound, i, high, low);
        let ops = prev + s;
        let p: int = prev.len() as int;
        assert(ops == chunk_ops(chunks, n, high, low).1);
        assert forall|k: int| 0 <= k < p implies ops[k] == prev[k] by {}
        assert forall|k: int| p <= k < ops.len() implies ops[k] == s[k - p] by {}
        if chunk_ready(chunks, i, high, low) {
            let q: int = ops.len() - 2;
            assert(ops[q] == GrassDrawOp::BindInstances(i as usize));
            assert forall|k: int| 0 <= k < ops.len() && (#[trigger] ops[k]) is BindInstances
                implies k + 1 < ops.len() && is_draw(ops[k + 1])
                    && 0 <= ops[k]->BindInstances_0 < n
                    && chunk_ready(chunks, ops[k]->BindInstances_0 as int, high, low) by {
                if k < p {
                    assert(prev[k] is BindInstances);
                    if k + 1 < p {
                        assert(ops[k + 1] == prev[k + 1]);
                    }
                } else {
                    assert(s[k - p] is BindInstances);
                    assert(k == q);
                }
            }
            assert forall|k: int, m: int| 0 <= k < m < ops.len() && ops[k] is BindInstances && ops[m] is BindInstances
                implies (#[trigger] ops[k])->BindInstances_0 < (#[trigger] ops[m])->BindInstances_0 by {
                if m < p {
                    assert(prev[k] == ops[k] && prev[m] == ops[m]);
                } else {
                    assert(s[m - p] is BindInstances);
                    assert(m == q);
                    if k >= p {
                        assert(s[k - p] is BindInstances);
                    } else {
                        assert(prev[k] is BindInstances);
                    }
                }
            }
            assert forall|j: int| 0 <= j < n && chunk_ready(chunks, j, high, low)
                implies exists|k: int| 0 <= k < ops.len() && #[trigger] ops[k] == GrassDrawOp::BindInstances(j as usize) by {
                if j < i {
                    let k = choose|k: int| 0 <= k < prev.len() && #[trigger] prev[k] == GrassDrawOp::BindInstances(j as usize);
                    assert(ops[k] == prev[k]);
                } else {
                    assert(ops[q] == GrassDrawOp::BindInstances(j as usize));
                }
            }
        } else {
            assert(ops =~= prev);
            assert forall|j: int| 0 <= j < n && chunk_ready(chunks, j, high, low)
                implies exists|k: int| 0 <= k < ops.len() && #[trigger] ops[k] == GrassDrawOp::BindInstances(j as usize) by {
                let k = choose|k: int| 0 <= k < prev.len() && #[trigger] prev[k] == GrassDrawOp::BindInstances(j as usize);
                assert(ops[k] == prev[k]);
            }
        }
    }
}

/// When every indexed blade mesh has its index slice, a plan draws each chunk
/// that is ready (instance buffer present, mesh of its level present) exactly
/// once, in chunk order, and draws no other chunk.
pub proof fn lemma_plan_draws_each_ready_chunk_once(
    chunks: Seq<ChunkDrawInput>,
    high: Option<MeshSlices>,
    low: Option<MeshSlices>,
)
    requires
        chunks.len() <= usize::MAX,
        high matches Some(m) ==> m.indices_present(),
        low matches Some(m) ==> m.indices_present(),
        grass_draw_plan(chunks, high, low) is Some,
    ensures
        draws_complete(chunks, chunks.len() as int, grass_draw_plan(chunks, high, low)->0, high, low),
{
    let h = if has_lod(chunks, GrassLOD::High) { high } else { None };
    let l = if has_lod(chunks, GrassLOD::Low) { low } else { None };
    let n: int = chunks.len() as int;
    let ops = chunk_ops(chunks, n, h, l).1;
    lemma_chunk_ops_complete(chunks, n, h, l);
    assert forall|i: int| 0 <= i < n implies
        chunk_ready(chunks, i, h, l) == chunk_ready(chunks, i, high, low) by {
        if chunks[i].lod == GrassLOD::High {
            assert(has_lod(chunks, GrassLOD::High));
        } else {
            assert(has_lod(chunks, GrassLOD::Low));
        }
    }
    assert forall|k: int| 0 <= k < ops.len() && (#[trigger] ops[k]) is BindInstances
        implies chunk_ready(chunks, ops[k]->BindInstances_0 as int, high, low) by {
        assert(chunk_ready(chunks, ops[k]->BindInstances_0 as int, h, l));
    }
    assert forall|i: int| 0 <= i < n && chunk_ready(chunks, i, high, low)
        implies exists|k: int| 0 <= k < ops.len() && #[trigger] ops[k] == GrassDrawOp::BindInstances(i as usize) by {
        assert(chunk_ready(chunks, i, h, l));
    }
}

fn any_lod(chunks: &Vec<ChunkDrawInput>, lod: GrassLOD) -> (res: bool)
    ensures
        res == has_lod(chunks@, lod),
{
    let mut i: usize = 0;
    while i < chunks.len()
        invariant
            i <= chunks.len(),
            forall|j: int| 0 <= j < i ==> (#[trigger] chunks@[j]).lod != lod,
        decreases chunks.len() - i,
    {
        if chunks[i].lod == lod {
            return true;
        }
        i = i + 1;
    }
    false
}

fn draw_command_exec(m: MeshSlices, len: usize) -> (res: Option<GrassDrawOp>)
    requires
        m.wf(),
    ensures
        res == draw_command(m, len),
{
    match m.index_count {
        Some(count) => match m.index_start {
            Some(start) => Some(GrassDrawOp::DrawIndexed {
                first_index: start,
                end_index: start + count,
                base_vertex: m.vertex_start as i32,
                instance_count: len as u32,
            }),
            None => None,
        },
        None => Some(GrassDrawOp::Draw {
            first_vertex: m.vertex_start,
            end_vertex: m.vertex_end,
            instance_count: len as u32,
        }),
    }
}

/// The render pass commands that draw a grass entity's chunks in order, reusing
/// the bound blade mesh while consecutive chunks share a level of detail.
/// `high` and `low` are the blade meshes, `None` where a mesh or its vertex
/// slice is missing. Returns `None` (skip the entity) when some chunk needs the
/// high mesh and it is missing.
pub fn plan_grass_draws(
    chunks: &Vec<ChunkDrawInput>,
    high: Option<MeshSlices>,
    low: Option<MeshSlices>,
) -> (res: Option<Vec<GrassDrawOp>>)
    requires
        high matches Some(m) ==> m.wf(),
        low matches Some(m) ==> m.wf(),
    ensures
        match res {
            None => grass_draw_plan(chunks@, high, low) is None,
            Some(ops) => grass_draw_plan(chunks@, high, low) == Some(ops@),
        },
        res is None <==> (high is None && exists|i: int| 0 <= i < chunks@.len() && (#[trigger] chunks@[i]).lod == GrassLOD::High),
{
    let has_high = any_lod(chunks, GrassLOD::High);
    let has_low = any_lod(chunks, GrassLOD::Low);
    if has_high && high.is_none() {
        return None;
    }
    let h = if has_high { high } else { None };
    let l = if has_low { low } else { None };
    let mut bound: Option<GrassLOD> = None;
    let mut ops: Vec<GrassDrawOp> = Vec::new();
    let mut i: usize = 0;
    while i < chunks.len()
        invariant
            i <= chunks.len(),
            h matches Some(m) ==> m.wf(),
            l matches Some(m) ==> m.wf(),
            (bound, ops@) == chunk_ops(chunks@, i as int, h, l),
        decreases chunks.len() - i,
    {
        let c = chunks[i];
        let ghost prev = ops@;
        let ghost step = chunk_step(bound, i as int, c, h, l);
        assert(chunk_ops(chunks@, i + 1, h, l) == (step.0, prev + step.1));
        match c.instances {
            None => {
                assert(prev + step.1 =~= prev);
            },
            Some(len) => {
                let mesh = match c.lod {
                    GrassLOD::High => h,
                    GrassLOD::Low => l,
                };
                match mesh {
                    None => {
                        assert(prev + step.1 =~= prev);
                    },
                    Some(m) => {
                        let rebind = match bound {
                            Some(b) => b != c.lod,
                            None => true,
                        };
                        if rebind && m.index_count.is_some() && m.index_start.is_none() {
                            ops.push(GrassDrawOp::BindMeshVertices(c.lod));
                        } else {
                            if rebind {
                                ops.push(GrassDrawOp::BindMeshVertices(c.lod));
                                if m.index_count.is_some() {
                                    ops.push(GrassDrawOp::BindMeshIndices(c.lod));
                                }
                            }
                            ops.push(GrassDrawOp::BindInstances(i));
                            match draw_command_exec(m, len) {
                                Some(d) => ops.push(d),
                                None => {},
                            }
                            bound = Some(c.lod);
                        }
                        assert(ops@ =~= prev + step.1);
                    },
                }
            },
        }
        i = i + 1;
    }
    Some(ops)
}

} // verus!
