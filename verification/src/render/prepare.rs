//! Indirect draw commands for a grass entity's chunks, and the decisions about
//! when GPU buffers are created, rewritten or left alone.
use vstd::prelude::*;
use crate::grass::chunk::GrassLOD;
use crate::render::draw::MeshSlices;

verus! {

/// The arguments of a non-indexed indirect draw, in GPU layout order.
#[derive(Clone, Copy, Debug, PartialEq, Eq, Structural)]
pub struct DrawIndirectCommand {
    pub vertex_count: u32,
    pub instance_count: u32,
    pub first_vertex: u32,
    pub first_instance: u32,
}

/// The arguments of an indexed indirect draw, in GPU layout order.
#[derive(Clone, Copy, Debug, PartialEq, Eq, Structural)]
pub struct DrawIndexedIndirectCommand {
    pub index_count: u32,
    pub instance_count: u32,
    pub first_index: u32,
    pub base_vertex: i32,
    pub first_instance: u32,
}

/// The part of a blade mesh that every indirect draw of one level of detail repeats.
#[derive(Clone, Copy, Debug, PartialEq, Eq, Structural)]
pub struct LodMeshInfo {
    pub indexed: bool,
    pub index_count: u32,
    pub first_index: u32,
    pub base_vertex: i32,
    pub vertex_count: u32,
    pub first_vertex: u32,
}

/// The draw parameters of a mesh: `None` for an indexed mesh without an index slice.
pub open spec fn spec_lod_mesh_info(m: MeshSlices) -> Option<LodMeshInfo> {
    match m.index_count {
        Some(count) => match m.index_start {
            Some(start) => Some(LodMeshInfo {
                indexed: true,
                index_count: count,
                first_index: start,
                base_vertex: m.vertex_start as i32,
                vertex_count: 0,
                first_vertex: 0,
            }),
            None => None,
        },
        None => Some(LodMeshInfo {
            indexed: false,
            index_count: 0,
            first_index: 0,
            base_vertex: 0,
            vertex_count: (m.vertex_end - m.vertex_start) as u32,
            first_vertex: m.vertex_start,
        }),
    }
}

/// The draw parameters shared by the indirect draws of a blade mesh.
pub fn lod_mesh_info(m: MeshSlices) -> (res: Option<LodMeshInfo>)
    requires
        m.vertex_start <= m.vertex_end,
    ensures
        res == spec_lod_mesh_info(m),
        (m.index_count is Some && m.index_start is Some) ==> res == Some(LodMeshInfo {
            indexed: true,
            index_count: m.index_count->0,
            first_index: m.index_start->0,
            base_vertex: m.vertex_start as i32,
            vertex_count: 0,
            first_vertex: 0,
        }),
        (m.index_count is Some && m.index_start is None) ==> res is None,
        m.index_count is None ==> res == Some(LodMeshInfo {
            indexed: false,
            index_count: 0,
            first_index: 0,
            base_vertex: 0,
            vertex_count: (m.vertex_end - m.vertex_start) as u32,
            first_vertex: m.vertex_start,
        }),
{
    match m.index_count {
        Some(count) => match m.index_start {
            Some(start) => Some(LodMeshInfo {
                indexed: true,
                index_count: count,
                first_index: start,
                base_vertex: m.vertex_start as i32,
                vertex_count: 0,
                first_vertex: 0,
            }),
            None => None,
        },
        None => Some(LodMeshInfo {
            indexed: false,
            index_count: 0,
            first_index: 0,
            base_vertex: 0,
            vertex_count: m.vertex_end - m.vertex_start,
            first_vertex: m.vertex_start,
        }),
    }
}

/// One chunk of a grass entity: its level of detail, and its instances when its
/// chunk buffer is ready.
pub struct LodChunk<'a, T> {
    pub lod: GrassLOD,
    pub data: Option<&'a Vec<T>>,
}

/// The instance data and draw commands of one level of detail. At most one of
/// `direct` and `indexed` holds commands.
pub struct LodDrawCommands<T> {
    pub instances: Vec<T>,
    pub direct: Vec<DrawIndirectCommand>,
    pub indexed: Vec<DrawIndexedIndirectCommand>,
}

/// The instance count of a chunk as the GPU sees it (its length cut to `u32`).
pub open spec fn chunk_instance_count<T>(c: LodChunk<'_, T>) -> u32 {
    match c.data {
        Some(d) => d@.len() as u32,
        None => 0,
    }
}

/// Whether a chunk gets a draw command of level `kind`: it has that level, its
/// buffer is ready and its instance count is not zero.
pub open spec fn chunk_drawn<T>(c: LodChunk<'_, T>, kind: GrassLOD) -> bool {
    c.lod == kind && c.data is Some && chunk_instance_count(c) != 0
}

impl<T> LodDrawCommands<T> {
    /// No instances and no commands, for a level of detail that has no mesh.
    pub fn empty() -> (res: Self)
        ensures
            res.instances@.len() == 0,
            res.direct@.len() == 0,
            res.indexed@.len() == 0,
    {
        LodDrawCommands { instances: Vec::new(), direct: Vec::new(), indexed: Vec::new() }
    }

    /// Whether the commands are indexed ones.
    pub fn is_indexed(&self) -> (res: bool)
        ensures
            res == (self.indexed@.len() > 0),
    {
        self.indexed.len() > 0
    }

    /// The number of draw commands, as the GPU counts them.
    pub fn draw_count(&self) -> (res: u32)
        requires
            self.direct@.len() == 0 || self.indexed@.len() == 0,
        ensures
            res == (self.direct@.len() + self.indexed@.len()) as u32,
    {
        if self.indexed.len() > 0 {
            self.indexed.len() as u32
        } else {
            self.direct.len() as u32
        }
    }
}

/// The number of chunks among the first `n` that get a draw command of level `kind`.
pub open spec fn drawn_chunk_count<T>(chunks: Seq<LodChunk<'_, T>>, n: int, kind: GrassLOD) -> nat
    decreases n,
{
    if n <= 0 {
        0
    } else {
        drawn_chunk_count(chunks, n - 1, kind) + if chunk_drawn(chunks[n - 1], kind) { 1nat } else { 0nat }
    }
}

/// Non-indexed commands whose instance ranges are not empty, start at zero,
/// follow one another without gap, and end at `total`.
pub open spec fn direct_ranges_contiguous(cmds: Seq<DrawIndirectCommand>, total: int) -> bool {
    &&& cmds.len() == 0 ==> total == 0
    &&& cmds.len() > 0 ==> cmds[0].first_instance == 0
        && cmds.last().first_instance + cmds.last().instance_count == total
    &&& forall|k: int| 0 <= k < cmds.len() - 1
        ==> #[trigger] cmds[k + 1].first_instance == cmds[k].first_instance + cmds[k].instance_count
    &&& forall|k: int| 0 <= k < cmds.len() ==> (#[trigger] cmds[k]).instance_count > 0
}

/// Indexed commands whose instance ranges are not empty, start at zero,
/// follow one another without gap, and end at `total`.
pub open spec fn indexed_ranges_contiguous(cmds: Seq<DrawIndexedIndirectCommand>, total: int) -> bool {
    &&& cmds.len() == 0 ==> total == 0
    &&& cmds.len() > 0 ==> cmds[0].first_instance == 0
        && cmds.last().first_instance + cmds.last().instance_count == total
    &&& forall|k: int| 0 <= k < cmds.len() - 1
        ==> #[trigger] cmds[k + 1].first_instance == cmds[k].first_instance + cmds[k].instance_count
    &&& forall|k: int| 0 <= k < cmds.len() ==> (#[trigger] cmds[k]).instance_count > 0
}

/// The commands of one level of detail: all indexed or all not, as the mesh is;
/// each repeats the mesh's draw parameters (index count, first index and base
/// vertex, or vertex count and first vertex); one per chunk that has instances
/// of that level; their instance ranges tile
/// `0..total` in chunk order; and, when no chunk of that level holds more than
/// `u32::MAX` instances, the gathered instance list is exactly `total` long, so each
/// command draws the instances of its own chunk.
pub proof fn lemma_lod_commands_tile_instances<T>(
    chunks: Seq<LodChunk<'_, T>>,
    n: int,
    kind: GrassLOD,
    info: LodMeshInfo,
)
    requires
        0 <= n <= chunks.len(),
        lod_batch(chunks, n, kind, info).0 <= u32::MAX,
    ensures
        ({
            let (total, inst, direct, indexed) = lod_batch(chunks, n, kind, info);
            &&& info.indexed ==> direct.len() == 0 && indexed.len() == drawn_chunk_count(chunks, n, kind)
            &&& !info.indexed ==> indexed.len() == 0 && direct.len() == drawn_chunk_count(chunks, n, kind)
            &&& !info.indexed ==> direct_ranges_contiguous(direct, total)
            &&& info.indexed ==> indexed_ranges_contiguous(indexed, total)
            &&& (forall|i: int| 0 <= i < n && (#[trigger] chunks[i]).lod == kind && chunks[i].data is Some
                ==> chunks[i].data->0@.len() <= u32::MAX) ==> inst.len() == total
            &&& forall|k: int| 0 <= k < indexed.len() ==> {
                &&& (#[trigger] indexed[k]).index_count == info.index_count
                &&& indexed[k].first_index == info.first_index
                &&& indexed[k].base_vertex == info.base_vertex
            }
            &&& forall|k: int| 0 <= k < direct.len() ==> {
                &&& (#[trigger] direct[k]).vertex_count == info.vertex_count
                &&& direct[k].first_vertex == info.first_vertex
            }
        }),
    decreases n,
{
    if n > 0 {
        lemma_lod_batch_total_grows(chunks, n - 1, n, kind, info);
        lemma_lod_commands_tile_instances(chunks, n - 1, kind, info);
        let (total, inst, direct, indexed) = lod_batch(chunks, n - 1, kind, info);
        let (total2, inst2, direct2, indexed2) = lod_batch(chunks, n, kind, info);
        if forall|i: int| 0 <= i < n && (#[trigger] chunks[i]).lod == kind && chunks[i].data is Some
            ==> chunks[i].data->0@.len() <= u32::MAX {
            assert(forall|i: int| 0 <= i < n - 1 && (#[trigger] chunks[i]).lod == kind && chunks[i].data is Some
                ==> chunks[i].data->0@.len() <= u32::MAX);
            assert(inst.len() == total);
            if chunk_drawn(chunks[n - 1], kind) {
                let len: nat = chunks[n - 1].data->0@.len();
                assert(len <= u32::MAX);
                assert(chunk_instance_count(chunks[n - 1]) == len);
                assert(inst2.len() == total2);
            }
        }
        if chunk_drawn(chunks[n - 1], kind) {
            if info.indexed {
                assert forall|k: int| 0 <= k < indexed2.len() - 1 implies
                    #[trigger] indexed2[k + 1].first_instance == indexed2[k].first_instance + indexed2[k].instance_count by {
                    if k < indexed.len() - 1 {
                        assert(indexed2[k + 1] == indexed[k + 1]);
                        assert(indexed2[k] == indexed[k]);
                    }
                }
            } else {
                assert forall|k: int| 0 <= k < direct2.len() - 1 implies
                    #[trigger] direct2[k + 1].first_instance == direct2[k].first_instance + direct2[k].instance_count by {
                    if k < direct.len() - 1 {
                        assert(direct2[k + 1] == direct[k + 1]);
                        assert(direct2[k] == direct[k]);
                    }
                }
            }
        }
    }
}

/// The result of the first `n` chunks for level `kind`: the instance count so
/// far, the instances, the non-indexed commands and the indexed commands.
pub open spec fn lod_batch<T>(
    chunks: Seq<LodChunk<'_, T>>,
    n: int,
    kind: GrassLOD,
    info: LodMeshInfo,
) -> (int, Seq<T>, Seq<DrawIndirectCommand>, Seq<DrawIndexedIndirectCommand>)
    decreases n,
{
    if n <= 0 {
        (0, Seq::empty(), Seq::empty(), Seq::empty())
    } else {
        let (total, inst, direct, indexed) = lod_batch(chunks, n - 1, kind, info);
        let c = chunks[n - 1];
        if !chunk_drawn(c, kind) {
            (total, inst, direct, indexed)
        } else {
            let count: u32 = chunk_instance_count(c);
            if info.indexed {
                (total + count, inst + c.data->0@, direct, indexed.push(DrawIndexedIndirectCommand {
                    index_count: info.index_count,
                    instance_count: count,
                    first_index: info.first_index,
                    base_vertex: info.base_vertex,
                    first_instance: total as u32,
                }))
            } else {
                (total + count, inst + c.data->0@, direct.push(DrawIndirectCommand {
                    vertex_count: info.vertex_count,
                    instance_count: count,
                    first_vertex: info.first_vertex,
                    first_instance: total as u32,
                }), indexed)
            }
        }
    }
}

proof fn lemma_lod_batch_total_grows<T>(chunks: Seq<LodChunk<'_, T>>, n: int, m: int, kind: GrassLOD, info: LodMeshInfo)
    requires
        0 <= n <= m <= chunks.len(),
    ensures
        0 <= lod_batch(chunks, n, kind, info).0 <= lod_batch(chunks, m, kind, info).0,
    decreases m,
{
    if m > 0 {
        if n < m {
            lemma_lod_batch_total_grows(chunks, n, m - 1, kind, info);
        } else {
            lemma_lod_batch_total_grows(chunks, m - 1, m - 1, kind, info);
        }
    }
}

/// The first instance of the `k`-th command of a level of detail.
pub open spec fn command_first_instance(
    info: LodMeshInfo,
    direct: Seq<DrawIndirectCommand>,
    indexed: Seq<DrawIndexedIndirectCommand>,
    k: int,
) -> u32 {
    if info.indexed { indexed[k].first_instance } else { direct[k].first_instance }
}

/// Each chunk that gets a command places its own instances, unchanged, in the
/// gathered list at the range that its command draws: when no chunk of that
/// level holds more than `u32::MAX` instances, the chunk that is the `k`-th
/// to get a command has its instances at `first_instance .. first_instance +
/// its length`, where `first_instance` is that of the `k`-th command.
pub proof fn lemma_lod_commands_place_instances<T>(
    chunks: Seq<LodChunk<'_, T>>,
    n: int,
    kind: GrassLOD,
    info: LodMeshInfo,
)
    requires
        0 <= n <= chunks.len(),
        lod_batch(chunks, n, kind, info).0 <= u32::MAX,
        forall|i: int| 0 <= i < n && (#[trigger] chunks[i]).lod == kind && chunks[i].data is Some
            ==> chunks[i].data->0@.len() <= u32::MAX,
    ensures
        ({
            let (total, inst, direct, indexed) = lod_batch(chunks, n, kind, info);
            forall|i: int| 0 <= i < n && chunk_drawn(#[trigger] chunks[i], kind) ==> {
                let k = drawn_chunk_count(chunks, i, kind) as int;
                let f = command_first_instance(info, direct, indexed, k) as int;
                let d = chunks[i].data->0@;
                &&& 0 <= k < (if info.indexed { indexed.len() } else { direct.len() })
                &&& f + d.len() <= inst.len()
                &&& inst.subrange(f, f + d.len()) == d
            }
        }),
    decreases n,
{
    if n > 0 {
        lemma_lod_batch_total_grows(chunks, n - 1, n, kind, info);
        lemma_lod_commands_tile_instances(chunks, n - 1, kind, info);
        lemma_lod_commands_tile_instances(chunks, n, kind, info);
        lemma_lod_commands_place_instances(chunks, n - 1, kind, info);
        let (total, inst, direct, indexed) = lod_batch(chunks, n - 1, kind, info);
        let (total2, inst2, direct2, indexed2) = lod_batch(chunks, n, kind, info);
        assert(inst.len() == total);
        assert forall|i: int| 0 <= i < n && chunk_drawn(#[trigger] chunks[i], kind) implies {
            let k = drawn_chunk_count(chunks, i, kind) as int;
            let f = command_first_instance(info, direct2, indexed2, k) as int;
            let d = chunks[i].data->0@;
            &&& 0 <= k < (if info.indexed { indexed2.len() } else { direct2.len() })
            &&& f + d.len() <= inst2.len()
            &&& inst2.subrange(f, f + d.len()) == d
        } by {
            let k = drawn_chunk_count(chunks, i, kind) as int;
            let d = chunks[i].data->0@;
            if i < n - 1 {
                let f = command_first_instance(info, direct, indexed, k) as int;
                assert(command_first_instance(info, direct2, indexed2, k) == command_first_instance(info, direct, indexed, k));
                assert(inst2.subrange(f, f + d.len()) =~= inst.subrange(f, f + d.len()));
            } else {
                assert(d.len() <= u32::MAX);
                assert(chunk_instance_count(chunks[i]) == d.len());
                assert(command_first_instance(info, direct2, indexed2, k) == total);
                assert(inst2.subrange(total, total + d.len()) =~= d);
            }
        }
    }
}

fn append_all<T: Copy>(dst: &mut Vec<T>, src: &Vec<T>)
    ensures
        final(dst)@ == old(dst)@ + src@,
{
    let ghost start = dst@;
    let mut i: usize = 0;
    while i < src.len()
        invariant
            i <= src.len(),
            dst@ == start + src@.subrange(0, i as int),
        decreases src.len() - i,
    {
        dst.push(src[i]);
        i = i + 1;
        assert(dst@ =~= start + src@.subrange(0, i as int));
    }
    assert(src@.subrange(0, src.len() as int) =~= src@);
}

/// Gathers the instances of every chunk of level `kind` into one list, with
/// one indirect draw per chunk whose instances start where the previous
/// chunk's ended. Chunks of another level, without a buffer, or with no
/// instances get no command. The commands are indexed exactly when the mesh is.
pub fn create_lod_draw_commands<T: Copy>(
    chunks: &Vec<LodChunk<'_, T>>,
    lod_kind: GrassLOD,
    mesh_info: LodMeshInfo,
) -> (res: LodDrawCommands<T>)
    requires
        lod_batch(chunks@, chunks.len() as int, lod_kind, mesh_info).0 <= u32::MAX,
    ensures
        ({
            let (_, inst, direct, indexed) = lod_batch(chunks@, chunks.len() as int, lod_kind, mesh_info);
            &&& res.instances@ == inst
            &&& res.direct@ == direct
            &&& res.indexed@ == indexed
        }),
        mesh_info.indexed ==> res.direct@.len() == 0 && res.indexed@.len() == drawn_chunk_count(chunks@, chunks.len() as int, lod_kind),
        !mesh_info.indexed ==> res.indexed@.len() == 0 && res.direct@.len() == drawn_chunk_count(chunks@, chunks.len() as int, lod_kind),
        forall|k: int| 0 <= k < res.indexed@.len() ==> {
            &&& (#[trigger] res.indexed@[k]).index_count == mesh_info.index_count
            &&& res.indexed@[k].first_index == mesh_info.first_index
            &&& res.indexed@[k].base_vertex == mesh_info.base_vertex
        },
        forall|k: int| 0 <= k < res.direct@.len() ==> {
            &&& (#[trigger] res.direct@[k]).vertex_count == mesh_info.vertex_count
            &&& res.direct@[k].first_vertex == mesh_info.first_vertex
        },
        !mesh_info.indexed ==> direct_ranges_contiguous(res.direct@, lod_batch(chunks@, chunks.len() as int, lod_kind, mesh_info).0),
        mesh_info.indexed ==> indexed_ranges_contiguous(res.indexed@, lod_batch(chunks@, chunks.len() as int, lod_kind, mesh_info).0),
{
    proof {
        lemma_lod_commands_tile_instances(chunks@, chunks.len() as int, lod_kind, mesh_info);
    }
    let mut instances: Vec<T> = Vec::new();
    let mut direct_cmds: Vec<DrawIndirectCommand> = Vec::new();
    let mut indexed_cmds: Vec<DrawIndexedIndirectCommand> = Vec::new();
    let mut first_instance: u32 = 0;
    let mut i: usize = 0;
    while i < chunks.len()
        invariant
            i <= chunks.len(),
            lod_batch(chunks@, chunks.len() as int, lod_kind, mesh_info).0 <= u32::MAX,
            ({
                let (total, inst, direct, indexed) = lod_batch(chunks@, i as int, lod_kind, mesh_info);
                &&& first_instance == total
                &&& instances@ == inst
                &&& direct_cmds@ == direct
                &&& indexed_cmds@ == indexed
            }),
        decreases chunks.len() - i,
    {
        proof {
            lemma_lod_batch_total_grows(chunks@, i + 1, chunks.len() as int, lod_kind, mesh_info);
        }
        let c = &chunks[i];
        if c.lod == lod_kind {
            match c.data {
                None => {},
                Some(data) => {
                    let instance_count: u32 = data.len() as u32;
                    if instance_count != 0 {
                        if mesh_info.indexed {
                            indexed_cmds.push(DrawIndexedIndirectCommand {
                                index_count: mesh_info.index_count,
                                instance_count,
                                first_index: mesh_info.first_index,
                                base_vertex: mesh_info.base_vertex,
                                first_instance,
                            });
                        } else {
                            direct_cmds.push(DrawIndirectCommand {
                                vertex_count: mesh_info.vertex_count,
                                instance_count,
                                first_vertex: mesh_info.first_vertex,
                                first_instance,
                            });
                        }
                        append_all(&mut instances, data);
                        first_instance = first_instance + instance_count;
                    }
                },
            }
        }
        i = i + 1;
    }
    LodDrawCommands { instances, direct: direct_cmds, indexed: indexed_cmds }
}

/// What to do with a grass entity's indirect draw buffers this frame.
#[derive(Clone, Copy, Debug, PartialEq, Eq, Structural)]
pub enum IndirectBuffersAction {
    /// Drop the entity's indirect buffers.
    Remove,
    /// Leave the entity as it is.
    Skip,
    /// Look up the entity's meshes and build (or keep) its indirect buffers.
    Prepare,
}

/// Decides what happens to an entity's indirect buffers before any mesh is
/// looked up. When indirect drawing is off, or the device cannot draw indirectly
/// from a first instance, or the entity has no chunks to render, buffers that
/// exist are dropped and nothing is built; otherwise the entity is prepared.
pub fn indirect_buffers_action(
    enabled: bool,
    first_instance_supported: bool,
    has_chunks: bool,
    has_buffers: bool,
) -> (res: IndirectBuffersAction)
    ensures
        res == if enabled && first_instance_supported && has_chunks {
            IndirectBuffersAction::Prepare
        } else if has_buffers {
            IndirectBuffersAction::Remove
        } else {
            IndirectBuffersAction::Skip
        },
{
    if enabled && first_instance_supported && has_chunks {
        IndirectBuffersAction::Prepare
    } else if has_buffers {
        IndirectBuffersAction::Remove
    } else {
        IndirectBuffersAction::Skip
    }
}

/// Whether an entity's indirect buffers must be built: unless the buffers it
/// has were built for the same chunk list and meshes (the same signature).
pub fn indirect_buffers_stale(existing_signature: Option<u64>, signature: u64) -> (res: bool)
    ensures
        res == !(existing_signature == Some(signature)),
{
    match existing_signature {
        Some(s) => s != signature,
        None => true,
    }
}

/// What to do with a uniform buffer that mirrors some settings.
#[derive(Clone, Copy, Debug, PartialEq, Eq, Structural)]
pub enum UniformBufferUpdate {
    /// The buffer already holds the current settings.
    Skip,
    /// Write the current settings into the existing buffer.
    Write,
    /// Create a buffer that holds the current settings.
    Create,
}

/// Decides how a uniform buffer catches up with its settings: nothing when the
/// settings it was last filled from are the current ones, a write when the
/// buffer exists, else a new buffer.
pub fn uniform_buffer_update(up_to_date: bool, has_buffer: bool) -> (res: UniformBufferUpdate)
    ensures
        res == if up_to_date {
            UniformBufferUpdate::Skip
        } else if has_buffer {
            UniformBufferUpdate::Write
        } else {
            UniformBufferUpdate::Create
        },
{
    if up_to_date {
        UniformBufferUpdate::Skip
    } else if has_buffer {
        UniformBufferUpdate::Write
    } else {
        UniformBufferUpdate::Create
    }
}

/// Whether a wind bind group must be made: unless one exists and was made for
/// the same wind map, with the same choice between that map's texture and the
/// fallback texture.
pub fn wind_bind_group_stale(has_bind_group: bool, same_wind_map: bool, same_fallback: bool) -> (res: bool)
    ensures
        res == !(has_bind_group && same_wind_map && same_fallback),
{
    !(has_bind_group && same_wind_map && same_fallback)
}

} // verus!
