//! Chunk levels of detail and the per-frame culling plan.
use vstd::prelude::*;

verus! {

/// The level of detail with which a chunk of grass is drawn.
#[derive(Clone, Copy, Debug, PartialEq, Eq, Hash, Structural)]
pub enum GrassLOD {
    High,
    Low,
}

/// Whether chunks are culled by their horizontal (`D2`) or full (`D3`) distance
/// to the camera.
#[derive(Clone, Copy, Debug, PartialEq, Eq, Structural)]
pub enum CullDimension {
    D2,
    D3,
}

impl Default for CullDimension {
    /// Chunks are culled by horizontal distance unless asked otherwise.
    fn default() -> (res: Self)
        ensures
            res == CullDimension::D2,
    {
        CullDimension::D2
    }
}

/// Where a chunk stands relative to the camera this frame.
#[derive(Clone, Copy, Debug, PartialEq, Eq, Structural)]
pub enum ChunkRange {
    /// Farther than the cull distance (by the chunk's cull dimension).
    Culled,
    /// Within the cull distance and within the level-of-detail distance.
    Near,
    /// Within the cull distance but beyond the level-of-detail distance.
    Far,
}

/// One chunk to render: its position among the grass entity's chunks and its
/// level of detail.
#[derive(Clone, Copy, Debug, PartialEq, Eq, Structural)]
pub struct ChunkRender {
    pub lod: GrassLOD,
    pub chunk: usize,
}

/// The culling result for one grass entity: the chunks to render, in chunk
/// order, and the chunks whose loaded data is released (before the chunks to
/// render are loaded).
pub struct ChunkRenderPlan {
    pub render: Vec<ChunkRender>,
    pub unload: Vec<usize>,
}

/// Every chunk among the first `n`, at high detail.
pub open spec fn all_high(n: int) -> Seq<ChunkRender>
    decreases n,
{
    if n <= 0 {
        Seq::empty()
    } else {
        all_high(n - 1).push(ChunkRender { lod: GrassLOD::High, chunk: (n - 1) as usize })
    }
}

/// The chunks among the first `n` that are not culled, with the level of detail
/// their range gives.
pub open spec fn visible_chunks(ranges: Seq<ChunkRange>, n: int) -> Seq<ChunkRender>
    decreases n,
{
    if n <= 0 {
        Seq::empty()
    } else {
        let prev = visible_chunks(ranges, n - 1);
        match ranges[n - 1] {
            ChunkRange::Culled => prev,
            ChunkRange::Near => prev.push(ChunkRender { lod: GrassLOD::High, chunk: (n - 1) as usize }),
            ChunkRange::Far => prev.push(ChunkRender { lod: GrassLOD::Low, chunk: (n - 1) as usize }),
        }
    }
}

/// The chunks among the first `n` that are culled.
pub open spec fn culled_chunks(ranges: Seq<ChunkRange>, n: int) -> Seq<usize>
    decreases n,
{
    if n <= 0 {
        Seq::empty()
    } else {
        let prev = culled_chunks(ranges, n - 1);
        if ranges[n - 1] is Culled {
            prev.push((n - 1) as usize)
        } else {
            prev
        }
    }
}

/// The chunks to render: all at high detail without a camera; with one, those
/// not culled, or all at high detail again when every chunk is culled.
pub open spec fn render_chunks(chunk_count: int, ranges: Option<Seq<ChunkRange>>) -> Seq<ChunkRender> {
    match ranges {
        None => all_high(chunk_count),
        Some(r) => {
            let visible = visible_chunks(r, chunk_count);
            if visible.len() == 0 {
                all_high(chunk_count)
            } else {
                visible
            }
        },
    }
}

/// The chunks whose loaded data is released: the culled ones, when there is a camera.
pub open spec fn unload_chunks(chunk_count: int, ranges: Option<Seq<ChunkRange>>) -> Seq<usize> {
    match ranges {
        None => Seq::empty(),
        Some(r) => culled_chunks(r, chunk_count),
    }
}

/// Plans which of a grass entity's `chunk_count` chunks are rendered this frame
/// and at which level of detail. `ranges` holds each chunk's range from the
/// camera, or is `None` when there is no 3D camera.
pub fn plan_chunk_render(chunk_count: usize, ranges: Option<&Vec<ChunkRange>>) -> (res: ChunkRenderPlan)
    requires
        ranges matches Some(r) ==> r.len() == chunk_count,
    ensures
        res.render@ == render_chunks(chunk_count as int, match ranges { Some(r) => Some(r@), None => None }),
        res.unload@ == unload_chunks(chunk_count as int, match ranges { Some(r) => Some(r@), None => None }),
{
    let mut unload: Vec<usize> = Vec::new();
    match ranges {
        None => ChunkRenderPlan { render: high_chunks(chunk_count), unload },
        Some(r) => {
            let mut render: Vec<ChunkRender> = Vec::new();
            let mut i: usize = 0;
            while i < chunk_count
                invariant
                    i <= chunk_count,
                    r.len() == chunk_count,
                    render@ == visible_chunks(r@, i as int),
                    unload@ == culled_chunks(r@, i as int),
                decreases chunk_count - i,
            {
                match r[i] {
                    ChunkRange::Culled => unload.push(i),
                    ChunkRange::Near => render.push(ChunkRender { lod: GrassLOD::High, chunk: i }),
                    ChunkRange::Far => render.push(ChunkRender { lod: GrassLOD::Low, chunk: i }),
                }
                i = i + 1;
            }
            if render.len() == 0 {
                render = high_chunks(chunk_count);
            }
            ChunkRenderPlan { render, unload }
        },
    }
}

/// The level of detail a chunk in range is drawn with.
pub open spec fn range_lod(r: ChunkRange) -> GrassLOD {
    if r is Near { GrassLOD::High } else { GrassLOD::Low }
}

proof fn lemma_all_high(n: int)
    requires
        0 <= n <= usize::MAX,
    ensures
        all_high(n).len() == n,
        forall|k: int| 0 <= k < n ==> #[trigger] all_high(n)[k] == (ChunkRender { lod: GrassLOD::High, chunk: k as usize }),
    decreases n,
{
    if n > 0 {
        lemma_all_high(n - 1);
    }
}

proof fn lemma_visible(ranges: Seq<ChunkRange>, n: int)
    requires
        0 <= n <= ranges.len(),
        n <= usize::MAX,
    ensures
        ({
            let v = visible_chunks(ranges, n);
            &&& forall|k: int| 0 <= k < v.len() ==> {
                &&& 0 <= #[trigger] v[k].chunk < n
                &&& !(ranges[v[k].chunk as int] is Culled)
                &&& v[k].lod == range_lod(ranges[v[k].chunk as int])
            }
            &&& forall|k: int, m: int| 0 <= k < m < v.len() ==> #[trigger] v[k].chunk < #[trigger] v[m].chunk
            &&& forall|i: int| 0 <= i < n && !(ranges[i] is Culled)
                ==> exists|k: int| 0 <= k < v.len() && (#[trigger] v[k]).chunk == i
            &&& (v.len() == 0 <==> forall|i: int| 0 <= i < n ==> (#[trigger] ranges[i]) is Culled)
        }),
    decreases n,
{
    if n > 0 {
        lemma_visible(ranges, n - 1);
        let prev = visible_chunks(ranges, n - 1);
        let v = visible_chunks(ranges, n);
        if !(ranges[n - 1] is Culled) {
            assert(v[prev.len() as int].chunk == n - 1);
            assert forall|i: int| 0 <= i < n && !(ranges[i] is Culled)
                implies exists|k: int| 0 <= k < v.len() && (#[trigger] v[k]).chunk == i by {
                if i < n - 1 {
                    let k = choose|k: int| 0 <= k < prev.len() && (#[trigger] prev[k]).chunk == i;
                    assert(v[k] == prev[k]);
                } else {
                    assert(v[prev.len() as int].chunk == i);
                }
            }
        }
    }
}

proof fn lemma_culled(ranges: Seq<ChunkRange>, n: int)
    requires
        0 <= n <= ranges.len(),
        n <= usize::MAX,
    ensures
        ({
            let u = culled_chunks(ranges, n);
            &&& forall|k: int| 0 <= k < u.len() ==> 0 <= #[trigger] u[k] < n && ranges[u[k] as int] is Culled
            &&& forall|k: int, m: int| 0 <= k < m < u.len() ==> #[trigger] u[k] < #[trigger] u[m]
            &&& forall|i: int| 0 <= i < n && ranges[i] is Culled
                ==> exists|k: int| 0 <= k < u.len() && #[trigger] u[k] == i
        }),
    decreases n,
{
    if n > 0 {
        lemma_culled(ranges, n - 1);
        let prev = culled_chunks(ranges, n - 1);
        let u = culled_chunks(ranges, n);
        if ranges[n - 1] is Culled {
            assert(u[prev.len() as int] == n - 1);
            assert forall|i: int| 0 <= i < n && ranges[i] is Culled
                implies exists|k: int| 0 <= k < u.len() && #[trigger] u[k] == i by {
                if i < n - 1 {
                    let k = choose|k: int| 0 <= k < prev.len() && #[trigger] prev[k] == i;
                    assert(u[k] == prev[k]);
                } else {
                    assert(u[prev.len() as int] == i);
                }
            }
        }
    }
}

/// What a culling plan promises. Chunks are rendered in chunk order, each at
/// most once, and some chunk is rendered whenever there is one. Without a camera
/// every chunk is rendered at high detail and none is released. With a camera,
/// the culled chunks are released; when some chunk is not culled, exactly the
/// chunks not culled are rendered, near ones at high and far ones at low
/// detail; when every chunk is culled, every chunk is rendered at high detail.
pub proof fn lemma_chunk_render_plan(chunk_count: int, ranges: Option<Seq<ChunkRange>>)
    requires
        0 <= chunk_count <= usize::MAX,
        ranges matches Some(r) ==> r.len() == chunk_count,
    ensures
        ({
            let render = render_chunks(chunk_count, ranges);
            let unload = unload_chunks(chunk_count, ranges);
            &&& (render.len() > 0 <==> chunk_count > 0)
            &&& forall|k: int| 0 <= k < render.len() ==> 0 <= (#[trigger] render[k]).chunk < chunk_count
            &&& forall|k: int, m: int| 0 <= k < m < render.len() ==> #[trigger] render[k].chunk < #[trigger] render[m].chunk
            &&& ranges is None ==> render == all_high(chunk_count) && unload.len() == 0
            &&& render == all_high(chunk_count) ==> forall|k: int| 0 <= k < render.len()
                ==> #[trigger] render[k] == (ChunkRender { lod: GrassLOD::High, chunk: k as usize })
            &&& ranges matches Some(r) ==> {
                &&& forall|k: int| 0 <= k < unload.len() ==> 0 <= #[trigger] unload[k] < chunk_count && r[unload[k] as int] is Culled
                &&& forall|i: int| 0 <= i < chunk_count && r[i] is Culled
                    ==> exists|k: int| 0 <= k < unload.len() && #[trigger] unload[k] == i
                &&& (exists|i: int| 0 <= i < chunk_count && !(#[trigger] r[i] is Culled)) ==> {
                    &&& forall|k: int| 0 <= k < render.len() ==> !(r[(#[trigger] render[k]).chunk as int] is Culled)
                        && render[k].lod == (if r[render[k].chunk as int] is Near { GrassLOD::High } else { GrassLOD::Low })
                    &&& forall|i: int| 0 <= i < chunk_count && !(r[i] is Culled)
                        ==> exists|k: int| 0 <= k < render.len() && (#[trigger] render[k]).chunk == i
                }
                &&& (forall|i: int| 0 <= i < chunk_count ==> (#[trigger] r[i]) is Culled) ==> render == all_high(chunk_count)
            }
        }),
{
    lemma_all_high(chunk_count);
    match ranges {
        None => {},
        Some(r) => {
            lemma_visible(r, chunk_count);
            lemma_culled(r, chunk_count);
            let v = visible_chunks(r, chunk_count);
            if exists|i: int| 0 <= i < chunk_count && !(#[trigger] r[i] is Culled) {
                let i = choose|i: int| 0 <= i < chunk_count && !(#[trigger] r[i] is Culled);
                assert(v.len() > 0);
            }
        },
    }
}

fn high_chunks(n: usize) -> (res: Vec<ChunkRender>)
    ensures
        res@ == all_high(n as int),
{
    let mut res: Vec<ChunkRender> = Vec::new();
    let mut i: usize = 0;
    while i < n
        invariant
            i <= n,
            res@ == all_high(i as int),
        decreases n - i,
    {
        res.push(ChunkRender { lod: GrassLOD::High, chunk: i });
        i = i + 1;
    }
    res
}

} // verus!
