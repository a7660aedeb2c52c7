//! The triangles over which grass blades are scattered.
use vstd::prelude::*;

verus! {

/// The triangles of a mesh: consecutive triples of its index list (a trailing
/// partial triple is dropped), or of its vertices when it has no index list.
pub open spec fn spec_mesh_triangles(indices: Option<Seq<usize>>, vertex_count: int) -> Seq<(usize, usize, usize)> {
    match indices {
        Some(idx) => Seq::new((idx.len() / 3) as nat, |k: int| (idx[3 * k], idx[3 * k + 1], idx[3 * k + 2])),
        None => Seq::new((vertex_count / 3) as nat, |k: int| ((3 * k) as usize, (3 * k + 1) as usize, (3 * k + 2) as usize)),
    }
}

/// Groups a mesh's vertex references into triangles: the index list taken
/// three at a time, or, without one, the vertices taken three at a time.
pub fn mesh_triangles(indices: Option<&Vec<usize>>, vertex_count: usize) -> (res: Vec<(usize, usize, usize)>)
    ensures
        res@ == spec_mesh_triangles(match indices { Some(v) => Some(v@), None => None }, vertex_count as int),
        indices matches Some(v) ==> {
            &&& res@.len() == v@.len() / 3
            &&& forall|k: int| 0 <= k < res@.len() ==> #[trigger] res@[k] == (v@[3 * k], v@[3 * k + 1], v@[3 * k + 2])
        },
        indices is None ==> {
            &&& res@.len() == vertex_count / 3
            &&& forall|k: int| 0 <= k < res@.len()
                ==> #[trigger] res@[k] == ((3 * k) as usize, (3 * k + 1) as usize, (3 * k + 2) as usize)
        },
{
    let mut res: Vec<(usize, usize, usize)> = Vec::new();
    match indices {
        Some(idx) => {
            let count: usize = idx.len() / 3;
            let mut t: usize = 0;
            while t < count
                invariant
                    count == idx.len() / 3,
                    t <= count,
                    res@ =~= spec_mesh_triangles(Some(idx@), vertex_count as int).subrange(0, t as int),
                decreases count - t,
            {
                let base: usize = 3 * t;
                res.push((idx[base], idx[base + 1], idx[base + 2]));
                t = t + 1;
            }
        },
        None => {
            let count: usize = vertex_count / 3;
            let mut t: usize = 0;
            while t < count
                invariant
                    count == vertex_count / 3,
                    t <= count,
                    res@ =~= spec_mesh_triangles(None, vertex_count as int).subrange(0, t as int),
                decreases count - t,
            {
                let base: usize = 3 * t;
                res.push((base, base + 1, base + 2));
                t = t + 1;
            }
        },
    }
    res
}

} // verus!
