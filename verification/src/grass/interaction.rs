//! Which grass interactors get a slot in the fixed-size interaction uniform.
use vstd::prelude::*;

verus! {

/// The number of interactor slots in the interaction uniform.
pub const MAX_GRASS_INTERACTORS: usize = 32;

/// The interactors among the first `n` that get a slot: in order, those that
/// push the grass (`active`), until every slot is taken.
pub open spec fn selected_interactors(active: Seq<bool>, n: int) -> Seq<usize>
    decreases n,
{
    if n <= 0 {
        Seq::empty()
    } else {
        let prev = selected_interactors(active, n - 1);
        if prev.len() >= MAX_GRASS_INTERACTORS || !active[n - 1] {
            prev
        } else {
            prev.push((n - 1) as usize)
        }
    }
}

/// The interactors that fill the uniform's slots, in slot order: walking the
/// interactors in order, each one that pushes the grass (`active[i]`) takes the
/// next slot, until all `MAX_GRASS_INTERACTORS` slots are taken. The uniform's
/// count is the length of the result; later slots are cleared.
pub fn select_interactor_slots(active: &Vec<bool>) -> (res: Vec<usize>)
    ensures
        res@ == selected_interactors(active@, active.len() as int),
        res.len() <= MAX_GRASS_INTERACTORS,
{
    let mut res: Vec<usize> = Vec::new();
    let mut i: usize = 0;
    while i < active.len()
        invariant
            i <= active.len(),
            res@ == selected_interactors(active@, i as int),
            res.len() <= MAX_GRASS_INTERACTORS,
        decreases active.len() - i,
    {
        if res.len() >= MAX_GRASS_INTERACTORS {
            proof {
                lemma_selection_full(active@, i as int, active.len() as int);
            }
            return res;
        }
        if active[i] {
            res.push(i);
        }
        i = i + 1;
    }
    res
}

proof fn lemma_selection_full(active: Seq<bool>, n: int, m: int)
    requires
        0 <= n <= m,
        selected_interactors(active, n).len() >= MAX_GRASS_INTERACTORS,
    ensures
        selected_interactors(active, m) == selected_interactors(active, n),
    decreases m - n,
{
    if n < m {
        lemma_selection_full(active, n, m - 1);
    }
}

/// The slots hold at most `MAX_GRASS_INTERACTORS` interactors, each one
/// active, in increasing order, and they are exactly the active interactors
/// that come first: an active interactor is left out only when every slot is
/// taken by active interactors before it.
pub proof fn lemma_selected_interactors(active: Seq<bool>, n: int)
    requires
        0 <= n <= active.len(),
        n <= usize::MAX,
    ensures
        ({
            let s = selected_interactors(active, n);
            &&& s.len() <= MAX_GRASS_INTERACTORS
            &&& forall|k: int| 0 <= k < s.len() ==> 0 <= #[trigger] s[k] < n && active[s[k] as int]
            &&& forall|k: int, m: int| 0 <= k < m < s.len() ==> #[trigger] s[k] < #[trigger] s[m]
            &&& forall|i: int| 0 <= i < n && active[i] && !(exists|k: int| 0 <= k < s.len() && #[trigger] s[k] == i)
                ==> s.len() == MAX_GRASS_INTERACTORS && s.last() < i
        }),
    decreases n,
{
    if n > 0 {
        lemma_selected_interactors(active, n - 1);
        let prev = selected_interactors(active, n - 1);
        let s = selected_interactors(active, n);
        assert forall|i: int| 0 <= i < n && active[i] && !(exists|k: int| 0 <= k < s.len() && #[trigger] s[k] == i)
            implies s.len() == MAX_GRASS_INTERACTORS && s.last() < i by {
            if i < n - 1 {
                if exists|k: int| 0 <= k < prev.len() && #[trigger] prev[k] == i {
                    let k = choose|k: int| 0 <= k < prev.len() && #[trigger] prev[k] == i;
                    assert(s[k] == prev[k]);
                }
            } else if !(prev.len() >= MAX_GRASS_INTERACTORS) {
                assert(s[prev.len() as int] == i);
            }
        }
    }
}

} // verus!
