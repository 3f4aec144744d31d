use vstd::prelude::*;

verus! {

/// Hands out identifiers in increasing order, starting at zero.
pub struct IdSpawner {
    next_id: usize,
}

impl View for IdSpawner {
    type V = nat;

    /// The identifier that the next call of `get` hands out.
    closed spec fn view(&self) -> nat {
        self.next_id as nat
    }
}

impl IdSpawner {
    pub fn new() -> (spawner: Self)
        ensures
            spawner@ == 0,
    {
        Self { next_id: 0 }
    }

    /// Returns the next identifier and advances the spawner.
    pub fn get(&mut self) -> (id: usize)
        requires
            old(self)@ < usize::MAX,
        ensures
            id == old(self)@,
            final(self)@ == old(self)@ + 1,
    {
        let to_return: usize = self.next_id;
        self.next_id = self.next_id + 1;
        to_return
    }
}

/// A new spawner hands out 0, 1, 2, ... in that order, so no identifier is
/// handed out twice: given the views `views[k]` before each of a run of
/// calls of `get` on a new spawner and the identifiers `ids[k]` they
/// returned, the `k`-th identifier is `k`.
pub proof fn lemma_ids_in_order(views: Seq<nat>, ids: Seq<usize>)
    requires
        views.len() == ids.len() + 1,
        views[0] == 0,
        forall|k: int| 0 <= k < ids.len() ==> #[trigger] ids[k] == views[k] && views[k + 1] == views[k] + 1,
    ensures
        forall|k: int| 0 <= k < ids.len() ==> #[trigger] ids[k] == k,
        forall|k1: int, k2: int| 0 <= k1 < ids.len() && 0 <= k2 < ids.len() && k1 != k2 ==> ids[k1] != ids[k2],
    decreases ids.len(),
{
    if ids.len() > 0 {
        let n = ids.len() - 1;
        lemma_ids_in_order(views.drop_last(), ids.drop_last());
        assert forall|k: int| 0 <= k < ids.len() implies #[trigger] ids[k] == k by {
            if k < n {
                assert(ids.drop_last()[k] == ids[k]);
            } else {
                assert(ids.drop_last().len() == n);
                if n > 0 {
                    assert(ids.drop_last()[n - 1] == n - 1);
                    assert(ids[n - 1] == n - 1);
                }
            }
        }
    }
}

} // verus!
