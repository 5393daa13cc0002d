//! A counter of nesting depth, used to follow how deep queries recurse.

use vstd::prelude::*;

verus! {

/// Counts how deep a recursive computation currently is. It counts in
/// every build, release builds included.
pub struct DebugDepthCount {
    depth: usize,
}

impl View for DebugDepthCount {
    type V = nat;

    closed spec fn view(&self) -> nat {
        self.depth as nat
    }
}

impl DebugDepthCount {
    /// A counter at depth zero.
    pub fn new() -> (r: DebugDepthCount)
        ensures
            r@ == 0,
    {
        DebugDepthCount { depth: 0 }
    }

    /// The current depth.
    pub fn get(&self) -> (r: usize)
        ensures
            r == self@,
    {
        self.depth
    }

    /// Enters one more level.
    pub fn inc(&mut self)
        requires
            old(self)@ < usize::MAX,
        ensures
            final(self)@ == old(self)@ + 1,
    {
        self.depth = self.depth + 1;
    }

    /// Leaves one level.
    pub fn dec(&mut self)
        requires
            old(self)@ > 0,
        ensures
            final(self)@ == old(self)@ - 1,
    {
        self.depth = self.depth - 1;
    }
}

/// Entering a level and leaving it again restores the depth: a counter
/// that `inc` took from `before` to `entered`, and `dec` from `entered` to
/// `after`, is back at the depth of `before`.
pub proof fn law_inc_dec_restores(before: DebugDepthCount, entered: DebugDepthCount, after: DebugDepthCount)
    requires
        entered@ == before@ + 1,
        after@ == entered@ - 1,
    ensures
        after@ == before@,
{
}

/// The net depth that the steps `steps` reach from zero, each `true` step
/// entering a level and each `false` step leaving one.
pub open spec fn net_depth(steps: Seq<bool>) -> int
    decreases steps.len(),
{
    if steps.len() == 0 {
        0
    } else {
        net_depth(steps.drop_last()) + if steps.last() { 1int } else { -1int }
    }
}

/// A counter taken from a new one through a sequence of `inc` and `dec`
/// calls stands at the number of `inc` calls less the number of `dec`
/// calls: `counters[k]` is the counter before step `k`, `steps[k]` whether
/// that step is an `inc`, and each step changes the depth as `inc` and
/// `dec` do.
pub proof fn law_depth_counts_steps(counters: Seq<DebugDepthCount>, steps: Seq<bool>)
    requires
        counters.len() == steps.len() + 1,
        counters[0]@ == 0,
        forall|k: int| 0 <= k < steps.len() ==> #[trigger] counters[k + 1]@ == counters[k]@ + if steps[k] { 1int } else { -1int },
    ensures
        counters.last()@ == net_depth(steps),
    decreases steps.len(),
{
    if steps.len() > 0 {
        let n = steps.len() as int;
        let fewer = counters.drop_last();
        assert forall|k: int| 0 <= k < n - 1 implies #[trigger] fewer[k + 1]@ == fewer[k]@ + if steps.drop_last()[k] { 1int } else { -1int } by {
            assert(counters[k + 1]@ == counters[k]@ + if steps[k] { 1int } else { -1int });
        }
        law_depth_counts_steps(fewer, steps.drop_last());
        assert(counters[n]@ == counters[n - 1]@ + if steps[n - 1] { 1int } else { -1int });
    }
}

} // verus!
