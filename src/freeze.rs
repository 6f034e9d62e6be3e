//! A process-wide, reference-counted counter over action state.

use vstd::prelude::*;

verus! {

/// How many callers currently ask for action state to be suppressed.
///
/// Input is frozen while at least one request is outstanding.
pub struct ActionsFrozen {
    freeze_count: usize,
}

/// One call made on the counter.
#[derive(Clone, Copy, Debug, PartialEq, Eq, Structural)]
pub enum FreezeOp {
    Freeze,
    Unfreeze,
}

/// The change one call makes to the count.
pub open spec fn op_delta(op: FreezeOp) -> int {
    match op {
        FreezeOp::Freeze => 1,
        FreezeOp::Unfreeze => -1,
    }
}

/// The net change that a sequence of calls makes to the count.
pub open spec fn net_delta(ops: Seq<FreezeOp>) -> int
    decreases ops.len(),
{
    if ops.len() == 0 {
        0
    } else {
        net_delta(ops.drop_last()) + op_delta(ops.last())
    }
}

/// Every prefix unfreezes no more often than it freezes, and the whole sequence
/// unfreezes exactly as often as it freezes.
pub open spec fn balanced(ops: Seq<FreezeOp>) -> bool {
    &&& forall|k: int| 0 <= k <= ops.len() ==> #[trigger] net_delta(ops.take(k)) >= 0
    &&& net_delta(ops) == 0
}

/// The count after `ops` are applied one by one to a counter whose count is `count`.
pub open spec fn count_after(count: nat, ops: Seq<FreezeOp>) -> int {
    count + net_delta(ops)
}

impl ActionsFrozen {
    /// The number of outstanding freeze requests.
    pub closed spec fn count(&self) -> nat {
        self.freeze_count as nat
    }

    /// A counter with no outstanding request.
    pub fn new() -> (r: ActionsFrozen)
        ensures
            r.count() == 0,
    {
        ActionsFrozen { freeze_count: 0 }
    }

    /// A counter holding `count` outstanding requests.
    pub fn with_count(count: usize) -> (r: ActionsFrozen)
        ensures
            r.count() == count,
    {
        ActionsFrozen { freeze_count: count }
    }

    /// The number of outstanding freeze requests.
    pub fn freeze_count(&self) -> (r: usize)
        ensures
            r == self.count(),
    {
        self.freeze_count
    }

    /// Adds one freeze request.
    pub fn freeze(&mut self)
        requires
            old(self).count() < usize::MAX,
        ensures
            final(self).count() == old(self).count() + 1,
    {
        self.freeze_count = self.freeze_count + 1;
    }

    /// Withdraws one freeze request; the caller must hold one.
    pub fn unfreeze(&mut self)
        requires
            old(self).count() > 0,
        ensures
            final(self).count() == old(self).count() - 1,
    {
        self.freeze_count = self.freeze_count - 1;
    }

    /// Whether any freeze request is outstanding.
    pub fn is_frozen(&self) -> (r: bool)
        ensures
            r == (self.count() > 0),
    {
        self.freeze_count > 0
    }

    /// Performs one call on the counter.
    pub fn apply(&mut self, op: FreezeOp)
        requires
            count_after(old(self).count(), seq![op]) >= 0,
            count_after(old(self).count(), seq![op]) <= usize::MAX,
        ensures
            final(self).count() == count_after(old(self).count(), seq![op]),
    {
        proof {
            reveal_with_fuel(net_delta, 2);
        }
        match op {
            FreezeOp::Freeze => self.freeze(),
            FreezeOp::Unfreeze => self.unfreeze(),
        }
    }
}

impl Default for ActionsFrozen {
    fn default() -> (r: ActionsFrozen)
        ensures
            r.count() == 0,
    {
        ActionsFrozen::new()
    }
}

proof fn lemma_net_delta_append(ops: Seq<FreezeOp>, op: FreezeOp)
    ensures
        net_delta(ops.push(op)) == net_delta(ops) + op_delta(op),
{
    assert(ops.push(op).drop_last() =~= ops);
}

/// Nested freeze and unfreeze calls in balanced pairs never unfreeze an idle counter:
/// every unfreeze finds a request outstanding. Once they are all unwound the count
/// is back where it started, so input is frozen exactly when it was before.
pub proof fn lemma_balanced_round_trip(count: nat, ops: Seq<FreezeOp>)
    requires
        balanced(ops),
    ensures
        forall|k: int|
            0 <= k < ops.len() && ops[k] == FreezeOp::Unfreeze ==> #[trigger] count_after(
                count,
                ops.take(k),
            ) > 0,
        count_after(count, ops) == count,
        (count_after(count, ops) > 0) == (count > 0),
{
    assert forall|k: int|
        0 <= k < ops.len() && ops[k] == FreezeOp::Unfreeze implies #[trigger] count_after(
            count,
            ops.take(k),
        ) > 0 by {
        lemma_net_delta_append(ops.take(k), ops[k]);
        assert(ops.take(k).push(ops[k]) =~= ops.take(k + 1));
        assert(net_delta(ops.take(k + 1)) >= 0);
    }
}

} // verus!
