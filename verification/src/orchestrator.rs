//! Running a list of upgrades one after another and stopping at the first failure.
use vstd::prelude::*;

verus! {

/// What to do next.
#[derive(Debug, Clone, Copy, PartialEq, Eq, Structural)]
pub enum RunStep {
    /// Run the item at this position.
    Run(usize),
    /// Every item ran successfully.
    Completed,
    /// An item failed; nothing more runs.
    Stopped,
}

/// The progress of running items in order until one fails.
#[derive(Debug)]
pub struct RunUntilFailure {
    total: usize,
    done: usize,
    failed: bool,
}

impl RunUntilFailure {
    /// The number of items.
    pub closed spec fn total_view(&self) -> nat {
        self.total as nat
    }

    /// The number of items that ran successfully.
    pub closed spec fn done_view(&self) -> nat {
        self.done as nat
    }

    /// Whether an item failed.
    pub closed spec fn failed_view(&self) -> bool {
        self.failed
    }

    /// The run is consistent: no more items succeeded than there are, and a failed item is
    /// one of them.
    pub open spec fn wf(&self) -> bool {
        self.done_view() <= self.total_view() && (self.failed_view() ==> self.done_view()
            < self.total_view())
    }

    /// The step a run in this state takes next.
    pub open spec fn step_view(&self) -> RunStep {
        if self.failed_view() {
            RunStep::Stopped
        } else if self.done_view() < self.total_view() {
            RunStep::Run(self.done_view() as usize)
        } else {
            RunStep::Completed
        }
    }

    /// A run of `total` items, none run yet.
    pub fn new(total: usize) -> (r: RunUntilFailure)
        ensures
            r.wf(),
            r.total_view() == total,
            r.done_view() == 0,
            !r.failed_view(),
    {
        RunUntilFailure { total, done: 0, failed: false }
    }

    /// What to do next: run the first item not yet run, or stop.
    pub fn next(&self) -> (r: RunStep)
        ensures
            r == self.step_view(),
    {
        if self.failed {
            RunStep::Stopped
        } else if self.done < self.total {
            RunStep::Run(self.done)
        } else {
            RunStep::Completed
        }
    }

    /// Records how the item that was run ended.
    pub fn finish(&mut self, succeeded: bool)
        requires
            old(self).wf(),
            old(self).step_view() is Run,
        ensures
            final(self).wf(),
            final(self).total_view() == old(self).total_view(),
            succeeded ==> final(self).done_view() == old(self).done_view() + 1
                && !final(self).failed_view(),
            !succeeded ==> final(self).done_view() == old(self).done_view()
                && final(self).failed_view(),
    {
        if succeeded {
            self.done = self.done + 1;
        } else {
            self.failed = true;
        }
    }
}

/// A failed run stops: whatever came after the failing item never runs.
pub proof fn law_failure_stops_the_run(q: RunUntilFailure)
    requires
        q.wf(),
        q.failed_view(),
    ensures
        q.step_view() == RunStep::Stopped,
{
}

/// Items run in order: after `k` successes the next item is the one at position `k`, and the
/// run completes only when every item succeeded.
pub proof fn law_items_run_in_order(q: RunUntilFailure)
    requires
        q.wf(),
        !q.failed_view(),
    ensures
        q.done_view() < q.total_view() ==> q.step_view() == RunStep::Run(q.done_view() as usize),
        q.step_view() == RunStep::Completed <==> q.done_view() == q.total_view(),
{
}

} // verus!
