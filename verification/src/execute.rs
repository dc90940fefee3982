//! What became of each planned deletion, and how the run ends.

use vstd::prelude::*;

use crate::error::{AdapterError, Error};
use crate::plan::{DeletionPlan, PlanEntry, Target};

verus! {

/// The outcome of one planned deletion.
#[derive(Debug, Clone, Copy, PartialEq, Eq, Structural)]
pub enum ExecutionResult {
    /// The branch is gone.
    Deleted,
    /// The branch is still there, for this reason.
    Failed(AdapterError),
}

/// How a run ended.
#[derive(Debug, Clone, Copy, PartialEq, Eq, Structural)]
pub enum ExitStatus {
    /// Every attempted deletion succeeded.
    Success,
    /// The run completed, but some deletions failed and were reported.
    PartialFailure,
    /// The run was given up before anything was deleted.
    Fatal(Error),
}

/// One line of the final report: a planned deletion and its outcome.
#[derive(Debug, Clone, PartialEq, Eq)]
pub struct Attempt {
    pub entry: PlanEntry,
    pub result: ExecutionResult,
}

/// A line of the report as specifications see it.
pub struct AttemptView {
    pub entry: Target,
    pub result: ExecutionResult,
}

impl View for Attempt {
    type V = AttemptView;

    open spec fn view(&self) -> AttemptView {
        AttemptView { entry: self.entry@, result: self.result }
    }
}

impl DeepView for Attempt {
    type V = AttemptView;

    open spec fn deep_view(&self) -> AttemptView {
        self@
    }
}

/// The outcome that the repository's reply to a delete request stands for.
pub open spec fn outcome(reply: Result<(), AdapterError>) -> ExecutionResult {
    match reply {
        Ok(_) => ExecutionResult::Deleted,
        Err(reason) => ExecutionResult::Failed(reason),
    }
}

/// The outcomes of a batch of delete requests, one for each reply and in
/// the same order.
pub open spec fn outcomes(replies: Seq<Result<(), AdapterError>>) -> Seq<ExecutionResult> {
    Seq::new(replies.len(), |i: int| outcome(replies[i]))
}

/// At least one deletion failed.
pub open spec fn any_failed(results: Seq<ExecutionResult>) -> bool {
    exists|i: int| 0 <= i < results.len() && #[trigger] results[i] is Failed
}

/// The status of a run that got as far as deleting.
pub open spec fn status_of(results: Seq<ExecutionResult>) -> ExitStatus {
    if any_failed(results) {
        ExitStatus::PartialFailure
    } else {
        ExitStatus::Success
    }
}

/// The report on the deletions attempted so far: the first entries of the
/// plan, each with its outcome.
pub open spec fn reported(plan: Seq<Target>, results: Seq<ExecutionResult>) -> Seq<AttemptView> {
    Seq::new(
        if results.len() <= plan.len() {
            results.len()
        } else {
            plan.len()
        },
        |i: int| AttemptView { entry: plan[i], result: results[i] },
    )
}

/// Records the repository's reply to one delete request. A failure is
/// kept, with its reason, as the outcome of that one deletion.
pub fn record(reply: &Result<(), AdapterError>) -> (result: ExecutionResult)
    ensures
        result == outcome(*reply),
{
    match reply {
        Ok(_) => ExecutionResult::Deleted,
        Err(reason) => ExecutionResult::Failed(*reason),
    }
}

/// Records the replies to a batch of delete requests, each on its own.
pub fn execute(replies: &Vec<Result<(), AdapterError>>) -> (results: Vec<ExecutionResult>)
    ensures
        results@ == outcomes(replies@),
{
    let mut results: Vec<ExecutionResult> = Vec::new();
    let mut i: usize = 0;
    while i < replies.len()
        invariant
            i <= replies.len(),
            results.len() == i,
            forall|j: int| 0 <= j < i ==> results@[j] == outcome(replies@[j]),
        decreases replies.len() - i,
    {
        results.push(record(&replies[i]));
        i += 1;
    }
    proof {
        assert(results@ =~= outcomes(replies@));
    }
    results
}

/// The status of a run from the outcomes of its deletions.
pub fn exit_status(results: &Vec<ExecutionResult>) -> (status: ExitStatus)
    ensures
        status == status_of(results@),
{
    let mut i: usize = 0;
    while i < results.len()
        invariant
            i <= results.len(),
            forall|j: int| 0 <= j < i ==> !(#[trigger] results@[j] is Failed),
        decreases results.len() - i,
    {
        match results[i] {
            ExecutionResult::Failed(_) => {
                return ExitStatus::PartialFailure;
            },
            ExecutionResult::Deleted => {},
        }
        i += 1;
    }
    ExitStatus::Success
}

/// Pairs each attempted deletion with its outcome, in plan order.
pub fn report(plan: &DeletionPlan, results: &Vec<ExecutionResult>) -> (lines: Vec<Attempt>)
    ensures
        lines.deep_view() == reported(plan@, results@),
{
    let entries = plan.entries();
    let mut lines: Vec<Attempt> = Vec::new();
    let mut i: usize = 0;
    while i < entries.len() && i < results.len()
        invariant
            i <= entries.len(),
            i <= results.len(),
            entries.deep_view() == plan@,
            lines.len() == i,
            forall|j: int|
                0 <= j < i ==> lines@[j]@ == (AttemptView { entry: plan@[j], result: results@[j] }),
        decreases entries.len() - i,
    {
        lines.push(Attempt { entry: entries[i].duplicate(), result: results[i] });
        proof {
            assert(entries.deep_view()[i as int] == entries@[i as int]@);
        }
        i += 1;
    }
    proof {
        assert(lines.deep_view() =~= reported(plan@, results@));
    }
    lines
}

/// A failed deletion stays where it happened: the outcome recorded for one
/// request depends on the reply to that request alone. Two batches that
/// differ only in the reply to request `x` agree on every other outcome.
pub proof fn law_failures_are_isolated(
    first: Seq<Result<(), AdapterError>>,
    second: Seq<Result<(), AdapterError>>,
    x: int,
    y: int,
)
    requires
        first.len() == second.len(),
        0 <= y < first.len(),
        x != y,
        forall|i: int| 0 <= i < first.len() && i != x ==> first[i] == second[i],
    ensures
        outcomes(first).len() == first.len(),
        outcomes(first)[y] == outcomes(second)[y],
        outcomes(first)[y] == outcome(first[y]),
{
}

} // verus!
