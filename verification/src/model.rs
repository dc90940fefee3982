//! The course of a run, as a function from state and reply to the next
//! state, and from state to the next request.
//!
//! A run goes through validation, enumeration, classification, planning,
//! confirmation and execution, and ends with a report.

use vstd::prelude::*;

use crate::branch::{candidates, BranchView, Scope};
use crate::classify::{progress, ClassifiedView, FindingsView, Progress, Question};
use crate::confirm::{approves, effective, names_in, ResponseView};
use crate::error::{AdapterError, Error};
use crate::execute::{outcome, status_of, ExecutionResult, ExitStatus};
use crate::options::{DeleteMode, OptionsView};
use crate::plan::{in_scope, planned, Target};
use crate::protocol::{ActionView, Phase, ReplyView, SkippedView, Stage};

verus! {

/// The state of a run as specifications see it.
pub struct EngineView {
    /// The configuration of the run.
    pub options: OptionsView,
    /// What the run is waiting for.
    pub stage: Stage,
    /// The branch that is checked out, once known.
    pub current_branch: Seq<char>,
    /// The branches to classify: the local ones first, then the remote ones.
    pub candidates: Seq<BranchView>,
    /// The branches of the remote, which the unpushed test compares with.
    pub remote_branches: Seq<BranchView>,
    /// The listing failure that the run survived, if there was one.
    pub tolerated: Option<Error>,
    /// The index of the candidate that is being classified.
    pub cursor: nat,
    /// What is known about the candidate that is being classified.
    pub findings: FindingsView,
    /// The candidates classified so far.
    pub classified: Seq<ClassifiedView>,
    /// The candidates that could not be classified.
    pub skipped: Seq<SkippedView>,
    /// The plan, once made.
    pub plan: Seq<Target>,
    /// The outcomes of the deletions attempted so far.
    pub results: Seq<ExecutionResult>,
}

/// The phase that a stage belongs to. Planning needs nothing from outside,
/// so no run ever waits in it.
pub open spec fn phase_of(stage: Stage) -> Phase {
    match stage {
        Stage::CurrentBranch => Phase::Validate,
        Stage::Remotes => Phase::Validate,
        Stage::LocalBranches => Phase::Enumerate,
        Stage::RemoteBranches => Phase::Enumerate,
        Stage::Classifying => Phase::Classify,
        Stage::Confirming => Phase::Confirm,
        Stage::Executing => Phase::Execute,
        Stage::Finished(_) => Phase::Report,
    }
}

/// The place of a phase in a run.
pub open spec fn rank(phase: Phase) -> int {
    match phase {
        Phase::Validate => 0,
        Phase::Enumerate => 1,
        Phase::Classify => 2,
        Phase::Plan => 3,
        Phase::Confirm => 4,
        Phase::Execute => 5,
        Phase::Report => 6,
    }
}

/// The name under which the repository knows a branch: a local branch by
/// its own name, a remote one by the remote's name, a slash and its own.
pub open spec fn reference(branch: BranchView, remote: Seq<char>) -> Seq<char> {
    match branch.scope {
        Scope::Local => branch.name,
        Scope::Remote => remote + "/"@ + branch.name,
    }
}

/// The remote's branches have to be listed: either they may be deleted, or
/// the unpushed test needs them.
pub open spec fn needs_remote_listing(options: OptionsView) -> bool {
    in_scope(options.delete_mode, Scope::Remote) || options.delete_unpushed_branches
}

/// A run that has not asked for anything yet.
pub open spec fn initial(options: OptionsView) -> EngineView {
    EngineView {
        options,
        stage: Stage::CurrentBranch,
        current_branch: Seq::empty(),
        candidates: Seq::empty(),
        remote_branches: Seq::empty(),
        tolerated: None,
        cursor: 0,
        findings: FindingsView::none(),
        classified: Seq::empty(),
        skipped: Seq::empty(),
        plan: Seq::empty(),
        results: Seq::empty(),
    }
}

/// The run ends with `status`.
pub open spec fn finished(s: EngineView, status: ExitStatus) -> EngineView {
    EngineView { stage: Stage::Finished(status), ..s }
}

/// The plan stands and may be carried out: the first deletion is next, or
/// the run is over when nothing is planned.
pub open spec fn begin_execution(s: EngineView) -> EngineView {
    if s.plan.len() > 0 {
        EngineView { stage: Stage::Executing, ..s }
    } else {
        finished(s, ExitStatus::Success)
    }
}

/// Every candidate has been looked at: the plan is made, and the run goes
/// on to ask the user, or straight to deleting when nobody has to be asked.
pub open spec fn make_plan(s: EngineView) -> EngineView {
    let with_plan = EngineView {
        plan: planned(s.classified, s.options),
        findings: FindingsView::none(),
        ..s
    };
    if s.options.skip_confirmation {
        begin_execution(with_plan)
    } else {
        EngineView { stage: Stage::Confirming, ..with_plan }
    }
}

/// The candidate under the cursor is dealt with: the next one is
/// classified from scratch, or the plan is made when there is none left.
pub open spec fn next_candidate(s: EngineView) -> EngineView {
    if s.cursor + 1 < s.candidates.len() {
        EngineView {
            stage: Stage::Classifying,
            cursor: s.cursor + 1,
            findings: FindingsView::none(),
            ..s
        }
    } else {
        make_plan(s)
    }
}

/// Enumeration is over: the first candidate is classified, or the plan is
/// made when there is no candidate.
pub open spec fn begin_classification(s: EngineView) -> EngineView {
    if s.candidates.len() > 0 {
        EngineView { stage: Stage::Classifying, cursor: 0, findings: FindingsView::none(), ..s }
    } else {
        make_plan(s)
    }
}

/// The findings about the candidate under the cursor have grown: the
/// candidate is classified, or skipped after a failed question, or the run
/// waits for the next answer.
pub open spec fn settle(s: EngineView) -> EngineView {
    if s.cursor < s.candidates.len() {
        let branch = s.candidates[s.cursor as int];
        match progress(branch, s.findings, s.remote_branches, s.options) {
            Progress::Ask(_) => s,
            Progress::Done(class) => next_candidate(
                EngineView { classified: s.classified.push(ClassifiedView { branch, class }), ..s },
            ),
            Progress::Failed(reason) => next_candidate(
                EngineView { skipped: s.skipped.push(SkippedView { branch, reason }), ..s },
            ),
        }
    } else {
        make_plan(s)
    }
}

/// The question that the run is waiting on, if it is waiting on one.
pub open spec fn open_question(s: EngineView) -> Option<Question> {
    match s.stage {
        Stage::Classifying => if s.cursor < s.candidates.len() {
            match progress(
                s.candidates[s.cursor as int],
                s.findings,
                s.remote_branches,
                s.options,
            ) {
                Progress::Ask(question) => Some(question),
                _ => None,
            }
        } else {
            None
        },
        _ => None,
    }
}

/// The remotes are known: the configuration is checked, and a run that
/// fails the check ends here.
pub open spec fn validated(s: EngineView, remotes: Seq<Seq<char>>) -> EngineView {
    match s.options.verdict(s.current_branch, remotes) {
        Err(error) => finished(s, ExitStatus::Fatal(error)),
        Ok(_) => if in_scope(s.options.delete_mode, Scope::Local) {
            EngineView { stage: Stage::LocalBranches, ..s }
        } else {
            EngineView { stage: Stage::RemoteBranches, ..s }
        },
    }
}

/// The local listing is dealt with: the remote listing is next where it is
/// needed, classification otherwise.
pub open spec fn after_local(s: EngineView) -> EngineView {
    if needs_remote_listing(s.options) {
        EngineView { stage: Stage::RemoteBranches, ..s }
    } else {
        begin_classification(s)
    }
}

/// The local listing came back. A failure is fatal, except when both
/// scopes are cleaned: then the run goes on with the remote scope alone.
pub open spec fn with_local(
    s: EngineView,
    listing: Result<Seq<Seq<char>>, AdapterError>,
) -> EngineView {
    match listing {
        Ok(names) => after_local(
            EngineView {
                candidates: candidates(names, Scope::Local, s.options.base_branch),
                ..s
            },
        ),
        Err(reason) => if s.options.delete_mode == DeleteMode::Both {
            after_local(
                EngineView { tolerated: Some(Error::Enumeration(Scope::Local, reason)), ..s },
            )
        } else {
            finished(s, ExitStatus::Fatal(Error::Enumeration(Scope::Local, reason)))
        },
    }
}

/// The run can go on without the remote listing: both scopes are cleaned,
/// the local listing succeeded, and no local branch is judged by what the
/// remote holds.
pub open spec fn survives_without_remote(s: EngineView) -> bool {
    &&& s.options.delete_mode == DeleteMode::Both
    &&& s.tolerated is None
    &&& !s.options.delete_unpushed_branches
}

/// The remote listing came back. A failure is fatal unless the run can go
/// on with the local scope alone.
pub open spec fn with_remote(
    s: EngineView,
    listing: Result<Seq<Seq<char>>, AdapterError>,
) -> EngineView {
    match listing {
        Ok(names) => {
            let found = candidates(names, Scope::Remote, s.options.base_branch);
            begin_classification(
                EngineView {
                    remote_branches: found,
                    candidates: if in_scope(s.options.delete_mode, Scope::Remote) {
                        s.candidates + found
                    } else {
                        s.candidates
                    },
                    ..s
                },
            )
        },
        Err(reason) => if survives_without_remote(s) {
            begin_classification(
                EngineView { tolerated: Some(Error::Enumeration(Scope::Remote, reason)), ..s },
            )
        } else {
            finished(s, ExitStatus::Fatal(Error::Enumeration(Scope::Remote, reason)))
        },
    }
}

/// The user has answered. A refusal empties the plan and ends the run; an
/// approval lets the plan be carried out.
pub open spec fn confirmed(s: EngineView, response: ResponseView) -> EngineView {
    let approved = approves(s.options, response);
    let after = EngineView { plan: effective(s.plan, approved), ..s };
    if approved {
        begin_execution(after)
    } else {
        finished(after, ExitStatus::Success)
    }
}

/// A deletion came back. Its outcome is recorded, whatever it is, and the
/// next deletion follows; after the last one the run ends.
pub open spec fn executed(s: EngineView, done: Result<(), AdapterError>) -> EngineView {
    let after = EngineView { results: s.results.push(outcome(done)), ..s };
    if after.results.len() < s.plan.len() {
        after
    } else {
        finished(after, status_of(after.results))
    }
}

/// The state after `reply` has come in. A reply that the run is not
/// waiting for changes nothing.
#[verifier::opaque]
pub open spec fn advance(s: EngineView, reply: ReplyView) -> EngineView {
    match (s.stage, reply) {
        (Stage::CurrentBranch, ReplyView::CurrentBranch(name)) => EngineView {
            current_branch: name,
            stage: Stage::Remotes,
            ..s
        },
        (Stage::Remotes, ReplyView::Remotes(remotes)) => validated(s, remotes),
        (Stage::LocalBranches, ReplyView::LocalBranches(listing)) => with_local(s, listing),
        (Stage::RemoteBranches, ReplyView::RemoteBranches(listing)) => with_remote(s, listing),
        (Stage::Classifying, ReplyView::Ancestor(answer)) => if open_question(s) == Some(
            Question::Ancestor,
        ) {
            settle(
                EngineView { findings: FindingsView { ancestor: Some(answer), ..s.findings }, ..s },
            )
        } else {
            s
        },
        (Stage::Classifying, ReplyView::MergeBase(answer)) => if open_question(s) == Some(
            Question::MergeBase,
        ) {
            settle(
                EngineView {
                    findings: FindingsView { merge_base: Some(answer), ..s.findings },
                    ..s
                },
            )
        } else {
            s
        },
        (Stage::Classifying, ReplyView::DiffEmpty(answer)) => if open_question(s) == Some(
            Question::DiffEmpty,
        ) {
            settle(
                EngineView {
                    findings: FindingsView { diff_empty: Some(answer), ..s.findings },
                    ..s
                },
            )
        } else {
            s
        },
        (Stage::Confirming, ReplyView::Confirmation(response)) => confirmed(s, response),
        (Stage::Executing, ReplyView::Deleted(done)) => executed(s, done),
        _ => s,
    }
}

/// The request that asks `question` about `branch`.
pub open spec fn asking(
    question: Question,
    branch: BranchView,
    findings: FindingsView,
    options: OptionsView,
) -> ActionView {
    let name = reference(branch, options.remote);
    match question {
        Question::Ancestor => ActionView::IsAncestor { branch: name, base: options.base_branch },
        Question::MergeBase => ActionView::MergeBase { branch: name, base: options.base_branch },
        Question::DiffEmpty => ActionView::DiffIsEmpty {
            from: match findings.merge_base {
                Some(Ok(commit)) => commit,
                _ => options.base_branch,
            },
            to: name,
        },
    }
}

/// The request that deletes `target`.
pub open spec fn deleting(target: Target, options: OptionsView) -> ActionView {
    match target.scope {
        Scope::Local => ActionView::DeleteLocalBranch { name: target.name },
        Scope::Remote => ActionView::DeleteRemoteBranch {
            remote: options.remote,
            name: target.name,
        },
    }
}

/// What the run needs next. A state that waits for nothing, as no run
/// reaches one before it is over, asks for the report.
pub open spec fn pending(s: EngineView) -> ActionView {
    match s.stage {
        Stage::CurrentBranch => ActionView::CurrentBranch,
        Stage::Remotes => ActionView::ListRemotes,
        Stage::LocalBranches => ActionView::ListLocalBranches { excluding: s.options.base_branch },
        Stage::RemoteBranches => ActionView::ListRemoteBranches { remote: s.options.remote },
        Stage::Classifying => match open_question(s) {
            Some(question) => asking(
                question,
                s.candidates[s.cursor as int],
                s.findings,
                s.options,
            ),
            None => ActionView::Report(status_of(s.results)),
        },
        Stage::Confirming => ActionView::Confirm {
            message: s.options.delete_mode.warning(),
            names: names_in(s.plan),
        },
        Stage::Executing => if s.results.len() < s.plan.len() {
            deleting(s.plan[s.results.len() as int], s.options)
        } else {
            ActionView::Report(status_of(s.results))
        },
        Stage::Finished(status) => ActionView::Report(status),
    }
}

/// What holds of every state that a run can be in.
///
/// Nothing is planned before every candidate has been looked at, and
/// nothing is deleted before the user was asked. A run that is classifying has a
/// question open about a candidate that exists. Once made, the plan is the
/// plan of the classified branches, or empty after a refusal. A run that is
/// deleting has a planned deletion left to attempt, and a run that is over
/// has an outcome for each planned deletion.
pub open spec fn valid(s: EngineView) -> bool {
    match s.stage {
        Stage::Classifying => {
            &&& s.cursor < s.candidates.len()
            &&& open_question(s) is Some
            &&& s.classified.len() + s.skipped.len() == s.cursor
            &&& s.plan.len() == 0
            &&& s.results.len() == 0
        },
        Stage::Confirming => {
            &&& s.plan == planned(s.classified, s.options)
            &&& s.results.len() == 0
        },
        Stage::Executing => {
            &&& s.plan == planned(s.classified, s.options)
            &&& s.results.len() < s.plan.len()
        },
        Stage::Finished(status) => {
            &&& s.plan == planned(s.classified, s.options) || s.plan.len() == 0
            &&& s.results.len() == s.plan.len()
            &&& match status {
                ExitStatus::Fatal(_) => s.plan.len() == 0,
                _ => status == status_of(s.results),
            }
        },
        _ => {
            &&& s.classified.len() == 0
            &&& s.skipped.len() == 0
            &&& s.plan.len() == 0
            &&& s.results.len() == 0
        },
    }
}

/// The state after a series of replies, taken in one after the other.
pub open spec fn run(s: EngineView, replies: Seq<ReplyView>) -> EngineView
    decreases replies.len(),
{
    if replies.len() == 0 {
        s
    } else {
        run(advance(s, replies[0]), replies.drop_first())
    }
}

/// The replies to a batch of delete requests.
pub open spec fn deletions(done: Seq<Result<(), AdapterError>>) -> Seq<ReplyView> {
    Seq::new(done.len(), |i: int| ReplyView::Deleted(done[i]))
}

} // verus!
