//! Classifying one branch from what the repository says about it.
//!
//! The repository is asked as little as possible: each answer is recorded in
//! the branch's findings, and the findings decide whether the branch is
//! classified already or which question comes next.

use vstd::prelude::*;

use crate::branch::{Branch, BranchView, Scope};
use crate::error::AdapterError;
use crate::options::{Options, OptionsView};
use crate::text::same_name;

verus! {

/// What a branch turned out to be. Every branch gets exactly one of these.
#[derive(Debug, Clone, Copy, PartialEq, Eq, Structural)]
pub enum Classification {
    /// Every commit of the branch is reachable from the base branch.
    Merged,
    /// The branch is no ancestor of the base branch, but replaying its
    /// changes onto the base branch changes nothing.
    Squashed,
    /// The branch exists locally and has no counterpart on the remote.
    Unpushed,
    /// The branch holds work that the base branch lacks.
    Active,
}

/// A question about one branch that only the repository can answer.
#[derive(Debug, Clone, Copy, PartialEq, Eq, Structural)]
pub enum Question {
    /// Is the branch an ancestor of the base branch?
    Ancestor,
    /// Which commit is the nearest common ancestor of branch and base?
    MergeBase,
    /// Is the diff from the merge base to the branch empty on top of the
    /// base branch?
    DiffEmpty,
}

/// How far the classification of a branch has come.
#[derive(Debug, Clone, Copy, PartialEq, Eq, Structural)]
pub enum Progress {
    /// The repository has to answer this question first.
    Ask(Question),
    /// The branch is classified.
    Done(Classification),
    /// A question failed, so the branch cannot be classified.
    Failed(AdapterError),
}

/// The answers collected about one branch so far. `None` stands for a
/// question that was not asked yet.
#[derive(Debug, Clone, PartialEq, Eq)]
pub struct Findings {
    pub ancestor: Option<Result<bool, AdapterError>>,
    pub merge_base: Option<Result<String, AdapterError>>,
    pub diff_empty: Option<Result<bool, AdapterError>>,
}

/// The findings as specifications see them.
pub struct FindingsView {
    pub ancestor: Option<Result<bool, AdapterError>>,
    pub merge_base: Option<Result<Seq<char>, AdapterError>>,
    pub diff_empty: Option<Result<bool, AdapterError>>,
}

impl View for Findings {
    type V = FindingsView;

    open spec fn view(&self) -> FindingsView {
        FindingsView {
            ancestor: self.ancestor,
            merge_base: match self.merge_base {
                None => None,
                Some(Ok(commit)) => Some(Ok(commit@)),
                Some(Err(reason)) => Some(Err(reason)),
            },
            diff_empty: self.diff_empty,
        }
    }
}

impl FindingsView {
    /// Nothing asked yet.
    pub open spec fn none() -> FindingsView {
        FindingsView { ancestor: None, merge_base: None, diff_empty: None }
    }
}

impl Findings {
    /// The findings about a branch of which nothing is known yet.
    pub fn new() -> (findings: Findings)
        ensures
            findings@ == FindingsView::none(),
    {
        Findings { ancestor: None, merge_base: None, diff_empty: None }
    }
}

/// A branch together with its classification.
#[derive(Debug, Clone, PartialEq, Eq)]
pub struct Classified {
    pub branch: Branch,
    pub class: Classification,
}

/// A classified branch as specifications see it.
pub struct ClassifiedView {
    pub branch: BranchView,
    pub class: Classification,
}

impl View for Classified {
    type V = ClassifiedView;

    open spec fn view(&self) -> ClassifiedView {
        ClassifiedView { branch: self.branch@, class: self.class }
    }
}

impl DeepView for Classified {
    type V = ClassifiedView;

    open spec fn deep_view(&self) -> ClassifiedView {
        self@
    }
}

/// The branch is merged: the repository said that it is an ancestor of the
/// base branch.
pub open spec fn merged(findings: FindingsView) -> bool {
    findings.ancestor == Some(Ok::<bool, AdapterError>(true))
}

/// The branch is squashed: the repository said that its changes leave the
/// base branch as it is.
pub open spec fn squashed(findings: FindingsView) -> bool {
    findings.diff_empty == Some(Ok::<bool, AdapterError>(true))
}

/// No branch of the remote carries the name of `branch`.
pub open spec fn unpushed(branch: BranchView, remote_branches: Seq<BranchView>) -> bool {
    forall|i: int| 0 <= i < remote_branches.len() ==> remote_branches[i].name != branch.name
}

/// Whether the missing remote counterpart alone settles the fate of
/// `branch`: the user asked for unpushed branches to go, and `branch` is a
/// local branch that the remote does not have.
pub open spec fn counts_as_unpushed(
    branch: BranchView,
    remote_branches: Seq<BranchView>,
    options: OptionsView,
) -> bool {
    options.delete_unpushed_branches && branch.scope == Scope::Local && unpushed(
        branch,
        remote_branches,
    )
}

/// What the findings about `branch` come to.
///
/// The ancestor test is made first, and a merged branch is never looked at
/// again. A branch that is not merged counts as unpushed where that applies.
/// Only then, and only when squash detection is on, the merge base and the
/// diff are asked for. A failed question leaves the branch unclassified.
pub open spec fn progress(
    branch: BranchView,
    findings: FindingsView,
    remote_branches: Seq<BranchView>,
    options: OptionsView,
) -> Progress {
    match findings.ancestor {
        None => Progress::Ask(Question::Ancestor),
        Some(Err(reason)) => Progress::Failed(reason),
        Some(Ok(true)) => Progress::Done(Classification::Merged),
        Some(Ok(false)) => {
            if counts_as_unpushed(branch, remote_branches, options) {
                Progress::Done(Classification::Unpushed)
            } else if !options.squashes {
                Progress::Done(Classification::Active)
            } else {
                match findings.merge_base {
                    None => Progress::Ask(Question::MergeBase),
                    Some(Err(reason)) => Progress::Failed(reason),
                    Some(Ok(_)) => match findings.diff_empty {
                        None => Progress::Ask(Question::DiffEmpty),
                        Some(Err(reason)) => Progress::Failed(reason),
                        Some(Ok(true)) => Progress::Done(Classification::Squashed),
                        Some(Ok(false)) => Progress::Done(Classification::Active),
                    },
                }
            }
        },
    }
}

/// Whether the branch is fully merged into the base branch, going by the
/// repository's answer to the ancestor question.
pub fn is_merged(findings: &Findings) -> (yes: bool)
    ensures
        yes == merged(findings@),
{
    match findings.ancestor {
        Some(Ok(answer)) => answer,
        _ => false,
    }
}

/// Whether the branch was brought into the base branch by a squash merge,
/// going by the repository's answer to the diff question.
pub fn is_squashed(findings: &Findings) -> (yes: bool)
    ensures
        yes == squashed(findings@),
{
    match findings.diff_empty {
        Some(Ok(answer)) => answer,
        _ => false,
    }
}

/// Whether `local_branch` has no counterpart among the branches of the
/// remote.
pub fn is_unpushed(local_branch: &Branch, remote_branches: &Vec<Branch>) -> (yes: bool)
    ensures
        yes == unpushed(local_branch@, remote_branches.deep_view()),
{
    let mut i: usize = 0;
    while i < remote_branches.len()
        invariant
            i <= remote_branches.len(),
            forall|j: int| 0 <= j < i ==> remote_branches.deep_view()[j].name != local_branch@.name,
        decreases remote_branches.len() - i,
    {
        if same_name(remote_branches[i].name.as_str(), local_branch.name.as_str()) {
            proof {
                assert(remote_branches.deep_view()[i as int].name == local_branch@.name);
            }
            return false;
        }
        i += 1;
    }
    true
}

/// Decides from the findings whether `branch` is classified, and if not,
/// what to ask the repository next.
pub fn classify(
    branch: &Branch,
    findings: &Findings,
    remote_branches: &Vec<Branch>,
    options: &Options,
) -> (next: Progress)
    ensures
        next == progress(branch@, findings@, remote_branches.deep_view(), options@),
{
    match findings.ancestor {
        None => {
            return Progress::Ask(Question::Ancestor);
        },
        Some(Err(reason)) => {
            return Progress::Failed(reason);
        },
        Some(Ok(_)) => {},
    }
    if is_merged(findings) {
        return Progress::Done(Classification::Merged);
    }
    if options.delete_unpushed_branches && branch.scope == Scope::Local && is_unpushed(
        branch,
        remote_branches,
    ) {
        return Progress::Done(Classification::Unpushed);
    }
    if !options.squashes {
        return Progress::Done(Classification::Active);
    }
    match &findings.merge_base {
        None => {
            return Progress::Ask(Question::MergeBase);
        },
        Some(Err(reason)) => {
            return Progress::Failed(*reason);
        },
        Some(Ok(_)) => {},
    }
    match findings.diff_empty {
        None => Progress::Ask(Question::DiffEmpty),
        Some(Err(reason)) => Progress::Failed(reason),
        Some(Ok(_)) => if is_squashed(findings) {
            Progress::Done(Classification::Squashed)
        } else {
            Progress::Done(Classification::Active)
        },
    }
}

/// The commits of a repository: for each ref, the commits that can be
/// reached from it.
pub struct History {
    pub reachable: Map<Seq<char>, Set<Seq<char>>>,
}

impl History {
    /// Every commit reachable from `branch` is reachable from `base` too.
    pub open spec fn is_ancestor(self, branch: Seq<char>, base: Seq<char>) -> bool {
        self.reachable[branch].subset_of(self.reachable[base])
    }

    /// `branch` and `base` reach the same commits: the branch has no commit
    /// of its own.
    pub open spec fn identical(self, branch: Seq<char>, base: Seq<char>) -> bool {
        self.reachable[branch] == self.reachable[base]
    }
}

/// The findings hold the true answer to the ancestor question in a
/// repository with this history.
pub open spec fn answers_ancestry(
    findings: FindingsView,
    history: History,
    branch: Seq<char>,
    base: Seq<char>,
) -> bool {
    findings.ancestor == Some(Ok::<bool, AdapterError>(history.is_ancestor(branch, base)))
}

/// What the repository would answer about one branch if every question
/// were put to it.
pub struct Answers {
    pub ancestor: Result<bool, AdapterError>,
    pub merge_base: Result<Seq<char>, AdapterError>,
    pub diff_empty: Result<bool, AdapterError>,
}

/// No finding contradicts the answers: what was asked was answered as
/// `answers` says.
pub open spec fn drawn_from(findings: FindingsView, answers: Answers) -> bool {
    &&& findings.ancestor is Some ==> findings.ancestor == Some(answers.ancestor)
    &&& findings.merge_base is Some ==> findings.merge_base == Some(answers.merge_base)
    &&& findings.diff_empty is Some ==> findings.diff_empty == Some(answers.diff_empty)
}

/// The classification that a branch ends with when the repository answers
/// as `answers` says, or the failure that leaves it unclassified.
pub open spec fn verdict(
    branch: BranchView,
    answers: Answers,
    remote_branches: Seq<BranchView>,
    options: OptionsView,
) -> Result<Classification, AdapterError> {
    match answers.ancestor {
        Err(reason) => Err(reason),
        Ok(true) => Ok(Classification::Merged),
        Ok(false) => {
            if counts_as_unpushed(branch, remote_branches, options) {
                Ok(Classification::Unpushed)
            } else if !options.squashes {
                Ok(Classification::Active)
            } else {
                match (answers.merge_base, answers.diff_empty) {
                    (Err(reason), _) => Err(reason),
                    (Ok(_), Err(reason)) => Err(reason),
                    (Ok(_), Ok(true)) => Ok(Classification::Squashed),
                    (Ok(_), Ok(false)) => Ok(Classification::Active),
                }
            }
        },
    }
}

/// A branch whose commits are all reachable from the base branch is
/// merged, whatever else is known or configured, as long as the repository
/// answered the ancestor question.
pub proof fn law_reachable_from_base_is_merged(
    history: History,
    name: Seq<char>,
    base: Seq<char>,
    branch: BranchView,
    findings: FindingsView,
    remote_branches: Seq<BranchView>,
    options: OptionsView,
)
    requires
        history.is_ancestor(name, base),
        answers_ancestry(findings, history, name, base),
    ensures
        merged(findings),
        progress(branch, findings, remote_branches, options) == Progress::Done(
            Classification::Merged,
        ),
{
}

/// A branch that is identical to the base branch is merged and never
/// active, as long as the repository answered the ancestor question.
pub proof fn law_identical_to_base_is_merged(
    history: History,
    name: Seq<char>,
    base: Seq<char>,
    branch: BranchView,
    findings: FindingsView,
    remote_branches: Seq<BranchView>,
    options: OptionsView,
)
    requires
        history.identical(name, base),
        answers_ancestry(findings, history, name, base),
    ensures
        merged(findings),
        progress(branch, findings, remote_branches, options) == Progress::Done(
            Classification::Merged,
        ),
        progress(branch, findings, remote_branches, options) != Progress::Done(
            Classification::Active,
        ),
{
}

/// Asking question after question ends where the answers lead: a branch
/// that is classified has the classification of the verdict, a branch that
/// failed has its failure, and a question that is open has not been
/// answered yet.
pub proof fn law_progress_follows_the_answers(
    branch: BranchView,
    findings: FindingsView,
    answers: Answers,
    remote_branches: Seq<BranchView>,
    options: OptionsView,
)
    requires
        drawn_from(findings, answers),
    ensures
        match progress(branch, findings, remote_branches, options) {
            Progress::Done(class) => verdict(branch, answers, remote_branches, options) == Ok::<
                Classification,
                AdapterError,
            >(class),
            Progress::Failed(reason) => verdict(branch, answers, remote_branches, options) == Err::<
                Classification,
                AdapterError,
            >(reason),
            Progress::Ask(Question::Ancestor) => findings.ancestor is None,
            Progress::Ask(Question::MergeBase) => findings.merge_base is None,
            Progress::Ask(Question::DiffEmpty) => findings.diff_empty is None,
        },
{
}

/// The expensive questions are only asked where they can matter: squash
/// detection is on, and the branch is neither merged nor settled as
/// unpushed.
pub proof fn law_squash_questions_are_needed(
    branch: BranchView,
    findings: FindingsView,
    remote_branches: Seq<BranchView>,
    options: OptionsView,
)
    requires
        progress(branch, findings, remote_branches, options) == Progress::Ask(Question::MergeBase)
            || progress(branch, findings, remote_branches, options) == Progress::Ask(
            Question::DiffEmpty,
        ),
    ensures
        options.squashes,
        !merged(findings),
        !counts_as_unpushed(branch, remote_branches, options),
{
}

} // verus!
