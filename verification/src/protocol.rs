//! The conversation between a run and whoever carries it out: what a run
//! can ask for, and what can come back.

use vstd::prelude::*;

use crate::branch::{Branch, BranchView};
use crate::confirm::{Response, ResponseView};
use crate::error::AdapterError;
use crate::execute::ExitStatus;

verus! {

/// The phases of a run, in the order in which a run passes through them.
#[derive(Debug, Clone, Copy, PartialEq, Eq, Structural)]
pub enum Phase {
    Validate,
    Enumerate,
    Classify,
    Plan,
    Confirm,
    Execute,
    Report,
}

/// Where a run stands: what it is waiting for.
#[derive(Debug, Clone, Copy, PartialEq, Eq, Structural)]
pub enum Stage {
    /// Waiting for the name of the branch that is checked out.
    CurrentBranch,
    /// Waiting for the names of the configured remotes.
    Remotes,
    /// Waiting for the listing of the local branches.
    LocalBranches,
    /// Waiting for the listing of the remote's branches.
    RemoteBranches,
    /// Waiting for an answer about the candidate under the cursor.
    Classifying,
    /// Waiting for the user's response to the prompt.
    Confirming,
    /// Waiting for the outcome of the first deletion not yet attempted.
    Executing,
    /// The run is over.
    Finished(ExitStatus),
}

/// What the engine needs next.
#[derive(Debug, Clone, PartialEq, Eq)]
pub enum Action {
    /// Name the branch that is checked out.
    CurrentBranch,
    /// List the configured remotes.
    ListRemotes,
    /// List the local branches.
    ListLocalBranches { excluding: String },
    /// List the branches of the remote.
    ListRemoteBranches { remote: String },
    /// Say whether `branch` is an ancestor of `base`.
    IsAncestor { branch: String, base: String },
    /// Name the nearest common ancestor of `branch` and `base`.
    MergeBase { branch: String, base: String },
    /// Say whether the changes from `from` to `to` leave the base branch as
    /// it is.
    DiffIsEmpty { from: String, to: String },
    /// Show the prompt to the user and read the response.
    Confirm { message: String, names: Vec<String> },
    /// Delete the local branch `name`.
    DeleteLocalBranch { name: String },
    /// Delete the branch `name` on `remote`.
    DeleteRemoteBranch { remote: String, name: String },
    /// Nothing more to do: report the run with this status.
    Report(ExitStatus),
}

/// A request as specifications see it.
pub enum ActionView {
    CurrentBranch,
    ListRemotes,
    ListLocalBranches { excluding: Seq<char> },
    ListRemoteBranches { remote: Seq<char> },
    IsAncestor { branch: Seq<char>, base: Seq<char> },
    MergeBase { branch: Seq<char>, base: Seq<char> },
    DiffIsEmpty { from: Seq<char>, to: Seq<char> },
    Confirm { message: Seq<char>, names: Seq<Seq<char>> },
    DeleteLocalBranch { name: Seq<char> },
    DeleteRemoteBranch { remote: Seq<char>, name: Seq<char> },
    Report(ExitStatus),
}

impl View for Action {
    type V = ActionView;

    open spec fn view(&self) -> ActionView {
        match self {
            Action::CurrentBranch => ActionView::CurrentBranch,
            Action::ListRemotes => ActionView::ListRemotes,
            Action::ListLocalBranches { excluding } => ActionView::ListLocalBranches {
                excluding: excluding@,
            },
            Action::ListRemoteBranches { remote } => ActionView::ListRemoteBranches {
                remote: remote@,
            },
            Action::IsAncestor { branch, base } => ActionView::IsAncestor {
                branch: branch@,
                base: base@,
            },
            Action::MergeBase { branch, base } => ActionView::MergeBase {
                branch: branch@,
                base: base@,
            },
            Action::DiffIsEmpty { from, to } => ActionView::DiffIsEmpty { from: from@, to: to@ },
            Action::Confirm { message, names } => ActionView::Confirm {
                message: message@,
                names: names.deep_view(),
            },
            Action::DeleteLocalBranch { name } => ActionView::DeleteLocalBranch { name: name@ },
            Action::DeleteRemoteBranch { remote, name } => ActionView::DeleteRemoteBranch {
                remote: remote@,
                name: name@,
            },
            Action::Report(status) => ActionView::Report(*status),
        }
    }
}

/// What came back for a request.
#[derive(Debug, PartialEq, Eq)]
pub enum Reply {
    /// The branch that is checked out.
    CurrentBranch(String),
    /// The configured remotes.
    Remotes(Vec<String>),
    /// The local branches, or why they could not be listed.
    LocalBranches(Result<Vec<String>, AdapterError>),
    /// The branches of the remote, or why they could not be listed.
    RemoteBranches(Result<Vec<String>, AdapterError>),
    /// Whether the branch is an ancestor of the base branch.
    Ancestor(Result<bool, AdapterError>),
    /// The nearest common ancestor of branch and base.
    MergeBase(Result<String, AdapterError>),
    /// Whether the branch's changes leave the base branch as it is.
    DiffEmpty(Result<bool, AdapterError>),
    /// What the user answered to the prompt.
    Confirmation(Response),
    /// Whether the branch was deleted.
    Deleted(Result<(), AdapterError>),
}

/// A reply as specifications see it.
pub enum ReplyView {
    CurrentBranch(Seq<char>),
    Remotes(Seq<Seq<char>>),
    LocalBranches(Result<Seq<Seq<char>>, AdapterError>),
    RemoteBranches(Result<Seq<Seq<char>>, AdapterError>),
    Ancestor(Result<bool, AdapterError>),
    MergeBase(Result<Seq<char>, AdapterError>),
    DiffEmpty(Result<bool, AdapterError>),
    Confirmation(ResponseView),
    Deleted(Result<(), AdapterError>),
}

/// A listing as specifications see it.
pub open spec fn listing_view(listing: Result<Vec<String>, AdapterError>) -> Result<
    Seq<Seq<char>>,
    AdapterError,
> {
    match listing {
        Ok(names) => Ok(names.deep_view()),
        Err(reason) => Err(reason),
    }
}

impl View for Reply {
    type V = ReplyView;

    open spec fn view(&self) -> ReplyView {
        match self {
            Reply::CurrentBranch(name) => ReplyView::CurrentBranch(name@),
            Reply::Remotes(names) => ReplyView::Remotes(names.deep_view()),
            Reply::LocalBranches(listing) => ReplyView::LocalBranches(listing_view(*listing)),
            Reply::RemoteBranches(listing) => ReplyView::RemoteBranches(listing_view(*listing)),
            Reply::Ancestor(answer) => ReplyView::Ancestor(*answer),
            Reply::MergeBase(answer) => ReplyView::MergeBase(
                match answer {
                    Ok(commit) => Ok(commit@),
                    Err(reason) => Err(*reason),
                },
            ),
            Reply::DiffEmpty(answer) => ReplyView::DiffEmpty(*answer),
            Reply::Confirmation(response) => ReplyView::Confirmation(response@),
            Reply::Deleted(done) => ReplyView::Deleted(*done),
        }
    }
}

/// A branch that could not be classified, and why. Such a branch is left
/// out of the plan.
#[derive(Debug, Clone, PartialEq, Eq)]
pub struct Skipped {
    pub branch: Branch,
    pub reason: AdapterError,
}

/// A skipped branch as specifications see it.
pub struct SkippedView {
    pub branch: BranchView,
    pub reason: AdapterError,
}

impl View for Skipped {
    type V = SkippedView;

    open spec fn view(&self) -> SkippedView {
        SkippedView { branch: self.branch@, reason: self.reason }
    }
}

impl DeepView for Skipped {
    type V = SkippedView;

    open spec fn deep_view(&self) -> SkippedView {
        self@
    }
}

} // verus!
