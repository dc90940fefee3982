//! Run configuration: what the user asked for, resolved once at startup.

use vstd::prelude::*;
use vstd::string::*;

use crate::error::Error;
use crate::text::{copy_names, holds_name, same_name};

verus! {

/// The base branch of a run that names none.
pub const DEFAULT_BRANCH: &'static str = "main";

/// The remote of a run that names none.
pub const DEFAULT_REMOTE: &'static str = "origin";

/// Which copies of a branch a run is allowed to delete.
#[derive(Debug, Clone, Copy, PartialEq, Eq, Structural)]
pub enum DeleteMode {
    Local,
    Remote,
    Both,
}

/// The command line after parsing: one field for each switch and option.
#[derive(Debug, Clone)]
pub struct Arguments {
    /// Only delete local branches.
    pub locals: bool,
    /// Only delete remote branches.
    pub remotes: bool,
    /// Delete without asking first.
    pub yes: bool,
    /// Also look for branches that were merged by squashing.
    pub squashes: bool,
    /// Also delete local branches that were never pushed.
    pub delete_unpushed_branches: bool,
    /// The remote to work against.
    pub remote: String,
    /// The base branch.
    pub branch: String,
    /// Branches that must never be deleted.
    pub ignore: Vec<String>,
}

impl Default for Arguments {
    /// The command line with nothing on it: the default remote and base
    /// branch, every switch off and nothing ignored.
    fn default() -> (args: Arguments)
        ensures
            !args.locals,
            !args.remotes,
            !args.yes,
            !args.squashes,
            !args.delete_unpushed_branches,
            args.remote@ == DEFAULT_REMOTE@,
            args.branch@ == DEFAULT_BRANCH@,
            args.ignore.deep_view() == Seq::<Seq<char>>::empty(),
    {
        let args = Arguments {
            locals: false,
            remotes: false,
            yes: false,
            squashes: false,
            delete_unpushed_branches: false,
            remote: String::from_str(DEFAULT_REMOTE),
            branch: String::from_str(DEFAULT_BRANCH),
            ignore: Vec::new(),
        };
        proof {
            assert(args.ignore.deep_view() =~= Seq::<Seq<char>>::empty());
        }
        args
    }
}

impl DeleteMode {
    /// The mode that the two scope switches select: `locals` wins over
    /// `remotes`, and with neither both scopes are cleaned.
    pub open spec fn selected(locals: bool, remotes: bool) -> DeleteMode {
        if locals {
            DeleteMode::Local
        } else if remotes {
            DeleteMode::Remote
        } else {
            DeleteMode::Both
        }
    }

    /// The words that close the warning shown before anything is deleted.
    pub open spec fn place(self) -> Seq<char> {
        match self {
            DeleteMode::Local => "locally:"@,
            DeleteMode::Remote => "remotely:"@,
            DeleteMode::Both => "locally and remotely:"@,
        }
    }

    /// The full warning line for this mode.
    pub open spec fn warning(self) -> Seq<char> {
        "The following branches will be deleted "@ + self.place()
    }

    /// Reads the delete mode off the parsed command line.
    pub fn new(opts: &Arguments) -> (mode: DeleteMode)
        ensures
            mode == DeleteMode::selected(opts.locals, opts.remotes),
    {
        if opts.locals {
            DeleteMode::Local
        } else if opts.remotes {
            DeleteMode::Remote
        } else {
            DeleteMode::Both
        }
    }

    /// The line printed above the branch names when the user is asked to
    /// confirm a deletion.
    pub fn warning_message(&self) -> (message: String)
        ensures
            message@ == self.warning(),
    {
        let source = match *self {
            DeleteMode::Local => "locally:",
            DeleteMode::Remote => "remotely:",
            DeleteMode::Both => "locally and remotely:",
        };
        String::from_str("The following branches will be deleted ").concat(source)
    }
}

/// The configuration of one run. It is fixed before the first request to the
/// repository and never changes afterwards.
#[derive(Debug)]
pub struct Options {
    /// The remote whose branches are cleaned and compared against.
    pub remote: String,
    /// The branch that everything else is measured against.
    pub base_branch: String,
    /// Whether to look for squash merges.
    pub squashes: bool,
    /// Whether local branches without a remote counterpart may be deleted.
    pub delete_unpushed_branches: bool,
    /// Branch names that are never deleted.
    pub ignored_branches: Vec<String>,
    /// Which scopes may be touched.
    pub delete_mode: DeleteMode,
    /// Whether to delete without asking.
    pub skip_confirmation: bool,
}

/// The configuration as specifications see it.
pub struct OptionsView {
    pub remote: Seq<char>,
    pub base_branch: Seq<char>,
    pub squashes: bool,
    pub delete_unpushed_branches: bool,
    pub ignored_branches: Seq<Seq<char>>,
    pub delete_mode: DeleteMode,
    pub skip_confirmation: bool,
}

impl View for Options {
    type V = OptionsView;

    open spec fn view(&self) -> OptionsView {
        OptionsView {
            remote: self.remote@,
            base_branch: self.base_branch@,
            squashes: self.squashes,
            delete_unpushed_branches: self.delete_unpushed_branches,
            ignored_branches: self.ignored_branches.deep_view(),
            delete_mode: self.delete_mode,
            skip_confirmation: self.skip_confirmation,
        }
    }
}

impl OptionsView {
    /// The configuration that a parsed command line stands for.
    pub open spec fn of(args: Arguments) -> OptionsView {
        OptionsView {
            remote: args.remote@,
            base_branch: args.branch@,
            squashes: args.squashes,
            delete_unpushed_branches: args.delete_unpushed_branches,
            ignored_branches: args.ignore.deep_view(),
            delete_mode: DeleteMode::selected(args.locals, args.remotes),
            skip_confirmation: args.yes,
        }
    }

    /// The verdict on a configuration, given the branch that is checked out
    /// and the remotes that the repository knows. The base branch is looked
    /// at first.
    pub open spec fn verdict(self, current_branch: Seq<char>, remotes: Seq<Seq<char>>) -> Result<
        (),
        Error,
    > {
        if current_branch != self.base_branch {
            Err(Error::CurrentBranchInvalid)
        } else if !remotes.contains(self.remote) {
            Err(Error::InvalidRemote)
        } else {
            Ok(())
        }
    }
}

impl Options {
    /// Builds the configuration from the parsed command line.
    pub fn new(opts: &Arguments) -> (options: Options)
        ensures
            options@ == OptionsView::of(*opts),
    {
        Options {
            remote: opts.remote.clone(),
            base_branch: opts.branch.clone(),
            ignored_branches: copy_names(&opts.ignore),
            squashes: opts.squashes,
            delete_unpushed_branches: opts.delete_unpushed_branches,
            delete_mode: DeleteMode::new(opts),
            skip_confirmation: opts.yes,
        }
    }

    /// A copy of this configuration.
    pub fn duplicate(&self) -> (copy: Options)
        ensures
            copy@ == self@,
    {
        Options {
            remote: self.remote.clone(),
            base_branch: self.base_branch.clone(),
            ignored_branches: copy_names(&self.ignored_branches),
            squashes: self.squashes,
            delete_unpushed_branches: self.delete_unpushed_branches,
            delete_mode: self.delete_mode,
            skip_confirmation: self.skip_confirmation,
        }
    }

    /// Checks the configuration against the repository: the run must start
    /// from the base branch, and the remote must be one that the repository
    /// has. `current_branch` is the branch that is checked out, `remotes` the
    /// names of the configured remotes.
    pub fn validate(&self, current_branch: &str, remotes: &Vec<String>) -> (checked: Result<
        (),
        Error,
    >)
        ensures
            checked == self@.verdict(current_branch@, remotes.deep_view()),
    {
        match self.validate_base_branch(current_branch) {
            Ok(()) => {},
            Err(e) => {
                return Err(e);
            },
        }
        self.validate_remote(remotes)
    }

    /// The run only works from the base branch: anything else checked out
    /// is refused.
    pub fn validate_base_branch(&self, current_branch: &str) -> (checked: Result<(), Error>)
        ensures
            checked == if current_branch@ == self.base_branch@ {
                Ok::<(), Error>(())
            } else {
                Err::<(), Error>(Error::CurrentBranchInvalid)
            },
    {
        if !same_name(current_branch, self.base_branch.as_str()) {
            return Err(Error::CurrentBranchInvalid);
        }
        Ok(())
    }

    /// The remote must be named, letter for letter, among the repository's
    /// remotes.
    pub fn validate_remote(&self, remotes: &Vec<String>) -> (checked: Result<(), Error>)
        ensures
            checked == if remotes.deep_view().contains(self.remote@) {
                Ok::<(), Error>(())
            } else {
                Err::<(), Error>(Error::InvalidRemote)
            },
    {
        if !holds_name(remotes, self.remote.as_str()) {
            return Err(Error::InvalidRemote);
        }
        Ok(())
    }
}

} // verus!
