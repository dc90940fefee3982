//! One run, step by step.
//!
//! The engine holds the state of a run and decides; it performs nothing. It
//! says what it needs next, the caller gets it from the repository or from
//! the user and hands the reply back.

use vstd::prelude::*;
use vstd::string::*;

use crate::branch::{list_branches, Branch, BranchView, Scope};
use crate::classify::{classify, Classified, ClassifiedView, Findings, Progress, Question};
use crate::confirm::{confirm, effective_plan, prompt, Prompt, Response};
use crate::error::{AdapterError, Error};
use crate::execute::{exit_status, record, report, reported, Attempt, ExecutionResult, ExitStatus};
use crate::laws::law_valid_is_kept;
use crate::model::{
    advance, after_local, begin_classification, begin_execution, confirmed, executed, finished,
    initial, make_plan, next_candidate, open_question, pending, phase_of, reference, settle,
    valid, validated, with_local, with_remote, EngineView,
};
use crate::options::{DeleteMode, Options};
use crate::plan::{build_plan, DeletionPlan};
use crate::protocol::{listing_view, Action, Phase, Reply, Skipped, SkippedView, Stage};

verus! {

/// The state of one run.
#[derive(Debug)]
pub struct Engine {
    options: Options,
    stage: Stage,
    current_branch: String,
    candidates: Vec<Branch>,
    remote_branches: Vec<Branch>,
    tolerated: Option<Error>,
    cursor: usize,
    findings: Findings,
    classified: Vec<Classified>,
    skipped: Vec<Skipped>,
    plan: DeletionPlan,
    results: Vec<ExecutionResult>,
}

impl View for Engine {
    type V = EngineView;

    closed spec fn view(&self) -> EngineView {
        EngineView {
            options: self.options@,
            stage: self.stage,
            current_branch: self.current_branch@,
            candidates: self.candidates.deep_view(),
            remote_branches: self.remote_branches.deep_view(),
            tolerated: self.tolerated,
            cursor: self.cursor as nat,
            findings: self.findings@,
            classified: self.classified.deep_view(),
            skipped: self.skipped.deep_view(),
            plan: self.plan@,
            results: self.results@,
        }
    }
}

/// The name under which the repository knows `branch`.
pub fn reference_of(branch: &Branch, remote: &str) -> (name: String)
    ensures
        name@ == reference(branch@, remote@),
{
    match branch.scope {
        Scope::Local => branch.name.clone(),
        Scope::Remote => String::from_str(remote).concat("/").concat(branch.name.as_str()),
    }
}

/// Adds copies of `more` to the end of `branches`.
fn append_copies(branches: &mut Vec<Branch>, more: &Vec<Branch>)
    ensures
        final(branches).deep_view() == old(branches).deep_view() + more.deep_view(),
{
    let ghost before = branches.deep_view();
    let mut i: usize = 0;
    proof {
        assert(more.deep_view().take(0) =~= Seq::empty());
        assert(before + Seq::<BranchView>::empty() =~= before);
    }
    while i < more.len()
        invariant
            i <= more.len(),
            branches.deep_view() == before + more.deep_view().take(i as int),
        decreases more.len() - i,
    {
        let ghost so_far = branches.deep_view();
        branches.push(more[i].duplicate());
        proof {
            assert(branches.deep_view() =~= so_far.push(more[i as int]@));
            assert(more.deep_view().take(i + 1) =~= more.deep_view().take(i as int).push(
                more[i as int]@,
            ));
            assert(branches.deep_view() =~= before + more.deep_view().take(i + 1));
        }
        i += 1;
    }
    proof {
        assert(more.deep_view().take(more.len() as int) =~= more.deep_view());
    }
}

impl Engine {
    /// A run that has not asked for anything yet.
    pub fn new(options: Options) -> (engine: Engine)
        ensures
            engine@ == initial(options@),
            valid(engine@),
    {
        let engine = Engine {
            options,
            stage: Stage::CurrentBranch,
            current_branch: String::new(),
            candidates: Vec::new(),
            remote_branches: Vec::new(),
            tolerated: None,
            cursor: 0,
            findings: Findings::new(),
            classified: Vec::new(),
            skipped: Vec::new(),
            plan: DeletionPlan::empty(),
            results: Vec::new(),
        };
        proof {
            assert(engine.candidates.deep_view() =~= Seq::<BranchView>::empty());
            assert(engine.remote_branches.deep_view() =~= Seq::<BranchView>::empty());
            assert(engine.classified.deep_view() =~= Seq::<ClassifiedView>::empty());
            assert(engine.skipped.deep_view() =~= Seq::<SkippedView>::empty());
            assert(engine.results@ =~= Seq::<ExecutionResult>::empty());
        }
        engine
    }

    fn finished(self, status: ExitStatus) -> (next: Engine)
        ensures
            next@ == finished(self@, status),
    {
        Engine { stage: Stage::Finished(status), ..self }
    }

    fn begin_execution(self) -> (next: Engine)
        ensures
            next@ == begin_execution(self@),
    {
        if self.plan.len() > 0 {
            Engine { stage: Stage::Executing, ..self }
        } else {
            self.finished(ExitStatus::Success)
        }
    }

    fn make_plan(self) -> (next: Engine)
        ensures
            next@ == make_plan(self@),
    {
        let plan = build_plan(&self.classified, &self.options);
        let skip = self.options.skip_confirmation;
        let with_plan = Engine { plan, findings: Findings::new(), ..self };
        if skip {
            with_plan.begin_execution()
        } else {
            Engine { stage: Stage::Confirming, ..with_plan }
        }
    }

    fn next_candidate(self) -> (next: Engine)
        ensures
            next@ == next_candidate(self@),
    {
        if self.cursor < self.candidates.len() && self.cursor + 1 < self.candidates.len() {
            Engine {
                stage: Stage::Classifying,
                cursor: self.cursor + 1,
                findings: Findings::new(),
                ..self
            }
        } else {
            self.make_plan()
        }
    }

    fn begin_classification(self) -> (next: Engine)
        ensures
            next@ == begin_classification(self@),
    {
        if self.candidates.len() > 0 {
            Engine { stage: Stage::Classifying, cursor: 0, findings: Findings::new(), ..self }
        } else {
            self.make_plan()
        }
    }

    fn settle(self) -> (next: Engine)
        ensures
            next@ == settle(self@),
    {
        let index = self.cursor;
        if index >= self.candidates.len() {
            return self.make_plan();
        }
        let verdict = classify(
            &self.candidates[index],
            &self.findings,
            &self.remote_branches,
            &self.options,
        );
        match verdict {
            Progress::Ask(_) => self,
            Progress::Done(class) => {
                let mut engine = self;
                let ghost before = engine.classified.deep_view();
                let branch = engine.candidates[index].duplicate();
                let ghost item = ClassifiedView { branch: branch@, class };
                engine.classified.push(Classified { branch, class });
                proof {
                    assert(engine.classified.deep_view() =~= before.push(item));
                }
                engine.next_candidate()
            },
            Progress::Failed(reason) => {
                let mut engine = self;
                let ghost before = engine.skipped.deep_view();
                let branch = engine.candidates[index].duplicate();
                let ghost item = SkippedView { branch: branch@, reason };
                engine.skipped.push(Skipped { branch, reason });
                proof {
                    assert(engine.skipped.deep_view() =~= before.push(item));
                }
                engine.next_candidate()
            },
        }
    }

    fn open_question(&self) -> (question: Option<Question>)
        ensures
            question == open_question(self@),
    {
        match self.stage {
            Stage::Classifying => {
                let index = self.cursor;
                if index < self.candidates.len() {
                    match classify(
                        &self.candidates[index],
                        &self.findings,
                        &self.remote_branches,
                        &self.options,
                    ) {
                        Progress::Ask(question) => Some(question),
                        _ => None,
                    }
                } else {
                    None
                }
            },
            _ => None,
        }
    }

    fn validated(self, remotes: Vec<String>) -> (next: Engine)
        ensures
            next@ == validated(self@, remotes.deep_view()),
    {
        match self.options.validate(self.current_branch.as_str(), &remotes) {
            Err(error) => self.finished(ExitStatus::Fatal(error)),
            Ok(_) => match self.options.delete_mode {
                DeleteMode::Remote => Engine { stage: Stage::RemoteBranches, ..self },
                _ => Engine { stage: Stage::LocalBranches, ..self },
            },
        }
    }

    fn after_local(self) -> (next: Engine)
        ensures
            next@ == after_local(self@),
    {
        let remote_in_scope = match self.options.delete_mode {
            DeleteMode::Local => false,
            _ => true,
        };
        if remote_in_scope || self.options.delete_unpushed_branches {
            Engine { stage: Stage::RemoteBranches, ..self }
        } else {
            self.begin_classification()
        }
    }

    fn with_local(self, listing: Result<Vec<String>, AdapterError>) -> (next: Engine)
        ensures
            next@ == with_local(self@, listing_view(listing)),
    {
        match list_branches(&listing, Scope::Local, self.options.base_branch.as_str()) {
            Ok(found) => Engine { candidates: found, ..self }.after_local(),
            Err(error) => match self.options.delete_mode {
                DeleteMode::Both => Engine { tolerated: Some(error), ..self }.after_local(),
                _ => self.finished(ExitStatus::Fatal(error)),
            },
        }
    }

    fn with_remote(self, listing: Result<Vec<String>, AdapterError>) -> (next: Engine)
        ensures
            next@ == with_remote(self@, listing_view(listing)),
    {
        match list_branches(&listing, Scope::Remote, self.options.base_branch.as_str()) {
            Ok(found) => {
                let mut engine = self;
                match engine.options.delete_mode {
                    DeleteMode::Local => {},
                    _ => {
                        append_copies(&mut engine.candidates, &found);
                    },
                }
                engine.remote_branches = found;
                engine.begin_classification()
            },
            Err(error) => {
                let both = match self.options.delete_mode {
                    DeleteMode::Both => true,
                    _ => false,
                };
                if both && self.tolerated.is_none() && !self.options.delete_unpushed_branches {
                    Engine { tolerated: Some(error), ..self }.begin_classification()
                } else {
                    self.finished(ExitStatus::Fatal(error))
                }
            },
        }
    }

    fn answered(self, reply: Reply) -> (next: Engine)
        requires
            self@.stage == Stage::Classifying,
        ensures
            next@ == advance(self@, reply@),
    {
        proof {
            reveal(advance);
        }
        let question = self.open_question();
        match (question, reply) {
            (Some(Question::Ancestor), Reply::Ancestor(answer)) => {
                let mut engine = self;
                engine.findings.ancestor = Some(answer);
                engine.settle()
            },
            (Some(Question::MergeBase), Reply::MergeBase(answer)) => {
                let mut engine = self;
                engine.findings.merge_base = Some(answer);
                engine.settle()
            },
            (Some(Question::DiffEmpty), Reply::DiffEmpty(answer)) => {
                let mut engine = self;
                engine.findings.diff_empty = Some(answer);
                engine.settle()
            },
            _ => self,
        }
    }

    fn confirmed(self, response: Response) -> (next: Engine)
        ensures
            next@ == confirmed(self@, response@),
    {
        let approved = confirm(&self.options, &response);
        let mut after = self;
        after.plan = effective_plan(after.plan, approved);
        if approved {
            after.begin_execution()
        } else {
            after.finished(ExitStatus::Success)
        }
    }

    fn executed(self, done: Result<(), AdapterError>) -> (next: Engine)
        ensures
            next@ == executed(self@, done),
    {
        let mut engine = self;
        engine.results.push(record(&done));
        if engine.results.len() < engine.plan.len() {
            engine
        } else {
            let status = exit_status(&engine.results);
            engine.finished(status)
        }
    }

    /// Takes in the reply to the pending request and moves the run on. A
    /// reply to anything else leaves the run where it is.
    pub fn step(self, reply: Reply) -> (next: Engine)
        ensures
            next@ == advance(self@, reply@),
            valid(self@) ==> valid(next@),
    {
        proof {
            reveal(advance);
        }
        proof {
            if valid(self@) {
                law_valid_is_kept(self@, reply@);
            }
        }
        match self.stage {
            Stage::CurrentBranch => match reply {
                Reply::CurrentBranch(name) => Engine {
                    current_branch: name,
                    stage: Stage::Remotes,
                    ..self
                },
                _ => self,
            },
            Stage::Remotes => match reply {
                Reply::Remotes(remotes) => self.validated(remotes),
                _ => self,
            },
            Stage::LocalBranches => match reply {
                Reply::LocalBranches(listing) => self.with_local(listing),
                _ => self,
            },
            Stage::RemoteBranches => match reply {
                Reply::RemoteBranches(listing) => self.with_remote(listing),
                _ => self,
            },
            Stage::Classifying => self.answered(reply),
            Stage::Confirming => match reply {
                Reply::Confirmation(response) => self.confirmed(response),
                _ => self,
            },
            Stage::Executing => match reply {
                Reply::Deleted(done) => self.executed(done),
                _ => self,
            },
            Stage::Finished(_) => self,
        }
    }

    /// What the run needs next.
    pub fn action(&self) -> (action: Action)
        ensures
            action@ == pending(self@),
    {
        match self.stage {
            Stage::CurrentBranch => Action::CurrentBranch,
            Stage::Remotes => Action::ListRemotes,
            Stage::LocalBranches => Action::ListLocalBranches {
                excluding: self.options.base_branch.clone(),
            },
            Stage::RemoteBranches => Action::ListRemoteBranches {
                remote: self.options.remote.clone(),
            },
            Stage::Classifying => match self.open_question() {
                Some(question) => {
                    let branch = reference_of(
                        &self.candidates[self.cursor],
                        self.options.remote.as_str(),
                    );
                    let base = self.options.base_branch.clone();
                    match question {
                        Question::Ancestor => Action::IsAncestor { branch, base },
                        Question::MergeBase => Action::MergeBase { branch, base },
                        Question::DiffEmpty => Action::DiffIsEmpty {
                            from: match &self.findings.merge_base {
                                Some(Ok(commit)) => commit.clone(),
                                _ => base,
                            },
                            to: branch,
                        },
                    }
                },
                None => Action::Report(exit_status(&self.results)),
            },
            Stage::Confirming => {
                let Prompt { message, names } = prompt(&self.plan, &self.options);
                Action::Confirm { message, names }
            },
            Stage::Executing => match self.plan.get(self.results.len()) {
                Some(entry) => match entry.scope {
                    Scope::Local => Action::DeleteLocalBranch { name: entry.name.clone() },
                    Scope::Remote => Action::DeleteRemoteBranch {
                        remote: self.options.remote.clone(),
                        name: entry.name.clone(),
                    },
                },
                None => Action::Report(exit_status(&self.results)),
            },
            Stage::Finished(status) => Action::Report(status),
        }
    }

    /// The configuration of the run.
    pub fn options(&self) -> (options: &Options)
        ensures
            options@ == self@.options,
    {
        &self.options
    }

    /// What the run is waiting for.
    pub fn stage(&self) -> (stage: Stage)
        ensures
            stage == self@.stage,
    {
        self.stage
    }

    /// The phase that the run is in.
    pub fn phase(&self) -> (phase: Phase)
        ensures
            phase == phase_of(self@.stage),
    {
        match self.stage {
            Stage::CurrentBranch => Phase::Validate,
            Stage::Remotes => Phase::Validate,
            Stage::LocalBranches => Phase::Enumerate,
            Stage::RemoteBranches => Phase::Enumerate,
            Stage::Classifying => Phase::Classify,
            Stage::Confirming => Phase::Confirm,
            Stage::Executing => Phase::Execute,
            Stage::Finished(_) => Phase::Report,
        }
    }

    /// How the run ended, once it is over.
    pub fn status(&self) -> (status: Option<ExitStatus>)
        ensures
            status == match self@.stage {
                Stage::Finished(status) => Some(status),
                _ => None,
            },
    {
        match self.stage {
            Stage::Finished(status) => Some(status),
            _ => None,
        }
    }

    /// The branches that the run classifies.
    pub fn candidates(&self) -> (candidates: &Vec<Branch>)
        ensures
            candidates.deep_view() == self@.candidates,
    {
        &self.candidates
    }

    /// The branches classified so far.
    pub fn classified(&self) -> (classified: &Vec<Classified>)
        ensures
            classified.deep_view() == self@.classified,
    {
        &self.classified
    }

    /// The branches that could not be classified, each with the reason.
    /// They are left out of the plan.
    pub fn skipped(&self) -> (skipped: &Vec<Skipped>)
        ensures
            skipped.deep_view() == self@.skipped,
    {
        &self.skipped
    }

    /// The listing failure that the run survived, if there was one.
    pub fn tolerated(&self) -> (error: Option<Error>)
        ensures
            error == self@.tolerated,
    {
        self.tolerated
    }

    /// The plan: empty until it is made, and empty again after a refusal.
    pub fn plan(&self) -> (plan: &DeletionPlan)
        ensures
            plan@ == self@.plan,
    {
        &self.plan
    }

    /// The outcomes of the deletions attempted so far, in plan order.
    pub fn results(&self) -> (results: &Vec<ExecutionResult>)
        ensures
            results@ == self@.results,
    {
        &self.results
    }

    /// The report: every deletion attempted so far with its outcome.
    pub fn report(&self) -> (lines: Vec<Attempt>)
        ensures
            lines.deep_view() == reported(self@.plan, self@.results),
    {
        report(&self.plan, &self.results)
    }
}

} // verus!
