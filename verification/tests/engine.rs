use git_clean::branch::{Branch, Scope};
use git_clean::classify::{Classification, Classified};
use git_clean::confirm::Response;
use git_clean::engine::{reference_of, Engine};
use git_clean::error::{AdapterError, Error};
use git_clean::execute::{Attempt, ExecutionResult, ExitStatus};
use git_clean::options::{Arguments, DeleteMode, Options};
use git_clean::plan::PlanEntry;
use git_clean::protocol::{Action, Phase, Reply, Skipped, Stage};

/// A repository that lives in memory and answers from what it was told.
struct Repository {
    current_branch: String,
    remotes: Vec<String>,
    local: Result<Vec<String>, AdapterError>,
    remote: Result<Vec<String>, AdapterError>,
    /// Refs that are ancestors of the base branch.
    merged: Vec<String>,
    /// Refs whose changes are in the base branch already.
    squashed: Vec<String>,
    /// Refs about which the repository answers nothing.
    unreadable: Vec<String>,
    /// Deletions that fail, by ref, with the reason.
    stuck: Vec<(String, AdapterError)>,
    response: Response,
    /// Everything that was asked for, in order.
    asked: Vec<Action>,
    /// The refs that were deleted, in order.
    deleted: Vec<String>,
    /// The phases that the run was seen in, in order.
    phases: Vec<Phase>,
}

fn names(list: &[&str]) -> Vec<String> {
    list.iter().map(|s| s.to_string()).collect()
}

fn repository(local: &[&str], remote: &[&str]) -> Repository {
    Repository {
        current_branch: "main".to_owned(),
        remotes: names(&["origin"]),
        local: Ok(names(local)),
        remote: Ok(names(remote)),
        merged: Vec::new(),
        squashed: Vec::new(),
        unreadable: Vec::new(),
        stuck: Vec::new(),
        response: Response::Line("y\n".to_owned()),
        asked: Vec::new(),
        deleted: Vec::new(),
        phases: Vec::new(),
    }
}

impl Repository {
    fn merge_base(branch: &str) -> String {
        format!("base-of-{}", branch)
    }

    fn delete(&mut self, name: String) -> Reply {
        match self.stuck.iter().find(|(stuck, _)| *stuck == name) {
            Some((_, reason)) => Reply::Deleted(Err(*reason)),
            None => {
                self.deleted.push(name);
                Reply::Deleted(Ok(()))
            }
        }
    }

    fn reply(&mut self, action: Action) -> Option<Reply> {
        Some(match action {
            Action::CurrentBranch => Reply::CurrentBranch(self.current_branch.clone()),
            Action::ListRemotes => Reply::Remotes(self.remotes.clone()),
            Action::ListLocalBranches { .. } => Reply::LocalBranches(self.local.clone()),
            Action::ListRemoteBranches { .. } => Reply::RemoteBranches(self.remote.clone()),
            Action::IsAncestor { branch, .. } => Reply::Ancestor(if self.unreadable.contains(&branch) {
                Err(AdapterError::Other)
            } else {
                Ok(self.merged.contains(&branch))
            }),
            Action::MergeBase { branch, .. } => Reply::MergeBase(Ok(Repository::merge_base(&branch))),
            Action::DiffIsEmpty { from, to } => {
                assert_eq!(from, Repository::merge_base(&to));
                Reply::DiffEmpty(Ok(self.squashed.contains(&to)))
            }
            Action::Confirm { .. } => Reply::Confirmation(self.response.clone()),
            Action::DeleteLocalBranch { name } => self.delete(name),
            Action::DeleteRemoteBranch { remote, name } => self.delete(format!("{}/{}", remote, name)),
            Action::Report(_) => return None,
        })
    }
}

fn run(options: Options, repo: &mut Repository) -> Engine {
    let mut engine = Engine::new(options);
    loop {
        let action = engine.action();
        repo.asked.push(action.clone());
        repo.phases.push(engine.phase());
        match repo.reply(action) {
            Some(reply) => engine = engine.step(reply),
            None => return engine,
        }
    }
}

fn options(args: Arguments) -> Options {
    Options::new(&args)
}

fn quiet(args: Arguments) -> Options {
    Options::new(&Arguments { yes: true, ..args })
}

fn entry(name: &str, scope: Scope) -> PlanEntry {
    PlanEntry { name: name.to_owned(), scope }
}

fn branch(name: &str, scope: Scope) -> Branch {
    Branch { name: name.to_owned(), scope, is_base: false }
}

fn deletes(asked: &[Action]) -> usize {
    asked
        .iter()
        .filter(|a| {
            matches!(a, Action::DeleteLocalBranch { .. } | Action::DeleteRemoteBranch { .. })
        })
        .count()
}

#[test]
fn scenario_merged_local_branch_is_deleted() {
    let mut repo = repository(&["main", "feature-a", "feature-b"], &[]);
    repo.merged = names(&["feature-a"]);
    let engine = run(quiet(Arguments { locals: true, ..Arguments::default() }), &mut repo);

    assert_eq!(engine.plan().entries(), &vec![entry("feature-a", Scope::Local)]);
    assert_eq!(engine.results(), &vec![ExecutionResult::Deleted]);
    assert_eq!(engine.status(), Some(ExitStatus::Success));
    assert_eq!(repo.deleted, vec!["feature-a"]);
    assert_eq!(
        engine.classified(),
        &vec![
            Classified { branch: branch("feature-a", Scope::Local), class: Classification::Merged },
            Classified { branch: branch("feature-b", Scope::Local), class: Classification::Active },
        ]
    );
    assert!(!repo.asked.iter().any(|a| matches!(a, Action::Confirm { .. })));
    assert!(!repo.asked.iter().any(|a| matches!(a, Action::ListRemoteBranches { .. })));
    assert!(!repo.asked.iter().any(|a| matches!(a, Action::MergeBase { .. })));
}

#[test]
fn scenario_squashed_branch_is_planned() {
    let mut repo = repository(&["main", "feature-c"], &[]);
    repo.squashed = names(&["feature-c"]);
    let engine = run(
        quiet(Arguments { locals: true, squashes: true, ..Arguments::default() }),
        &mut repo,
    );

    assert_eq!(
        engine.classified(),
        &vec![Classified {
            branch: branch("feature-c", Scope::Local),
            class: Classification::Squashed
        }]
    );
    assert_eq!(engine.plan().entries(), &vec![entry("feature-c", Scope::Local)]);
    assert_eq!(repo.deleted, vec!["feature-c"]);
    assert!(repo.asked.contains(&Action::MergeBase {
        branch: "feature-c".to_owned(),
        base: "main".to_owned()
    }));
    assert!(repo.asked.contains(&Action::DiffIsEmpty {
        from: "base-of-feature-c".to_owned(),
        to: "feature-c".to_owned()
    }));
}

#[test]
fn scenario_unpushed_branch_is_planned_locally() {
    let mut repo = repository(&["main", "feature-d", "pushed"], &["main", "pushed"]);
    let engine = run(
        quiet(Arguments { delete_unpushed_branches: true, ..Arguments::default() }),
        &mut repo,
    );

    assert_eq!(
        engine.classified()[0],
        Classified { branch: branch("feature-d", Scope::Local), class: Classification::Unpushed }
    );
    assert_eq!(engine.plan().entries(), &vec![entry("feature-d", Scope::Local)]);
    assert_eq!(repo.deleted, vec!["feature-d"]);
}

#[test]
fn squashed_branch_is_active_without_squash_detection() {
    let mut repo = repository(&["main", "feature-c"], &[]);
    repo.squashed = names(&["feature-c"]);
    let engine = run(quiet(Arguments { locals: true, ..Arguments::default() }), &mut repo);
    assert_eq!(engine.classified()[0].class, Classification::Active);
    assert!(engine.plan().is_empty());
    assert!(repo.deleted.is_empty());
    assert_eq!(engine.status(), Some(ExitStatus::Success));
}

#[test]
fn both_scopes_are_deleted_independently() {
    let mut repo = repository(&["main", "done", "busy"], &["HEAD -> origin/main", "main", "done"]);
    repo.merged = names(&["done", "origin/done"]);
    let engine = run(quiet(Arguments::default()), &mut repo);
    assert_eq!(
        engine.plan().entries(),
        &vec![entry("done", Scope::Local), entry("done", Scope::Remote)]
    );
    assert_eq!(repo.deleted, vec!["done", "origin/done"]);
    assert!(repo.asked.contains(&Action::IsAncestor {
        branch: "origin/done".to_owned(),
        base: "main".to_owned()
    }));
    assert!(repo.asked.contains(&Action::DeleteRemoteBranch {
        remote: "origin".to_owned(),
        name: "done".to_owned()
    }));
}

#[test]
fn remote_mode_touches_no_local_branch() {
    let mut repo = repository(&["main", "done"], &["main", "done", "other"]);
    repo.merged = names(&["done", "origin/done", "origin/other"]);
    let engine = run(quiet(Arguments { remotes: true, ..Arguments::default() }), &mut repo);
    assert_eq!(
        engine.plan().entries(),
        &vec![entry("done", Scope::Remote), entry("other", Scope::Remote)]
    );
    assert_eq!(repo.deleted, vec!["origin/done", "origin/other"]);
    assert!(!repo.asked.iter().any(|a| matches!(a, Action::ListLocalBranches { .. })));
    assert!(!repo.asked.iter().any(|a| matches!(a, Action::DeleteLocalBranch { .. })));
}

#[test]
fn local_mode_touches_no_remote_branch() {
    let mut repo = repository(&["main", "done"], &["main", "done"]);
    repo.merged = names(&["done", "origin/done"]);
    let engine = run(
        quiet(Arguments { locals: true, delete_unpushed_branches: true, ..Arguments::default() }),
        &mut repo,
    );
    assert_eq!(engine.plan().entries(), &vec![entry("done", Scope::Local)]);
    assert_eq!(repo.deleted, vec!["done"]);
    assert!(!repo.asked.iter().any(|a| matches!(a, Action::DeleteRemoteBranch { .. })));
}

#[test]
fn ignored_branches_survive_a_run() {
    let mut repo = repository(&["main", "done", "keep"], &["main", "keep"]);
    repo.merged = names(&["done", "keep", "origin/keep"]);
    let engine = run(
        quiet(Arguments { ignore: names(&["keep"]), ..Arguments::default() }),
        &mut repo,
    );
    assert_eq!(engine.plan().entries(), &vec![entry("done", Scope::Local)]);
    assert_eq!(repo.deleted, vec!["done"]);
}

#[test]
fn refusal_deletes_nothing() {
    for response in [
        Response::Line("n\n".to_owned()),
        Response::Line("\n".to_owned()),
        Response::Line("maybe".to_owned()),
        Response::Closed,
    ] {
        let mut repo = repository(&["main", "done", "gone"], &[]);
        repo.merged = names(&["done", "gone"]);
        repo.response = response;
        let engine = run(options(Arguments { locals: true, ..Arguments::default() }), &mut repo);
        assert!(engine.plan().is_empty());
        assert!(engine.results().is_empty());
        assert!(engine.report().is_empty());
        assert_eq!(engine.status(), Some(ExitStatus::Success));
        assert!(repo.deleted.is_empty());
        assert_eq!(deletes(&repo.asked), 0);
    }
}

#[test]
fn approval_carries_out_the_whole_plan() {
    let mut repo = repository(&["main", "done", "gone"], &[]);
    repo.merged = names(&["done", "gone"]);
    repo.response = Response::Line("Yes\n".to_owned());
    let engine = run(options(Arguments { locals: true, ..Arguments::default() }), &mut repo);
    assert_eq!(repo.deleted, vec!["done", "gone"]);
    assert_eq!(engine.results().len(), 2);
    assert!(repo.asked.contains(&Action::Confirm {
        message: "The following branches will be deleted locally:".to_owned(),
        names: names(&["done", "gone"])
    }));
}

#[test]
fn the_user_is_asked_exactly_once_and_before_any_deletion() {
    let mut repo = repository(&["main", "done"], &[]);
    repo.merged = names(&["done"]);
    run(options(Arguments { locals: true, ..Arguments::default() }), &mut repo);
    let asked_at: Vec<usize> = repo
        .asked
        .iter()
        .enumerate()
        .filter(|(_, a)| matches!(a, Action::Confirm { .. }))
        .map(|(i, _)| i)
        .collect();
    assert_eq!(asked_at.len(), 1);
    let first_delete =
        repo.asked.iter().position(|a| matches!(a, Action::DeleteLocalBranch { .. })).unwrap();
    assert!(asked_at[0] < first_delete);
}

#[test]
fn failed_deletion_does_not_stop_the_others() {
    let mut repo = repository(&["main", "a", "b", "c"], &[]);
    repo.merged = names(&["a", "b", "c"]);
    repo.stuck = vec![("b".to_owned(), AdapterError::Rejected)];
    let engine = run(quiet(Arguments { locals: true, ..Arguments::default() }), &mut repo);
    assert_eq!(repo.deleted, vec!["a", "c"]);
    assert_eq!(deletes(&repo.asked), 3);
    assert_eq!(
        engine.results(),
        &vec![
            ExecutionResult::Deleted,
            ExecutionResult::Failed(AdapterError::Rejected),
            ExecutionResult::Deleted
        ]
    );
    assert_eq!(engine.status(), Some(ExitStatus::PartialFailure));
    assert_eq!(
        engine.report(),
        vec![
            Attempt { entry: entry("a", Scope::Local), result: ExecutionResult::Deleted },
            Attempt {
                entry: entry("b", Scope::Local),
                result: ExecutionResult::Failed(AdapterError::Rejected)
            },
            Attempt { entry: entry("c", Scope::Local), result: ExecutionResult::Deleted },
        ]
    );
}

#[test]
fn local_failure_does_not_block_the_remote_counterpart() {
    let mut repo = repository(&["main", "a"], &["main", "a"]);
    repo.merged = names(&["a", "origin/a"]);
    repo.stuck = vec![("a".to_owned(), AdapterError::Conflict)];
    let engine = run(quiet(Arguments::default()), &mut repo);
    assert_eq!(repo.deleted, vec!["origin/a"]);
    assert_eq!(
        engine.results(),
        &vec![ExecutionResult::Failed(AdapterError::Conflict), ExecutionResult::Deleted]
    );
}

#[test]
fn vanished_branch_is_reported_as_not_found() {
    let mut repo = repository(&["main", "a"], &[]);
    repo.merged = names(&["a"]);
    repo.stuck = vec![("a".to_owned(), AdapterError::NotFound)];
    let engine = run(quiet(Arguments { locals: true, ..Arguments::default() }), &mut repo);
    assert_eq!(engine.results(), &vec![ExecutionResult::Failed(AdapterError::NotFound)]);
    assert_eq!(engine.status(), Some(ExitStatus::PartialFailure));
}

#[test]
fn wrong_current_branch_is_fatal() {
    let mut repo = repository(&["main", "done"], &[]);
    repo.current_branch = "done".to_owned();
    repo.merged = names(&["done"]);
    let engine = run(quiet(Arguments::default()), &mut repo);
    assert_eq!(engine.status(), Some(ExitStatus::Fatal(Error::CurrentBranchInvalid)));
    assert_eq!(
        repo.asked,
        vec![
            Action::CurrentBranch,
            Action::ListRemotes,
            Action::Report(ExitStatus::Fatal(Error::CurrentBranchInvalid))
        ]
    );
    assert!(repo.deleted.is_empty());
}

#[test]
fn unknown_remote_is_fatal() {
    let mut repo = repository(&["main", "done"], &[]);
    repo.remotes = names(&["upstream", "origin2"]);
    let engine = run(quiet(Arguments::default()), &mut repo);
    assert_eq!(engine.status(), Some(ExitStatus::Fatal(Error::InvalidRemote)));
    assert_eq!(repo.asked.len(), 3);
    assert!(engine.plan().is_empty());
}

#[test]
fn failed_local_listing_is_fatal_in_local_mode() {
    let mut repo = repository(&[], &[]);
    repo.local = Err(AdapterError::Other);
    let engine = run(quiet(Arguments { locals: true, ..Arguments::default() }), &mut repo);
    assert_eq!(
        engine.status(),
        Some(ExitStatus::Fatal(Error::Enumeration(Scope::Local, AdapterError::Other)))
    );
}

#[test]
fn failed_remote_listing_is_fatal_in_remote_mode() {
    let mut repo = repository(&[], &[]);
    repo.remote = Err(AdapterError::Unreachable);
    let engine = run(quiet(Arguments { remotes: true, ..Arguments::default() }), &mut repo);
    assert_eq!(
        engine.status(),
        Some(ExitStatus::Fatal(Error::Enumeration(Scope::Remote, AdapterError::Unreachable)))
    );
}

#[test]
fn failed_remote_listing_leaves_the_local_scope_alive() {
    let mut repo = repository(&["main", "done"], &[]);
    repo.remote = Err(AdapterError::Unreachable);
    repo.merged = names(&["done"]);
    let engine = run(quiet(Arguments::default()), &mut repo);
    assert_eq!(
        engine.tolerated(),
        Some(Error::Enumeration(Scope::Remote, AdapterError::Unreachable))
    );
    assert_eq!(engine.plan().entries(), &vec![entry("done", Scope::Local)]);
    assert_eq!(repo.deleted, vec!["done"]);
    assert_eq!(engine.status(), Some(ExitStatus::Success));
}

#[test]
fn failed_local_listing_leaves_the_remote_scope_alive() {
    let mut repo = repository(&[], &["main", "done"]);
    repo.local = Err(AdapterError::Other);
    repo.merged = names(&["origin/done"]);
    let engine = run(
        quiet(Arguments { delete_unpushed_branches: true, ..Arguments::default() }),
        &mut repo,
    );
    assert_eq!(engine.tolerated(), Some(Error::Enumeration(Scope::Local, AdapterError::Other)));
    assert_eq!(engine.plan().entries(), &vec![entry("done", Scope::Remote)]);
    assert_eq!(repo.deleted, vec!["origin/done"]);
}

#[test]
fn unpushed_test_cannot_do_without_the_remote_listing() {
    let mut repo = repository(&["main", "mine"], &[]);
    repo.remote = Err(AdapterError::Unreachable);
    for locals in [false, true] {
        let engine = run(
            quiet(Arguments { locals, delete_unpushed_branches: true, ..Arguments::default() }),
            &mut repo,
        );
        assert_eq!(
            engine.status(),
            Some(ExitStatus::Fatal(Error::Enumeration(Scope::Remote, AdapterError::Unreachable)))
        );
        assert!(repo.deleted.is_empty());
    }
}

#[test]
fn both_listings_failing_is_fatal() {
    let mut repo = repository(&[], &[]);
    repo.local = Err(AdapterError::Other);
    repo.remote = Err(AdapterError::Unreachable);
    let engine = run(quiet(Arguments::default()), &mut repo);
    assert_eq!(
        engine.status(),
        Some(ExitStatus::Fatal(Error::Enumeration(Scope::Remote, AdapterError::Unreachable)))
    );
}

#[test]
fn unclassifiable_branch_is_skipped_and_the_run_goes_on() {
    let mut repo = repository(&["main", "broken", "done"], &[]);
    repo.unreadable = names(&["broken"]);
    repo.merged = names(&["done", "broken"]);
    let engine = run(quiet(Arguments { locals: true, ..Arguments::default() }), &mut repo);
    assert_eq!(
        engine.skipped(),
        &vec![Skipped { branch: branch("broken", Scope::Local), reason: AdapterError::Other }]
    );
    assert_eq!(engine.plan().entries(), &vec![entry("done", Scope::Local)]);
    assert_eq!(repo.deleted, vec!["done"]);
    assert_eq!(engine.status(), Some(ExitStatus::Success));
}

#[test]
fn nothing_to_delete_ends_in_success() {
    let mut repo = repository(&["main"], &["main", "HEAD"]);
    let engine = run(quiet(Arguments::default()), &mut repo);
    assert!(engine.candidates().is_empty());
    assert!(engine.plan().is_empty());
    assert!(engine.results().is_empty());
    assert_eq!(engine.status(), Some(ExitStatus::Success));
    assert_eq!(engine.stage(), Stage::Finished(ExitStatus::Success));
}

#[test]
fn phases_come_in_order() {
    let order = |phase: &Phase| match phase {
        Phase::Validate => 0,
        Phase::Enumerate => 1,
        Phase::Classify => 2,
        Phase::Plan => 3,
        Phase::Confirm => 4,
        Phase::Execute => 5,
        Phase::Report => 6,
    };
    let mut repo = repository(&["main", "a", "b"], &["main", "a"]);
    repo.merged = names(&["a", "origin/a"]);
    repo.squashed = names(&["b"]);
    let engine = run(options(Arguments { squashes: true, ..Arguments::default() }), &mut repo);
    assert_eq!(engine.phase(), Phase::Report);
    assert!(repo.phases.windows(2).all(|pair| order(&pair[0]) <= order(&pair[1])));
    let seen: Vec<i32> = {
        let mut seen: Vec<i32> = repo.phases.iter().map(order).collect();
        seen.dedup();
        seen
    };
    assert_eq!(seen, vec![0, 1, 2, 4, 5, 6]);
}

#[test]
fn a_reply_that_was_not_asked_for_changes_nothing() {
    let engine = Engine::new(options(Arguments::default()));
    assert_eq!(engine.action(), Action::CurrentBranch);
    let engine = engine.step(Reply::Deleted(Ok(())));
    assert_eq!(engine.stage(), Stage::CurrentBranch);
    let engine = engine.step(Reply::Confirmation(Response::Line("y".to_owned())));
    assert_eq!(engine.stage(), Stage::CurrentBranch);
    let engine = engine.step(Reply::CurrentBranch("main".to_owned()));
    assert_eq!(engine.stage(), Stage::Remotes);
    let engine = engine.step(Reply::Remotes(names(&["origin"])));
    assert_eq!(engine.action(), Action::ListLocalBranches { excluding: "main".to_owned() });
    let engine = engine.step(Reply::LocalBranches(Ok(names(&["a"]))));
    assert_eq!(engine.action(), Action::ListRemoteBranches { remote: "origin".to_owned() });
    let engine = engine.step(Reply::RemoteBranches(Ok(Vec::new())));
    let asking = Action::IsAncestor { branch: "a".to_owned(), base: "main".to_owned() };
    assert_eq!(engine.action(), asking);
    let engine = engine.step(Reply::DiffEmpty(Ok(true)));
    assert_eq!(engine.action(), asking);
    let engine = engine.step(Reply::MergeBase(Ok("abc".to_owned())));
    assert_eq!(engine.action(), asking);
    assert!(engine.classified().is_empty());
    let engine = engine.step(Reply::Ancestor(Ok(true)));
    assert!(matches!(engine.action(), Action::Confirm { .. }));
    let engine = engine.step(Reply::Deleted(Ok(())));
    assert_eq!(engine.stage(), Stage::Confirming);
    assert!(engine.results().is_empty());
}

#[test]
fn a_finished_run_stays_finished() {
    let mut repo = repository(&["main", "a"], &[]);
    repo.merged = names(&["a"]);
    let engine = run(quiet(Arguments { locals: true, ..Arguments::default() }), &mut repo);
    let engine = engine.step(Reply::Deleted(Err(AdapterError::Other)));
    let engine = engine.step(Reply::CurrentBranch("x".to_owned()));
    assert_eq!(engine.status(), Some(ExitStatus::Success));
    assert_eq!(engine.results(), &vec![ExecutionResult::Deleted]);
    assert_eq!(engine.action(), Action::Report(ExitStatus::Success));
}

#[test]
fn classifying_an_unchanged_repository_again_gives_the_same() {
    let classify = || {
        let mut repo = repository(&["main", "a", "b", "c", "d"], &["main", "a", "x"]);
        repo.merged = names(&["a", "origin/a"]);
        repo.squashed = names(&["b", "origin/x"]);
        repo.unreadable = names(&["c"]);
        repo.response = Response::Closed;
        let engine = run(
            options(Arguments {
                squashes: true,
                delete_unpushed_branches: false,
                ..Arguments::default()
            }),
            &mut repo,
        );
        (engine.classified().clone(), engine.skipped().clone())
    };
    let (first, first_skipped) = classify();
    let (second, second_skipped) = classify();
    assert_eq!(first, second);
    assert_eq!(first_skipped, second_skipped);
    assert_eq!(first.len(), 5);
    assert_eq!(first_skipped.len(), 1);
}

#[test]
fn refs_are_named_by_scope() {
    assert_eq!(reference_of(&branch("a", Scope::Local), "origin"), "a");
    assert_eq!(reference_of(&branch("a", Scope::Remote), "origin"), "origin/a");
    assert_eq!(reference_of(&branch("x/y", Scope::Remote), "up"), "up/x/y");
}

#[test]
fn fresh_engine_holds_its_options_and_nothing_else() {
    let engine = Engine::new(options(Arguments { remotes: true, ..Arguments::default() }));
    assert_eq!(engine.options().delete_mode, DeleteMode::Remote);
    assert_eq!(engine.stage(), Stage::CurrentBranch);
    assert_eq!(engine.phase(), Phase::Validate);
    assert_eq!(engine.status(), None);
    assert_eq!(engine.tolerated(), None);
    assert!(engine.candidates().is_empty());
    assert!(engine.classified().is_empty());
    assert!(engine.skipped().is_empty());
    assert!(engine.plan().is_empty());
    assert!(engine.results().is_empty());
}

#[test]
fn branch_identical_to_base_is_merged_never_active() {
    // `fresh` was branched off `main` and has no commit of its own, so the
    // repository calls it an ancestor of `main`.
    for squashes in [false, true] {
        for delete_unpushed_branches in [false, true] {
            let mut repo = repository(&["main", "fresh"], &["main"]);
            repo.merged = names(&["fresh"]);
            repo.squashed = names(&["fresh"]);
            let engine = run(
                quiet(Arguments { squashes, delete_unpushed_branches, ..Arguments::default() }),
                &mut repo,
            );
            assert_eq!(
                engine.classified(),
                &vec![Classified {
                    branch: branch("fresh", Scope::Local),
                    class: Classification::Merged
                }]
            );
            assert!(!repo.asked.iter().any(|a| matches!(a, Action::MergeBase { .. })));
        }
    }
}
