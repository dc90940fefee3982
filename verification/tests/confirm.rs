use git_clean::branch::{Branch, Scope};
use git_clean::classify::{Classification, Classified};
use git_clean::confirm::{
    confirm, effective_plan, is_affirmative, plan_names, prompt, Response,
};
use git_clean::options::{Arguments, DeleteMode, Options};
use git_clean::plan::{build_plan, DeletionPlan};

fn plan(mode: DeleteMode) -> DeletionPlan {
    let merged = |name: &str, scope| Classified {
        branch: Branch { name: name.to_owned(), scope, is_base: false },
        class: Classification::Merged,
    };
    let mut options = Options::new(&Arguments::default());
    options.delete_mode = mode;
    build_plan(
        &vec![
            merged("b", Scope::Remote),
            merged("a", Scope::Local),
            merged("a", Scope::Remote),
            merged("c", Scope::Local),
        ],
        &options,
    )
}

fn options(yes: bool) -> Options {
    Options::new(&Arguments { yes, ..Arguments::default() })
}

#[test]
fn yes_in_its_spellings() {
    for line in ["y", "Y", "yes", "YES", "Yes", "yEs", "y\n", "yes\r\n", "  y  ", "\tyes\t\n"] {
        assert!(is_affirmative(line), "{:?}", line);
    }
}

#[test]
fn everything_else_is_no_yes() {
    for line in
        ["", "\n", " ", "n", "no", "N", "ye", "yess", "yes please", "y es", "yy", "ja", "1", "true", "ÿ", "yés"]
    {
        assert!(!is_affirmative(line), "{:?}", line);
    }
}

#[test]
fn confirm_passes_without_asking_when_told_to() {
    assert!(confirm(&options(true), &Response::Closed));
    assert!(confirm(&options(true), &Response::Line("no".to_owned())));
    assert!(confirm(&options(true), &Response::Line("y".to_owned())));
}

#[test]
fn confirm_needs_a_yes() {
    assert!(confirm(&options(false), &Response::Line("y\n".to_owned())));
    assert!(confirm(&options(false), &Response::Line("Yes\n".to_owned())));
    assert!(!confirm(&options(false), &Response::Line("n\n".to_owned())));
    assert!(!confirm(&options(false), &Response::Line("\n".to_owned())));
    assert!(!confirm(&options(false), &Response::Closed));
}

#[test]
fn refusal_leaves_the_empty_plan() {
    assert!(effective_plan(plan(DeleteMode::Both), false).is_empty());
    assert_eq!(effective_plan(plan(DeleteMode::Both), true), plan(DeleteMode::Both));
    assert!(effective_plan(DeletionPlan::empty(), true).is_empty());
}

#[test]
fn prompt_names_every_branch_once() {
    assert_eq!(plan_names(&plan(DeleteMode::Both)), vec!["a", "b", "c"]);
    assert_eq!(plan_names(&plan(DeleteMode::Local)), vec!["a", "c"]);
    assert_eq!(plan_names(&plan(DeleteMode::Remote)), vec!["a", "b"]);
    assert_eq!(plan_names(&DeletionPlan::empty()), Vec::<String>::new());
}

#[test]
fn prompt_carries_the_warning_of_the_mode() {
    let mut o = options(false);
    o.delete_mode = DeleteMode::Local;
    let p = prompt(&plan(DeleteMode::Local), &o);
    assert_eq!(p.message, "The following branches will be deleted locally:");
    assert_eq!(p.names, vec!["a", "c"]);
    o.delete_mode = DeleteMode::Remote;
    assert_eq!(
        prompt(&plan(DeleteMode::Remote), &o).message,
        "The following branches will be deleted remotely:"
    );
    o.delete_mode = DeleteMode::Both;
    assert_eq!(
        prompt(&plan(DeleteMode::Both), &o).message,
        "The following branches will be deleted locally and remotely:"
    );
}
