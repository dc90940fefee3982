use git_clean::branch::{Branch, Scope};
use git_clean::classify::{Classification, Classified};
use git_clean::options::{Arguments, DeleteMode, Options};
use git_clean::plan::{
    build_plan, entry_before, is_selected, same_entry, DeletionPlan, PlanEntry,
};

fn item(name: &str, scope: Scope, class: Classification) -> Classified {
    Classified { branch: Branch { name: name.to_owned(), scope, is_base: false }, class }
}

fn entry(name: &str, scope: Scope) -> PlanEntry {
    PlanEntry { name: name.to_owned(), scope }
}

fn options(mode: DeleteMode, delete_unpushed_branches: bool, ignore: &[&str]) -> Options {
    let mut options = Options::new(&Arguments {
        delete_unpushed_branches,
        ignore: ignore.iter().map(|s| s.to_string()).collect(),
        ..Arguments::default()
    });
    options.delete_mode = mode;
    options
}

fn everything() -> Vec<Classified> {
    vec![
        item("zeta", Scope::Local, Classification::Merged),
        item("alpha", Scope::Remote, Classification::Merged),
        item("alpha", Scope::Local, Classification::Squashed),
        item("busy", Scope::Local, Classification::Active),
        item("busy", Scope::Remote, Classification::Active),
        item("mine", Scope::Local, Classification::Unpushed),
        item("kept", Scope::Local, Classification::Merged),
        item("kept", Scope::Remote, Classification::Merged),
        item("zeta", Scope::Local, Classification::Merged),
    ]
}

#[test]
fn plan_is_ordered_by_name_then_scope() {
    let plan = build_plan(&everything(), &options(DeleteMode::Both, true, &[]));
    assert_eq!(
        plan.entries(),
        &vec![
            entry("alpha", Scope::Local),
            entry("alpha", Scope::Remote),
            entry("kept", Scope::Local),
            entry("kept", Scope::Remote),
            entry("mine", Scope::Local),
            entry("zeta", Scope::Local),
        ]
    );
}

#[test]
fn plan_does_not_depend_on_the_order_of_the_input() {
    let o = options(DeleteMode::Both, true, &[]);
    let mut reversed = everything();
    reversed.reverse();
    assert_eq!(build_plan(&everything(), &o), build_plan(&reversed, &o));
}

#[test]
fn ignored_branches_never_reach_the_plan() {
    let o = options(DeleteMode::Both, true, &["kept", "alpha", "nobody"]);
    let plan = build_plan(&everything(), &o);
    assert_eq!(plan.entries(), &vec![entry("mine", Scope::Local), entry("zeta", Scope::Local)]);
    for class in [
        Classification::Merged,
        Classification::Squashed,
        Classification::Unpushed,
        Classification::Active,
    ] {
        for scope in [Scope::Local, Scope::Remote] {
            assert!(build_plan(&vec![item("kept", scope, class)], &o).is_empty());
        }
    }
}

#[test]
fn ignoring_is_an_exact_match() {
    let o = options(DeleteMode::Both, false, &["kep", "kept-2", "Kept"]);
    let plan = build_plan(&vec![item("kept", Scope::Local, Classification::Merged)], &o);
    assert_eq!(plan.entries(), &vec![entry("kept", Scope::Local)]);
}

#[test]
fn local_mode_plans_no_remote_deletion() {
    let plan = build_plan(&everything(), &options(DeleteMode::Local, true, &[]));
    assert!(plan.entries().iter().all(|e| e.scope == Scope::Local));
    assert_eq!(
        plan.entries(),
        &vec![
            entry("alpha", Scope::Local),
            entry("kept", Scope::Local),
            entry("mine", Scope::Local),
            entry("zeta", Scope::Local),
        ]
    );
}

#[test]
fn remote_mode_plans_no_local_deletion() {
    let plan = build_plan(&everything(), &options(DeleteMode::Remote, true, &[]));
    assert!(plan.entries().iter().all(|e| e.scope == Scope::Remote));
    assert_eq!(plan.entries(), &vec![entry("alpha", Scope::Remote), entry("kept", Scope::Remote)]);
}

#[test]
fn unpushed_branches_need_the_switch() {
    let plan = build_plan(&everything(), &options(DeleteMode::Local, false, &[]));
    assert!(plan.entries().iter().all(|e| e.name != "mine"));
    assert_eq!(plan.len(), 3);
}

#[test]
fn active_branches_are_always_kept() {
    for mode in [DeleteMode::Local, DeleteMode::Remote, DeleteMode::Both] {
        for unpushed in [false, true] {
            let plan = build_plan(&everything(), &options(mode, unpushed, &[]));
            assert!(plan.entries().iter().all(|e| e.name != "busy"));
        }
    }
}

#[test]
fn duplicates_are_planned_once() {
    let twice = vec![
        item("a", Scope::Local, Classification::Merged),
        item("a", Scope::Local, Classification::Squashed),
        item("a", Scope::Local, Classification::Merged),
    ];
    let plan = build_plan(&twice, &options(DeleteMode::Both, false, &[]));
    assert_eq!(plan.entries(), &vec![entry("a", Scope::Local)]);
}

#[test]
fn empty_input_gives_the_empty_plan() {
    let plan = build_plan(&Vec::new(), &options(DeleteMode::Both, true, &[]));
    assert!(plan.is_empty());
    assert_eq!(plan.len(), 0);
    assert_eq!(plan, DeletionPlan::empty());
    assert_eq!(plan.get(0), None);
}

#[test]
fn plan_entries_can_be_read_by_index() {
    let plan = build_plan(&everything(), &options(DeleteMode::Remote, true, &[]));
    assert_eq!(plan.get(0), Some(&entry("alpha", Scope::Remote)));
    assert_eq!(plan.get(1), Some(&entry("kept", Scope::Remote)));
    assert_eq!(plan.get(2), None);
    assert_eq!(plan.duplicate(), plan);
}

#[test]
fn entry_order() {
    assert!(entry_before(&entry("a", Scope::Local), &entry("b", Scope::Local)));
    assert!(entry_before(&entry("a", Scope::Remote), &entry("b", Scope::Local)));
    assert!(entry_before(&entry("a", Scope::Local), &entry("a", Scope::Remote)));
    assert!(!entry_before(&entry("a", Scope::Remote), &entry("a", Scope::Local)));
    assert!(!entry_before(&entry("a", Scope::Local), &entry("a", Scope::Local)));
    assert!(!entry_before(&entry("b", Scope::Local), &entry("a", Scope::Remote)));
    assert!(same_entry(&entry("a", Scope::Local), &entry("a", Scope::Local)));
    assert!(!same_entry(&entry("a", Scope::Local), &entry("a", Scope::Remote)));
    assert!(!same_entry(&entry("a", Scope::Local), &entry("b", Scope::Local)));
    assert_eq!(entry("a", Scope::Local).duplicate(), entry("a", Scope::Local));
}

#[test]
fn selection_rules() {
    let o = options(DeleteMode::Local, false, &["kept"]);
    assert!(is_selected(&item("a", Scope::Local, Classification::Merged), &o));
    assert!(is_selected(&item("a", Scope::Local, Classification::Squashed), &o));
    assert!(!is_selected(&item("a", Scope::Local, Classification::Unpushed), &o));
    assert!(!is_selected(&item("a", Scope::Local, Classification::Active), &o));
    assert!(!is_selected(&item("a", Scope::Remote, Classification::Merged), &o));
    assert!(!is_selected(&item("kept", Scope::Local, Classification::Merged), &o));
}
