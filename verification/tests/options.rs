use git_clean::error::Error;
use git_clean::options::{Arguments, DeleteMode, Options};

#[test]
fn test_delete_mode_warning_message() {
    assert_eq!(
        "The following branches will be deleted locally:",
        DeleteMode::Local.warning_message()
    );
    assert_eq!(
        "The following branches will be deleted remotely:",
        DeleteMode::Remote.warning_message()
    );
    assert_eq!(
        "The following branches will be deleted locally and remotely:",
        DeleteMode::Both.warning_message()
    );
}

#[test]
fn test_delete_mode_new() {
    // git-clean -l
    let matches = Arguments { locals: true, ..Arguments::default() };

    match DeleteMode::new(&matches) {
        DeleteMode::Local => (),
        other => panic!("Expected a DeleteMode::Local, but found: {:?}", other),
    };

    // git-clean -r
    let matches = Arguments { remotes: true, ..Arguments::default() };

    if let DeleteMode::Local = DeleteMode::new(&matches) {
        panic!("Expected a DeleteMode::Remote, but found: DeleteMode::Local")
    };

    match DeleteMode::new(&matches) {
        DeleteMode::Remote => (),
        other => panic!("Expected a DeleteMode::Remote, but found: {:?}", other),
    };

    // git-clean
    let matches = Arguments::default();

    match DeleteMode::new(&matches) {
        DeleteMode::Both => (),
        other => panic!("Expected a DeleteMode::Both, but found: {:?}", other),
    };
}

#[test]
fn test_git_options_new() {
    // git-clean
    let matches = Arguments::default();
    let git_options = Options::new(&matches);

    assert_eq!("main".to_owned(), git_options.base_branch);
    assert_eq!("origin".to_owned(), git_options.remote);

    // git-clean -b stable
    let matches = Arguments { branch: "stable".to_owned(), ..Arguments::default() };
    let git_options = Options::new(&matches);

    assert_eq!("stable".to_owned(), git_options.base_branch);
    assert_eq!("origin".to_owned(), git_options.remote);

    // git-clean -R upstream
    let matches = Arguments { remote: "upstream".to_owned(), ..Arguments::default() };
    let git_options = Options::new(&matches);

    assert_eq!("main".to_owned(), git_options.base_branch);
    assert_eq!("upstream".to_owned(), git_options.remote);
    assert!(!git_options.squashes);
    assert!(!git_options.delete_unpushed_branches);

    // git-clean -R upstream --squashes --delete-unpushed-branches
    let matches = Arguments {
        remote: "upstream".to_owned(),
        squashes: true,
        delete_unpushed_branches: true,
        ..Arguments::default()
    };
    let git_options = Options::new(&matches);

    assert!(git_options.squashes);
    assert!(git_options.delete_unpushed_branches);

    // git-clean -i branch1 -i branch2 -i branch3
    let matches = Arguments {
        ignore: vec!["branch1".to_owned(), "branch2".to_owned(), "branch3".to_owned()],
        ..Arguments::default()
    };
    let git_options = Options::new(&matches);

    assert_eq!(
        git_options.ignored_branches,
        vec!["branch1", "branch2", "branch3"]
    );
}

fn options() -> Options {
    Options::new(&Arguments::default())
}

#[test]
fn default_arguments_are_the_empty_command_line() {
    let args = Arguments::default();
    assert!(!args.locals);
    assert!(!args.remotes);
    assert!(!args.yes);
    assert!(!args.squashes);
    assert!(!args.delete_unpushed_branches);
    assert_eq!(args.remote, "origin");
    assert_eq!(args.branch, "main");
    assert!(args.ignore.is_empty());
}

#[test]
fn locals_wins_over_remotes() {
    let args = Arguments { locals: true, remotes: true, ..Arguments::default() };
    assert_eq!(DeleteMode::new(&args), DeleteMode::Local);
}

#[test]
fn options_take_every_argument_over() {
    let args = Arguments {
        locals: false,
        remotes: true,
        yes: true,
        squashes: true,
        delete_unpushed_branches: true,
        remote: "upstream".to_owned(),
        branch: "trunk".to_owned(),
        ignore: vec!["keep".to_owned()],
    };
    let options = Options::new(&args);
    assert_eq!(options.remote, "upstream");
    assert_eq!(options.base_branch, "trunk");
    assert!(options.squashes);
    assert!(options.delete_unpushed_branches);
    assert!(options.skip_confirmation);
    assert_eq!(options.ignored_branches, vec!["keep"]);
    assert_eq!(options.delete_mode, DeleteMode::Remote);
}

#[test]
fn duplicate_options_are_equal_field_by_field() {
    let args = Arguments { ignore: vec!["a".to_owned(), "b".to_owned()], ..Arguments::default() };
    let options = Options::new(&args);
    let copy = options.duplicate();
    assert_eq!(copy.remote, options.remote);
    assert_eq!(copy.base_branch, options.base_branch);
    assert_eq!(copy.ignored_branches, options.ignored_branches);
    assert_eq!(copy.delete_mode, options.delete_mode);
    assert_eq!(copy.skip_confirmation, options.skip_confirmation);
}

#[test]
fn validate_accepts_base_branch_and_known_remote() {
    let remotes = vec!["upstream".to_owned(), "origin".to_owned()];
    assert_eq!(options().validate("main", &remotes), Ok(()));
}

#[test]
fn validate_rejects_another_current_branch() {
    let remotes = vec!["origin".to_owned()];
    assert_eq!(options().validate("feature", &remotes), Err(Error::CurrentBranchInvalid));
    assert_eq!(options().validate_base_branch("feature"), Err(Error::CurrentBranchInvalid));
    assert_eq!(options().validate_base_branch("main"), Ok(()));
}

#[test]
fn validate_rejects_unknown_remote() {
    let remotes = vec!["upstream".to_owned()];
    assert_eq!(options().validate("main", &remotes), Err(Error::InvalidRemote));
    assert_eq!(options().validate_remote(&remotes), Err(Error::InvalidRemote));
    assert_eq!(options().validate_remote(&Vec::new()), Err(Error::InvalidRemote));
}

#[test]
fn validate_matches_remote_names_letter_for_letter() {
    // A remote name is no pattern: `o.igin` must not match `origin`, and
    // `origin` must not match `origin2`.
    let args = Arguments { remote: "o.igin".to_owned(), ..Arguments::default() };
    let remotes = vec!["origin".to_owned()];
    assert_eq!(Options::new(&args).validate_remote(&remotes), Err(Error::InvalidRemote));
    let remotes = vec!["origin2".to_owned(), "my-origin".to_owned()];
    assert_eq!(options().validate_remote(&remotes), Err(Error::InvalidRemote));
}

#[test]
fn validate_reports_the_base_branch_first() {
    let remotes = vec!["upstream".to_owned()];
    assert_eq!(options().validate("feature", &remotes), Err(Error::CurrentBranchInvalid));
}
