use lazy_git_checkout::git::{command_text, CommandOutput, Git, GitError};

fn ok(stdout: &str) -> CommandOutput {
    CommandOutput {
        success: true,
        stdout: stdout.as_bytes().to_vec(),
        stderr: Vec::new(),
    }
}

fn failed(stderr: &str) -> CommandOutput {
    CommandOutput {
        success: false,
        stdout: Vec::new(),
        stderr: stderr.as_bytes().to_vec(),
    }
}

#[test]
fn successful_run_gives_stdout() {
    assert_eq!(command_text(ok("hello\n")), Ok("hello\n".to_string()));
}

#[test]
fn failed_run_gives_stderr() {
    assert_eq!(
        command_text(failed("fatal: bad\n")),
        Err(GitError::ProcessFailure("fatal: bad\n".to_string()))
    );
}

#[test]
fn invalid_utf8_is_an_encoding_failure() {
    let out = CommandOutput {
        success: true,
        stdout: vec![0x66, 0xff, 0x6f],
        stderr: Vec::new(),
    };
    assert_eq!(command_text(out), Err(GitError::EncodingFailure));
    let bad_err = CommandOutput {
        success: false,
        stdout: Vec::new(),
        stderr: vec![0xc3],
    };
    assert_eq!(command_text(bad_err), Err(GitError::EncodingFailure));
}

#[test]
fn current_branch_is_trimmed() {
    assert_eq!(Git::get_current_branch(ok("  main\n")), Ok("main".to_string()));
    assert_eq!(
        Git::get_current_branch(failed("not a repo")),
        Err(GitError::ProcessFailure("not a repo".to_string()))
    );
}

#[test]
fn branch_listing_drops_marks_and_blanks() {
    let listing = "* main\n  develop\n\n  remotes/origin/HEAD -> origin/main\n  remotes/origin/main\n";
    assert_eq!(
        Git::all_project_branches(ok(listing)),
        Ok(vec![
            "main".to_string(),
            "develop".to_string(),
            "remotes/origin/HEAD -> origin/main".to_string(),
            "remotes/origin/main".to_string(),
        ])
    );
    assert_eq!(Git::branches_in(""), Vec::<String>::new());
}

#[test]
fn command_arguments() {
    assert_eq!(Git::current_branch_args(), vec!["rev-parse", "--abbrev-ref", "HEAD"]);
    assert_eq!(Git::all_branches_args(), vec!["branch", "-a"]);
    assert_eq!(Git::stash_list_args(), vec!["stash", "list"]);
}

#[test]
fn stash_message_for_main() {
    assert_eq!(Git::stash_message("main"), "lazy-git-checkout:main");
}

#[test]
fn newest_tagged_stash_is_picked() {
    let listing = "stash@{0}: On dev: work in progress\n\
                   stash@{1}: On main: lazy-git-checkout:main\n\
                   stash@{2}: On main: lazy-git-checkout:main\n";
    assert_eq!(
        Git::get_last_stashed("main", listing),
        Some("stash@{1}".to_string())
    );
}

#[test]
fn other_tags_do_not_match() {
    let listing = "stash@{0}: On main2: lazy-git-checkout:main2\n\
                   stash@{1}: On x: lazy-git-checkout:mainx\n";
    assert_eq!(Git::get_last_stashed("main", listing), None);
    assert_eq!(Git::get_last_stashed("main", ""), None);
}

#[test]
fn error_messages() {
    assert_eq!(GitError::ProcessFailure("boom".to_string()).message(), "boom");
    assert_eq!(
        GitError::AlreadyInProgress.message(),
        "a checkout is already in progress"
    );
}
