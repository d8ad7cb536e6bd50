use lazy_git_checkout::checkout::{Checkout, CheckoutStatus};
use lazy_git_checkout::git::GitError;

/// Runs a checkout against canned git results, one per command in order,
/// recording every argument vector the checkout asks to run.
fn drive(branch: &str, results: Vec<Result<String, GitError>>) -> (Vec<Vec<String>>, Vec<CheckoutStatus>) {
    let (mut machine, first) = Checkout::start(branch.to_string());
    let mut commands = vec![first];
    let mut statuses = Vec::new();
    for result in results {
        if machine.is_finished() {
            break;
        }
        let step = machine.step(result);
        statuses.extend(step.statuses);
        match step.command {
            Some(c) => commands.push(c),
            None => break,
        }
    }
    (commands, statuses)
}

fn args(words: &[&str]) -> Vec<String> {
    words.iter().map(|w| w.to_string()).collect()
}

#[test]
fn successful_checkout_with_tagged_stash() {
    let (commands, statuses) = drive(
        "feature",
        vec![
            Ok("main\n".to_string()),
            Ok("Saved working directory\n".to_string()),
            Ok("Switched to branch 'feature'\n".to_string()),
            Ok("stash@{0}: On main: lazy-git-checkout:main\n".to_string()),
            Ok("Dropped stash@{0}\n".to_string()),
        ],
    );
    assert_eq!(
        commands,
        vec![
            args(&["rev-parse", "--abbrev-ref", "HEAD"]),
            args(&["stash", "-m", "lazy-git-checkout:main"]),
            args(&["checkout", "feature"]),
            args(&["stash", "list"]),
            args(&["stash", "pop", "stash@{0}"]),
        ]
    );
    assert_eq!(
        statuses,
        vec![
            CheckoutStatus::Progress("Saved working directory\n".to_string()),
            CheckoutStatus::Progress("Switched to branch 'feature'\n".to_string()),
            CheckoutStatus::Progress("Dropped stash@{0}\n".to_string()),
            CheckoutStatus::Done,
        ]
    );
}

#[test]
fn successful_checkout_without_tagged_stash() {
    let (commands, statuses) = drive(
        "feature",
        vec![
            Ok("main".to_string()),
            Ok("No local changes to save\n".to_string()),
            Ok("Switched\n".to_string()),
            Ok("stash@{0}: On dev: lazy-git-checkout:dev\n".to_string()),
        ],
    );
    assert_eq!(commands.len(), 4);
    assert_eq!(commands[3], args(&["stash", "list"]));
    assert_eq!(
        statuses,
        vec![
            CheckoutStatus::Progress("No local changes to save\n".to_string()),
            CheckoutStatus::Progress("Switched\n".to_string()),
            CheckoutStatus::Done,
        ]
    );
}

#[test]
fn failed_checkout_never_pops() {
    let (commands, statuses) = drive(
        "feature",
        vec![
            Ok("main\n".to_string()),
            Ok("Saved\n".to_string()),
            Err(GitError::ProcessFailure("error: pathspec 'feature'\n".to_string())),
            Ok("stash@{0}: On main: lazy-git-checkout:main\n".to_string()),
            Ok("popped\n".to_string()),
        ],
    );
    assert_eq!(
        commands,
        vec![
            args(&["rev-parse", "--abbrev-ref", "HEAD"]),
            args(&["stash", "-m", "lazy-git-checkout:main"]),
            args(&["checkout", "feature"]),
        ]
    );
    assert!(commands.iter().all(|c| !(c.len() >= 2 && c[0] == "stash" && c[1] == "pop")));
    assert_eq!(
        statuses.last(),
        Some(&CheckoutStatus::Failed(GitError::ProcessFailure(
            "error: pathspec 'feature'\n".to_string()
        )))
    );
}

#[test]
fn failed_head_read_ends_at_once() {
    let (commands, statuses) = drive(
        "feature",
        vec![Err(GitError::ProcessFailure("not a git repository\n".to_string()))],
    );
    assert_eq!(commands.len(), 1);
    assert_eq!(
        statuses,
        vec![CheckoutStatus::Failed(GitError::ProcessFailure(
            "not a git repository\n".to_string()
        ))]
    );
}

#[test]
fn failed_stash_is_reported_as_progress() {
    let (commands, statuses) = drive(
        "feature",
        vec![
            Ok("main\n".to_string()),
            Err(GitError::ProcessFailure("cannot stash\n".to_string())),
            Ok("Switched\n".to_string()),
            Ok(String::new()),
        ],
    );
    assert_eq!(commands[2], args(&["checkout", "feature"]));
    assert_eq!(
        statuses,
        vec![
            CheckoutStatus::Progress("cannot stash\n".to_string()),
            CheckoutStatus::Progress("Switched\n".to_string()),
            CheckoutStatus::Done,
        ]
    );
}

#[test]
fn failed_pop_is_terminal() {
    let (_, statuses) = drive(
        "feature",
        vec![
            Ok("main\n".to_string()),
            Ok("Saved\n".to_string()),
            Ok("Switched\n".to_string()),
            Ok("stash@{3}: On main: lazy-git-checkout:main\n".to_string()),
            Err(GitError::ProcessFailure("conflict\n".to_string())),
        ],
    );
    assert_eq!(
        statuses.last(),
        Some(&CheckoutStatus::Failed(GitError::ProcessFailure("conflict\n".to_string())))
    );
}

#[test]
fn terminal_statuses() {
    assert!(CheckoutStatus::Done.is_terminal());
    assert!(CheckoutStatus::Failed(GitError::EncodingFailure).is_terminal());
    assert!(!CheckoutStatus::Progress("x".to_string()).is_terminal());
}
