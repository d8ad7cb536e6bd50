use lazy_git_checkout::checkout::CheckoutStatus;
use lazy_git_checkout::git::{GitError};
use lazy_git_checkout::session::CheckoutGate;

#[test]
fn second_checkout_is_refused() {
    let mut gate = CheckoutGate::new();
    assert!(!gate.is_open());
    assert_eq!(gate.begin(), Ok(()));
    assert_eq!(gate.begin(), Err(GitError::AlreadyInProgress));
    assert!(gate.observe(&CheckoutStatus::Progress("working".to_string())));
    assert_eq!(gate.begin(), Err(GitError::AlreadyInProgress));
}

#[test]
fn terminal_status_closes_the_session() {
    let mut gate = CheckoutGate::new();
    gate.begin().unwrap();
    assert!(!gate.observe(&CheckoutStatus::Done));
    assert_eq!(gate.begin(), Ok(()));
    assert!(!gate.observe(&CheckoutStatus::Failed(GitError::EncodingFailure)));
    assert!(!gate.is_open());
}
