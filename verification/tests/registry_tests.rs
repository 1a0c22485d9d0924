//! The pairing registry against its in-process backend.

use line_relay::line_manage::{AddSenderActuallyDone, LineManager};

fn registry() -> LineManager {
    LineManager::new_in_memory()
}

/// At most two distinct tokens are ever listed: the third is turned
/// away and the list stays as it was.
#[test]
fn line_capacity_is_two() {
    let mut lm = registry();
    assert_eq!(
        lm.add_sender("alpha".to_string(), 3).unwrap(),
        AddSenderActuallyDone::AddTheFirstSender
    );
    assert_eq!(
        lm.add_sender("beta".to_string(), 3).unwrap(),
        AddSenderActuallyDone::AddTheSecondSender
    );
    assert_eq!(
        lm.add_sender("gamma".to_string(), 3).unwrap(),
        AddSenderActuallyDone::TryToAddTheThirdSender
    );
    assert_eq!(
        lm.get_senders(3).unwrap(),
        vec!["alpha".to_string(), "beta".to_string()]
    );
}

/// A token already listed is reported as such and never duplicated.
#[test]
fn rejoin_does_not_duplicate() {
    let mut lm = registry();
    lm.add_sender("alpha".to_string(), 1).unwrap();
    assert_eq!(
        lm.add_sender("alpha".to_string(), 1).unwrap(),
        AddSenderActuallyDone::AlreadyInLine
    );
    assert_eq!(lm.get_senders(1).unwrap(), vec!["alpha".to_string()]);
}

/// Lines are independent: a token may sit in two lines of the registry.
#[test]
fn lines_are_independent() {
    let mut lm = registry();
    lm.add_sender("alpha".to_string(), 1).unwrap();
    assert_eq!(
        lm.add_sender("alpha".to_string(), 2).unwrap(),
        AddSenderActuallyDone::AddTheFirstSender
    );
    assert_eq!(lm.get_senders(1).unwrap(), vec!["alpha".to_string()]);
    assert_eq!(lm.get_senders(2).unwrap(), vec!["alpha".to_string()]);
}

/// An absent line is empty.
#[test]
fn absent_line_is_empty() {
    let lm = registry();
    assert_eq!(lm.get_senders(999).unwrap(), Vec::<String>::new());
}

/// Leaving removes exactly the leaving token and keeps order.
#[test]
fn remove_keeps_the_other_occupant() {
    let mut lm = registry();
    lm.add_sender("alpha".to_string(), 5).unwrap();
    lm.add_sender("beta".to_string(), 5).unwrap();
    lm.remove_sender("alpha".to_string(), 5).unwrap();
    assert_eq!(lm.get_senders(5).unwrap(), vec!["beta".to_string()]);
}

/// Leaving with an unlisted token is reported, not ignored.
#[test]
fn remove_of_unlisted_token_is_reported() {
    let mut lm = registry();
    lm.add_sender("alpha".to_string(), 5).unwrap();
    let r = lm.remove_sender("beta".to_string(), 5);
    assert_eq!(r, Err("Try to remove a sender that not exist.".to_string()));
    assert_eq!(lm.get_senders(5).unwrap(), vec!["alpha".to_string()]);
}

/// After both leave, the line is free for a fresh pair.
#[test]
fn emptied_line_accepts_new_pair() {
    let mut lm = registry();
    lm.add_sender("alpha".to_string(), 5).unwrap();
    lm.add_sender("beta".to_string(), 5).unwrap();
    lm.remove_sender("alpha".to_string(), 5).unwrap();
    lm.remove_sender("beta".to_string(), 5).unwrap();
    assert_eq!(
        lm.add_sender("gamma".to_string(), 5).unwrap(),
        AddSenderActuallyDone::AddTheFirstSender
    );
}

/// Refreshing the expiry of an in-process line always succeeds.
#[test]
fn refresh_ttl_in_memory_is_a_no_op() {
    let lm = registry();
    assert_eq!(lm.refresh_ttl(1), Ok(true));
}
