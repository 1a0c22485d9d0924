//! The in-process mailbox store on its own.

use line_relay::linklist_queue::LinkListQueue;
use line_relay::message::Message;
use line_relay::queue_trait::MessageQueueStore;

fn new_queue() -> LinkListQueue {
    <LinkListQueue as MessageQueueStore<()>>::new(&()).unwrap()
}

fn msg(line_id: u16, sender: &str, content: &str) -> Message {
    Message { line_id, sender: sender.to_string(), content: content.to_string() }
}

/// Draining after a run of appends yields exactly those messages in
/// append order, and a second drain yields nothing.
#[test]
fn drain_returns_appends_in_order_then_nothing() {
    let mut q = new_queue();
    q.push_message(msg(1, "alpha", "first")).unwrap();
    q.push_message(msg(1, "alpha", "second")).unwrap();
    q.push_message(msg(1, "alpha", "third")).unwrap();

    let drained = q.pop_all(1, &"alpha".to_string()).unwrap();
    assert_eq!(
        drained,
        vec![
            msg(1, "alpha", "first"),
            msg(1, "alpha", "second"),
            msg(1, "alpha", "third"),
        ]
    );

    let again = q.pop_all(1, &"alpha".to_string()).unwrap();
    assert_eq!(again, vec![]);
}

/// A message drained for the paired token reproduces content, origin
/// line and author exactly.
#[test]
fn drained_message_is_reproduced_exactly() {
    let mut q = new_queue();
    let original = msg(42, "alpha", "the exact payload");
    q.push_message(original.clone()).unwrap();
    let drained = q.pop_all(42, &"alpha".to_string()).unwrap();
    assert_eq!(drained, vec![original]);
}

/// Two senders get their own slots; draining one leaves the other.
#[test]
fn two_senders_have_separate_mailboxes() {
    let mut q = new_queue();
    q.push_message(msg(1, "alpha", "from a")).unwrap();
    q.push_message(msg(1, "beta", "from b")).unwrap();

    let a = q.pop_all(1, &"alpha".to_string()).unwrap();
    assert_eq!(a, vec![msg(1, "alpha", "from a")]);

    let b = q.pop_all(1, &"beta".to_string()).unwrap();
    assert_eq!(b, vec![msg(1, "beta", "from b")]);
}

/// A third distinct sender finds no slot and is turned away.
#[test]
fn third_sender_is_rejected() {
    let mut q = new_queue();
    q.push_message(msg(1, "alpha", "a")).unwrap();
    q.push_message(msg(1, "beta", "b")).unwrap();
    let r = q.push_message(msg(1, "gamma", "c"));
    assert_eq!(r, Err("Unexpected Sender".to_string()));
    // The rejection changed nothing.
    let a = q.pop_all(1, &"alpha".to_string()).unwrap();
    assert_eq!(a, vec![msg(1, "alpha", "a")]);
}

/// A token with no slot drains nothing rather than erring.
#[test]
fn unknown_sender_drains_empty() {
    let mut q = new_queue();
    let r = q.pop_all(1, &"nobody".to_string()).unwrap();
    assert_eq!(r, vec![]);
}

/// The head is the oldest message and peeking does not remove it.
#[test]
fn get_head_is_oldest_and_keeps_it() {
    let mut q = new_queue();
    q.push_message(msg(1, "alpha", "oldest")).unwrap();
    q.push_message(msg(1, "alpha", "newer")).unwrap();

    let head = q.get_head(1, &"alpha".to_string()).unwrap();
    assert_eq!(head, msg(1, "alpha", "oldest"));

    let drained = q.pop_all(1, &"alpha".to_string()).unwrap();
    assert_eq!(drained, vec![msg(1, "alpha", "oldest"), msg(1, "alpha", "newer")]);
}

/// An empty or unclaimed mailbox has no head.
#[test]
fn get_head_of_empty_mailbox_errs() {
    let mut q = new_queue();
    assert!(q.get_head(1, &"alpha".to_string()).is_err());
    q.push_message(msg(1, "alpha", "x")).unwrap();
    q.pop_all(1, &"alpha".to_string()).unwrap();
    assert!(q.get_head(1, &"alpha".to_string()).is_err());
}
