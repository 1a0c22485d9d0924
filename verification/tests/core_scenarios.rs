//! End-to-end scenarios against a memory-backed relay core.

use line_relay::line_manage::LineManager;
use line_relay::linklist_queue::LinkListQueue;
use line_relay::load_config::{LoadResult, Queue};
use line_relay::message::Message;
use line_relay::parse_config::Profile;
use line_relay::queue_trait::MessageQueueStore;
use line_relay::relay_core::{BehaviorAfterReceiveMessage, Core, JoinLineResult, Sender};

fn memory_core() -> Core {
    let queue = Queue::LinkList(<LinkListQueue as MessageQueueStore<()>>::new(&()).unwrap());
    let line_manager = LineManager::new_in_memory();
    let profile = Profile {
        server_name: "test".to_string(),
        server_description: "test relay".to_string(),
        admin_contact: "nobody".to_string(),
        server_location: "nowhere".to_string(),
    };
    Core::new(LoadResult { queue, line_manager, profile })
}

fn token(byte: u8) -> Sender {
    [byte; 64]
}

fn token_string(byte: u8) -> String {
    String::from_utf8(vec![byte; 64]).unwrap()
}

fn message(line_id: u16, sender_byte: u8, content: &str) -> Message {
    Message { line_id, sender: token_string(sender_byte), content: content.to_string() }
}

/// Scenario A: the first joiner opens the line, a message to the absent
/// partner is queued, and the second joiner receives it as backlog.
#[test]
fn first_occupant_queues_and_second_gets_backlog() {
    let mut core = memory_core();
    let t1 = token(b'1');
    let t2 = token(b'2');

    assert_eq!(core.join_line(t1, 7), Ok(JoinLineResult::BeTheFirst));

    let m = message(7, b'1', "hi");
    assert_eq!(
        core.receive_message(&m),
        Ok(BehaviorAfterReceiveMessage::PushedToQueue)
    );

    let backlog = vec![message(7, b'1', "hi")];
    assert_eq!(core.join_line(t2, 7), Ok(JoinLineResult::BeTheSecond(backlog)));
}

/// Scenario B: both occupants online, a message is reported for live
/// delivery and nothing is queued.
#[test]
fn online_partner_gets_live_delivery() {
    let mut core = memory_core();
    core.join_line(token(b'1'), 3).unwrap();
    core.join_line(token(b'2'), 3).unwrap();

    let m = message(3, b'1', "ping");
    assert_eq!(
        core.receive_message(&m),
        Ok(BehaviorAfterReceiveMessage::SendToAnotherSender(token_string(b'2')))
    );

    // Nothing was queued for the live delivery: a reconnecting partner
    // finds an empty backlog.
    core.set_offline(token(b'2'));
    assert_eq!(core.join_line(token(b'2'), 3), Ok(JoinLineResult::Rejoin(vec![])));
}

/// Scenario C: with the partner offline but still listed, the message is
/// queued, and the partner's rejoin drains it.
#[test]
fn offline_partner_message_queued_until_rejoin() {
    let mut core = memory_core();
    core.join_line(token(b'1'), 3).unwrap();
    core.join_line(token(b'2'), 3).unwrap();

    core.set_offline(token(b'2'));

    let m = message(3, b'1', "ping");
    assert_eq!(
        core.receive_message(&m),
        Ok(BehaviorAfterReceiveMessage::PushedToQueue)
    );

    let backlog = vec![message(3, b'1', "ping")];
    assert_eq!(core.join_line(token(b'2'), 3), Ok(JoinLineResult::Rejoin(backlog)));
}

/// Scenario D: a third distinct token is turned away from a full line,
/// and the occupant pair still works as before.
#[test]
fn third_token_is_turned_away() {
    let mut core = memory_core();
    core.join_line(token(b'1'), 3).unwrap();
    core.join_line(token(b'2'), 3).unwrap();

    let r = core.join_line(token(b'3'), 3);
    assert_eq!(r, Err("Try to join busy line.".to_string()));

    // The occupant list is unchanged: the pair still exchanges messages,
    // and the rejected token is still not listed.
    let m = message(3, b'1', "still there?");
    assert_eq!(
        core.receive_message(&m),
        Ok(BehaviorAfterReceiveMessage::SendToAnotherSender(token_string(b'2')))
    );
    let intruder = message(3, b'3', "let me in");
    assert_eq!(
        core.receive_message(&intruder),
        Err("Sending to the line that you are not in".to_string())
    );
}

/// A token already online is only refreshed, whatever line it names.
#[test]
fn online_token_joins_again_as_refresh() {
    let mut core = memory_core();
    core.join_line(token(b'1'), 5).unwrap();
    assert_eq!(core.join_line(token(b'1'), 5), Ok(JoinLineResult::Refresh));
    // Presence is global: another line refreshes too.
    assert_eq!(core.join_line(token(b'1'), 6), Ok(JoinLineResult::Refresh));
}

/// A message from a token that never joined the line is rejected and
/// never creates a mailbox entry.
#[test]
fn message_from_outsider_rejected_and_not_queued() {
    let mut core = memory_core();
    core.join_line(token(b'1'), 4).unwrap();

    let outsider = message(4, b'9', "hello?");
    assert_eq!(
        core.receive_message(&outsider),
        Err("Sending to the line that you are not in".to_string())
    );

    // Had it been queued, the second joiner would receive it as backlog.
    assert_eq!(core.join_line(token(b'2'), 4), Ok(JoinLineResult::BeTheSecond(vec![])));
}

/// Leaving twice is safe: the second call finds the token already gone
/// and still succeeds.
#[test]
fn exit_line_twice_is_safe() {
    let mut core = memory_core();
    core.join_line(token(b'1'), 9).unwrap();
    assert_eq!(core.exit_line(token(b'1'), 9), Ok(()));
    assert_eq!(core.exit_line(token(b'1'), 9), Ok(()));
    assert!(!core.is_online(token(b'1')));
}

/// After leaving, the slot is free again for a new pair.
#[test]
fn leaving_frees_the_line() {
    let mut core = memory_core();
    core.join_line(token(b'1'), 2).unwrap();
    core.join_line(token(b'2'), 2).unwrap();
    core.exit_line(token(b'1'), 2).unwrap();
    assert_eq!(core.join_line(token(b'3'), 2), Ok(JoinLineResult::BeTheSecond(vec![])));
}

/// Queueing through the explicit entry point keeps append order.
#[test]
fn push_message_to_queue_keeps_order() {
    let mut core = memory_core();
    core.join_line(token(b'1'), 8).unwrap();
    core.push_message_to_queue(message(8, b'1', "one")).unwrap();
    core.push_message_to_queue(message(8, b'1', "two")).unwrap();
    let backlog = vec![message(8, b'1', "one"), message(8, b'1', "two")];
    assert_eq!(core.join_line(token(b'2'), 8), Ok(JoinLineResult::BeTheSecond(backlog)));
}

/// A token that is not valid UTF-8 cannot join, but it has already been
/// marked online by then, so a repeated attempt only refreshes.
#[test]
fn invalid_token_join_errs_but_marks_online() {
    let mut core = memory_core();
    let bad: Sender = [0xFF; 64];
    assert!(core.join_line(bad, 1).is_err());
    assert!(core.is_online(bad));
    assert_eq!(core.join_line(bad, 1), Ok(JoinLineResult::Refresh));
}

/// The largest line identifier works like any other.
#[test]
fn largest_line_id_works() {
    let mut core = memory_core();
    assert_eq!(core.join_line(token(b'1'), u16::MAX), Ok(JoinLineResult::BeTheFirst));
    let m = message(u16::MAX, b'1', "");
    assert_eq!(
        core.receive_message(&m),
        Ok(BehaviorAfterReceiveMessage::PushedToQueue)
    );
    let backlog = vec![message(u16::MAX, b'1', "")];
    assert_eq!(
        core.join_line(token(b'2'), u16::MAX),
        Ok(JoinLineResult::BeTheSecond(backlog))
    );
}
