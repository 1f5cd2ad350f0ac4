use iroh_lab::hub::BroadcastHub;
use iroh_lab::inbox::Inbox;
use iroh_lab::message::{ChatMessage, SequenceCounter};

fn envelope(id: &str, topic: &str) -> ChatMessage {
    ChatMessage::new(
        id.to_string(),
        "ann".to_string(),
        format!("text of {}", id),
        1_700_000_000_000,
        topic.to_string(),
        0,
    )
}

fn ids(inbox: &Inbox) -> Vec<String> {
    inbox.messages().iter().map(|message| message.id.clone()).collect()
}

#[test]
fn a_new_inbox_shows_nothing() {
    let mut hub = BroadcastHub::new();
    let handle = hub.subscribe("A".to_string());
    let inbox = Inbox::new(handle);
    assert!(inbox.messages().is_empty());
    assert_eq!(inbox.handle().id(), 0);
    assert_eq!(inbox.handle().topic(), "A");
    let (inbox, added) = inbox.collect(20);
    assert_eq!(added, 0);
    assert!(inbox.messages().is_empty());
}

/// Every message is shown once, in the order of arrival, whatever was
/// published twice or to another topic.
#[test]
fn an_inbox_shows_every_message_once() {
    let mut hub = BroadcastHub::new();
    let inbox = Inbox::new(hub.subscribe("A".to_string()));
    hub.publish(&envelope("m1", "A"));
    hub.publish(&envelope("m2", "B"));
    hub.publish(&envelope("m1", "A"));
    hub.publish(&envelope("m3", "A"));
    let (inbox, added) = inbox.collect(20);
    assert_eq!(added, 2);
    assert_eq!(ids(&inbox), vec!["m1", "m3"]);

    hub.publish(&envelope("m3", "A"));
    hub.publish(&envelope("m4", "A"));
    hub.probe();
    hub.publish(&envelope("m1", "A"));
    hub.publish(&envelope("m5", "A"));
    let (inbox, added) = inbox.collect(1);
    assert_eq!(added, 1);
    assert_eq!(ids(&inbox), vec!["m1", "m3", "m4"]);
    let (inbox, added) = inbox.collect(0);
    assert_eq!(added, 0);
    let (inbox, added) = inbox.collect(20);
    assert_eq!(added, 1);
    assert_eq!(ids(&inbox), vec!["m1", "m3", "m4", "m5"]);
    assert_eq!(inbox.messages()[3].content, "text of m5");
}

#[test]
fn the_handle_of_an_inbox_unsubscribes_it() {
    let mut hub = BroadcastHub::new();
    let inbox = Inbox::new(hub.subscribe("A".to_string()));
    hub.publish(&envelope("m1", "A"));
    let (inbox, _) = inbox.collect(20);
    let handle = inbox.into_handle();
    assert_eq!(handle.id(), 0);
    hub.unsubscribe(&handle);
    assert_eq!(hub.len(), 0);
    assert!(hub.publish(&envelope("m2", "A")).delivered.is_empty());
}

#[test]
fn sequence_numbers_count_up_from_zero() {
    let mut counter = SequenceCounter::new();
    assert_eq!(counter.peek(), 0);
    assert_eq!(counter.take(), 0);
    assert_eq!(counter.peek(), 1);
    assert_eq!(counter.take(), 1);
    assert_eq!(counter.take(), 2);
    assert_eq!(counter.peek(), 3);
    let taken: Vec<u64> = (0..5).map(|_| counter.take()).collect();
    assert_eq!(taken, vec![3, 4, 5, 6, 7]);
}

#[test]
fn the_greatest_sequence_number_is_handed_out_again() {
    let mut counter = SequenceCounter::starting_at(u64::MAX - 1);
    assert_eq!(counter.take(), u64::MAX - 1);
    assert_eq!(counter.take(), u64::MAX);
    assert_eq!(counter.take(), u64::MAX);
    assert_eq!(counter.peek(), u64::MAX);
    assert_eq!(SequenceCounter::starting_at(41).take(), 41);
}
