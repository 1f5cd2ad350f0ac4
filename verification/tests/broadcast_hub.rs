use iroh_lab::client::IrohClient;
use iroh_lab::error::ChatError;
use iroh_lab::hub::BroadcastHub;
use iroh_lab::message::{ChatMessage, Signal};

fn envelope(id: &str, topic: &str) -> ChatMessage {
    ChatMessage::new(
        id.to_string(),
        "ann".to_string(),
        format!("text of {}", id),
        1_700_000_000_000,
        topic.to_string(),
        3,
    )
}

#[test]
fn a_new_hub_has_no_subscribers() {
    let mut hub = BroadcastHub::new();
    assert_eq!(hub.len(), 0);
    assert!(hub.can_subscribe());
    let report = hub.publish(&envelope("m1", "id1"));
    assert!(report.delivered.is_empty());
    assert!(report.reaped.is_empty());
}

#[test]
fn subscribers_get_ids_in_order() {
    let mut hub = BroadcastHub::new();
    let first = hub.subscribe("a".to_string());
    let second = hub.subscribe("b".to_string());
    let third = hub.subscribe("a".to_string());
    assert_eq!((first.id(), second.id(), third.id()), (0, 1, 2));
    assert_eq!(first.topic(), "a");
    assert_eq!(second.topic(), "b");
    assert_eq!(hub.len(), 3);
    hub.unsubscribe(&second);
    let fourth = hub.subscribe("b".to_string());
    assert_eq!(fourth.id(), 3);
    assert_eq!(hub.len(), 3);
}

/// A subscriber of topic A receives nothing that is published to topic B.
#[test]
fn a_subscriber_receives_its_own_topic_only() {
    let mut hub = BroadcastHub::new();
    let mut at_a = hub.subscribe("A".to_string());
    let mut at_b = hub.subscribe("B".to_string());
    let mut also_a = hub.subscribe("A".to_string());

    let report = hub.publish(&envelope("m1", "B"));
    assert_eq!(report.delivered, vec![at_b.id()]);
    assert!(report.reaped.is_empty());
    assert!(at_a.poll().is_none());
    assert!(also_a.poll().is_none());
    assert_eq!(at_b.poll().unwrap().id, "m1");

    let report = hub.publish(&envelope("m2", "A"));
    assert_eq!(report.delivered, vec![at_a.id(), also_a.id()]);
    assert_eq!(at_a.poll().unwrap().id, "m2");
    assert_eq!(also_a.poll().unwrap().id, "m2");
    assert!(at_b.poll().is_none());

    let report = hub.publish(&envelope("m3", "a"));
    assert!(report.delivered.is_empty());
    assert_eq!(hub.len(), 3);
}

/// A subscriber whose handle is gone is removed by the publish that finds its
/// queue closed, and is absent from then on.
#[test]
fn a_dead_subscriber_is_reaped_by_publish() {
    let mut hub = BroadcastHub::new();
    let gone = hub.subscribe("A".to_string());
    let mut alive = hub.subscribe("A".to_string());
    let other = hub.subscribe("B".to_string());
    let gone_id = gone.id();
    drop(gone);
    drop(other);
    assert_eq!(hub.len(), 3);

    let report = hub.publish(&envelope("m1", "A"));
    assert_eq!(report.delivered, vec![alive.id()]);
    assert_eq!(report.reaped, vec![gone_id]);
    // the dead subscriber of another topic was not tried
    assert_eq!(hub.len(), 2);
    assert_eq!(alive.poll().unwrap().id, "m1");

    let report = hub.publish(&envelope("m2", "A"));
    assert_eq!(report.delivered, vec![alive.id()]);
    assert!(report.reaped.is_empty());
    assert_eq!(hub.len(), 2);

    let report = hub.publish(&envelope("m3", "B"));
    assert!(report.delivered.is_empty());
    assert_eq!(report.reaped, vec![2]);
    assert_eq!(hub.len(), 1);
}

#[test]
fn a_probe_reaps_the_dead_and_is_never_surfaced() {
    let mut hub = BroadcastHub::new();
    let mut alive = hub.subscribe("A".to_string());
    let gone = hub.subscribe("B".to_string());
    drop(gone);
    let report = hub.probe();
    assert_eq!(report.delivered, vec![0]);
    assert_eq!(report.reaped, vec![1]);
    assert_eq!(hub.len(), 1);
    assert!(alive.poll().is_none());
    hub.publish(&envelope("m1", "A"));
    assert_eq!(alive.poll().unwrap().id, "m1");
}

#[test]
fn reap_removes_the_listed_subscribers_and_no_others() {
    let mut hub = BroadcastHub::new();
    let mut handles = Vec::new();
    for _ in 0..5 {
        handles.push(hub.subscribe("A".to_string()));
    }
    hub.reap(&vec![3, 1, 7, 3]);
    assert_eq!(hub.len(), 3);
    let report = hub.publish(&envelope("m1", "A"));
    assert_eq!(report.delivered, vec![0, 2, 4]);
    assert!(handles[1].poll().is_none());
    assert!(handles[3].poll().is_none());
    assert_eq!(handles[0].poll().unwrap().id, "m1");
    hub.reap(&vec![]);
    assert_eq!(hub.len(), 3);
    hub.reap(&vec![0, 2, 4]);
    assert_eq!(hub.len(), 0);
}

#[test]
fn unsubscribe_is_idempotent() {
    let mut hub = BroadcastHub::new();
    let first = hub.subscribe("A".to_string());
    let mut second = hub.subscribe("A".to_string());
    hub.unsubscribe(&first);
    assert_eq!(hub.len(), 1);
    hub.unsubscribe(&first);
    assert_eq!(hub.len(), 1);
    let report = hub.publish(&envelope("m1", "A"));
    assert_eq!(report.delivered, vec![second.id()]);
    assert_eq!(second.poll().unwrap().id, "m1");
}

#[test]
fn accept_drops_probes_other_topics_and_repeats() {
    let mut hub = BroadcastHub::new();
    let mut handle = hub.subscribe("A".to_string());
    assert!(handle.accept(Signal::Probe).is_none());
    assert!(handle.accept(Signal::Data(envelope("m1", "B"))).is_none());
    // an envelope of another topic leaves its id unseen
    let surfaced = handle.accept(Signal::Data(envelope("m1", "A"))).unwrap();
    assert_eq!(surfaced.id, "m1");
    assert_eq!(surfaced.content, "text of m1");
    assert!(handle.accept(Signal::Data(envelope("m1", "A"))).is_none());
    assert!(handle.accept(Signal::Probe).is_none());
    assert_eq!(handle.seen_len(), 1);
    assert_eq!(handle.accept(Signal::Data(envelope("m2", "A"))).unwrap().id, "m2");
    assert_eq!(handle.seen_len(), 2);
}

#[test]
fn mark_seen_makes_the_echo_of_an_own_message_disappear() {
    let mut hub = BroadcastHub::new();
    let mut handle = hub.subscribe("A".to_string());
    assert!(handle.mark_seen("m1"));
    assert!(!handle.mark_seen("m1"));
    hub.publish(&envelope("m1", "A"));
    hub.publish(&envelope("m2", "A"));
    assert_eq!(handle.poll().map(|m| m.id), Some("m2".to_string()));
    assert_eq!(handle.poll().map(|m| m.id), None);
}

#[test]
fn drain_takes_at_most_the_limit_and_keeps_the_order() {
    let mut hub = BroadcastHub::new();
    let mut handle = hub.subscribe("A".to_string());
    for id in ["m1", "m2", "m1", "m3", "m4", "m2", "m5"] {
        hub.publish(&envelope(id, "A"));
    }
    assert!(handle.drain(0).is_empty());
    let first: Vec<String> = handle.drain(3).into_iter().map(|m| m.id).collect();
    assert_eq!(first, vec!["m1", "m2", "m3"]);
    let rest: Vec<String> = handle.drain(20).into_iter().map(|m| m.id).collect();
    assert_eq!(rest, vec!["m4", "m5"]);
    assert!(handle.drain(20).is_empty());
}

#[test]
fn drain_skips_probes() {
    let mut hub = BroadcastHub::new();
    let mut handle = hub.subscribe("A".to_string());
    hub.probe();
    hub.publish(&envelope("m1", "A"));
    hub.probe();
    let got: Vec<String> = handle.drain(20).into_iter().map(|m| m.id).collect();
    assert_eq!(got, vec!["m1"]);
}

#[test]
fn sending_needs_an_active_topic() {
    let mut hub = BroadcastHub::new();
    let mut listener = hub.subscribe("id1".to_string());
    let client = IrohClient::new();
    let result = client.send_message(&mut hub, "ann".to_string(), "hello".to_string(), 0);
    assert_eq!(result, Err(ChatError::NoActiveTopic));
    assert!(listener.poll().is_none());
    assert_eq!(hub.len(), 1);
    assert_eq!(
        client
            .compose("m1".to_string(), 5, "ann".to_string(), "hello".to_string(), 0)
            .map(|m| m.id),
        Err(ChatError::NoActiveTopic)
    );
}

#[test]
fn compose_fills_in_the_active_topic() {
    let mut client = IrohClient::new();
    client.register_topic("chat".to_string(), "id1".to_string()).unwrap();
    let message = client
        .compose("m1".to_string(), 1234, "ann".to_string(), "hello".to_string(), 9)
        .unwrap();
    assert_eq!(message.id, "m1");
    assert_eq!(message.author, "ann");
    assert_eq!(message.content, "hello");
    assert_eq!(message.timestamp, 1234);
    assert_eq!(message.topic_hash, "id1");
    assert_eq!(message.sequence, 9);
    let copy = message.clone();
    assert_eq!(copy.id, "m1");
    assert_eq!(copy.topic_hash, "id1");
    assert_eq!(copy.timestamp, 1234);
    assert_eq!(copy.sequence, 9);
}

/// What is sent carries a fresh token as its id, the current time, and the
/// active topic.
#[test]
fn sent_messages_carry_token_time_and_topic() {
    let mut hub = BroadcastHub::new();
    let mut client = IrohClient::new();
    client.register_topic("chat".to_string(), "id1".to_string()).unwrap();
    let mut listener = client.get_message_receiver(&mut hub).unwrap();
    let first = client.send_message(&mut hub, "ann".to_string(), "one".to_string(), 0).unwrap();
    let second = client.send_message(&mut hub, "ann".to_string(), "two".to_string(), 1).unwrap();
    for id in [&first, &second] {
        assert_eq!(id.len(), 32);
        assert!(id.chars().all(|c| c.is_ascii_digit() || ('a'..='f').contains(&c)));
    }
    assert_ne!(first, second);
    let got = listener.drain(20);
    assert_eq!(got.len(), 2);
    assert_eq!(got[0].id, first);
    assert_eq!(got[0].content, "one");
    assert_eq!(got[0].sequence, 0);
    assert_eq!(got[1].id, second);
    assert_eq!(got[1].topic_hash, "id1");
    // after 2020-01-01 and before 2200-01-01, in milliseconds
    assert!(got[0].timestamp > 1_577_836_800_000);
    assert!(got[0].timestamp < 7_258_118_400_000);
}

#[test]
fn created_topics_have_token_identifiers() {
    let mut client = IrohClient::new();
    let (_, _, first) = client.create_topic("one".to_string()).unwrap();
    let (_, ticket, second) = client.create_topic("two".to_string()).unwrap();
    for identifier in [&first, &second] {
        assert_eq!(identifier.chars().count(), 32);
        assert!(identifier.chars().all(|c| c.is_ascii_digit() || ('a'..='f').contains(&c)));
    }
    assert_ne!(first, second);
    assert_eq!(client.topic_hash, Some(second.clone()));
    assert_eq!(client.topic_ticket, Some(ticket));
    assert_eq!(client.subscribed_topics.len(), 2);
    assert_eq!(client.subscribed_topics.get("one"), Some(&first));
}

#[test]
fn an_identifier_with_a_separator_is_refused() {
    let mut client = IrohClient::new();
    client.register_topic("chat".to_string(), "id1".to_string()).unwrap();
    let result = client.register_topic("news".to_string(), "550e8400-e29b".to_string());
    assert_eq!(result, Err(ChatError::InvalidState));
    assert_eq!(client.topic_hash, Some("id1".to_string()));
    assert_eq!(client.topic_ticket, Some("ticket-chat-id1".to_string()));
    assert_eq!(client.subscribed_topics.len(), 1);
    assert!(!client.subscribed_topics.contains_key("news"));
}

#[test]
fn a_receiver_needs_an_active_topic() {
    let mut hub = BroadcastHub::new();
    let client = IrohClient::new();
    assert!(client.get_message_receiver(&mut hub).is_none());
    assert_eq!(hub.len(), 0);
}

#[test]
fn asking_for_a_receiver_drops_dead_subscribers_first() {
    let mut hub = BroadcastHub::new();
    let mut client = IrohClient::new();
    client.register_topic("chat".to_string(), "id1".to_string()).unwrap();
    let dead = hub.subscribe("other".to_string());
    drop(dead);
    let mut receiver = client.get_message_receiver(&mut hub).unwrap();
    assert_eq!(receiver.id(), 1);
    assert_eq!(receiver.topic(), "id1");
    assert_eq!(hub.len(), 1);
    let report = IrohClient::broadcast_message(&mut hub, envelope("m1", "id1"));
    assert_eq!(report.delivered, vec![1]);
    assert_eq!(receiver.poll().unwrap().id, "m1");
}
