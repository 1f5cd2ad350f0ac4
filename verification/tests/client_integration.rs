use iroh_lab::client::IrohClient;

/// A node id as the network endpoint reports one.
fn node_id_of(name: &str) -> String {
    format!("node-{}-2f7c1e0a9b3d4c5e", name)
}

/// A client can create a new topic under a given name.
#[test]
fn test_create_random_topic() {
    // Initialize a new client
    let mut client = IrohClient::new();

    // Initialize the network
    let node_id = client.initialize_network(node_id_of("a"));
    assert!(!node_id.is_empty(), "Node ID should not be empty");

    // Create a random topic
    let topic_name = "test-topic".to_string();
    let (created_name, ticket, hash) = client
        .create_topic(topic_name.clone())
        .expect("Failed to create topic");

    // Verify the topic was created successfully
    assert_eq!(created_name, topic_name, "Topic name should match");
    assert!(!ticket.is_empty(), "Ticket should not be empty");
    assert!(!hash.is_empty(), "Topic hash should not be empty");
    assert!(ticket.starts_with("ticket-"), "Ticket should start with 'ticket-'");

    // Verify the topic is stored in the client's subscribed topics
    assert!(
        client.subscribed_topics.contains_key(&topic_name),
        "Topic should be in subscribed topics"
    );
    assert_eq!(
        client.subscribed_topics.get(&topic_name).unwrap(),
        &hash,
        "Topic hash should match"
    );
}

/// A client can create a topic and send a message to it.
#[test]
fn test_create_topic_and_send_message() {
    let mut hub = IrohClient::initialize_message_channel();
    let mut client = IrohClient::new();
    client.initialize_network(node_id_of("a"));

    // Create a topic
    let topic_name = "message-test-topic".to_string();
    let (_created_name, _ticket, _hash) = client
        .create_topic(topic_name.clone())
        .expect("Failed to create topic");

    // Send a message - we'll just verify it doesn't error
    let username = "test-user".to_string();
    let message_content = "Hello, world!".to_string();
    let sequence = 1;

    let result = client.send_message(&mut hub, username.clone(), message_content.clone(), sequence);
    assert!(result.is_ok(), "Message should be sent successfully");
}

/// Two clients can join the same topic and both send to it.
#[test]
fn test_two_clients_communication() {
    let mut hub = IrohClient::initialize_message_channel();

    // Initialize client A
    let mut client_a = IrohClient::new();
    client_a.initialize_network(node_id_of("a"));

    // Create a topic with client A
    let topic_name = "two-clients-test-topic".to_string();
    let (_created_name, ticket, hash_a) = client_a
        .create_topic(topic_name.clone())
        .expect("Failed to create topic");

    // Initialize client B
    let mut client_b = IrohClient::new();
    client_b.initialize_network(node_id_of("b"));

    // Client B joins the topic created by client A
    let (_joined_name, hash_b) = client_b.join_topic(ticket).expect("Failed to join topic");

    assert!(!hash_a.is_empty(), "Topic hash A should not be empty");
    assert!(!hash_b.is_empty(), "Topic hash B should not be empty");

    // Client A sends a message
    let username_a = "user-a".to_string();
    let message_a = "Hello from client A".to_string();
    let sequence_a = 1;

    let result_a = client_a.send_message(&mut hub, username_a.clone(), message_a.clone(), sequence_a);
    assert!(result_a.is_ok(), "Message from client A should be sent successfully");

    // Client B sends a message
    let username_b = "user-b".to_string();
    let message_b = "Hello from client B".to_string();
    let sequence_b = 2;

    let result_b = client_b.send_message(&mut hub, username_b.clone(), message_b.clone(), sequence_b);
    assert!(result_b.is_ok(), "Message from client B should be sent successfully");
}

/// Both clients of a topic end up with the same identifier, and each receives
/// what the other sends.
#[test]
fn two_clients_exchange_messages() {
    let mut hub = IrohClient::initialize_message_channel();
    let mut client_a = IrohClient::new();
    let mut client_b = IrohClient::new();
    let (name, ticket, hash_a) = client_a.create_topic("lobby".to_string()).unwrap();
    let (joined_name, hash_b) = client_b.join_topic(ticket.clone()).unwrap();
    assert_eq!(joined_name, name);
    assert_eq!(hash_a, hash_b);
    assert_eq!(client_b.topic_ticket, Some(ticket));
    assert_eq!(client_b.topic_hash, Some(hash_a.clone()));

    let mut receiver_a = client_a.get_message_receiver(&mut hub).unwrap();
    let mut receiver_b = client_b.get_message_receiver(&mut hub).unwrap();
    assert_eq!(receiver_a.id(), 0);
    assert_eq!(receiver_b.id(), 1);
    assert_eq!(receiver_b.topic(), &hash_a);

    let id = client_a
        .send_message(&mut hub, "user-a".to_string(), "Hello from client A".to_string(), 7)
        .unwrap();
    let at_b = receiver_b.poll().unwrap();
    assert_eq!(at_b.id, id);
    assert_eq!(at_b.author, "user-a");
    assert_eq!(at_b.content, "Hello from client A");
    assert_eq!(at_b.topic_hash, hash_a);
    assert_eq!(at_b.sequence, 7);
    // the sender hears its own message once, too
    let at_a = receiver_a.poll().unwrap();
    assert_eq!(at_a.id, id);
    assert!(receiver_a.poll().is_none());
    assert!(receiver_b.poll().is_none());
}

#[test]
fn new_client_knows_nothing() {
    let client = IrohClient::new();
    assert_eq!(client.node_id, None);
    assert_eq!(client.topic_ticket, None);
    assert_eq!(client.topic_hash, None);
    assert_eq!(client.subscribed_topics.len(), 0);
}

#[test]
fn initialize_network_records_the_node_id() {
    let mut client = IrohClient::new();
    let recorded = client.initialize_network("node-xyz".to_string());
    assert_eq!(recorded, "node-xyz");
    assert_eq!(client.node_id, Some("node-xyz".to_string()));
    assert_eq!(client.topic_hash, None);
}

#[test]
fn initialize_for_test_gives_a_client_and_an_empty_hub() {
    let (client, hub) = IrohClient::initialize_for_test("node-t".to_string());
    assert_eq!(client.node_id, Some("node-t".to_string()));
    assert_eq!(client.topic_hash, None);
    assert_eq!(hub.len(), 0);
    assert!(hub.can_subscribe());
}

#[test]
fn a_clone_is_independent_of_the_client() {
    let mut client = IrohClient::new();
    client.initialize_network("node-c".to_string());
    let (_, ticket, hash) = client.register_topic("one".to_string(), "aa11".to_string()).unwrap();
    let mut copy = client.clone();
    assert_eq!(copy.node_id, Some("node-c".to_string()));
    assert_eq!(copy.topic_ticket, Some(ticket));
    assert_eq!(copy.topic_hash, Some(hash.clone()));
    assert_eq!(copy.subscribed_topics.get("one"), Some(&hash));
    copy.register_topic("two".to_string(), "bb22".to_string()).unwrap();
    assert_eq!(copy.subscribed_topics.len(), 2);
    assert_eq!(client.subscribed_topics.len(), 1);
    assert_eq!(client.topic_hash, Some("aa11".to_string()));
}
