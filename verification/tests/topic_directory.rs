use iroh_lab::directory::TopicDirectory;

#[test]
fn a_new_directory_is_empty() {
    let directory = TopicDirectory::new();
    assert_eq!(directory.len(), 0);
    assert!(!directory.contains_key("chat"));
    assert_eq!(directory.get("chat"), None);
}

#[test]
fn insert_records_and_replaces() {
    let mut directory = TopicDirectory::new();
    assert_eq!(directory.insert("chat".to_string(), "id1".to_string()), None);
    assert_eq!(directory.insert("news".to_string(), "id2".to_string()), None);
    assert_eq!(directory.len(), 2);
    assert_eq!(directory.get("chat"), Some(&"id1".to_string()));
    assert_eq!(directory.get("news"), Some(&"id2".to_string()));
    assert!(directory.contains_key("chat"));
    assert!(!directory.contains_key("Chat"));

    assert_eq!(directory.insert("chat".to_string(), "id3".to_string()), Some("id1".to_string()));
    assert_eq!(directory.len(), 2);
    assert_eq!(directory.get("chat"), Some(&"id3".to_string()));
    assert_eq!(directory.get("news"), Some(&"id2".to_string()));

    assert_eq!(directory.insert("chat".to_string(), "id3".to_string()), Some("id3".to_string()));
    assert_eq!(directory.len(), 2);
}

#[test]
fn replacing_the_first_of_many_keeps_the_others() {
    let mut directory = TopicDirectory::new();
    for (name, identifier) in [("a", "1"), ("b", "2"), ("c", "3"), ("d", "4")] {
        assert_eq!(directory.insert(name.to_string(), identifier.to_string()), None);
    }
    assert_eq!(directory.insert("a".to_string(), "5".to_string()), Some("1".to_string()));
    assert_eq!(directory.insert("c".to_string(), "6".to_string()), Some("3".to_string()));
    assert_eq!(directory.len(), 4);
    assert_eq!(directory.get("a"), Some(&"5".to_string()));
    assert_eq!(directory.get("b"), Some(&"2".to_string()));
    assert_eq!(directory.get("c"), Some(&"6".to_string()));
    assert_eq!(directory.get("d"), Some(&"4".to_string()));
    assert_eq!(directory.get("e"), None);
}

#[test]
fn a_clone_holds_the_same_topics() {
    let mut directory = TopicDirectory::new();
    directory.insert("chat".to_string(), "id1".to_string());
    directory.insert("news".to_string(), "id2".to_string());
    let mut copy = directory.clone();
    assert_eq!(copy.len(), 2);
    assert_eq!(copy.get("chat"), Some(&"id1".to_string()));
    assert_eq!(copy.get("news"), Some(&"id2".to_string()));
    copy.insert("chat".to_string(), "id9".to_string());
    assert_eq!(directory.get("chat"), Some(&"id1".to_string()));
}
