use scuttled::error::Error;
use scuttled::index::{make_message_path, matches_query, IndexState, IndexedMessage, InMemoryBackend};
use scuttled::mailboxes::MailboxRegistry;
use scuttled::types::{MessageFlag, MessageId, SearchQuery};

fn message(id: u128, uid: u32, mailbox: &str, subject: &str) -> IndexedMessage {
    IndexedMessage {
        id: MessageId(id),
        uid,
        mailbox: mailbox.to_string(),
        flags: vec![],
        internal_date: 0,
        size: 100,
        from: "bob@example.com".to_string(),
        to: "alice@example.com".to_string(),
        subject: subject.to_string(),
        body_preview: "Test body".to_string(),
    }
}

#[test]
fn message_paths_use_the_hyphenated_uuid() {
    let id = MessageId(0x67e5504410b1426f9247bb680e5fe0c8);
    assert_eq!(
        make_message_path("alice", "INBOX", id),
        "alice/INBOX/67e55044-10b1-426f-9247-bb680e5fe0c8.eml"
    );
    assert_eq!(
        make_message_path("a", "b", MessageId(0)),
        "a/b/00000000-0000-0000-0000-000000000000.eml"
    );
}

#[test]
fn test_add_and_retrieve_message() {
    let mut index = InMemoryBackend::new();
    let m = message(7, 1, "INBOX", "Test");
    let path = index.add_message("alice", "INBOX", m).unwrap();
    assert!(path.contains("alice/INBOX"));
    assert_eq!(index.get_message_path(MessageId(7)), Some(path));
    let meta = index.get_message_metadata(MessageId(7)).unwrap();
    assert_eq!(meta.subject, "Test");
    assert_eq!(meta.uid, 1);
}

#[test]
fn test_search() {
    let mut index = InMemoryBackend::new();
    index.add_message("alice", "INBOX", message(1, 1, "INBOX", "Important")).unwrap();
    index.add_message("alice", "INBOX", message(2, 2, "INBOX", "Other")).unwrap();
    let results = index
        .search("alice", "INBOX", &SearchQuery::Subject("Important".to_string()))
        .unwrap();
    assert_eq!(results.len(), 1);
    let all = index.search("alice", "INBOX", &SearchQuery::All).unwrap();
    assert_eq!(all, index.list_message_paths("alice", "INBOX").unwrap());
    assert_eq!(all.len(), 2);
}

#[test]
fn inmemory_test_delete_message() {
    let mut index = InMemoryBackend::new();
    index.add_message("alice", "INBOX", message(9, 1, "INBOX", "Test")).unwrap();
    index.delete_message(MessageId(9)).unwrap();
    assert_eq!(index.get_message_path(MessageId(9)), None);
    match index.delete_message(MessageId(9)) {
        Err(Error::NotFound(m)) => {
            assert_eq!(m, "Message MessageId(00000000-0000-0000-0000-000000000009) not found")
        }
        _ => panic!("expected NotFound"),
    }
}

#[test]
fn test_mailbox_no_initialization_required() {
    let mut index = InMemoryBackend::new();
    let path = index.add_message("alice", "Drafts", message(3, 1, "Drafts", "Test")).unwrap();
    assert!(path.contains("alice/Drafts"));
}

#[test]
fn queries_combine() {
    let mut m = message(1, 5, "INBOX", "Hello world");
    m.flags = vec![MessageFlag::Seen];
    assert!(matches_query(&m, &SearchQuery::Seen));
    assert!(!matches_query(&m, &SearchQuery::Unseen));
    assert!(matches_query(&m, &SearchQuery::Unflagged));
    assert!(matches_query(&m, &SearchQuery::Uid(vec![4, 5])));
    assert!(!matches_query(&m, &SearchQuery::Sequence(vec![1])));
    assert!(matches_query(&m, &SearchQuery::Text("world".to_string())));
    assert!(matches_query(&m, &SearchQuery::From("bob".to_string())));
    assert!(matches_query(
        &m,
        &SearchQuery::And(
            Box::new(SearchQuery::To("alice".to_string())),
            Box::new(SearchQuery::Not(Box::new(SearchQuery::Deleted)))
        )
    ));
    assert!(matches_query(
        &m,
        &SearchQuery::Or(Box::new(SearchQuery::Flagged), Box::new(SearchQuery::Body("body".to_string())))
    ));
}

#[test]
fn lookups_by_uid_and_mailbox_cleanup() {
    let mut index = InMemoryBackend::new();
    index.add_message("alice", "INBOX", message(1, 10, "INBOX", "a")).unwrap();
    index.add_message("alice", "Work", message(2, 10, "Work", "b")).unwrap();
    index.add_message("bob", "INBOX", message(3, 10, "INBOX", "c")).unwrap();
    let p = index.get_message_path_by_uid("alice", "Work", 10).unwrap().unwrap();
    assert!(p.starts_with("alice/Work/"));
    assert_eq!(index.get_message_path_by_uid("alice", "Work", 11).unwrap(), None);
    index.remove_messages_for_mailbox("alice", "INBOX").unwrap();
    assert_eq!(index.get_message_path(MessageId(1)), None);
    assert!(index.get_message_path(MessageId(2)).is_some());
    assert!(index.get_message_path(MessageId(3)).is_some());
    index.update_flags(MessageId(2), vec![MessageFlag::Flagged]).unwrap();
    assert_eq!(index.get_message_metadata(MessageId(2)).unwrap().flags, vec![MessageFlag::Flagged]);
    assert!(matches!(index.update_flags(MessageId(1), vec![]), Err(Error::NotFound(_))));
}

#[test]
fn test_event_bus_integration() {
    let mut registry = MailboxRegistry::new();
    let mut index = IndexState::new();
    registry.create_mailbox("alice", "INBOX").unwrap();

    let summary = (
        "bob@example.com".to_string(),
        "alice@example.com".to_string(),
        "Test from EventBus".to_string(),
        "This message was created via EventBus".to_string(),
    );
    index
        .message_created(
            &mut registry,
            "alice",
            "INBOX",
            "1234567890.12345.test",
            vec![MessageFlag::Seen],
            summary,
            150,
            0,
            MessageId(42),
        )
        .unwrap();
    let messages = index.backend().list_message_paths("alice", "INBOX").unwrap();
    assert_eq!(messages.len(), 1);
    assert!(messages[0].contains("alice/INBOX"));
    assert_eq!(index.backend().get_message_metadata(MessageId(42)).unwrap().uid, 1);

    index
        .message_modified("alice", "INBOX", "1234567890.12345.test", vec![MessageFlag::Seen, MessageFlag::Flagged])
        .unwrap();
    assert_eq!(
        index.backend().get_message_metadata(MessageId(42)).unwrap().flags,
        vec![MessageFlag::Seen, MessageFlag::Flagged]
    );

    index.message_deleted("alice", "INBOX", "1234567890.12345.test").unwrap();
    let messages = index.backend().list_message_paths("alice", "INBOX").unwrap();
    assert_eq!(messages.len(), 0);

    match index.message_deleted("alice", "INBOX", "1234567890.12345.test") {
        Err(Error::NotFound(m)) => {
            assert_eq!(m, "Message not found for unique_id: alice/INBOX/1234567890.12345.test")
        }
        _ => panic!("expected NotFound"),
    }
    let lost = index.message_created(
        &mut registry,
        "alice",
        "Nowhere",
        "x",
        vec![],
        (String::new(), String::new(), String::new(), String::new()),
        1,
        0,
        MessageId(43),
    );
    assert!(matches!(lost, Err(Error::MailboxNotFound(_))));
}

#[test]
fn indexed_file_is_found_by_its_unique_id() {
    let mut registry = MailboxRegistry::new();
    let mut index = IndexState::new();
    registry.create_mailbox("alice", "INBOX").unwrap();
    index
        .message_created(
            &mut registry,
            "alice",
            "INBOX",
            "1700000000.42.host",
            vec![MessageFlag::Seen],
            (String::new(), String::new(), String::new(), String::new()),
            10,
            0,
            MessageId(7),
        )
        .unwrap();
    index.message_modified("alice", "INBOX", "1700000000.42.host", vec![MessageFlag::Flagged]).unwrap();
    assert_eq!(index.backend().get_message_metadata(MessageId(7)).unwrap().flags, vec![MessageFlag::Flagged]);
    index.message_deleted("alice", "INBOX", "1700000000.42.host").unwrap();
    assert_eq!(index.backend().list_message_paths("alice", "INBOX").unwrap().len(), 0);
}
