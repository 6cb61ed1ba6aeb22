use scuttled::error::Error;
use scuttled::mailbox::Mailbox;
use scuttled::mailboxes::{MailboxFilter, MailboxRegistry};
use scuttled::types::MailboxId;

#[test]
fn test_mailbox_creation() {
    let mailbox = Mailbox::new("alice".to_string(), "INBOX".to_string(), 1234567890);
    let state = mailbox.get_state();

    assert_eq!(state.username, "alice");
    assert_eq!(state.name, "INBOX");
    assert_eq!(state.uid_validity, 1234567890);
    assert_eq!(state.uid_next, 1);
    assert_eq!(state.message_count, 0);
}

#[test]
fn test_mailbox_assign_uid() {
    let mut mailbox = Mailbox::new("alice".to_string(), "INBOX".to_string(), 1234567890);

    let uid1 = mailbox.assign_uid("alice/INBOX/cur/msg1.eml").unwrap();
    let uid2 = mailbox.assign_uid("alice/INBOX/cur/msg2.eml").unwrap();

    assert_eq!(uid1, 1);
    assert_eq!(uid2, 2);

    let state = mailbox.get_state();
    assert_eq!(state.uid_next, 3);
    assert_eq!(state.message_count, 2);
}

#[test]
fn test_mailbox_get_path() {
    let mut mailbox = Mailbox::new("alice".to_string(), "INBOX".to_string(), 1234567890);

    let uid = mailbox.assign_uid("alice/INBOX/cur/msg1.eml").unwrap();
    let path = mailbox.get_path(uid);

    assert_eq!(path, Some("alice/INBOX/cur/msg1.eml".to_string()));

    let path = mailbox.get_path(999);
    assert_eq!(path, None);
}

#[test]
fn test_mailbox_get_uid() {
    let mut mailbox = Mailbox::new("alice".to_string(), "INBOX".to_string(), 1234567890);

    let uid = mailbox.assign_uid("alice/INBOX/cur/msg1.eml").unwrap();
    let retrieved_uid = mailbox.get_uid("alice/INBOX/cur/msg1.eml");

    assert_eq!(retrieved_uid, Some(uid));

    let retrieved_uid = mailbox.get_uid("alice/INBOX/cur/nonexistent.eml");
    assert_eq!(retrieved_uid, None);
}

#[test]
fn test_mailbox_remove_message() {
    let mut mailbox = Mailbox::new("alice".to_string(), "INBOX".to_string(), 1234567890);

    let uid = mailbox.assign_uid("alice/INBOX/cur/msg1.eml").unwrap();
    mailbox.remove_message(uid).unwrap();

    assert_eq!(mailbox.get_path(uid), None);
    assert_eq!(mailbox.get_uid("alice/INBOX/cur/msg1.eml"), None);
    assert_eq!(mailbox.get_state().message_count, 0);

    match mailbox.remove_message(uid) {
        Err(Error::NotFound(m)) => assert_eq!(m, "UID not found: 1"),
        _ => panic!("expected NotFound"),
    }
}

#[test]
fn test_mailbox_update_path() {
    let mut mailbox = Mailbox::new("alice".to_string(), "INBOX".to_string(), 1234567890);

    let uid = mailbox.assign_uid("alice/INBOX/new/msg1.eml").unwrap();

    mailbox.update_path(uid, "alice/INBOX/cur/msg1.eml:2,S").unwrap();

    assert_eq!(mailbox.get_uid("alice/INBOX/new/msg1.eml"), None);
    assert_eq!(mailbox.get_uid("alice/INBOX/cur/msg1.eml:2,S"), Some(uid));
    assert_eq!(mailbox.get_path(uid), Some("alice/INBOX/cur/msg1.eml:2,S".to_string()));

    match mailbox.update_path(77, "x") {
        Err(Error::NotFound(m)) => assert_eq!(m, "UID not found: 77"),
        _ => panic!("expected NotFound"),
    }
}

#[test]
fn test_mailbox_duplicate_path_error() {
    let mut mailbox = Mailbox::new("alice".to_string(), "INBOX".to_string(), 1234567890);

    mailbox.assign_uid("msg1.eml").unwrap();

    let result = mailbox.assign_uid("msg1.eml");
    assert!(result.is_err());
    match result {
        Err(Error::Internal(m)) => assert_eq!(m, "Path already has UID assigned: msg1.eml"),
        _ => panic!("expected Internal"),
    }
    assert_eq!(mailbox.get_state().uid_next, 2);
}

#[test]
fn registry_create_get_delete() {
    let mut reg = MailboxRegistry::new();
    let info = reg.create_mailbox("alice", "INBOX").unwrap();
    assert_eq!(info.id.username, "alice");
    assert_eq!(info.id.name, "INBOX");
    assert_eq!(info.uid_validity, 1);
    assert_eq!(info.next_uid, 1);
    assert_eq!(info.root_path, "alice/INBOX");
    assert_eq!(info.message_count, 0);

    let second = reg.create_mailbox("alice", "Sent").unwrap();
    assert_eq!(second.uid_validity, 2);
    assert_eq!(reg.next_uid_validity(), 3);

    match reg.create_mailbox("alice", "INBOX") {
        Err(Error::MailboxExists(n)) => assert_eq!(n, "INBOX"),
        _ => panic!("expected MailboxExists"),
    }

    let got = reg.get_mailbox("alice", "INBOX").unwrap();
    assert_eq!(got.root_path, "alice/INBOX");
    assert!(reg.get_mailbox("bob", "INBOX").is_none());

    reg.delete_mailbox("alice", "Sent").unwrap();
    assert!(reg.get_mailbox("alice", "Sent").is_none());
    match reg.delete_mailbox("alice", "Sent") {
        Err(Error::MailboxNotFound(n)) => assert_eq!(n, "Sent"),
        _ => panic!("expected MailboxNotFound"),
    }
}

#[test]
fn registry_uids_and_updates() {
    let mut reg = MailboxRegistry::new();
    reg.create_mailbox("alice", "INBOX").unwrap();
    assert_eq!(reg.get_next_uid("alice", "INBOX").unwrap(), 1);
    assert_eq!(reg.get_next_uid("alice", "INBOX").unwrap(), 2);
    assert_eq!(reg.get_mailbox("alice", "INBOX").unwrap().next_uid, 3);
    assert!(matches!(reg.get_next_uid("alice", "Nope"), Err(Error::MailboxNotFound(_))));

    let id = MailboxId { username: "alice".to_string(), name: "INBOX".to_string() };
    reg.update_next_uid(&id, 40).unwrap();
    reg.update_uid_validity(&id, 9).unwrap();
    reg.update_counts(&id, 5, 2, 1).unwrap();
    let info = reg.get_mailbox("alice", "INBOX").unwrap();
    assert_eq!(info.next_uid, 40);
    assert_eq!(info.uid_validity, 9);
    assert_eq!((info.message_count, info.unseen_count, info.recent_count), (5, 2, 1));

    let missing = MailboxId { username: "alice".to_string(), name: "Gone".to_string() };
    match reg.update_counts(&missing, 1, 1, 1) {
        Err(Error::MailboxNotFound(n)) => assert_eq!(n, "Gone"),
        _ => panic!("expected MailboxNotFound"),
    }
}

#[test]
fn registry_listing_filters() {
    let mut reg = MailboxRegistry::new();
    for name in ["INBOX", "Test1", "Test2", "Archive/Test", "Other"] {
        reg.create_mailbox("alice", name).unwrap();
    }
    reg.create_mailbox("bob", "Test3").unwrap();
    let names = |f: MailboxFilter| -> Vec<String> {
        reg.list_mailboxes("alice", &f).unwrap().into_iter().map(|m| m.id.name).collect()
    };
    assert_eq!(names(MailboxFilter::All).len(), 5);
    assert_eq!(names(MailboxFilter::Exact("inbox".to_string())), vec!["INBOX".to_string()]);
    assert_eq!(names(MailboxFilter::Exact("test1".to_string())), Vec::<String>::new());
    assert_eq!(names(MailboxFilter::Prefix("Test".to_string())), vec!["Test1".to_string(), "Test2".to_string()]);
    assert_eq!(names(MailboxFilter::Suffix("Test".to_string())), vec!["Archive/Test".to_string()]);
    assert_eq!(names(MailboxFilter::Regex("^T.*2$".to_string())), vec!["Test2".to_string()]);
    assert_eq!(names(MailboxFilter::Regex("(".to_string())), Vec::<String>::new());
}
