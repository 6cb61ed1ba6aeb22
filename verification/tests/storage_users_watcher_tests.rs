use scuttled::error::Error;
use scuttled::events::Event;
use scuttled::maildir::{MailboxFormat, MaildirFormat, ParsedMessage};
use scuttled::storage::{flag_target_path, Storage};
use scuttled::types::MessageFlag;
use scuttled::users::{insert_user_error, password_verdict, rows_changed, SQLiteUserStore};
use scuttled::watcher::{created_event, deleted_event, mailbox_dir, modified_event, summarize, WatchTable};

#[test]
fn test_storage_update_flags() {
    let storage = Storage::new((), MaildirFormat::new());
    let target = storage.update_flags_target("alice/INBOX/new/msg123", &[MessageFlag::Seen]).unwrap();
    assert_eq!(target, "alice/INBOX/cur/msg123:2,S");
}

#[test]
fn flag_changes_move_between_new_and_cur() {
    assert_eq!(
        flag_target_path("alice/INBOX/cur/msg1:2,S", "", false).unwrap(),
        "alice/INBOX/new/msg1"
    );
    assert_eq!(
        flag_target_path("alice/INBOX/cur/msg1:2,S", ":2,FS", true).unwrap(),
        "alice/INBOX/cur/msg1:2,FS"
    );
    assert_eq!(flag_target_path("other/msg1", ":2,S", true).unwrap(), "other/msg1:2,S");
    match flag_target_path("..", ":2,S", true) {
        Err(Error::Internal(m)) => assert_eq!(m, "Invalid path: .."),
        _ => panic!("expected Invalid path"),
    }
    let storage = Storage::new(7u8, MaildirFormat::new());
    assert_eq!(*storage.get_store(), 7u8);
    assert_eq!(storage.get_format().flags_to_filename_component(&[MessageFlag::Draft]), ":2,D");
}

#[test]
fn passwords_are_checked_with_bcrypt() {
    let hash = bcrypt::hash("password123", 4).unwrap();
    assert_eq!(password_verdict(Some(&hash), "password123").unwrap(), true);
    assert_eq!(password_verdict(Some(&hash), "wrongpassword").unwrap(), false);
    assert_eq!(password_verdict(None, "anything").unwrap(), false);
    match password_verdict(Some("not-a-hash"), "x") {
        Err(Error::Internal(m)) => assert!(m.starts_with("Failed to verify password: ")),
        _ => panic!("expected an error"),
    }
}

#[test]
fn user_store_errors() {
    match insert_user_error("UNIQUE constraint failed: users.username", "bob") {
        Error::AlreadyExists(m) => assert_eq!(m, "User already exists: bob"),
        _ => panic!("expected AlreadyExists"),
    }
    match insert_user_error("disk I/O error", "bob") {
        Error::Database(m) => assert_eq!(m, "disk I/O error"),
        _ => panic!("expected Database"),
    }
    match rows_changed(0, "bob") {
        Err(Error::NotFound(m)) => assert_eq!(m, "User not found: bob"),
        _ => panic!("expected NotFound"),
    }
    assert!(rows_changed(1, "bob").is_ok());
    let store = SQLiteUserStore::with_path("./data/users.db");
    assert_eq!(store.db_path(), "./data/users.db");
}

#[test]
fn messages_are_summarized() {
    let raw = b"From: Bob <bob@example.com>\r\nTO: alice@example.com\r\nSubject: Hi there\r\n\r\nHello Alice\r\n";
    let s = summarize(raw).unwrap();
    assert_eq!(s.from, "Bob <bob@example.com>");
    assert_eq!(s.to, "alice@example.com");
    assert_eq!(s.subject, "Hi there");
    assert!(s.body_preview.starts_with("Hello Alice"));
    let long = format!("Subject: x\r\n\r\n{}", "a".repeat(500));
    let s = summarize(long.as_bytes()).unwrap();
    assert_eq!(s.body_preview.chars().count(), 200);
    assert_eq!(s.from, "");
}

fn parsed(is_new: bool) -> ParsedMessage {
    ParsedMessage {
        unique_id: "123.456".to_string(),
        flags: vec![MessageFlag::Seen],
        is_new,
        username: "alice".to_string(),
        mailbox: "INBOX".to_string(),
    }
}

#[test]
fn file_changes_become_events() {
    let raw = b"From: a\r\nTo: b\r\nSubject: c\r\n\r\nbody";
    let s = summarize(raw).unwrap();
    match created_event("alice", "INBOX", &parsed(true), s, 42, 7) {
        Event::MessageCreated { path, flags, size, is_new, subject, .. } => {
            assert_eq!(path, "alice/INBOX/123.456");
            assert_eq!(flags, vec![MessageFlag::Seen, MessageFlag::Recent]);
            assert_eq!(size, 42);
            assert!(is_new);
            assert_eq!(subject, "c");
        }
        _ => panic!("expected MessageCreated"),
    }
    match modified_event(&parsed(false)) {
        Event::MessageModified { unique_id, flags, .. } => {
            assert_eq!(unique_id, "123.456");
            assert_eq!(flags, vec![MessageFlag::Seen]);
        }
        _ => panic!("expected MessageModified"),
    }
    match deleted_event(&parsed(false)) {
        Event::MessageDeleted { username, mailbox, unique_id } => {
            assert_eq!((username.as_str(), mailbox.as_str(), unique_id.as_str()), ("alice", "INBOX", "123.456"));
        }
        _ => panic!("expected MessageDeleted"),
    }
}

#[test]
fn watched_mailboxes() {
    let dir = mailbox_dir("/mail", "alice", "INBOX");
    assert_eq!(dir, "/mail/alice/INBOX");
    let mut table = WatchTable::new();
    table.watch("alice", "INBOX", &dir);
    assert_eq!(table.unwatch("alice", "INBOX").unwrap(), "/mail/alice/INBOX");
    match table.unwatch("alice", "INBOX") {
        Err(Error::NotFound(m)) => assert_eq!(m, "Mailbox not being watched: alice/INBOX"),
        _ => panic!("expected NotFound"),
    }
}
