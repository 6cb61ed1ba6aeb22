use scuttled::maildir::{MailboxFormat, MaildirFormat};
use scuttled::types::MessageFlag;

#[test]
fn test_parse_maildir_filename_with_flags() {
    let root = "/mail";
    let path = "/mail/user/INBOX/cur/1234567890.M123P456.hostname:2,RS";
    let format = MaildirFormat::new();

    let msg = format.parse_message_path(path, root).unwrap();

    assert_eq!(msg.unique_id, "1234567890.M123P456.hostname");
    assert_eq!(msg.username, "user");
    assert_eq!(msg.mailbox, "INBOX");
    assert_eq!(msg.flags.len(), 2);
    assert!(msg.flags.contains(&MessageFlag::Answered));
    assert!(msg.flags.contains(&MessageFlag::Seen));
    assert!(!msg.is_new);
}

#[test]
fn test_parse_maildir_filename_without_flags() {
    let root = "/mail";
    let path = "/mail/user/INBOX/new/1234567890.M123P456.hostname";
    let format = MaildirFormat::new();

    let msg = format.parse_message_path(path, root).unwrap();

    assert_eq!(msg.unique_id, "1234567890.M123P456.hostname");
    assert_eq!(msg.flags.len(), 0);
    assert!(msg.is_new);
}

#[test]
fn test_parse_maildir_filename_all_flags() {
    let root = "/mail";
    let path = "/mail/user/INBOX/cur/123.456:2,DFRST";
    let format = MaildirFormat::new();

    let msg = format.parse_message_path(path, root).unwrap();

    assert_eq!(msg.flags.len(), 5);
    assert!(msg.flags.contains(&MessageFlag::Draft));
    assert!(msg.flags.contains(&MessageFlag::Flagged));
    assert!(msg.flags.contains(&MessageFlag::Answered));
    assert!(msg.flags.contains(&MessageFlag::Seen));
    assert!(msg.flags.contains(&MessageFlag::Deleted));
}

#[test]
fn test_flags_to_filename_component() {
    let format = MaildirFormat::new();
    let flags = vec![MessageFlag::Seen, MessageFlag::Answered, MessageFlag::Flagged];

    let component = format.flags_to_filename_component(&flags);
    assert_eq!(component, ":2,FRS"); // Alphabetically sorted
}

#[test]
fn test_parse_ignores_tmp() {
    let root = "/mail";
    let path = "/mail/alice/INBOX/tmp/123.456";
    let format = MaildirFormat::new();

    assert!(format.parse_message_path(path, root).is_none());
}

#[test]
fn test_watch_subdirectories() {
    let format = MaildirFormat::new();
    let subdirs = format.watch_subdirectories();

    assert_eq!(subdirs.len(), 2);
    assert!(subdirs.contains(&"new"));
    assert!(subdirs.contains(&"cur"));
}

#[test]
fn component_details() {
    let format = MaildirFormat::new();
    assert_eq!(format.flags_to_filename_component(&[]), "");
    assert_eq!(
        format.flags_to_filename_component(&[MessageFlag::Recent, MessageFlag::Custom("X".to_string())]),
        ""
    );
    assert_eq!(
        format.flags_to_filename_component(&[
            MessageFlag::Deleted,
            MessageFlag::Draft,
            MessageFlag::Seen,
            MessageFlag::Seen
        ]),
        ":2,DSST"
    );
}

#[test]
fn parse_edge_cases() {
    let format = MaildirFormat::new();
    // Outside the root.
    assert!(format.parse_message_path("/other/user/INBOX/cur/1", "/mail").is_none());
    // Too short.
    assert!(format.parse_message_path("/mail/user/cur/1", "/mail").is_none());
    // A colon without the flags marker: the id stops at the colon, no flags.
    let msg = format.parse_message_path("/mail/u/Box/new/abc:1,S", "/mail").unwrap();
    assert_eq!(msg.unique_id, "abc");
    assert!(msg.flags.is_empty());
    // Unknown letters are ignored.
    let msg = format.parse_message_path("/mail/u/Box/cur/abc:2,SPX", "/mail").unwrap();
    assert_eq!(msg.flags, vec![MessageFlag::Seen]);
    assert_eq!(MaildirFormat::parse_flags("TDP"), vec![MessageFlag::Deleted, MessageFlag::Draft]);
}

#[test]
fn valid_message_files() {
    let format = MaildirFormat::new();
    assert!(format.is_valid_message_file("/mail/u/INBOX/new/123", true));
    assert!(format.is_valid_message_file("u/INBOX/cur/123:2,S", true));
    assert!(!format.is_valid_message_file("/mail/u/INBOX/new/123", false));
    assert!(!format.is_valid_message_file("/mail/u/INBOX/tmp/123", true));
    assert!(!format.is_valid_message_file("123", true));
}

#[test]
fn flags_survive_a_file_name() {
    let format = MaildirFormat::new();
    let flags = vec![MessageFlag::Seen, MessageFlag::Draft, MessageFlag::Recent];
    let name = format!("/mail/u/INBOX/cur/abc{}", format.flags_to_filename_component(&flags));
    let msg = format.parse_message_path(&name, "/mail").unwrap();
    assert_eq!(msg.unique_id, "abc");
    assert_eq!(msg.flags, vec![MessageFlag::Draft, MessageFlag::Seen]);
}
