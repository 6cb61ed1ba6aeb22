use scuttled::types::{MessageFlag, MessageId};

#[test]
fn test_message_id_creation() {
    let id1 = MessageId::new();
    let id2 = MessageId::new();
    assert_ne!(id1, id2);
}

#[test]
fn test_message_flag_conversion() {
    let flag = MessageFlag::Seen;
    let imap_str = flag.to_imap_string();
    assert_eq!(imap_str, "\\Seen");

    let flag2 = MessageFlag::from_imap_string(&imap_str);
    assert_eq!(flag, flag2);
}

#[test]
fn test_custom_flag() {
    let flag = MessageFlag::Custom("MyFlag".to_string());
    let imap_str = flag.to_imap_string();
    assert_eq!(imap_str, "MyFlag");

    let flag2 = MessageFlag::from_imap_string("MyFlag");
    assert_eq!(flag, flag2);
}

#[test]
fn every_system_flag_round_trips() {
    let flags = vec![
        MessageFlag::Seen,
        MessageFlag::Answered,
        MessageFlag::Flagged,
        MessageFlag::Deleted,
        MessageFlag::Draft,
        MessageFlag::Recent,
    ];
    for f in flags {
        let text = f.to_imap_string();
        assert_eq!(MessageFlag::from_imap_string(&text), f);
    }
    assert_eq!(MessageFlag::Answered.to_imap_string(), "\\Answered");
    assert_eq!(MessageFlag::Recent.to_imap_string(), "\\Recent");
    // A custom flag named like a system flag reads back as the system flag.
    assert_eq!(
        MessageFlag::from_imap_string(&MessageFlag::Custom("\\Seen".to_string()).to_imap_string()),
        MessageFlag::Seen
    );
}
