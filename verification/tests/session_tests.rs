use scuttled::error::Error;
use scuttled::session::{check_timeouts, ends_session, greeting, process_line, LineAction, SequenceIdMap, TagHistory};
use scuttled::protocol::Response;

fn reply_text(a: &LineAction) -> String {
    match a {
        LineAction::Reply(r) => r.to_string(),
        LineAction::StartTls(r) => format!("TLS:{}", r.to_string()),
        LineAction::Run { tag, name, args } => format!("RUN {} {} [{}]", tag, name, args),
    }
}

#[test]
fn tag_history_refuses_duplicates() {
    let mut h = TagHistory::new(2);
    h.register("A1".to_string()).unwrap();
    match h.register("A1".to_string()) {
        Err(Error::ProtocolError(m)) => assert_eq!(m, "Duplicate tag: A1"),
        _ => panic!("expected duplicate"),
    }
    h.register("A2".to_string()).unwrap();
    match h.register("A3".to_string()) {
        Err(Error::ProtocolError(m)) => assert_eq!(m, "Maximum tag history exceeded"),
        _ => panic!("expected full"),
    }
    h.clear();
    h.register("A1".to_string()).unwrap();
    let mut d = TagHistory::with_default_max();
    d.register("X".to_string()).unwrap();
}

#[test]
fn sequence_numbers_map_to_uids() {
    let mut m = SequenceIdMap::new();
    assert!(!m.is_initialized());
    match m.get_uid(1) {
        Err(Error::ProtocolError(s)) => assert_eq!(s, "Invalid sequence ID: 1"),
        _ => panic!("expected error"),
    }
    m.initialize(vec![10, 20, 35]);
    assert!(m.is_initialized());
    assert_eq!(m.get_uid(1).unwrap(), 10);
    assert_eq!(m.get_uid(3).unwrap(), 35);
    assert!(m.get_uid(0).is_err());
    match m.get_uid(4) {
        Err(Error::ProtocolError(s)) => assert_eq!(s, "Invalid sequence ID: 4"),
        _ => panic!("expected error"),
    }
    m.clear();
    assert!(!m.is_initialized());
}

#[test]
fn lines_become_actions() {
    let mut tags = TagHistory::with_default_max();
    let a = process_line(&mut tags, "A001 CAPABILITY\r\n", false, true);
    assert_eq!(reply_text(&a), "RUN A001 CAPABILITY []");
    let a = process_line(&mut tags, "A002 LOGIN bob \"pw\"\n", false, true);
    assert_eq!(reply_text(&a), "RUN A002 LOGIN [bob pw]");
    let a = process_line(&mut tags, "A003 LIST \"\" *\r\n", false, true);
    assert_eq!(reply_text(&a), "RUN A003 LIST [ *]");
    let a = process_line(&mut tags, "A001 NOOP\r\n", false, true);
    assert_eq!(reply_text(&a), "A001 BAD Tag error: Protocol error: Duplicate tag: A001\r\n");
    let a = process_line(&mut tags, "garbage\r\n", false, true);
    assert_eq!(reply_text(&a), "* BAD Invalid command format\r\n");
    let a = process_line(&mut tags, "A004 FLY\r\n", false, true);
    assert_eq!(reply_text(&a), "A004 BAD Parse error: Protocol error: Unknown command: FLY\r\n");
    let a = process_line(&mut tags, "A005 EXPUNGE\r\n", false, true);
    assert_eq!(reply_text(&a), "A005 BAD Command not yet implemented\r\n");
}

#[test]
fn starttls_decisions() {
    let mut tags = TagHistory::with_default_max();
    let a = process_line(&mut tags, "T1 STARTTLS\r\n", false, true);
    assert_eq!(reply_text(&a), "TLS:T1 OK Ready for TLS handshake\r\n");
    let a = process_line(&mut tags, "T2 STARTTLS\r\n", true, true);
    assert_eq!(reply_text(&a), "T2 BAD Already using TLS\r\n");
    let a = process_line(&mut tags, "T3 STARTTLS\r\n", false, false);
    assert_eq!(reply_text(&a), "T3 BAD STARTTLS not available\r\n");
}

#[test]
fn session_boundaries() {
    assert_eq!(greeting().to_string(), "* OK IMAP server ready\r\n");
    assert!(ends_session(&Response::Bye { message: "bye".to_string() }));
    assert!(!ends_session(&Response::Okay { tag: None, message: "x".to_string() }));
    let (r, e) = check_timeouts(10, 5, 0, 100).unwrap();
    assert_eq!(r.to_string(), "* BYE Session duration exceeded\r\n");
    assert!(matches!(e, Error::ProtocolError(m) if m == "Session duration exceeded"));
    let (r, _) = check_timeouts(1, 5, 101, 100).unwrap();
    assert_eq!(r.to_string(), "* BYE Session idle timeout\r\n");
    assert!(check_timeouts(5, 5, 100, 100).is_none());
}
