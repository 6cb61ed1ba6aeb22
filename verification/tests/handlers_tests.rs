use scuttled::handlers::{
    imap_pattern_to_regex, pattern_to_filter, CapabilityHandler, CommandHandler, CreateHandler,
    DeleteHandler, ListHandler, LoginHandler, LogoutHandler, NoopHandler, SelectHandler,
};
use scuttled::error::Error;
use scuttled::mailboxes::{MailboxFilter, MailboxRegistry};
use scuttled::protocol::Response;
use scuttled::session_context::SessionState;

fn text(r: &Response) -> String {
    r.to_string()
}

fn alice() -> SessionState {
    SessionState::Authenticated { username: "alice".to_string() }
}

#[test]
fn list_test_parse_args() {
    assert_eq!(
        ListHandler::parse_args("\"\" *"),
        Some(("\"\"".to_string(), "*".to_string()))
    );

    assert_eq!(
        ListHandler::parse_args("\"\" INBOX"),
        Some(("\"\"".to_string(), "INBOX".to_string()))
    );

    // Single argument - pattern only, empty reference
    assert_eq!(ListHandler::parse_args("*"), Some(("".to_string(), "*".to_string())));

    assert_eq!(ListHandler::parse_args("INBOX"), Some(("".to_string(), "INBOX".to_string())));

    // Empty args is invalid
    assert_eq!(ListHandler::parse_args(""), None);
}

#[test]
fn test_pattern_to_filter() {
    match pattern_to_filter("*") {
        MailboxFilter::All => {}
        _ => panic!("Expected All filter for '*'"),
    }

    match pattern_to_filter("INBOX") {
        MailboxFilter::Exact(s) if s == "INBOX" => {}
        _ => panic!("Expected Exact filter for 'INBOX'"),
    }

    match pattern_to_filter("Test*") {
        MailboxFilter::Prefix(s) if s == "Test" => {}
        _ => panic!("Expected Prefix filter for 'Test*'"),
    }

    match pattern_to_filter("*Test") {
        MailboxFilter::Suffix(s) if s == "Test" => {}
        _ => panic!("Expected Suffix filter for '*Test'"),
    }

    match pattern_to_filter("Test*Foo") {
        MailboxFilter::Regex(_) => {}
        _ => panic!("Expected Regex filter for 'Test*Foo'"),
    }

    match pattern_to_filter("Test%") {
        MailboxFilter::Regex(_) => {}
        _ => panic!("Expected Regex filter for 'Test%'"),
    }
}

#[test]
fn test_imap_pattern_to_regex() {
    assert_eq!(imap_pattern_to_regex("Test*"), r"^Test.*$");
    assert_eq!(imap_pattern_to_regex("*Test"), r"^.*Test$");

    assert_eq!(imap_pattern_to_regex("Test%"), r"^Test[^/]*$");
    assert_eq!(imap_pattern_to_regex("%Test"), r"^[^/]*Test$");

    assert_eq!(imap_pattern_to_regex("Test*Foo%Bar"), r"^Test.*Foo[^/]*Bar$");

    assert_eq!(imap_pattern_to_regex("Test.Foo"), r"^Test\.Foo$");
    assert_eq!(imap_pattern_to_regex("Test+Foo"), r"^Test\+Foo$");
}

#[test]
fn login_test_parse_args() {
    assert_eq!(
        LoginHandler::parse_args("alice password123"),
        Some(("alice".to_string(), "password123".to_string()))
    );

    assert_eq!(LoginHandler::parse_args("alice"), None);
    assert_eq!(LoginHandler::parse_args(""), None);
}

#[test]
fn pattern_filters_in_detail() {
    assert_eq!(pattern_to_filter("**"), MailboxFilter::Regex("^.*.*$".to_string()));
    assert_eq!(pattern_to_filter(""), MailboxFilter::Exact("".to_string()));
    assert_eq!(pattern_to_filter("a%"), MailboxFilter::Regex("^a[^/]*$".to_string()));
    assert_eq!(imap_pattern_to_regex("a(b)|c"), r"^a\(b\)\|c$");
}

#[test]
fn test_capability_handler() {
    let handler = CapabilityHandler::new(false);
    assert_eq!(handler.command_name(), "CAPABILITY");
    assert!(!handler.requires_auth());
    let (r, s) = handler.respond("A1");
    assert_eq!(text(&r), "A1 OK CAPABILITY IMAP4rev1 STARTTLS\r\n");
    assert!(s.is_none());
    let (r, _) = CapabilityHandler::new(true).respond("A2");
    assert_eq!(text(&r), "A2 OK CAPABILITY IMAP4rev1\r\n");
}

#[test]
fn test_noop_handler() {
    let handler = NoopHandler::new();
    assert_eq!(handler.command_name(), "NOOP");
    assert!(handler.requires_auth());
    let (r, s) = handler.respond("A3");
    assert_eq!(text(&r), "A3 OK NOOP completed\r\n");
    assert!(s.is_none());
}

#[test]
fn test_logout_handler() {
    let handler = LogoutHandler::new();
    assert_eq!(handler.command_name(), "LOGOUT");
    assert!(!handler.requires_auth());
    let (r, s) = handler.respond("A4");
    assert_eq!(text(&r), "A4 OK LOGOUT completed\r\n");
    assert_eq!(s, Some(SessionState::Logout));
}

#[test]
fn test_login_handler() {
    let handler = LoginHandler::new();
    assert_eq!(handler.command_name(), "LOGIN");
    assert!(!handler.requires_auth());
    let creds = handler.credentials("A5", "bob secret").ok().unwrap();
    assert_eq!(creds.username, "bob");
    assert_eq!(creds.password, "secret");
    let bad = handler.credentials("A5", "bob").err().unwrap();
    assert_eq!(text(&bad), "A5 BAD Invalid LOGIN syntax\r\n");
    let (r, s) = handler.finish("A6", "bob", Ok(true));
    assert_eq!(text(&r), "A6 OK LOGIN completed\r\n");
    assert_eq!(s, Some(SessionState::Authenticated { username: "bob".to_string() }));
    let (r, s) = handler.finish("A7", "bob", Ok(false));
    assert_eq!(text(&r), "A7 NO LOGIN failed: invalid credentials\r\n");
    assert!(s.is_none());
    let (r, _) = handler.finish("A8", "bob", Err(Error::Database("down".to_string())));
    assert_eq!(text(&r), "A8 NO LOGIN failed: Database error: down\r\n");
}

#[test]
fn test_select_handler() {
    let handler = SelectHandler::new();
    assert_eq!(handler.command_name(), "SELECT");
    assert!(handler.requires_auth());
    let mut reg = MailboxRegistry::new();
    reg.create_mailbox("alice", "INBOX").unwrap();
    let (r, s) = handler.handle("A1", "  INBOX ", &reg, &alice());
    assert_eq!(text(&r), "A1 OK SELECT completed for INBOX\r\n");
    assert_eq!(
        s,
        Some(SessionState::Selected { username: "alice".to_string(), mailbox: "INBOX".to_string() })
    );
    let (r, s) = handler.handle("A2", "Nope", &reg, &alice());
    assert_eq!(text(&r), "A2 NO Mailbox does not exist: Nope\r\n");
    assert!(s.is_none());
    let (r, _) = handler.handle("A3", "   ", &reg, &alice());
    assert_eq!(text(&r), "A3 BAD SELECT requires a mailbox name\r\n");
    let (r, _) = handler.handle("A4", "INBOX", &reg, &SessionState::NotAuthenticated);
    assert_eq!(text(&r), "A4 NO Not authenticated\r\n");
}

#[test]
fn test_create_handler() {
    let handler = CreateHandler::new();
    assert_eq!(handler.command_name(), "CREATE");
    assert!(handler.requires_auth());
    let mut reg = MailboxRegistry::new();
    let (r, _) = handler.handle("C1", "Work", &mut reg, &alice());
    assert_eq!(text(&r), "C1 OK CREATE completed for Work\r\n");
    assert!(reg.get_mailbox("alice", "Work").is_some());
    let (r, _) = handler.handle("C2", "Work", &mut reg, &alice());
    assert_eq!(text(&r), "C2 NO CREATE failed: Mailbox already exists: Work\r\n");
    let (r, _) = handler.handle("C3", "", &mut reg, &alice());
    assert_eq!(text(&r), "C3 BAD CREATE requires a mailbox name\r\n");
    let (r, _) = handler.handle("C4", "Other", &mut reg, &SessionState::NotAuthenticated);
    assert_eq!(text(&r), "C4 NO Not authenticated\r\n");
    assert!(reg.get_mailbox("alice", "Other").is_none());
}

#[test]
fn test_delete_handler() {
    let handler = DeleteHandler::new();
    assert_eq!(handler.command_name(), "DELETE");
    assert!(handler.requires_auth());
    let mut reg = MailboxRegistry::new();
    reg.create_mailbox("alice", "Work").unwrap();
    reg.create_mailbox("alice", "INBOX").unwrap();
    let (r, _) = handler.handle("D1", "inbox", &mut reg, &alice());
    assert_eq!(text(&r), "D1 NO Cannot delete INBOX\r\n");
    let (r, _) = handler.handle("D2", "Work", &mut reg, &alice());
    assert_eq!(text(&r), "D2 OK DELETE completed for Work\r\n");
    assert!(reg.get_mailbox("alice", "Work").is_none());
    let (r, _) = handler.handle("D3", "Work", &mut reg, &alice());
    assert_eq!(text(&r), "D3 NO DELETE failed: Mailbox not found: Work\r\n");
    let (r, _) = handler.handle("D4", " ", &mut reg, &alice());
    assert_eq!(text(&r), "D4 BAD DELETE requires a mailbox name\r\n");
}

#[test]
fn test_list_handler() {
    let handler = ListHandler::new();
    assert_eq!(handler.command_name(), "LIST");
    assert!(handler.requires_auth());
    let mut reg = MailboxRegistry::new();
    reg.create_mailbox("alice", "INBOX").unwrap();
    reg.create_mailbox("alice", "Work").unwrap();
    reg.create_mailbox("alice", "Work/Projects").unwrap();
    reg.create_mailbox("bob", "Secret").unwrap();

    let (rs, _) = handler.handle("L1", "\"\" *", &reg, &alice());
    let lines: Vec<String> = rs.iter().map(text).collect();
    assert_eq!(
        lines,
        vec![
            "* LIST () \"/\" \"INBOX\"\r\n".to_string(),
            "* LIST () \"/\" \"Work\"\r\n".to_string(),
            "* LIST () \"/\" \"Work/Projects\"\r\n".to_string(),
            "L1 OK LIST completed\r\n".to_string(),
        ]
    );

    let (rs, _) = handler.handle("L2", "\"\" inbox", &reg, &alice());
    let lines: Vec<String> = rs.iter().map(text).collect();
    assert_eq!(lines, vec!["* LIST () \"/\" \"INBOX\"\r\n".to_string(), "L2 OK LIST completed\r\n".to_string()]);

    let (rs, _) = handler.handle("L3", "Work/ %", &reg, &alice());
    let lines: Vec<String> = rs.iter().map(text).collect();
    assert_eq!(
        lines,
        vec!["* LIST () \"/\" \"Work/Projects\"\r\n".to_string(), "L3 OK LIST completed\r\n".to_string()]
    );

    let (rs, _) = handler.handle("L4", "\"\" Wo%", &reg, &alice());
    let lines: Vec<String> = rs.iter().map(text).collect();
    assert_eq!(lines, vec!["* LIST () \"/\" \"Work\"\r\n".to_string(), "L4 OK LIST completed\r\n".to_string()]);

    let (rs, _) = handler.handle("L5", "", &reg, &alice());
    assert_eq!(text(&rs[0]), "L5 BAD Invalid LIST syntax\r\n");
    let (rs, _) = handler.handle("L6", "*", &reg, &SessionState::NotAuthenticated);
    assert_eq!(text(&rs[0]), "L6 NO Not authenticated\r\n");
}
