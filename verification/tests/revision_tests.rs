use scuttled::mailbox::Mailbox;
use scuttled::watcher::summarize_parts;
use scuttled::command_handlers::CommandHandlers;
use scuttled::error::Error;
use scuttled::events::{EventKind, SubscriptionType, Subscriptions};
use scuttled::handlers::{
    pattern_to_filter, Builtin, CapabilityHandler, CommandHandler, ListHandler, LoginHandler, NoopHandler,
    SelectHandler,
};
use scuttled::maildir::{MailboxFormat, MaildirFormat};
use scuttled::mailboxes::MailboxFilter;
use scuttled::protocol::{command_from_words, Command, Response};
use scuttled::queue::QueueTask;
use scuttled::session::TagHistory;
use scuttled::session_context::SessionState;
use scuttled::types::{MessageFlag, MessageId, TaskType};
use scuttled::users::{hash_password, password_verdict};

fn is_v4(x: u128) -> bool {
    x & 0xF000C000000000000000u128 == 0x40008000000000000000u128
}

#[test]
fn random_ids_are_version_four_uuids() {
    assert!(is_v4(MessageId::new().0));
    assert!(is_v4(QueueTask::new(TaskType::IndexUpdate, serde_json::Value::Null).id));
    let mut subs = Subscriptions::new();
    let id = subs.subscribe(vec![EventKind::MailboxCreated], SubscriptionType::Async);
    assert!(is_v4(id.0));
}

#[test]
fn hashed_password_is_accepted() {
    let h = hash_password("secret").unwrap();
    assert_eq!(h.len(), 60);
    assert!(h.starts_with("$2b$12$"));
    assert_eq!(password_verdict(Some(&h), "secret").unwrap(), true);
    assert_eq!(password_verdict(Some(&h), "other").unwrap(), false);
}

#[test]
fn command_words_become_commands() {
    let args = vec!["\"INBOX\"".to_string()];
    match command_from_words("SELECT", &args) {
        Ok(Command::Select { mailbox }) => assert_eq!(mailbox, "INBOX"),
        _ => panic!("expected SELECT"),
    }
    match command_from_words("LOGIN", &args) {
        Err(Error::ProtocolError(m)) => assert_eq!(m, "LOGIN requires username and password"),
        _ => panic!("expected missing arguments"),
    }
    match command_from_words("EXAMINE", &vec![]) {
        Err(Error::ProtocolError(m)) => assert_eq!(m, "EXAMINE requires mailbox name"),
        _ => panic!("expected missing mailbox"),
    }
    match command_from_words("FETCH", &vec![]) {
        Err(Error::ProtocolError(m)) => assert_eq!(m, "Unknown command: FETCH"),
        _ => panic!("expected unknown"),
    }
    assert!(matches!(command_from_words("EXPUNGE", &vec![]), Ok(Command::Expunge)));
}

#[test]
fn builtin_handlers_report_their_own_requirements() {
    let b = Builtin::Select(SelectHandler::new());
    assert_eq!(b.command_name(), "SELECT");
    assert!(b.requires_auth());
    assert!(!b.requires_selected_mailbox());
    let l = Builtin::Login(LoginHandler::new());
    assert_eq!(l.command_name(), "LOGIN");
    assert!(!l.requires_auth());
    assert_eq!(Builtin::Capability(CapabilityHandler::new(false)).command_name(), "CAPABILITY");
    assert_eq!(Builtin::List(ListHandler::new()).command_name(), "LIST");
}

#[test]
fn dispatch_refuses_by_the_handlers_requirements() {
    let mut handlers = CommandHandlers::new();
    handlers.register(Builtin::Select(SelectHandler::new())).unwrap();
    handlers.register(Builtin::Noop(NoopHandler::new())).unwrap();
    handlers.register(Builtin::Login(LoginHandler::new())).unwrap();
    match handlers.dispatch_target("select", "A1", &SessionState::NotAuthenticated) {
        Err(r) => assert_eq!(r.to_string(), "A1 NO Command requires authentication\r\n"),
        Ok(_) => panic!("SELECT must be refused before login"),
    }
    match handlers.dispatch_target("LOGIN", "A2", &SessionState::NotAuthenticated) {
        Ok(h) => assert_eq!(h.command_name(), "LOGIN"),
        Err(_) => panic!("LOGIN needs no authentication"),
    }
    match handlers.dispatch_target("FETCH", "A3", &SessionState::NotAuthenticated) {
        Err(Response::Bad { message, .. }) => assert_eq!(message, "Unknown command: FETCH"),
        _ => panic!("expected unknown command"),
    }
    match handlers.register(Builtin::Noop(NoopHandler::new())) {
        Err(Error::Internal(m)) => assert_eq!(m, "Command handler already registered: NOOP"),
        _ => panic!("expected duplicate"),
    }
}

#[test]
fn capability_depends_on_tls() {
    let (plain, _) = CapabilityHandler::new(false).respond("A");
    assert!(plain.to_string().contains("STARTTLS"));
    let (tls, _) = CapabilityHandler::new(true).respond("A");
    assert!(!tls.to_string().contains("STARTTLS"));
}

#[test]
fn history_accepts_first_max_distinct_tags() {
    let mut h = TagHistory::new(3);
    let results: Vec<bool> = (0..5).map(|i| h.register(format!("T{}", i)).is_ok()).collect();
    assert_eq!(results, vec![true, true, true, false, false]);
}

#[test]
fn flags_round_trip_through_their_text() {
    for f in [
        MessageFlag::Seen,
        MessageFlag::Answered,
        MessageFlag::Flagged,
        MessageFlag::Deleted,
        MessageFlag::Draft,
        MessageFlag::Recent,
        MessageFlag::Custom("$Label".to_string()),
    ] {
        assert_eq!(MessageFlag::from_imap_string(&f.to_imap_string()), f);
    }
}

#[test]
fn component_parses_back_to_lettered_flags() {
    let format = MaildirFormat::new();
    let flags = [MessageFlag::Seen, MessageFlag::Recent, MessageFlag::Draft, MessageFlag::Custom("X".to_string())];
    let c = format.flags_to_filename_component(&flags);
    assert_eq!(c, ":2,DS");
    assert_eq!(MaildirFormat::parse_flags(&c[3..]), vec![MessageFlag::Draft, MessageFlag::Seen]);
    assert_eq!(format.flags_to_filename_component(&[MessageFlag::Recent]), "");
}

#[test]
fn wildcard_patterns_become_regexes() {
    match pattern_to_filter("Test*Foo") {
        MailboxFilter::Regex(_) => {}
        _ => panic!("expected a regex"),
    }
    match pattern_to_filter("Test%") {
        MailboxFilter::Regex(_) => {}
        _ => panic!("expected a regex"),
    }
    assert!(matches!(pattern_to_filter("Test"), MailboxFilter::Exact(_)));
}

#[test]
fn summary_of_parsed_parts() {
    let headers = vec![
        ("FROM".to_string(), "bob@example.com".to_string()),
        ("Subject".to_string(), "Hello".to_string()),
        ("from".to_string(), "later@example.com".to_string()),
    ];
    let long_body = "x".repeat(250);
    let s = summarize_parts(&headers, Some(long_body));
    assert_eq!(s.from, "bob@example.com");
    assert_eq!(s.to, "");
    assert_eq!(s.subject, "Hello");
    assert_eq!(s.body_preview, "x".repeat(200));
    let t = summarize_parts(&vec![], None);
    assert_eq!(t.body_preview, "");
}

#[test]
fn removal_lowers_the_message_count() {
    let mut mb = Mailbox::new("u".to_string(), "INBOX".to_string(), 7);
    let a = mb.assign_uid("u/INBOX/new/a").unwrap();
    mb.assign_uid("u/INBOX/new/b").unwrap();
    let before = mb.get_state();
    assert_eq!(before.message_count, 2);
    mb.remove_message(a).unwrap();
    let after = mb.get_state();
    assert_eq!(after.message_count, 1);
    assert_eq!(after.uid_next, before.uid_next);
    assert!(mb.assign_uid("u/INBOX/new/b").is_err());
}
