use scuttled::command_handlers::{check_access, handler_error_response, CommandHandlers};
use scuttled::error::Error;
use scuttled::handlers::CommandHandler;
use scuttled::session_context::SessionState;

#[derive(Clone)]
struct MockHandler {
    name: String,
    requires_auth: bool,
}

impl CommandHandler for MockHandler {
    fn command_name(&self) -> &str {
        &self.name
    }

    fn requires_auth(&self) -> bool {
        self.requires_auth
    }

    fn requires_selected_mailbox(&self) -> bool {
        false
    }
}

#[test]
fn test_command_handlers_creation() {
    let handlers: CommandHandlers<MockHandler> = CommandHandlers::new();
    assert_eq!(handlers.list_commands().len(), 0);
}

#[test]
fn test_register_handler() {
    let mut handlers = CommandHandlers::new();
    let handler = MockHandler { name: "TEST".to_string(), requires_auth: false };

    handlers.register(handler.clone()).unwrap();
    assert!(handlers.has_command("TEST"));
    assert!(handlers.has_command("test")); // Case-insensitive
}

#[test]
fn test_duplicate_registration() {
    let mut handlers = CommandHandlers::new();
    let handler1 = MockHandler { name: "TEST".to_string(), requires_auth: false };
    let handler2 = MockHandler {
        name: "test".to_string(), // Same name, different case
        requires_auth: false,
    };

    handlers.register(handler1).unwrap();
    let result = handlers.register(handler2);
    assert!(result.is_err());
}

#[test]
fn test_get_handler() {
    let mut handlers = CommandHandlers::new();
    let handler = MockHandler { name: "CAPABILITY".to_string(), requires_auth: false };

    handlers.register(handler.clone()).unwrap();

    assert!(handlers.get("CAPABILITY").is_some());
    assert!(handlers.get("capability").is_some());
    assert!(handlers.get("Capability").is_some());
    assert!(handlers.get("UNKNOWN").is_none());
}

#[test]
fn test_list_commands() {
    let mut handlers = CommandHandlers::new();

    handlers.register(MockHandler { name: "CAPABILITY".to_string(), requires_auth: false }).unwrap();

    handlers.register(MockHandler { name: "NOOP".to_string(), requires_auth: true }).unwrap();

    let commands = handlers.list_commands();
    assert_eq!(commands.len(), 2);
    assert!(commands.contains(&"CAPABILITY".to_string()));
    assert!(commands.contains(&"NOOP".to_string()));
}

#[test]
fn duplicate_registration_names_the_command() {
    let mut handlers = CommandHandlers::new();
    handlers.register(MockHandler { name: "Noop".to_string(), requires_auth: true }).unwrap();
    match handlers.register_named("noop", MockHandler { name: "x".to_string(), requires_auth: true }) {
        Err(Error::Internal(m)) => assert_eq!(m, "Command handler already registered: NOOP"),
        _ => panic!("expected a refusal"),
    }
}

#[test]
fn dispatch_checks_requirements() {
    let mut handlers = CommandHandlers::new();
    handlers.register(MockHandler { name: "SECRET".to_string(), requires_auth: true }).unwrap();
    handlers.register(MockHandler { name: "OPEN".to_string(), requires_auth: false }).unwrap();

    let refused = handlers.dispatch_target("secret", "T1", &SessionState::NotAuthenticated);
    assert_eq!(refused.err().unwrap().to_string(), "T1 NO Command requires authentication\r\n");

    let state = SessionState::Authenticated { username: "a".to_string() };
    assert!(handlers.dispatch_target("secret", "T2", &state).is_ok());
    assert!(handlers.dispatch_target("open", "T3", &SessionState::NotAuthenticated).is_ok());

    let unknown = handlers.dispatch_target("Bogus", "T4", &state);
    assert_eq!(unknown.err().unwrap().to_string(), "T4 BAD Unknown command: Bogus\r\n");
}

#[test]
fn access_rules() {
    let selected = SessionState::Selected { username: "a".to_string(), mailbox: "INBOX".to_string() };
    let authed = SessionState::Authenticated { username: "a".to_string() };
    assert!(check_access("T", true, true, &selected).is_none());
    assert_eq!(
        check_access("T", false, true, &authed).unwrap().to_string(),
        "T NO Command requires a selected mailbox\r\n"
    );
    assert_eq!(
        check_access("T", true, false, &SessionState::NotAuthenticated).unwrap().to_string(),
        "T NO Command requires authentication\r\n"
    );
    assert!(check_access("T", false, false, &SessionState::NotAuthenticated).is_none());
    assert_eq!(
        handler_error_response("T", &Error::Io("disk".to_string())).to_string(),
        "T BAD Handler error: IO error: disk\r\n"
    );
}
