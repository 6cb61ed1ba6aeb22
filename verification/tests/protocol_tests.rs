use scuttled::error::Error;
use scuttled::protocol::{parse_command, Command, Response};

#[test]
fn test_parse_capability() {
    let cmd = parse_command("A001", "CAPABILITY").unwrap();
    assert_eq!(cmd, Command::Capability);
}

#[test]
fn test_parse_login() {
    let cmd = parse_command("A002", "LOGIN username password").unwrap();
    assert_eq!(
        cmd,
        Command::Login { username: "username".to_string(), password: "password".to_string() }
    );
}

#[test]
fn test_parse_select() {
    let cmd = parse_command("A003", "SELECT INBOX").unwrap();
    assert_eq!(cmd, Command::Select { mailbox: "INBOX".to_string() });
}

#[test]
fn test_response_format() {
    let resp = Response::Okay {
        tag: Some("A001".to_string()),
        message: "CAPABILITY completed".to_string(),
    };
    assert_eq!(resp.to_string(), "A001 OK CAPABILITY completed\r\n");
}

#[test]
fn parse_is_case_insensitive_and_unquotes() {
    let cmd = parse_command("A1", "login \"bob\" \"secret\"").unwrap();
    assert_eq!(cmd, Command::Login { username: "bob".to_string(), password: "secret".to_string() });
    let cmd = parse_command("A2", "list \"\" \"*\"").unwrap();
    assert_eq!(cmd, Command::List { reference: "".to_string(), pattern: "*".to_string() });
}

#[test]
fn parse_errors_name_the_problem() {
    match parse_command("A1", "   ") {
        Err(Error::ProtocolError(m)) => assert_eq!(m, "Empty command"),
        other => panic!("unexpected {:?}", other),
    }
    match parse_command("A1", "LOGIN bob") {
        Err(Error::ProtocolError(m)) => assert_eq!(m, "LOGIN requires username and password"),
        other => panic!("unexpected {:?}", other),
    }
    match parse_command("A1", "select") {
        Err(Error::ProtocolError(m)) => assert_eq!(m, "SELECT requires mailbox name"),
        other => panic!("unexpected {:?}", other),
    }
    match parse_command("A1", "LIST x") {
        Err(Error::ProtocolError(m)) => assert_eq!(m, "LIST requires reference and pattern"),
        other => panic!("unexpected {:?}", other),
    }
    match parse_command("A1", "frobnicate now") {
        Err(Error::ProtocolError(m)) => assert_eq!(m, "Unknown command: FROBNICATE"),
        other => panic!("unexpected {:?}", other),
    }
}

#[test]
fn parse_other_commands() {
    assert_eq!(parse_command("A", "noop").unwrap(), Command::Noop);
    assert_eq!(parse_command("A", "LOGOUT").unwrap(), Command::Logout);
    assert_eq!(parse_command("A", "StartTLS").unwrap(), Command::Starttls);
    assert_eq!(parse_command("A", "CLOSE").unwrap(), Command::Close);
    assert_eq!(parse_command("A", "expunge").unwrap(), Command::Expunge);
    assert_eq!(
        parse_command("A", "CREATE Work").unwrap(),
        Command::Create { mailbox: "Work".to_string() }
    );
    assert_eq!(
        parse_command("A", "DELETE \"Old\"").unwrap(),
        Command::Delete { mailbox: "Old".to_string() }
    );
    assert_eq!(
        parse_command("A", "EXAMINE INBOX").unwrap(),
        Command::Examine { mailbox: "INBOX".to_string() }
    );
}

#[test]
fn response_lines() {
    let no = Response::No { tag: Some("A9".to_string()), message: "nope".to_string() };
    assert_eq!(no.to_string(), "A9 NO nope\r\n");
    let bad = Response::Bad { tag: None, message: "Invalid command format".to_string() };
    assert_eq!(bad.to_string(), "* BAD Invalid command format\r\n");
    let bye = Response::Bye { message: "Server shutdown".to_string() };
    assert_eq!(bye.to_string(), "* BYE Server shutdown\r\n");
    let untagged = Response::Untagged { message: "LIST () \"/\" \"INBOX\"".to_string() };
    assert_eq!(untagged.to_string(), "* LIST () \"/\" \"INBOX\"\r\n");
    let cont = Response::Continuation { message: "go on".to_string() };
    assert_eq!(cont.to_string(), "+ go on\r\n");
    let greeting = Response::Okay { tag: None, message: "IMAP server ready".to_string() };
    assert_eq!(greeting.to_string(), "* OK IMAP server ready\r\n");
}

#[test]
fn error_texts() {
    assert_eq!(Error::NotFound("x".to_string()).to_string(), "Not found: x");
    assert_eq!(Error::ProtocolError("y".to_string()).to_string(), "Protocol error: y");
    assert_eq!(Error::MailboxExists("Work".to_string()).to_string(), "Mailbox already exists: Work");
    assert_eq!(Error::MailboxNotFound("Old".to_string()).to_string(), "Mailbox not found: Old");
    assert_eq!(Error::Internal("z".to_string()).to_string(), "Internal error: z");
}
