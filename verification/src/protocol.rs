//! IMAP protocol: commands parsed from client lines and responses sent back.

use vstd::prelude::*;
use vstd::string::*;

use crate::error::{Error, Result};
use crate::text::{
    concat, same_text, split_whitespace, to_uppercase, trim, trim_by, unicode_uppercase, views, words,
};

verus! {

/// IMAP command parsed from client input.
#[derive(Debug, PartialEq)]
pub enum Command {
    Capability,
    Noop,
    Logout,
    Starttls,
    Login { username: String, password: String },
    Select { mailbox: String },
    Examine { mailbox: String },
    Create { mailbox: String },
    Delete { mailbox: String },
    Rename { from: String, to: String },
    List { reference: String, pattern: String },
    Lsub { reference: String, pattern: String },
    Status { mailbox: String, items: Vec<StatusItem> },
    Append { mailbox: String, flags: Vec<String>, date: Option<String>, message: Vec<u8> },
    Check,
    Close,
    Expunge,
    Search { query: String },
    Fetch { sequence: String, items: Vec<FetchItem> },
    Store { sequence: String, flags: Vec<String>, add: bool },
    Copy { sequence: String, mailbox: String },
    Uid { command: Box<Command> },
}

#[derive(Debug, Clone, PartialEq)]
pub enum StatusItem {
    Messages,
    Recent,
    Uidnext,
    Uidvalidity,
    Unseen,
}

#[derive(Debug, Clone, PartialEq)]
pub enum FetchItem {
    Uid,
    Flags,
    InternalDate,
    Rfc822Size,
    Envelope,
    Body,
    BodyStructure,
    BodySection { section: String },
    Fast,
    All,
    Full,
}

/// IMAP response to send to the client.
#[derive(Debug, Clone)]
pub enum Response {
    Okay { tag: Option<String>, message: String },
    No { tag: Option<String>, message: String },
    Bad { tag: Option<String>, message: String },
    Bye { message: String },
    Untagged { message: String },
    Continuation { message: String },
}

/// A response with its texts taken by their views.
pub enum ResponseView {
    Okay(Option<Seq<char>>, Seq<char>),
    No(Option<Seq<char>>, Seq<char>),
    Bad(Option<Seq<char>>, Seq<char>),
    Bye(Seq<char>),
    Untagged(Seq<char>),
    Continuation(Seq<char>),
}

/// The view of an optional tag.
pub open spec fn tag_view(tag: Option<String>) -> Option<Seq<char>> {
    match tag {
        Some(t) => Some(t@),
        None => None,
    }
}

impl View for Response {
    type V = ResponseView;

    open spec fn view(&self) -> ResponseView {
        match *self {
            Response::Okay { tag, message } => ResponseView::Okay(tag_view(tag), message@),
            Response::No { tag, message } => ResponseView::No(tag_view(tag), message@),
            Response::Bad { tag, message } => ResponseView::Bad(tag_view(tag), message@),
            Response::Bye { message } => ResponseView::Bye(message@),
            Response::Untagged { message } => ResponseView::Untagged(message@),
            Response::Continuation { message } => ResponseView::Continuation(message@),
        }
    }
}

/// `tag` followed by a space, or `* ` for an untagged line.
pub open spec fn tag_prefix(tag: Option<String>) -> Seq<char> {
    match tag {
        Some(t) => t@ + " "@,
        None => "* "@,
    }
}

/// The wire form of a response line, CRLF included.
pub open spec fn response_text(r: Response) -> Seq<char> {
    match r {
        Response::Okay { tag, message } => tag_prefix(tag) + "OK "@ + message@ + "\r\n"@,
        Response::No { tag, message } => tag_prefix(tag) + "NO "@ + message@ + "\r\n"@,
        Response::Bad { tag, message } => tag_prefix(tag) + "BAD "@ + message@ + "\r\n"@,
        Response::Bye { message } => "* BYE "@ + message@ + "\r\n"@,
        Response::Untagged { message } => "* "@ + message@ + "\r\n"@,
        Response::Continuation { message } => "+ "@ + message@ + "\r\n"@,
    }
}

fn tag_prefix_exec(tag: &Option<String>) -> (s: String)
    ensures
        s@ == tag_prefix(*tag),
{
    match tag {
        Some(t) => concat(t.as_str(), " "),
        None => "* ".to_owned(),
    }
}

impl Response {
    /// The wire form of this response line.
    pub fn to_string(&self) -> (s: String)
        ensures
            s@ == response_text(*self),
    {
        let mut s;
        match self {
            Response::Okay { tag, message } => {
                s = tag_prefix_exec(tag);
                s.append("OK ");
                s.append(message.as_str());
            },
            Response::No { tag, message } => {
                s = tag_prefix_exec(tag);
                s.append("NO ");
                s.append(message.as_str());
            },
            Response::Bad { tag, message } => {
                s = tag_prefix_exec(tag);
                s.append("BAD ");
                s.append(message.as_str());
            },
            Response::Bye { message } => {
                s = "* BYE ".to_owned();
                s.append(message.as_str());
            },
            Response::Untagged { message } => {
                s = "* ".to_owned();
                s.append(message.as_str());
            },
            Response::Continuation { message } => {
                s = "+ ".to_owned();
                s.append(message.as_str());
            },
        }
        s.append("\r\n");
        s
    }
}

/// The `i`-th word of a command line with surrounding double quotes removed.
pub open spec fn arg(w: Seq<Seq<char>>, i: int) -> Seq<char> {
    trim(w[i], Some('"'))
}

/// `r` is a protocol error whose detail is `msg`.
pub open spec fn protocol_error_is(r: Result<Command>, msg: Seq<char>) -> bool {
    r matches Err(Error::ProtocolError(m)) && m@ == msg
}

/// `r` is the command named by `k` taking one mailbox argument from the
/// arguments `a`, or the error that names what is missing.
pub open spec fn one_arg_command(a: Seq<Seq<char>>, k: Seq<char>, r: Result<Command>) -> bool {
    if a.len() < 1 {
        protocol_error_is(r, k + " requires mailbox name"@)
    } else if k == "SELECT"@ {
        r matches Ok(Command::Select { mailbox }) && mailbox@ == arg(a, 0)
    } else if k == "EXAMINE"@ {
        r matches Ok(Command::Examine { mailbox }) && mailbox@ == arg(a, 0)
    } else if k == "CREATE"@ {
        r matches Ok(Command::Create { mailbox }) && mailbox@ == arg(a, 0)
    } else {
        r matches Ok(Command::Delete { mailbox }) && mailbox@ == arg(a, 0)
    }
}

/// What the command named by the upper-cased word `k` is, with the
/// argument words `a` (surrounding double quotes removed), or the error
/// for a command that is unknown or lacks arguments.
pub open spec fn command_parses_to(k: Seq<char>, a: Seq<Seq<char>>, r: Result<Command>) -> bool {
    if k == "CAPABILITY"@ {
        r == Ok::<Command, Error>(Command::Capability)
    } else if k == "NOOP"@ {
        r == Ok::<Command, Error>(Command::Noop)
    } else if k == "LOGOUT"@ {
        r == Ok::<Command, Error>(Command::Logout)
    } else if k == "STARTTLS"@ {
        r == Ok::<Command, Error>(Command::Starttls)
    } else if k == "LOGIN"@ {
        if a.len() < 2 {
            protocol_error_is(r, "LOGIN requires username and password"@)
        } else {
            r matches Ok(Command::Login { username, password }) && username@ == arg(a, 0)
                && password@ == arg(a, 1)
        }
    } else if k == "SELECT"@ || k == "EXAMINE"@ || k == "CREATE"@ || k == "DELETE"@ {
        one_arg_command(a, k, r)
    } else if k == "LIST"@ {
        if a.len() < 2 {
            protocol_error_is(r, "LIST requires reference and pattern"@)
        } else {
            r matches Ok(Command::List { reference, pattern }) && reference@ == arg(a, 0)
                && pattern@ == arg(a, 1)
        }
    } else if k == "CLOSE"@ {
        r == Ok::<Command, Error>(Command::Close)
    } else if k == "EXPUNGE"@ {
        r == Ok::<Command, Error>(Command::Expunge)
    } else {
        protocol_error_is(r, "Unknown command: "@ + k)
    }
}

/// What `parse_command` returns for a line: the first word, upper-cased,
/// names the command; the following words, with surrounding double quotes
/// removed, are its arguments.
pub open spec fn parses_to(line: Seq<char>, r: Result<Command>) -> bool {
    let w = words(line);
    if w.len() == 0 {
        protocol_error_is(r, "Empty command"@)
    } else {
        command_parses_to(unicode_uppercase(w[0]), w.drop_first(), r)
    }
}

fn protocol_error(msg: &str) -> (r: Result<Command>)
    ensures
        protocol_error_is(r, msg@),
{
    Err(Error::ProtocolError(msg.to_owned()))
}

fn unquote(s: &String) -> (r: String)
    ensures
        r@ == trim(s@, Some('"')),
{
    trim_by(s.as_str(), Some('"'))
}

/// Parses an IMAP command from a line of input (the line without its tag).
pub fn parse_command(tag: &str, line: &str) -> (r: Result<Command>)
    ensures
        parses_to(line@, r),
{
    let mut parts = split_whitespace(line);
    let ghost w = words(line@);
    assert(parts@.len() == w.len());
    if parts.len() == 0 {
        return protocol_error("Empty command");
    }
    assert(parts@[0]@ == w[0]);
    let cmd = to_uppercase(parts[0].as_str());
    let args = parts.split_off(1);
    assert(views(args@) =~= w.drop_first());
    command_from_words(cmd.as_str(), &args)
}

/// The command named by the upper-cased word `keyword`, with the argument
/// words `args`.
pub fn command_from_words(keyword: &str, args: &Vec<String>) -> (r: Result<Command>)
    ensures
        command_parses_to(keyword@, views(args@), r),
{
    let ghost a = views(args@);
    let c = keyword;
    if same_text(c, "CAPABILITY") {
        Ok(Command::Capability)
    } else if same_text(c, "NOOP") {
        Ok(Command::Noop)
    } else if same_text(c, "LOGOUT") {
        Ok(Command::Logout)
    } else if same_text(c, "STARTTLS") {
        Ok(Command::Starttls)
    } else if same_text(c, "LOGIN") {
        if args.len() < 2 {
            return protocol_error("LOGIN requires username and password");
        }
        assert(args@[0]@ == a[0] && args@[1]@ == a[1]);
        Ok(Command::Login { username: unquote(&args[0]), password: unquote(&args[1]) })
    } else if same_text(c, "SELECT") || same_text(c, "EXAMINE") || same_text(c, "CREATE")
        || same_text(c, "DELETE") {
        if args.len() < 1 {
            let msg = concat(c, " requires mailbox name");
            return Err(Error::ProtocolError(msg));
        }
        assert(args@[0]@ == a[0]);
        let mailbox = unquote(&args[0]);
        if same_text(c, "SELECT") {
            Ok(Command::Select { mailbox })
        } else if same_text(c, "EXAMINE") {
            Ok(Command::Examine { mailbox })
        } else if same_text(c, "CREATE") {
            Ok(Command::Create { mailbox })
        } else {
            Ok(Command::Delete { mailbox })
        }
    } else if same_text(c, "LIST") {
        if args.len() < 2 {
            return protocol_error("LIST requires reference and pattern");
        }
        assert(args@[0]@ == a[0] && args@[1]@ == a[1]);
        Ok(Command::List { reference: unquote(&args[0]), pattern: unquote(&args[1]) })
    } else if same_text(c, "CLOSE") {
        Ok(Command::Close)
    } else if same_text(c, "EXPUNGE") {
        Ok(Command::Expunge)
    } else {
        Err(Error::ProtocolError(concat("Unknown command: ", c)))
    }
}

} // verus!
