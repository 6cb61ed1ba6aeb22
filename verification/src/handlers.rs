//! The built-in IMAP command handlers and what each one answers.
//!
//! A handler turns a command's tag and arguments, the session state and the
//! mailbox registry into the responses to send and, where the command changes
//! it, the new session state. Sending the responses is the server's part.

use vstd::prelude::*;
use vstd::string::*;

use crate::error::{Error, Result};
use crate::mailboxes::{
    fresh_info, filter_usable, FilterView, MailboxFilter, MailboxRegistry,
};
use crate::protocol::{Response, ResponseView};
use crate::session_context::{state_user, update_view, SessionState, SessionStateView};
use crate::text::{
    chars_of, concat, eq_ignore_ascii_case, eq_ignore_ascii_case_str, push_char, split_whitespace,
    string_of, trim, trim_by, words,
};
use crate::types::Credentials;

verus! {

/// A handler of one IMAP command. Users of the library implement it to add
/// commands of their own.
///
/// The three spec functions are what the handler's methods report; each
/// handler of this library states its own. Their default bodies give the
/// usual requirements (authentication yes, a selected mailbox no) and an
/// unknown name.
pub trait CommandHandler {
    /// The name of the command, as reported by `command_name`.
    open spec fn spec_command_name(&self) -> Seq<char> {
        vstd::pervasive::arbitrary()
    }

    /// Whether the command requires authentication, as reported by
    /// `requires_auth`.
    open spec fn spec_requires_auth(&self) -> bool {
        true
    }

    /// Whether the command requires a selected mailbox, as reported by
    /// `requires_selected_mailbox`.
    open spec fn spec_requires_selected_mailbox(&self) -> bool {
        false
    }

    /// The name of the command this handler processes (e.g. "CAPABILITY").
    fn command_name(&self) -> (r: &str)
        ensures
            r@ == self.spec_command_name(),
    ;

    /// Whether this command requires authentication.
    fn requires_auth(&self) -> (r: bool)
        ensures
            r == self.spec_requires_auth(),
    ;

    /// Whether this command requires a selected mailbox.
    fn requires_selected_mailbox(&self) -> (r: bool)
        ensures
            r == self.spec_requires_selected_mailbox(),
    ;
}

// ---------------------------------------------------------------------------
// LIST patterns
// ---------------------------------------------------------------------------

/// Characters that a regular expression gives a meaning of their own.
pub open spec fn is_regex_special(c: char) -> bool {
    c == '.' || c == '+' || c == '?' || c == '^' || c == '$' || c == '(' || c == ')' || c == '['
        || c == ']' || c == '{' || c == '}' || c == '|' || c == '\\'
}

/// The regular expression text for one pattern character: `*` matches
/// anything, `%` anything but `/`, a special character is escaped.
pub open spec fn regex_piece(c: char) -> Seq<char> {
    if c == '*' {
        seq!['.', '*']
    } else if c == '%' {
        seq!['[', '^', '/', ']', '*']
    } else if is_regex_special(c) {
        seq!['\\', c]
    } else {
        seq![c]
    }
}

/// The regular expression text for a pattern, piece by piece.
pub open spec fn regex_body(p: Seq<char>) -> Seq<char>
    decreases p.len(),
{
    if p.len() == 0 {
        Seq::empty()
    } else {
        regex_body(p.drop_last()) + regex_piece(p.last())
    }
}

/// The anchored regular expression for an IMAP LIST pattern.
pub open spec fn pattern_regex(p: Seq<char>) -> Seq<char> {
    seq!['^'] + regex_body(p) + seq!['$']
}

/// The filter for an IMAP LIST pattern: `*` alone lists all, a pattern
/// without wildcards names one mailbox, `prefix*` and `*suffix` match the
/// start or the end of names, anything else becomes a regular expression.
pub open spec fn pattern_filter(p: Seq<char>) -> FilterView {
    if p == seq!['*'] {
        FilterView::All
    } else if !p.contains('*') && !p.contains('%') {
        FilterView::Exact(p)
    } else if p.len() > 0 && p.last() == '*' && !p.drop_last().contains('*') && !p.contains('%') {
        FilterView::Prefix(p.drop_last())
    } else if p.len() > 0 && p[0] == '*' && !p.drop_first().contains('*') && !p.contains('%') {
        FilterView::Suffix(p.drop_first())
    } else {
        FilterView::Regex(pattern_regex(p))
    }
}

/// Whether `c` occurs in `v[from..to]`.
fn occurs_in(v: &Vec<char>, from: usize, to: usize, c: char) -> (r: bool)
    requires
        from <= to <= v@.len(),
    ensures
        r == v@.subrange(from as int, to as int).contains(c),
{
    let mut i = from;
    while i < to
        invariant
            from <= i <= to <= v@.len(),
            !v@.subrange(from as int, i as int).contains(c),
        decreases to - i,
    {
        if v[i] == c {
            assert(v@.subrange(from as int, to as int)[i - from] == c);
            return true;
        }
        proof {
            let s = v@.subrange(from as int, i as int + 1);
            assert(s =~= v@.subrange(from as int, i as int).push(v@[i as int]));
            if s.contains(c) {
                let j = choose|j: int| 0 <= j < s.len() && s[j] == c;
                if j < s.len() - 1 {
                    assert(v@.subrange(from as int, i as int)[j] == c);
                }
            }
        }
        i = i + 1;
    }
    proof {
        let s = v@.subrange(from as int, to as int);
        assert(s =~= v@.subrange(from as int, i as int));
    }
    false
}

/// Converts an IMAP LIST pattern to a mailbox filter.
pub fn pattern_to_filter(pattern: &str) -> (f: MailboxFilter)
    ensures
        f@ == pattern_filter(pattern@),
{
    let v = chars_of(pattern);
    let n = v.len();
    let ghost p = pattern@;
    assert(v@.subrange(0, n as int) =~= p);
    if n == 1 && v[0] == '*' {
        assert(p =~= seq!['*']);
        return MailboxFilter::All;
    }
    assert(n == 1 && v@[0] == '*' ==> p =~= seq!['*']);
    let has_star = occurs_in(&v, 0, n, '*');
    let has_percent = occurs_in(&v, 0, n, '%');
    if !has_star && !has_percent {
        return MailboxFilter::Exact(pattern.to_owned());
    }
    if n > 0 && v[n - 1] == '*' && !occurs_in(&v, 0, n - 1, '*') && !has_percent {
        assert(v@.subrange(0, n - 1) =~= p.drop_last());
        return MailboxFilter::Prefix(string_of(v.as_slice(), 0, n - 1));
    }
    assert(n > 0 ==> v@.subrange(0, n - 1) =~= p.drop_last());
    if n > 0 && v[0] == '*' && !occurs_in(&v, 1, n, '*') && !has_percent {
        assert(v@.subrange(1, n as int) =~= p.drop_first());
        return MailboxFilter::Suffix(string_of(v.as_slice(), 1, n));
    }
    assert(n > 0 ==> v@.subrange(1, n as int) =~= p.drop_first());
    MailboxFilter::Regex(imap_pattern_to_regex(pattern))
}

/// Converts an IMAP pattern with the wildcards `*` (anything) and `%`
/// (anything but `/`) to an anchored regular expression.
pub fn imap_pattern_to_regex(pattern: &str) -> (r: String)
    ensures
        r@ == pattern_regex(pattern@),
{
    let v = chars_of(pattern);
    let mut out = String::new();
    push_char(&mut out, '^');
    let mut i: usize = 0;
    while i < v.len()
        invariant
            i <= v@.len(),
            v@ == pattern@,
            out@ == seq!['^'] + regex_body(v@.take(i as int)),
        decreases v@.len() - i,
    {
        let c = v[i];
        let ghost before = out@;
        if c == '*' {
            push_char(&mut out, '.');
            push_char(&mut out, '*');
        } else if c == '%' {
            push_char(&mut out, '[');
            push_char(&mut out, '^');
            push_char(&mut out, '/');
            push_char(&mut out, ']');
            push_char(&mut out, '*');
        } else if c == '.' || c == '+' || c == '?' || c == '^' || c == '$' || c == '(' || c == ')'
            || c == '[' || c == ']' || c == '{' || c == '}' || c == '|' || c == '\\' {
            push_char(&mut out, '\\');
            push_char(&mut out, c);
        } else {
            push_char(&mut out, c);
        }
        proof {
            assert(out@ =~= before + regex_piece(c));
            assert(v@.take(i as int + 1).drop_last() =~= v@.take(i as int));
            assert(v@.take(i as int + 1).last() == c);
        }
        i = i + 1;
    }
    push_char(&mut out, '$');
    assert(v@.take(v@.len() as int) =~= v@);
    out
}

// ---------------------------------------------------------------------------
// Common answers
// ---------------------------------------------------------------------------

fn tagged(tag: &str) -> (t: Option<String>)
    ensures
        t matches Some(s) && s@ == tag@,
{
    Some(tag.to_owned())
}

fn ok_response(tag: &str, message: String) -> (r: Response)
    ensures
        r@ == ResponseView::Okay(Some(tag@), message@),
{
    Response::Okay { tag: tagged(tag), message }
}

fn no_response(tag: &str, message: String) -> (r: Response)
    ensures
        r@ == ResponseView::No(Some(tag@), message@),
{
    Response::No { tag: tagged(tag), message }
}

fn bad_response(tag: &str, message: String) -> (r: Response)
    ensures
        r@ == ResponseView::Bad(Some(tag@), message@),
{
    Response::Bad { tag: tagged(tag), message }
}

// ---------------------------------------------------------------------------
// CAPABILITY, NOOP, LOGOUT
// ---------------------------------------------------------------------------

/// Handler for the CAPABILITY command: lists the server's capabilities.
pub struct CapabilityHandler {
    is_tls: bool,
}

/// The capability line: STARTTLS is offered on connections without TLS only.
pub open spec fn capability_text(is_tls: bool) -> Seq<char> {
    if is_tls {
        "CAPABILITY IMAP4rev1"@
    } else {
        "CAPABILITY IMAP4rev1 STARTTLS"@
    }
}

impl CapabilityHandler {
    pub fn new(is_tls: bool) -> (h: Self)
        ensures
            h.on_tls() == is_tls,
    {
        CapabilityHandler { is_tls }
    }

    /// Whether the connection this handler answers for uses TLS.
    pub closed spec fn on_tls(&self) -> bool {
        self.is_tls
    }

    /// The answer to CAPABILITY.
    pub fn respond(&self, tag: &str) -> (r: (Response, Option<SessionState>))
        ensures
            r.0@ == ResponseView::Okay(Some(tag@), capability_text(self.on_tls())),
            r.1 is None,
    {
        let message = if self.is_tls {
            "CAPABILITY IMAP4rev1".to_owned()
        } else {
            "CAPABILITY IMAP4rev1 STARTTLS".to_owned()
        };
        (ok_response(tag, message), None)
    }
}

impl CommandHandler for CapabilityHandler {
    open spec fn spec_command_name(&self) -> Seq<char> {
        "CAPABILITY"@
    }

    open spec fn spec_requires_auth(&self) -> bool {
        false
    }

    fn command_name(&self) -> (r: &str) {
        "CAPABILITY"
    }

    fn requires_auth(&self) -> (r: bool) {
        false
    }

    fn requires_selected_mailbox(&self) -> (r: bool) {
        false
    }
}

/// Handler for the NOOP command: does nothing, successfully.
pub struct NoopHandler;

impl NoopHandler {
    pub fn new() -> Self {
        NoopHandler
    }

    /// The answer to NOOP.
    pub fn respond(&self, tag: &str) -> (r: (Response, Option<SessionState>))
        ensures
            r.0@ == ResponseView::Okay(Some(tag@), "NOOP completed"@),
            r.1 is None,
    {
        (ok_response(tag, "NOOP completed".to_owned()), None)
    }
}

impl CommandHandler for NoopHandler {
    open spec fn spec_command_name(&self) -> Seq<char> {
        "NOOP"@
    }

    open spec fn spec_requires_auth(&self) -> bool {
        true
    }

    fn command_name(&self) -> (r: &str) {
        "NOOP"
    }

    fn requires_auth(&self) -> (r: bool) {
        true
    }

    fn requires_selected_mailbox(&self) -> (r: bool) {
        false
    }
}

/// Handler for the LOGOUT command: ends the session.
pub struct LogoutHandler;

impl LogoutHandler {
    pub fn new() -> Self {
        LogoutHandler
    }

    /// The answer to LOGOUT; the session moves to the logout state.
    pub fn respond(&self, tag: &str) -> (r: (Response, Option<SessionState>))
        ensures
            r.0@ == ResponseView::Okay(Some(tag@), "LOGOUT completed"@),
            update_view(r.1) == Some(SessionStateView::Logout),
    {
        (ok_response(tag, "LOGOUT completed".to_owned()), Some(SessionState::Logout))
    }
}

impl CommandHandler for LogoutHandler {
    open spec fn spec_command_name(&self) -> Seq<char> {
        "LOGOUT"@
    }

    open spec fn spec_requires_auth(&self) -> bool {
        false
    }

    fn command_name(&self) -> (r: &str) {
        "LOGOUT"
    }

    fn requires_auth(&self) -> (r: bool) {
        false
    }

    fn requires_selected_mailbox(&self) -> (r: bool) {
        false
    }
}

// ---------------------------------------------------------------------------
// LOGIN
// ---------------------------------------------------------------------------

/// Handler for the LOGIN command: authenticates a user by name and password.
pub struct LoginHandler;

impl LoginHandler {
    pub fn new() -> Self {
        LoginHandler
    }

    /// Splits LOGIN arguments into user name and password: exactly two words.
    pub fn parse_args(args: &str) -> (r: Option<(String, String)>)
        ensures
            words(args@).len() == 2 ==> (r matches Some(p) && p.0@ == words(args@)[0] && p.1@
                == words(args@)[1]),
            words(args@).len() != 2 ==> r is None,
    {
        let parts = split_whitespace(args);
        if parts.len() == 2 {
            assert(parts@[0]@ == words(args@)[0] && parts@[1]@ == words(args@)[1]);
            Some((parts[0].clone(), parts[1].clone()))
        } else {
            None
        }
    }

    /// The credentials to check, or the answer to malformed arguments.
    pub fn credentials(&self, tag: &str, args: &str) -> (r: core::result::Result<
        Credentials,
        Response,
    >)
        ensures
            words(args@).len() == 2 ==> (r matches Ok(c) && c.username@ == words(args@)[0]
                && c.password@ == words(args@)[1]),
            words(args@).len() != 2 ==> (r matches Err(resp) && resp@ == ResponseView::Bad(
                Some(tag@),
                "Invalid LOGIN syntax"@,
            )),
    {
        match Self::parse_args(args) {
            Some((username, password)) => Ok(Credentials { username, password }),
            None => Err(bad_response(tag, "Invalid LOGIN syntax".to_owned())),
        }
    }

    /// The answer once the authenticator has judged the credentials of
    /// `username`: success authenticates the session.
    pub fn finish(&self, tag: &str, username: &str, verdict: Result<bool>) -> (r: (
        Response,
        Option<SessionState>,
    ))
        ensures
            verdict == Ok::<bool, Error>(true) ==> {
                &&& r.0@ == ResponseView::Okay(Some(tag@), "LOGIN completed"@)
                &&& update_view(r.1) == Some(SessionStateView::Authenticated(username@))
            },
            verdict == Ok::<bool, Error>(false) ==> {
                &&& r.0@ == ResponseView::No(Some(tag@), "LOGIN failed: invalid credentials"@)
                &&& r.1 is None
            },
            verdict matches Err(e) ==> {
                &&& r.0@ == ResponseView::No(
                    Some(tag@),
                    "LOGIN failed: "@ + crate::error::error_text(e),
                )
                &&& r.1 is None
            },
    {
        match verdict {
            Ok(true) => (
                ok_response(tag, "LOGIN completed".to_owned()),
                Some(SessionState::Authenticated { username: username.to_owned() }),
            ),
            Ok(false) => (no_response(tag, "LOGIN failed: invalid credentials".to_owned()), None),
            Err(e) => {
                let text = e.to_string();
                (no_response(tag, concat("LOGIN failed: ", text.as_str())), None)
            },
        }
    }
}

impl CommandHandler for LoginHandler {
    open spec fn spec_command_name(&self) -> Seq<char> {
        "LOGIN"@
    }

    open spec fn spec_requires_auth(&self) -> bool {
        false
    }

    fn command_name(&self) -> (r: &str) {
        "LOGIN"
    }

    fn requires_auth(&self) -> (r: bool) {
        false
    }

    fn requires_selected_mailbox(&self) -> (r: bool) {
        false
    }
}

// ---------------------------------------------------------------------------
// SELECT, CREATE, DELETE
// ---------------------------------------------------------------------------

/// The user of a state, or the answer to a session that is not authenticated.
fn user_of(tag: &str, state: &SessionState) -> (r: core::result::Result<String, Response>)
    ensures
        match state_user(*state) {
            Some(u) => r matches Ok(s) && s@ == u,
            None => r matches Err(resp) && resp@ == ResponseView::No(
                Some(tag@),
                "Not authenticated"@,
            ),
        },
{
    match state.username() {
        Some(u) => Ok(u),
        None => Err(no_response(tag, "Not authenticated".to_owned())),
    }
}

/// Handler for the SELECT command: selects a mailbox for access.
pub struct SelectHandler;

/// What SELECT answers: `name` is the trimmed argument, `user` the session's
/// user and `exists` whether that user has a mailbox of that name.
pub open spec fn select_outcome(
    tag: Seq<char>,
    name: Seq<char>,
    user: Option<Seq<char>>,
    exists: bool,
) -> (ResponseView, Option<SessionStateView>) {
    if name.len() == 0 {
        (ResponseView::Bad(Some(tag), "SELECT requires a mailbox name"@), None)
    } else if user is None {
        (ResponseView::No(Some(tag), "Not authenticated"@), None)
    } else if !exists {
        (ResponseView::No(Some(tag), "Mailbox does not exist: "@ + name), None)
    } else {
        (
            ResponseView::Okay(Some(tag), "SELECT completed for "@ + name),
            Some(SessionStateView::Selected(user->0, name)),
        )
    }
}

impl SelectHandler {
    pub fn new() -> Self {
        SelectHandler
    }

    /// The answer to SELECT; success selects the mailbox.
    pub fn handle(
        &self,
        tag: &str,
        args: &str,
        registry: &MailboxRegistry,
        state: &SessionState,
    ) -> (r: (Response, Option<SessionState>))
        requires
            registry.wf(),
        ensures
            (r.0@, update_view(r.1)) == select_outcome(
                tag@,
                trim(args@, None),
                state_user(*state),
                state_user(*state) matches Some(u) && registry.mailboxes().contains_key(
                    (u, trim(args@, None)),
                ),
            ),
    {
        let name = trim_by(args, None);
        if name.as_str().is_empty() {
            return (bad_response(tag, "SELECT requires a mailbox name".to_owned()), None);
        }
        let username = match user_of(tag, state) {
            Ok(u) => u,
            Err(resp) => {
                return (resp, None);
            },
        };
        match registry.get_mailbox(username.as_str(), name.as_str()) {
            None => (no_response(tag, concat("Mailbox does not exist: ", name.as_str())), None),
            Some(_) => {
                let message = concat("SELECT completed for ", name.as_str());
                (
                    ok_response(tag, message),
                    Some(SessionState::Selected { username, mailbox: name }),
                )
            },
        }
    }
}

impl CommandHandler for SelectHandler {
    open spec fn spec_command_name(&self) -> Seq<char> {
        "SELECT"@
    }

    open spec fn spec_requires_auth(&self) -> bool {
        true
    }

    fn command_name(&self) -> (r: &str) {
        "SELECT"
    }

    fn requires_auth(&self) -> (r: bool) {
        true
    }

    fn requires_selected_mailbox(&self) -> (r: bool) {
        false
    }
}

/// Handler for the CREATE command: creates a mailbox.
pub struct CreateHandler;

impl CreateHandler {
    pub fn new() -> Self {
        CreateHandler
    }

    /// The answer to CREATE. An empty name and an unauthenticated session
    /// change nothing; otherwise the registry creates the mailbox, and its
    /// refusal is reported.
    pub fn handle(
        &self,
        tag: &str,
        args: &str,
        registry: &mut MailboxRegistry,
        state: &SessionState,
    ) -> (r: (Response, Option<SessionState>))
        requires
            old(registry).wf(),
            old(registry).next_validity() < u32::MAX,
        ensures
            final(registry).wf(),
            r.1 is None,
            ({
                let name = trim(args@, None);
                let key = (state_user(*state)->0, name);
                if name.len() == 0 {
                    &&& r.0@ == ResponseView::Bad(Some(tag@), "CREATE requires a mailbox name"@)
                    &&& final(registry).mailboxes() == old(registry).mailboxes()
                    &&& final(registry).next_validity() == old(registry).next_validity()
                } else if state_user(*state) is None {
                    &&& r.0@ == ResponseView::No(Some(tag@), "Not authenticated"@)
                    &&& final(registry).mailboxes() == old(registry).mailboxes()
                    &&& final(registry).next_validity() == old(registry).next_validity()
                } else if old(registry).mailboxes().contains_key(key) {
                    &&& r.0@ == ResponseView::No(
                        Some(tag@),
                        "CREATE failed: "@ + "Mailbox already exists: "@ + name,
                    )
                    &&& final(registry).mailboxes() == old(registry).mailboxes()
                    &&& final(registry).next_validity() == old(registry).next_validity()
                } else {
                    &&& r.0@ == ResponseView::Okay(Some(tag@), "CREATE completed for "@ + name)
                    &&& final(registry).mailboxes() == old(registry).mailboxes().insert(
                        key,
                        fresh_info(key.0, name, old(registry).next_validity()),
                    )
                    &&& final(registry).next_validity() == old(registry).next_validity() + 1
                }
            }),
    {
        let name = trim_by(args, None);
        if name.as_str().is_empty() {
            return (bad_response(tag, "CREATE requires a mailbox name".to_owned()), None);
        }
        let username = match user_of(tag, state) {
            Ok(u) => u,
            Err(resp) => {
                return (resp, None);
            },
        };
        match registry.create_mailbox(username.as_str(), name.as_str()) {
            Ok(_) => (ok_response(tag, concat("CREATE completed for ", name.as_str())), None),
            Err(e) => {
                let text = e.to_string();
                assert("CREATE failed: "@ + text@ =~= "CREATE failed: "@ + "Mailbox already exists: "@
                    + name@);
                (no_response(tag, concat("CREATE failed: ", text.as_str())), None)
            },
        }
    }
}

impl CommandHandler for CreateHandler {
    open spec fn spec_command_name(&self) -> Seq<char> {
        "CREATE"@
    }

    open spec fn spec_requires_auth(&self) -> bool {
        true
    }

    fn command_name(&self) -> (r: &str) {
        "CREATE"
    }

    fn requires_auth(&self) -> (r: bool) {
        true
    }

    fn requires_selected_mailbox(&self) -> (r: bool) {
        false
    }
}

/// Handler for the DELETE command: deletes a mailbox other than INBOX.
pub struct DeleteHandler;

impl DeleteHandler {
    pub fn new() -> Self {
        DeleteHandler
    }

    /// The answer to DELETE. INBOX, in any letter case, is never deleted.
    pub fn handle(
        &self,
        tag: &str,
        args: &str,
        registry: &mut MailboxRegistry,
        state: &SessionState,
    ) -> (r: (Response, Option<SessionState>))
        requires
            old(registry).wf(),
        ensures
            final(registry).wf(),
            final(registry).next_validity() == old(registry).next_validity(),
            r.1 is None,
            ({
                let name = trim(args@, None);
                let key = (state_user(*state)->0, name);
                if name.len() == 0 {
                    &&& r.0@ == ResponseView::Bad(Some(tag@), "DELETE requires a mailbox name"@)
                    &&& final(registry).mailboxes() == old(registry).mailboxes()
                } else if eq_ignore_ascii_case(name, "INBOX"@) {
                    &&& r.0@ == ResponseView::No(Some(tag@), "Cannot delete INBOX"@)
                    &&& final(registry).mailboxes() == old(registry).mailboxes()
                } else if state_user(*state) is None {
                    &&& r.0@ == ResponseView::No(Some(tag@), "Not authenticated"@)
                    &&& final(registry).mailboxes() == old(registry).mailboxes()
                } else if !old(registry).mailboxes().contains_key(key) {
                    &&& r.0@ == ResponseView::No(
                        Some(tag@),
                        "DELETE failed: "@ + "Mailbox not found: "@ + name,
                    )
                    &&& final(registry).mailboxes() == old(registry).mailboxes()
                } else {
                    &&& r.0@ == ResponseView::Okay(Some(tag@), "DELETE completed for "@ + name)
                    &&& final(registry).mailboxes() == old(registry).mailboxes().remove(key)
                }
            }),
    {
        let name = trim_by(args, None);
        if name.as_str().is_empty() {
            return (bad_response(tag, "DELETE requires a mailbox name".to_owned()), None);
        }
        if eq_ignore_ascii_case_str(name.as_str(), "INBOX") {
            return (no_response(tag, "Cannot delete INBOX".to_owned()), None);
        }
        let username = match user_of(tag, state) {
            Ok(u) => u,
            Err(resp) => {
                return (resp, None);
            },
        };
        let ghost before = registry.mailboxes();
        match registry.delete_mailbox(username.as_str(), name.as_str()) {
            Ok(_) => (ok_response(tag, concat("DELETE completed for ", name.as_str())), None),
            Err(e) => {
                assert(before.remove((username@, name@)) =~= before);
                let text = e.to_string();
                assert("DELETE failed: "@ + text@ =~= "DELETE failed: "@ + "Mailbox not found: "@
                    + name@);
                (no_response(tag, concat("DELETE failed: ", text.as_str())), None)
            },
        }
    }
}

impl CommandHandler for DeleteHandler {
    open spec fn spec_command_name(&self) -> Seq<char> {
        "DELETE"@
    }

    open spec fn spec_requires_auth(&self) -> bool {
        true
    }

    fn command_name(&self) -> (r: &str) {
        "DELETE"
    }

    fn requires_auth(&self) -> (r: bool) {
        true
    }

    fn requires_selected_mailbox(&self) -> (r: bool) {
        false
    }
}

// ---------------------------------------------------------------------------
// LIST
// ---------------------------------------------------------------------------

/// Handler for the LIST command: lists the mailboxes that match a pattern.
pub struct ListHandler;

/// The reference and pattern of LIST arguments: one word is a pattern with
/// an empty reference, two or more are a reference and a pattern.
pub open spec fn list_args(args: Seq<char>) -> (Seq<char>, Seq<char>) {
    let w = words(args);
    if w.len() == 1 {
        (Seq::empty(), w[0])
    } else {
        (w[0], w[1])
    }
}

/// The pattern LIST matches: the reference, unquoted, followed by the
/// pattern, unquoted.
pub open spec fn effective_pattern(reference: Seq<char>, pattern: Seq<char>) -> Seq<char> {
    let r = trim(reference, Some('"'));
    let p = trim(pattern, Some('"'));
    if r.len() > 0 {
        r + p
    } else {
        p
    }
}

/// The untagged line that reports one mailbox.
pub open spec fn list_line(name: Seq<char>) -> ResponseView {
    ResponseView::Untagged("LIST () \"/\" \""@ + name + "\""@)
}

impl ListHandler {
    pub fn new() -> Self {
        ListHandler
    }

    /// Splits LIST arguments into reference and pattern.
    pub fn parse_args(args: &str) -> (r: Option<(String, String)>)
        ensures
            words(args@).len() == 0 ==> r is None,
            words(args@).len() > 0 ==> (r matches Some(p) && p.0@ == list_args(args@).0 && p.1@
                == list_args(args@).1),
    {
        let parts = split_whitespace(args);
        if parts.len() == 1 {
            assert(parts@[0]@ == words(args@)[0]);
            Some((String::new(), parts[0].clone()))
        } else if parts.len() >= 2 {
            assert(parts@[0]@ == words(args@)[0] && parts@[1]@ == words(args@)[1]);
            Some((parts[0].clone(), parts[1].clone()))
        } else {
            None
        }
    }

    /// The answer to LIST: one untagged line per matching mailbox of the
    /// session's user, in listing order, then a tagged OK.
    pub fn handle(
        &self,
        tag: &str,
        args: &str,
        registry: &MailboxRegistry,
        state: &SessionState,
    ) -> (r: (Vec<Response>, Option<SessionState>))
        requires
            registry.wf(),
        ensures
            r.1 is None,
            words(args@).len() == 0 ==> (r.0@.len() == 1 && r.0@[0]@ == ResponseView::Bad(
                Some(tag@),
                "Invalid LIST syntax"@,
            )),
            words(args@).len() > 0 && state_user(*state) is None ==> (r.0@.len() == 1
                && r.0@[0]@ == ResponseView::No(Some(tag@), "Not authenticated"@)),
            words(args@).len() > 0 && state_user(*state) is Some ==> ({
                let filter = pattern_filter(
                    effective_pattern(list_args(args@).0, list_args(args@).1),
                );
                let listed = if filter_usable(filter) {
                    registry.listed(state_user(*state)->0, filter)
                } else {
                    Seq::empty()
                };
                &&& r.0@.len() == listed.len() + 1
                &&& forall|i: int| 0 <= i < listed.len() ==> #[trigger] r.0@[i]@ == list_line(listed[i].1)
                &&& r.0@[listed.len() as int]@ == ResponseView::Okay(Some(tag@), "LIST completed"@)
            }),
    {
        let mut out: Vec<Response> = Vec::new();
        let (reference, pattern) = match Self::parse_args(args) {
            Some(p) => p,
            None => {
                out.push(bad_response(tag, "Invalid LIST syntax".to_owned()));
                return (out, None);
            },
        };
        let username = match user_of(tag, state) {
            Ok(u) => u,
            Err(resp) => {
                out.push(resp);
                return (out, None);
            },
        };
        let clean_ref = trim_by(reference.as_str(), Some('"'));
        let clean_pattern = trim_by(pattern.as_str(), Some('"'));
        let effective = if !clean_ref.as_str().is_empty() {
            concat(clean_ref.as_str(), clean_pattern.as_str())
        } else {
            clean_pattern
        };
        let filter = pattern_to_filter(effective.as_str());
        match registry.list_mailboxes(username.as_str(), &filter) {
            Ok(mailboxes) => {
                let ghost listed = if filter_usable(filter@) {
                    registry.listed(username@, filter@)
                } else {
                    Seq::empty()
                };
                proof {
                    registry.lemma_keys();
                }
                let mut i: usize = 0;
                while i < mailboxes.len()
                    invariant
                        registry.wf(),
                        i <= mailboxes@.len(),
                        mailboxes@.len() == listed.len(),
                        forall|j: int|
                            0 <= j < mailboxes@.len() ==> #[trigger] mailboxes@[j]@.name
                                == listed[j].1,
                        out@.len() == i,
                        forall|j: int| 0 <= j < i ==> #[trigger] out@[j]@ == list_line(listed[j].1),
                    decreases mailboxes@.len() - i,
                {
                    let line = concat(
                        concat("LIST () \"/\" \"", mailboxes[i].id.name.as_str()).as_str(),
                        "\"",
                    );
                    assert(mailboxes@[i as int]@.name == listed[i as int].1);
                    out.push(Response::Untagged { message: line });
                    assert(out@[i as int]@ == list_line(listed[i as int].1));
                    i = i + 1;
                }
                out.push(ok_response(tag, "LIST completed".to_owned()));
                (out, None)
            },
            Err(e) => {
                let text = e.to_string();
                out.push(no_response(tag, concat("LIST failed: ", text.as_str())));
                (out, None)
            },
        }
    }
}

impl CommandHandler for ListHandler {
    open spec fn spec_command_name(&self) -> Seq<char> {
        "LIST"@
    }

    open spec fn spec_requires_auth(&self) -> bool {
        true
    }

    fn command_name(&self) -> (r: &str) {
        "LIST"
    }

    fn requires_auth(&self) -> (r: bool) {
        true
    }

    fn requires_selected_mailbox(&self) -> (r: bool) {
        false
    }
}

/// The handlers this library provides, as one type that a registry holds.
pub enum Builtin {
    Capability(CapabilityHandler),
    Noop(NoopHandler),
    Logout(LogoutHandler),
    Login(LoginHandler),
    Select(SelectHandler),
    Create(CreateHandler),
    Delete(DeleteHandler),
    List(ListHandler),
}

impl CommandHandler for Builtin {
    open spec fn spec_command_name(&self) -> Seq<char> {
        match self {
            Builtin::Capability(h) => h.spec_command_name(),
            Builtin::Noop(h) => h.spec_command_name(),
            Builtin::Logout(h) => h.spec_command_name(),
            Builtin::Login(h) => h.spec_command_name(),
            Builtin::Select(h) => h.spec_command_name(),
            Builtin::Create(h) => h.spec_command_name(),
            Builtin::Delete(h) => h.spec_command_name(),
            Builtin::List(h) => h.spec_command_name(),
        }
    }

    open spec fn spec_requires_auth(&self) -> bool {
        match self {
            Builtin::Capability(h) => h.spec_requires_auth(),
            Builtin::Noop(h) => h.spec_requires_auth(),
            Builtin::Logout(h) => h.spec_requires_auth(),
            Builtin::Login(h) => h.spec_requires_auth(),
            Builtin::Select(h) => h.spec_requires_auth(),
            Builtin::Create(h) => h.spec_requires_auth(),
            Builtin::Delete(h) => h.spec_requires_auth(),
            Builtin::List(h) => h.spec_requires_auth(),
        }
    }

    open spec fn spec_requires_selected_mailbox(&self) -> bool {
        match self {
            Builtin::Capability(h) => h.spec_requires_selected_mailbox(),
            Builtin::Noop(h) => h.spec_requires_selected_mailbox(),
            Builtin::Logout(h) => h.spec_requires_selected_mailbox(),
            Builtin::Login(h) => h.spec_requires_selected_mailbox(),
            Builtin::Select(h) => h.spec_requires_selected_mailbox(),
            Builtin::Create(h) => h.spec_requires_selected_mailbox(),
            Builtin::Delete(h) => h.spec_requires_selected_mailbox(),
            Builtin::List(h) => h.spec_requires_selected_mailbox(),
        }
    }

    fn command_name(&self) -> (r: &str) {
        match self {
            Builtin::Capability(h) => h.command_name(),
            Builtin::Noop(h) => h.command_name(),
            Builtin::Logout(h) => h.command_name(),
            Builtin::Login(h) => h.command_name(),
            Builtin::Select(h) => h.command_name(),
            Builtin::Create(h) => h.command_name(),
            Builtin::Delete(h) => h.command_name(),
            Builtin::List(h) => h.command_name(),
        }
    }

    fn requires_auth(&self) -> (r: bool) {
        match self {
            Builtin::Capability(h) => h.requires_auth(),
            Builtin::Noop(h) => h.requires_auth(),
            Builtin::Logout(h) => h.requires_auth(),
            Builtin::Login(h) => h.requires_auth(),
            Builtin::Select(h) => h.requires_auth(),
            Builtin::Create(h) => h.requires_auth(),
            Builtin::Delete(h) => h.requires_auth(),
            Builtin::List(h) => h.requires_auth(),
        }
    }

    fn requires_selected_mailbox(&self) -> (r: bool) {
        match self {
            Builtin::Capability(h) => h.requires_selected_mailbox(),
            Builtin::Noop(h) => h.requires_selected_mailbox(),
            Builtin::Logout(h) => h.requires_selected_mailbox(),
            Builtin::Login(h) => h.requires_selected_mailbox(),
            Builtin::Select(h) => h.requires_selected_mailbox(),
            Builtin::Create(h) => h.requires_selected_mailbox(),
            Builtin::Delete(h) => h.requires_selected_mailbox(),
            Builtin::List(h) => h.requires_selected_mailbox(),
        }
    }
}

/// LIST with the pattern `*` lists each of the user's mailboxes once, and
/// no other.
pub proof fn law_star_lists_everything(r: MailboxRegistry, username: Seq<char>)
    requires
        r.wf(),
    ensures
        pattern_filter(seq!['*']) == FilterView::All,
        r.listed(username, pattern_filter(seq!['*'])).no_duplicates(),
        forall|k: (Seq<char>, Seq<char>)| #[trigger]
            r.listed(username, pattern_filter(seq!['*'])).contains(k) <==> (
            r.mailboxes().contains_key(k) && k.0 == username),
{
    crate::mailboxes::law_list_all(r, username);
}

/// A LIST pattern without wildcards names one mailbox exactly.
pub proof fn law_plain_pattern_is_exact(p: Seq<char>)
    requires
        !p.contains('*'),
        !p.contains('%'),
    ensures
        pattern_filter(p) == FilterView::Exact(p),
{
    if p == seq!['*'] {
        assert(p[0] == '*');
    }
}

/// A LIST pattern with a `%`, or with a `*` that is neither the whole
/// pattern nor the only `*` at its start or at its end, is matched by its
/// regular expression.
pub proof fn law_wildcard_pattern_is_regex(p: Seq<char>)
    requires
        p.contains('%') || (p.contains('*') && p != seq!['*'] && !(p.len() > 0 && p.last() == '*'
            && !p.drop_last().contains('*')) && !(p.len() > 0 && p[0] == '*'
            && !p.drop_first().contains('*'))),
    ensures
        pattern_filter(p) == FilterView::Regex(pattern_regex(p)),
{
    if p == seq!['*'] {
        assert(p.contains('*'));
        assert(!p.contains('%')) by {
            if p.contains('%') {
                let j = choose|j: int| 0 <= j < p.len() && p[j] == '%';
                assert(p[j] == '*');
            }
        }
    }
}

/// A session with a mailbox selected acts for its user: its user is that of
/// the authenticated state, so SELECT, CREATE, DELETE and LIST answer from it
/// as from the authenticated state; in particular SELECT of one of the user's
/// mailboxes from it succeeds and selects that mailbox.
pub proof fn law_selected_session_acts_for_its_user(
    u: String,
    m: String,
    tag: Seq<char>,
    name: Seq<char>,
    registry: MailboxRegistry,
)
    ensures
        state_user(SessionState::Selected { username: u, mailbox: m }) == Some(u@),
        state_user(SessionState::Selected { username: u, mailbox: m }) == state_user(
            SessionState::Authenticated { username: u },
        ),
        name.len() > 0 && registry.mailboxes().contains_key((u@, name)) ==> {
            let state = SessionState::Selected { username: u, mailbox: m };
            select_outcome(
                tag,
                name,
                state_user(state),
                state_user(state) matches Some(v) && registry.mailboxes().contains_key((v, name)),
            ) == (
                ResponseView::Okay(Some(tag), "SELECT completed for "@ + name),
                Some(SessionStateView::Selected(u@, name)),
            )
        },
{
}

} // verus!
