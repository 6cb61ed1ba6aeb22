//! What a session decides on each line a client sends: the tag bookkeeping,
//! the mapping of sequence numbers to UIDs, the handling of STARTTLS and
//! which command handler runs, and when a session ends.
//!
//! Reading lines, writing responses and upgrading the connection are the
//! server's part; it hands each line to `process_line` and acts on the answer.

use vstd::prelude::*;
use vstd::string::*;

use crate::error::{error_text, Error, Result};
use crate::keyed::KeyedMap;
use crate::protocol::{
    command_parses_to, one_arg_command, parse_command, parses_to, Command, Response, ResponseView,
};
use crate::text::{chars_of, concat, decimal, string_of, trim, u32_text, unicode_uppercase, words};
use crate::types::Uid;

verus! {

/// The tag history size a session starts with.
pub const DEFAULT_MAX_TAG_HISTORY: usize = 10000;

/// Tracks client request tags to prevent duplicates.
pub struct TagHistory {
    tags: KeyedMap<String, ()>,
    max_size: usize,
}

/// One registration of `tag` in a history holding `tags` of at most `max`:
/// the tags afterwards, and whether the tag was accepted. A tag seen before
/// is refused, and so is a new one once the history is full.
pub open spec fn register_step(tags: Set<Seq<char>>, max: usize, tag: Seq<char>) -> (
    Set<Seq<char>>,
    bool,
) {
    if tags.contains(tag) || tags.len() >= max {
        (tags, false)
    } else {
        (tags.insert(tag), true)
    }
}

/// The tags a fresh history of at most `max` holds after `ts` were
/// registered in turn.
pub open spec fn history_after(max: usize, ts: Seq<Seq<char>>) -> Set<Seq<char>>
    decreases ts.len(),
{
    if ts.len() == 0 {
        Set::empty()
    } else {
        register_step(history_after(max, ts.drop_last()), max, ts.last()).0
    }
}

/// The message of an error about a tag.
pub open spec fn tag_error_text(detail: Seq<char>) -> Seq<char> {
    "Tag error: "@ + "Protocol error: "@ + detail
}

impl TagHistory {
    /// The tags registered so far.
    pub closed spec fn tags(&self) -> Set<Seq<char>> {
        self.tags@.dom()
    }

    /// How many tags the history holds at most.
    pub closed spec fn max(&self) -> usize {
        self.max_size
    }

    pub closed spec fn wf(&self) -> bool {
        self.tags.wf()
    }

    /// An empty history that holds at most `max_size` tags.
    pub fn new(max_size: usize) -> (h: Self)
        ensures
            h.wf(),
            h.tags() == Set::<Seq<char>>::empty(),
            h.max() == max_size,
    {
        TagHistory { tags: KeyedMap::new(), max_size }
    }

    /// An empty history of the default size.
    pub fn with_default_max() -> (h: Self)
        ensures
            h.wf(),
            h.tags() == Set::<Seq<char>>::empty(),
            h.max() == DEFAULT_MAX_TAG_HISTORY,
    {
        Self::new(DEFAULT_MAX_TAG_HISTORY)
    }

    /// Registers a new tag. A tag seen before is refused, and so is any new
    /// tag once the history is full; a refusal changes nothing.
    pub fn register(&mut self, tag: String) -> (r: Result<()>)
        requires
            old(self).wf(),
        ensures
            final(self).wf(),
            final(self).max() == old(self).max(),
            old(self).tags().contains(tag@) ==> {
                &&& r matches Err(Error::ProtocolError(m)) && m@ == "Duplicate tag: "@ + tag@
                &&& final(self).tags() == old(self).tags()
            },
            !old(self).tags().contains(tag@) && old(self).tags().len() >= old(self).max() ==> {
                &&& r matches Err(Error::ProtocolError(m)) && m@ == "Maximum tag history exceeded"@
                &&& final(self).tags() == old(self).tags()
            },
            !old(self).tags().contains(tag@) && old(self).tags().len() < old(self).max() ==> {
                &&& r is Ok
                &&& final(self).tags() == old(self).tags().insert(tag@)
            },
            (final(self).tags(), r is Ok) == register_step(old(self).tags(), old(self).max(), tag@),
    {
        if self.tags.contains_key(&tag) {
            return Err(Error::ProtocolError(concat("Duplicate tag: ", tag.as_str())));
        }
        if self.tags.len() >= self.max_size {
            return Err(Error::ProtocolError("Maximum tag history exceeded".to_owned()));
        }
        let ghost before = self.tags@;
        self.tags.insert(tag, ());
        assert(self.tags@.dom() =~= before.dom().insert(tag@));
        Ok(())
    }

    /// Forgets all tags.
    pub fn clear(&mut self)
        ensures
            final(self).wf(),
            final(self).tags() == Set::<Seq<char>>::empty(),
            final(self).max() == old(self).max(),
    {
        self.tags = KeyedMap::new();
        assert(self.tags@.dom() =~= Set::<Seq<char>>::empty());
    }
}

/// Lazily initialised map of sequence numbers to UIDs: sequence number `n`
/// (from 1) stands for the `n`-th UID the map was initialised with.
pub struct SequenceIdMap {
    map: Option<Vec<Uid>>,
}

impl View for SequenceIdMap {
    type V = Option<Seq<Uid>>;

    closed spec fn view(&self) -> Option<Seq<Uid>> {
        match self.map {
            Some(v) => Some(v@),
            None => None,
        }
    }
}

impl Default for SequenceIdMap {
    fn default() -> (m: Self)
        ensures
            m@ is None,
    {
        SequenceIdMap::new()
    }
}

impl SequenceIdMap {
    /// A map that is not initialised.
    pub fn new() -> (m: Self)
        ensures
            m@ is None,
    {
        SequenceIdMap { map: None }
    }

    /// Initialises the map with UIDs in sequence order.
    pub fn initialize(&mut self, uids: Vec<Uid>)
        ensures
            final(self)@ == Some(uids@),
    {
        self.map = Some(uids);
    }

    /// The UID of a sequence number.
    pub fn get_uid(&self, sequence_id: u32) -> (r: Result<Uid>)
        ensures
            match self@ {
                Some(uids) if 1 <= sequence_id <= uids.len() => r == Ok::<Uid, Error>(
                    uids[sequence_id - 1],
                ),
                _ => r matches Err(Error::ProtocolError(m)) && m@ == "Invalid sequence ID: "@
                    + decimal(sequence_id as nat),
            },
    {
        match &self.map {
            Some(v) => {
                if 1 <= sequence_id && (sequence_id as usize) <= v.len() {
                    return Ok(v[(sequence_id - 1) as usize]);
                }
            },
            None => {},
        }
        Err(Error::ProtocolError(concat("Invalid sequence ID: ", u32_text(sequence_id).as_str())))
    }

    /// Clears the map (when a mailbox is deselected).
    pub fn clear(&mut self)
        ensures
            final(self)@ is None,
    {
        self.map = None;
    }

    /// Whether the map is initialised.
    pub fn is_initialized(&self) -> (r: bool)
        ensures
            r == self@ is Some,
    {
        self.map.is_some()
    }
}

// ---------------------------------------------------------------------------
// Lines
// ---------------------------------------------------------------------------

/// A line without its line ending: one `\n`, and a `\r` before it.
pub open spec fn strip_line_ending(line: Seq<char>) -> Seq<char> {
    if line.len() > 0 && line.last() == '\n' {
        let l = line.drop_last();
        if l.len() > 0 && l.last() == '\r' {
            l.drop_last()
        } else {
            l
        }
    } else {
        line
    }
}

/// `i` is the position of the first space of `s`.
pub open spec fn is_first_space(s: Seq<char>, i: int) -> bool {
    &&& 0 <= i < s.len()
    &&& s[i] == ' '
    &&& forall|j: int| 0 <= j < i ==> s[j] != ' '
}

/// What the session does with one line.
pub enum LineAction {
    /// Send this response and read the next line.
    Reply(Response),
    /// Send this response, then upgrade the connection to TLS.
    StartTls(Response),
    /// Run the handler of the command `name` with `args` under `tag`.
    Run { tag: String, name: String, args: String },
}

/// A line action with its texts taken by their views.
pub enum LineActionView {
    Reply(ResponseView),
    StartTls(ResponseView),
    Run(Seq<char>, Seq<char>, Seq<char>),
}

impl View for LineAction {
    type V = LineActionView;

    open spec fn view(&self) -> LineActionView {
        match *self {
            LineAction::Reply(r) => LineActionView::Reply(r@),
            LineAction::StartTls(r) => LineActionView::StartTls(r@),
            LineAction::Run { tag, name, args } => LineActionView::Run(tag@, name@, args@),
        }
    }
}

/// The handler name and argument text for a parsed command, for the
/// commands that have handlers.
pub open spec fn command_call(c: Command) -> Option<(Seq<char>, Seq<char>)> {
    match c {
        Command::Capability => Some(("CAPABILITY"@, Seq::empty())),
        Command::Noop => Some(("NOOP"@, Seq::empty())),
        Command::Logout => Some(("LOGOUT"@, Seq::empty())),
        Command::Login { username, password } => Some(("LOGIN"@, username@ + " "@ + password@)),
        Command::Select { mailbox } => Some(("SELECT"@, mailbox@)),
        Command::Create { mailbox } => Some(("CREATE"@, mailbox@)),
        Command::Delete { mailbox } => Some(("DELETE"@, mailbox@)),
        Command::List { reference, pattern } => Some(("LIST"@, reference@ + " "@ + pattern@)),
        _ => None,
    }
}

/// What the session does with a command parsed (or not) under `tag`.
pub open spec fn command_action(
    tag: Seq<char>,
    c: Result<Command>,
    is_tls: bool,
    tls_available: bool,
) -> LineActionView {
    match c {
        Err(e) => LineActionView::Reply(
            ResponseView::Bad(Some(tag), "Parse error: "@ + error_text(e)),
        ),
        Ok(Command::Starttls) => if is_tls {
            LineActionView::Reply(ResponseView::Bad(Some(tag), "Already using TLS"@))
        } else if !tls_available {
            LineActionView::Reply(ResponseView::Bad(Some(tag), "STARTTLS not available"@))
        } else {
            LineActionView::StartTls(ResponseView::Okay(Some(tag), "Ready for TLS handshake"@))
        },
        Ok(cmd) => match command_call(cmd) {
            Some((name, args)) => LineActionView::Run(tag, name, args),
            None => LineActionView::Reply(
                ResponseView::Bad(Some(tag), "Command not yet implemented"@),
            ),
        },
    }
}

/// The handler name and argument text of a parsed command, or the answer
/// to a command that has no handler.
fn call_of(tag: &str, command: Command) -> (r: core::result::Result<(String, String), Response>)
    requires
        !(command is Starttls),
    ensures
        match command_call(command) {
            Some((n, a)) => r matches Ok(p) && p.0@ == n && p.1@ == a,
            None => r matches Err(resp) && resp@ == ResponseView::Bad(
                Some(tag@),
                "Command not yet implemented"@,
            ),
        },
{
    match command {
        Command::Capability => Ok(("CAPABILITY".to_owned(), String::new())),
        Command::Noop => Ok(("NOOP".to_owned(), String::new())),
        Command::Logout => Ok(("LOGOUT".to_owned(), String::new())),
        Command::Login { username, password } => {
            let a = concat(concat(username.as_str(), " ").as_str(), password.as_str());
            Ok(("LOGIN".to_owned(), a))
        },
        Command::Select { mailbox } => Ok(("SELECT".to_owned(), mailbox)),
        Command::Create { mailbox } => Ok(("CREATE".to_owned(), mailbox)),
        Command::Delete { mailbox } => Ok(("DELETE".to_owned(), mailbox)),
        Command::List { reference, pattern } => {
            let a = concat(concat(reference.as_str(), " ").as_str(), pattern.as_str());
            Ok(("LIST".to_owned(), a))
        },
        _ => Err(
            Response::Bad {
                tag: Some(tag.to_owned()),
                message: "Command not yet implemented".to_owned(),
            },
        ),
    }
}

fn bad(tag: &str, message: &str) -> (r: Response)
    ensures
        r@ == ResponseView::Bad(Some(tag@), message@),
{
    Response::Bad { tag: Some(tag.to_owned()), message: message.to_owned() }
}

/// What to do with a parsed (or unparsable) command under `tag`.
fn action_for(tag: &str, parsed: Result<Command>, is_tls: bool, tls_available: bool) -> (r:
    LineAction)
    ensures
        r@ == command_action(tag@, parsed, is_tls, tls_available),
{
    match parsed {
        Err(e) => {
            let text = e.to_string();
            LineAction::Reply(
                Response::Bad {
                    tag: Some(tag.to_owned()),
                    message: concat("Parse error: ", text.as_str()),
                },
            )
        },
        Ok(Command::Starttls) => {
            if is_tls {
                LineAction::Reply(bad(tag, "Already using TLS"))
            } else if !tls_available {
                LineAction::Reply(bad(tag, "STARTTLS not available"))
            } else {
                LineAction::StartTls(
                    Response::Okay {
                        tag: Some(tag.to_owned()),
                        message: "Ready for TLS handshake".to_owned(),
                    },
                )
            }
        },
        Ok(command) => match call_of(tag, command) {
            Ok((name, args)) => LineAction::Run { tag: tag.to_owned(), name, args },
            Err(resp) => LineAction::Reply(resp),
        },
    }
}

/// Decides what to do with one line read from the client (line ending
/// included). The line is split at its first space into tag and command; the
/// tag is registered, the command parsed, STARTTLS answered, and any other
/// command handed to its handler.
pub fn process_line(tags: &mut TagHistory, line: &str, is_tls: bool, tls_available: bool) -> (r:
    LineAction)
    requires
        old(tags).wf(),
    ensures
        final(tags).wf(),
        final(tags).max() == old(tags).max(),
        ({
            let s = strip_line_ending(line@);
            if !s.contains(' ') {
                &&& r@ == LineActionView::Reply(
                    ResponseView::Bad(None, "Invalid command format"@),
                )
                &&& final(tags).tags() == old(tags).tags()
            } else {
                exists|i: int|
                    {
                        let tag = s.take(i);
                        let rest = s.skip(i + 1);
                        &&& #[trigger] is_first_space(s, i)
                        &&& if old(tags).tags().contains(tag) {
                            &&& r@ == LineActionView::Reply(
                                ResponseView::Bad(
                                    Some(tag),
                                    tag_error_text("Duplicate tag: "@ + tag),
                                ),
                            )
                            &&& final(tags).tags() == old(tags).tags()
                        } else if old(tags).tags().len() >= old(tags).max() {
                            &&& r@ == LineActionView::Reply(
                                ResponseView::Bad(
                                    Some(tag),
                                    tag_error_text("Maximum tag history exceeded"@),
                                ),
                            )
                            &&& final(tags).tags() == old(tags).tags()
                        } else {
                            &&& final(tags).tags() == old(tags).tags().insert(tag)
                            &&& exists|c: Result<Command>|
                                #[trigger] parses_to(rest, c) && r@ == command_action(
                                    tag,
                                    c,
                                    is_tls,
                                    tls_available,
                                )
                        }
                    }
            }
        }),
{
    let v = chars_of(line);
    let ghost l = line@;
    let mut n = v.len();
    if n > 0 && v[n - 1] == '\n' {
        n = n - 1;
        if n > 0 && v[n - 1] == '\r' {
            n = n - 1;
        }
    }
    let ghost s = v@.take(n as int);
    assert(s =~= strip_line_ending(l));
    let mut i: usize = 0;
    while i < n && v[i] != ' '
        invariant
            i <= n <= v@.len(),
            s == v@.take(n as int),
            forall|j: int| 0 <= j < i ==> s[j] != ' ',
        decreases n - i,
    {
        i = i + 1;
    }
    if i == n {
        assert(!s.contains(' ')) by {
            if s.contains(' ') {
                let j = choose|j: int| 0 <= j < s.len() && s[j] == ' ';
                assert(s[j] != ' ');
            }
        }
        return LineAction::Reply(
            Response::Bad { tag: None, message: "Invalid command format".to_owned() },
        );
    }
    assert(s[i as int] == ' ');
    assert(is_first_space(s, i as int));
    let tag = string_of(v.as_slice(), 0, i);
    let rest = string_of(v.as_slice(), i + 1, n);
    assert(tag@ =~= s.take(i as int));
    assert(rest@ =~= s.skip(i + 1));
    match tags.register(tag.clone()) {
        Err(e) => {
            let text = e.to_string();
            let message = concat("Tag error: ", text.as_str());
            proof {
                if let Error::ProtocolError(m) = e {
                    assert(message@ =~= "Tag error: "@ + "Protocol error: "@ + m@);
                }
            }
            LineAction::Reply(Response::Bad { tag: Some(tag), message })
        },
        Ok(()) => {
            let parsed = parse_command(tag.as_str(), rest.as_str());
            let ghost c = parsed;
            let r = action_for(tag.as_str(), parsed, is_tls, tls_available);
            assert(parses_to(rest@, c));
            r
        },
    }
}

/// The greeting sent when a session starts.
pub fn greeting() -> (r: Response)
    ensures
        r@ == ResponseView::Okay(None, "IMAP server ready"@),
{
    Response::Okay { tag: None, message: "IMAP server ready".to_owned() }
}

/// Whether a response ends the session.
pub fn ends_session(response: &Response) -> (r: bool)
    ensures
        r == (*response is Bye),
{
    matches!(response, Response::Bye { .. })
}

/// The answer that ends a session that ran or idled too long, and the error
/// the session ends with: the session's age is checked first.
pub fn check_timeouts(
    session_elapsed_ms: u64,
    max_session_ms: u64,
    idle_elapsed_ms: u64,
    max_idle_ms: u64,
) -> (r: Option<(Response, Error)>)
    ensures
        session_elapsed_ms > max_session_ms ==> (r matches Some((resp, Error::ProtocolError(m)))
            && resp@ == ResponseView::Bye("Session duration exceeded"@) && m@
            == "Session duration exceeded"@),
        session_elapsed_ms <= max_session_ms && idle_elapsed_ms > max_idle_ms ==> (r matches Some(
            (resp, Error::ProtocolError(m)),
        ) && resp@ == ResponseView::Bye("Session idle timeout"@) && m@ == "Session idle timeout"@),
        session_elapsed_ms <= max_session_ms && idle_elapsed_ms <= max_idle_ms ==> r is None,
{
    if session_elapsed_ms > max_session_ms {
        return Some(
            (
                Response::Bye { message: "Session duration exceeded".to_owned() },
                Error::ProtocolError("Session duration exceeded".to_owned()),
            ),
        );
    }
    if idle_elapsed_ms > max_idle_ms {
        return Some(
            (
                Response::Bye { message: "Session idle timeout".to_owned() },
                Error::ProtocolError("Session idle timeout".to_owned()),
            ),
        );
    }
    None
}

proof fn lemma_history_prefix(max: usize, ts: Seq<Seq<char>>, k: int)
    requires
        ts.no_duplicates(),
        0 <= k <= ts.len(),
    ensures
        history_after(max, ts.take(k)) == ts.take(if k < max { k } else { max as int }).to_set(),
        ts.take(if k < max { k } else { max as int }).to_set().len() == (if k < max {
            k
        } else {
            max as int
        }),
    decreases k,
{
    if k == 0 {
        assert(ts.take(0) =~= Seq::<Seq<char>>::empty());
        assert(ts.take(0).to_set() =~= Set::<Seq<char>>::empty());
    } else {
        lemma_history_prefix(max, ts, k - 1);
        let prev = ts.take(k - 1);
        assert(ts.take(k).drop_last() =~= prev);
        assert(ts.take(k).last() == ts[k - 1]);
        let m1: int = if k - 1 < max { k - 1 } else { max as int };
        let s1 = ts.take(m1).to_set();
        assert(history_after(max, prev) == s1);
        assert(!s1.contains(ts[k - 1])) by {
            if s1.contains(ts[k - 1]) {
                assert(ts.take(m1).contains(ts[k - 1]));
                let j = choose|j: int| 0 <= j < ts.take(m1).len() && ts.take(m1)[j] == ts[k - 1];
                assert(ts[j] == ts[k - 1]);
            }
        }
        if k - 1 < max {
            assert(ts.take(k).to_set() =~= s1.insert(ts[k - 1])) by {
                assert forall|x: Seq<char>| ts.take(k).to_set().contains(x) <==> s1.insert(
                    ts[k - 1],
                ).contains(x) by {
                    if ts.take(k).contains(x) {
                        let j = choose|j: int| 0 <= j < ts.take(k).len() && ts.take(k)[j] == x;
                        if j < k - 1 {
                            assert(ts.take(k - 1)[j] == x);
                        }
                    }
                    if s1.contains(x) {
                        let j = choose|j: int| 0 <= j < ts.take(m1).len() && ts.take(m1)[j] == x;
                        assert(ts.take(k)[j] == x);
                    }
                    if x == ts[k - 1] {
                        assert(ts.take(k)[k - 1] == x);
                    }
                }
            }
        }
    }
}

/// A fresh history that holds at most `max` tags, given distinct tags in
/// turn, accepts exactly the first `max` of them: the `i`-th registration
/// succeeds if and only if `i < max`.
pub proof fn law_history_accepts_first_max(max: usize, ts: Seq<Seq<char>>, i: int)
    requires
        ts.no_duplicates(),
        0 <= i < ts.len(),
    ensures
        register_step(history_after(max, ts.take(i)), max, ts[i]).1 == (i < max),
{
    lemma_history_prefix(max, ts, i);
    let m: int = if i < max { i } else { max as int };
    let s = ts.take(m).to_set();
    assert(!s.contains(ts[i])) by {
        if s.contains(ts[i]) {
            assert(ts.take(m).contains(ts[i]));
            let j = choose|j: int| 0 <= j < ts.take(m).len() && ts.take(m)[j] == ts[i];
            assert(ts[j] == ts[i]);
        }
    }
}

/// A tag, once registered, is refused from then on, until the history is
/// cleared: registering it again finds it present.
pub proof fn law_tag_used_once(before: TagHistory, after: TagHistory, tag: Seq<char>)
    requires
        after.tags() == before.tags().insert(tag),
    ensures
        after.tags().contains(tag),
{
}

/// CAPABILITY, NOOP and LOGOUT go to their handlers, with no arguments,
/// whatever follows the command word; LOGIN and LIST go to theirs with
/// their two argument words (surrounding double quotes removed) joined by
/// a space.
pub proof fn law_other_commands_run_their_handlers(
    tag: Seq<char>,
    rest: Seq<char>,
    c: Result<Command>,
    is_tls: bool,
    tls_available: bool,
)
    requires
        parses_to(rest, c),
        words(rest).len() >= 1,
    ensures
        ({
            let w = words(rest);
            let k = unicode_uppercase(w[0]);
            &&& (k == "CAPABILITY"@ || k == "NOOP"@ || k == "LOGOUT"@) ==> command_action(
                tag,
                c,
                is_tls,
                tls_available,
            ) == LineActionView::Run(tag, k, Seq::empty())
            &&& (k == "LOGIN"@ || k == "LIST"@) && w.len() >= 3 ==> command_action(
                tag,
                c,
                is_tls,
                tls_available,
            ) == LineActionView::Run(
                tag,
                k,
                trim(w[1], Some('"')) + " "@ + trim(w[2], Some('"')),
            )
        }),
{
    reveal_strlit("SELECT");
    reveal_strlit("CREATE");
    reveal_strlit("DELETE");
    reveal_strlit("EXAMINE");
    reveal_strlit("CAPABILITY");
    reveal_strlit("NOOP");
    reveal_strlit("LOGOUT");
    reveal_strlit("STARTTLS");
    reveal_strlit("LOGIN");
    reveal_strlit("LIST");
    let w = words(rest);
    let k = unicode_uppercase(w[0]);
    let a = w.drop_first();
    assert(command_parses_to(k, a, c));
    if w.len() >= 3 {
        assert(a[0] == w[1] && a[1] == w[2]);
    }
    if k == "LIST"@ {
        assert(k != "CAPABILITY"@ && k != "NOOP"@ && k != "LOGOUT"@ && k != "STARTTLS"@
            && k != "LOGIN"@ && k != "SELECT"@ && k != "EXAMINE"@ && k != "CREATE"@
            && k != "DELETE"@) by {
            assert(k[0] == 'L' && k[1] == 'I' && k.len() == 4);
        }
    }
    if k == "LOGIN"@ {
        assert(k != "CAPABILITY"@ && k != "NOOP"@ && k != "LOGOUT"@ && k != "STARTTLS"@) by {
            assert(k[0] == 'L' && k[1] == 'O' && k.len() == 5);
        }
    }
}

/// SELECT, CREATE and DELETE go to their handlers: when the rest of a line
/// after its tag has a command word that upper-cases to one of them and a
/// next word naming a mailbox, the session runs the handler of that name
/// under the line's tag, with the mailbox name (surrounding double quotes
/// removed) as its arguments.
pub proof fn law_mailbox_commands_run_their_handlers(
    tag: Seq<char>,
    rest: Seq<char>,
    c: Result<Command>,
    is_tls: bool,
    tls_available: bool,
)
    requires
        parses_to(rest, c),
        words(rest).len() >= 2,
        unicode_uppercase(words(rest)[0]) == "SELECT"@ || unicode_uppercase(words(rest)[0])
            == "CREATE"@ || unicode_uppercase(words(rest)[0]) == "DELETE"@,
    ensures
        command_action(tag, c, is_tls, tls_available) == LineActionView::Run(
            tag,
            unicode_uppercase(words(rest)[0]),
            trim(words(rest)[1], Some('"')),
        ),
{
    reveal_strlit("SELECT");
    reveal_strlit("CREATE");
    reveal_strlit("DELETE");
    reveal_strlit("EXAMINE");
    reveal_strlit("CAPABILITY");
    reveal_strlit("NOOP");
    reveal_strlit("LOGOUT");
    reveal_strlit("STARTTLS");
    reveal_strlit("LOGIN");
    let w = words(rest);
    let k = unicode_uppercase(w[0]);
    let a = w.drop_first();
    assert(a[0] == w[1]);
    assert(k != "CAPABILITY"@ && k != "NOOP"@ && k != "LOGOUT"@ && k != "STARTTLS"@
        && k != "LOGIN"@) by {
        if k == "SELECT"@ {
            assert(k[0] == 'S' && k.len() == 6);
        } else if k == "CREATE"@ {
            assert(k[0] == 'C' && k[1] == 'R');
        } else {
            assert(k[0] == 'D');
        }
    }
    assert(command_parses_to(k, a, c));
    assert(one_arg_command(a, k, c));
}

} // verus!
