//! The registry of command handlers: command names, upper-cased, mapped to
//! the handlers that process them, and the requirements a session must meet
//! before a handler runs.

use vstd::prelude::*;
use vstd::string::*;

use crate::error::{error_text, Error, Result};
use crate::handlers::CommandHandler;
use crate::keyed::KeyedMap;
use crate::protocol::{Response, ResponseView};
use crate::session_context::SessionState;
use crate::text::{concat, to_uppercase, unicode_uppercase, views};

verus! {

/// Registry of command handlers, keyed by upper-cased command name.
pub struct CommandHandlers<H> {
    handlers: KeyedMap<String, H>,
}

/// Why a registered handler may not run in a state: commands that need
/// authentication are refused before login, commands that need a selected
/// mailbox are refused without one.
pub open spec fn access_refusal(
    tag: Seq<char>,
    requires_auth: bool,
    requires_selected: bool,
    state: SessionState,
) -> Option<ResponseView> {
    if requires_auth && state is NotAuthenticated {
        Some(ResponseView::No(Some(tag), "Command requires authentication"@))
    } else if requires_selected && !(state is Selected) {
        Some(ResponseView::No(Some(tag), "Command requires a selected mailbox"@))
    } else {
        None
    }
}

/// The answer to a command for which no handler is registered.
pub open spec fn unknown_command(tag: Seq<char>, name: Seq<char>) -> ResponseView {
    ResponseView::Bad(Some(tag), "Unknown command: "@ + name)
}

/// The message of a registration refused because the name is taken.
pub open spec fn duplicate_message(name: Seq<char>) -> Seq<char> {
    "Command handler already registered: "@ + name
}

/// The refusal, if any, of a handler with the given requirements in `state`.
pub fn check_access(
    tag: &str,
    requires_auth: bool,
    requires_selected: bool,
    state: &SessionState,
) -> (r: Option<Response>)
    ensures
        match r {
            Some(resp) => access_refusal(tag@, requires_auth, requires_selected, *state) == Some(
                resp@,
            ),
            None => access_refusal(tag@, requires_auth, requires_selected, *state) is None,
        },
{
    if requires_auth && matches!(state, SessionState::NotAuthenticated) {
        return Some(
            Response::No {
                tag: Some(tag.to_owned()),
                message: "Command requires authentication".to_owned(),
            },
        );
    }
    if requires_selected && !matches!(state, SessionState::Selected { .. }) {
        return Some(
            Response::No {
                tag: Some(tag.to_owned()),
                message: "Command requires a selected mailbox".to_owned(),
            },
        );
    }
    None
}

/// The answer when a handler fails with `e`.
pub fn handler_error_response(tag: &str, e: &Error) -> (r: Response)
    ensures
        r@ == ResponseView::Bad(Some(tag@), "Handler error: "@ + error_text(*e)),
{
    let text = e.to_string();
    Response::Bad { tag: Some(tag.to_owned()), message: concat("Handler error: ", text.as_str()) }
}

impl<H: CommandHandler> Default for CommandHandlers<H> {
    fn default() -> (r: Self)
        ensures
            r.wf(),
            r.handlers() == Map::<Seq<char>, H>::empty(),
    {
        CommandHandlers::new()
    }
}

impl<H: CommandHandler> CommandHandlers<H> {
    /// The handler registered under each upper-cased name.
    pub closed spec fn handlers(&self) -> Map<Seq<char>, H> {
        self.handlers@
    }

    pub closed spec fn wf(&self) -> bool {
        self.handlers.wf()
    }

    /// An empty registry.
    pub fn new() -> (r: Self)
        ensures
            r.wf(),
            r.handlers() == Map::<Seq<char>, H>::empty(),
    {
        CommandHandlers { handlers: KeyedMap::new() }
    }

    /// Registers `handler` under `name`, upper-cased; a name already taken
    /// is refused and nothing changes.
    pub fn register_named(&mut self, name: &str, handler: H) -> (r: Result<()>)
        requires
            old(self).wf(),
        ensures
            final(self).wf(),
            old(self).handlers().contains_key(unicode_uppercase(name@)) ==> {
                &&& r matches Err(Error::Internal(m)) && m@ == duplicate_message(
                    unicode_uppercase(name@),
                )
                &&& final(self).handlers() == old(self).handlers()
            },
            !old(self).handlers().contains_key(unicode_uppercase(name@)) ==> {
                &&& r is Ok
                &&& final(self).handlers() == old(self).handlers().insert(
                    unicode_uppercase(name@),
                    handler,
                )
            },
    {
        let key = to_uppercase(name);
        if self.handlers.contains_key(&key) {
            let m = concat("Command handler already registered: ", key.as_str());
            return Err(Error::Internal(m));
        }
        self.handlers.insert(key, handler);
        Ok(())
    }

    /// Registers `handler` under the name it reports, upper-cased; a name
    /// already taken is refused and nothing changes.
    pub fn register(&mut self, handler: H) -> (r: Result<()>)
        requires
            old(self).wf(),
        ensures
            final(self).wf(),
            ({
                let key = unicode_uppercase(handler.spec_command_name());
                if old(self).handlers().contains_key(key) {
                    &&& r matches Err(Error::Internal(m)) && m@ == duplicate_message(key)
                    &&& final(self).handlers() == old(self).handlers()
                } else {
                    &&& r is Ok
                    &&& final(self).handlers() == old(self).handlers().insert(key, handler)
                }
            }),
    {
        let name = handler.command_name().to_owned();
        self.register_named(name.as_str(), handler)
    }

    /// The handler of a command, looked up by its name in any letter case.
    pub fn get(&self, command_name: &str) -> (r: Option<&H>)
        requires
            self.wf(),
        ensures
            match r {
                Some(h) => self.handlers().contains_key(unicode_uppercase(command_name@)) && *h
                    == self.handlers()[unicode_uppercase(command_name@)],
                None => !self.handlers().contains_key(unicode_uppercase(command_name@)),
            },
    {
        let key = to_uppercase(command_name);
        self.handlers.get(&key)
    }

    /// Whether a handler is registered for a command name in any letter case.
    pub fn has_command(&self, command_name: &str) -> (r: bool)
        requires
            self.wf(),
        ensures
            r == self.handlers().contains_key(unicode_uppercase(command_name@)),
    {
        let key = to_uppercase(command_name);
        self.handlers.contains_key(&key)
    }

    /// The registered command names, each once.
    pub fn list_commands(&self) -> (r: Vec<String>)
        requires
            self.wf(),
        ensures
            views(r@).no_duplicates(),
            forall|n: Seq<char>| #[trigger] views(r@).contains(n) <==> self.handlers().contains_key(n),
    {
        proof {
            self.handlers.lemma_key_seq();
        }
        let ghost keys = self.handlers.key_seq();
        let mut out: Vec<String> = Vec::new();
        let n = self.handlers.size();
        let mut i: usize = 0;
        while i < n
            invariant
                self.wf(),
                n == keys.len(),
                keys == self.handlers.key_seq(),
                i <= n,
                out@.len() == i,
                views(out@) == keys.take(i as int),
            decreases n - i,
        {
            let k = self.handlers.key_at(i);
            assert(k@ == keys[i as int]);
            let ghost before = out@;
            out.push(k.clone());
            assert(out@ == before.push(out@[i as int]));
            assert(views(out@) =~= views(before).push(keys[i as int]));
            assert(views(out@) =~= keys.take(i as int + 1));
            i = i + 1;
        }
        assert(keys.take(n as int) =~= keys);
        out
    }

    /// The handler that may run `command_name` in `state`, or the answer
    /// that refuses the command: unknown commands are refused, and so are
    /// commands whose handler's requirements the state does not meet.
    pub fn dispatch_target(&self, command_name: &str, tag: &str, state: &SessionState) -> (r:
        core::result::Result<&H, Response>)
        requires
            self.wf(),
        ensures
            ({
                let key = unicode_uppercase(command_name@);
                if !self.handlers().contains_key(key) {
                    r matches Err(resp) && resp@ == unknown_command(tag@, command_name@)
                } else {
                    let h = self.handlers()[key];
                    match access_refusal(
                        tag@,
                        h.spec_requires_auth(),
                        h.spec_requires_selected_mailbox(),
                        *state,
                    ) {
                        Some(refusal) => r matches Err(resp) && resp@ == refusal,
                        None => r matches Ok(g) && *g == h,
                    }
                }
            }),
    {
        match self.get(command_name) {
            None => Err(
                Response::Bad {
                    tag: Some(tag.to_owned()),
                    message: concat("Unknown command: ", command_name),
                },
            ),
            Some(h) => {
                let a = h.requires_auth();
                let s = h.requires_selected_mailbox();
                match check_access(tag, a, s, state) {
                    Some(resp) => Err(resp),
                    None => Ok(h),
                }
            },
        }
    }
}

} // verus!
