//! What the mail store watcher decides: which mailboxes it watches, what it
//! reads out of a message file, and which event each change of a message
//! file becomes.
//!
//! Watching directories, listing them and reading files is the server's
//! part; it hands the results here.

use vstd::prelude::*;
use vstd::string::*;

use crate::error::{Error, Result};
use crate::events::Event;
use crate::keyed::KeyedMap;
use crate::maildir::{flag_views, ParsedMessage, ParsedView};
use crate::paths::{path_join, std_join};
use crate::text::{chars_of, concat, eq_ignore_ascii_case, eq_ignore_ascii_case_str, string_of};
use crate::types::{FlagModel, MessageFlag};
use crate::index::copy_flags;

verus! {

// ---------------------------------------------------------------------------
// Reading a message
// ---------------------------------------------------------------------------

/// How `mailparse` reads a raw message: its headers as (name, value) pairs in
/// order, and its decoded body (absent when the body cannot be decoded);
/// absent altogether when the message cannot be parsed.
pub uninterp spec fn mail_reading(raw: Seq<u8>) -> Option<
    (Seq<(Seq<char>, Seq<char>)>, Option<Seq<char>>),
>;

/// The view of what `read_mail` returns.
pub open spec fn reading_view(r: Option<(Vec<(String, String)>, Option<String>)>) -> Option<
    (Seq<(Seq<char>, Seq<char>)>, Option<Seq<char>>),
> {
    match r {
        Some((hs, body)) => Some(
            (
                hs@.map_values(|h: (String, String)| (h.0@, h.1@)),
                match body {
                    Some(b) => Some(b@),
                    None => None,
                },
            ),
        ),
        None => None,
    }
}

/// Parses a raw message with `mailparse::parse_mail`, and gives its headers
/// (`MailHeader::get_key`, `MailHeader::get_value`) and its body
/// (`ParsedMail::get_body`) as text.
#[verifier::external_body]
fn read_mail(raw: &[u8]) -> (r: Option<(Vec<(String, String)>, Option<String>)>)
    ensures
        reading_view(r) == mail_reading(raw@),
{
    let mail = mailparse::parse_mail(raw).ok()?;
    let headers = mail.headers.iter().map(|h| (h.get_key(), h.get_value())).collect();
    Some((headers, mail.get_body().ok()))
}

/// The headers, metadata of a message that the index keeps.
pub struct MessageSummary {
    pub from: String,
    pub to: String,
    pub subject: String,
    pub body_preview: String,
}

/// `i` is the first header whose name is `name` up to ASCII case.
pub open spec fn is_first_header(hs: Seq<(Seq<char>, Seq<char>)>, name: Seq<char>, i: int) -> bool {
    &&& 0 <= i < hs.len()
    &&& eq_ignore_ascii_case(hs[i].0, name)
    &&& forall|j: int| 0 <= j < i ==> !eq_ignore_ascii_case(#[trigger] hs[j].0, name)
}

/// The value of the first header called `name` (up to ASCII case), or
/// nothing.
pub open spec fn header_value(hs: Seq<(Seq<char>, Seq<char>)>, name: Seq<char>) -> Seq<char> {
    if exists|i: int| is_first_header(hs, name, i) {
        hs[choose|i: int| is_first_header(hs, name, i)].1
    } else {
        Seq::empty()
    }
}

/// The first 200 characters of the body, or nothing without a body.
pub open spec fn body_preview(body: Option<Seq<char>>) -> Seq<char> {
    match body {
        Some(b) => if b.len() <= 200 {
            b
        } else {
            b.take(200)
        },
        None => Seq::empty(),
    }
}

/// A summary with its texts taken by their views.
pub open spec fn summary_view(s: MessageSummary) -> (Seq<char>, Seq<char>, Seq<char>, Seq<char>) {
    (s.from@, s.to@, s.subject@, s.body_preview@)
}

/// The value of the first header called `name`, or an empty text.
fn find_header(hs: &Vec<(String, String)>, name: &str) -> (r: String)
    ensures
        r@ == header_value(hs@.map_values(|h: (String, String)| (h.0@, h.1@)), name@),
{
    let ghost v = hs@.map_values(|h: (String, String)| (h.0@, h.1@));
    let mut i: usize = 0;
    while i < hs.len()
        invariant
            i <= hs@.len(),
            v == hs@.map_values(|h: (String, String)| (h.0@, h.1@)),
            forall|j: int| 0 <= j < i ==> !eq_ignore_ascii_case(#[trigger] v[j].0, name@),
        decreases hs@.len() - i,
    {
        if eq_ignore_ascii_case_str(hs[i].0.as_str(), name) {
            assert(is_first_header(v, name@, i as int));
            proof {
                let k = choose|k: int| is_first_header(v, name@, k);
                if k < i {
                    assert(!eq_ignore_ascii_case(v[k].0, name@));
                }
                if i < k {
                    assert(!eq_ignore_ascii_case(v[i as int].0, name@));
                }
            }
            return hs[i].1.clone();
        }
        i = i + 1;
    }
    assert(!exists|k: int| is_first_header(v, name@, k)) by {
        if exists|k: int| is_first_header(v, name@, k) {
            let k = choose|k: int| is_first_header(v, name@, k);
            assert(!eq_ignore_ascii_case(v[k].0, name@));
        }
    }
    String::new()
}

/// The summary of a parsed message: the values of its From, To and Subject
/// headers (empty when missing) and the first 200 characters of its body
/// (empty without one).
pub fn summarize_parts(headers: &Vec<(String, String)>, body: Option<String>) -> (r:
    MessageSummary)
    ensures
        ({
            let hs = headers@.map_values(|h: (String, String)| (h.0@, h.1@));
            let b = match body {
                Some(t) => Some(t@),
                None => None,
            };
            summary_view(r) == (
                header_value(hs, "from"@),
                header_value(hs, "to"@),
                header_value(hs, "subject"@),
                body_preview(b),
            )
        }),
{
    let from = find_header(headers, "from");
    let to = find_header(headers, "to");
    let subject = find_header(headers, "subject");
    let preview = match body {
        Some(b) => {
            let v = chars_of(b.as_str());
            let n = if v.len() <= 200 {
                v.len()
            } else {
                200
            };
            let p = string_of(v.as_slice(), 0, n);
            assert(v.len() <= 200 ==> p@ =~= b@);
            assert(v.len() > 200 ==> p@ =~= b@.take(200));
            p
        },
        None => String::new(),
    };
    MessageSummary { from, to, subject, body_preview: preview }
}

/// The summary of a raw message: its From, To and Subject headers (empty
/// when missing) and the start of its body; `None` when the message cannot
/// be parsed.
pub fn summarize(raw: &[u8]) -> (r: Option<MessageSummary>)
    ensures
        match mail_reading(raw@) {
            None => r is None,
            Some((hs, body)) => r matches Some(s) && summary_view(s) == (
                header_value(hs, "from"@),
                header_value(hs, "to"@),
                header_value(hs, "subject"@),
                body_preview(body),
            ),
        },
{
    match read_mail(raw) {
        Some((headers, body)) => Some(summarize_parts(&headers, body)),
        None => None,
    }
}

// ---------------------------------------------------------------------------
// Events for message files
// ---------------------------------------------------------------------------

/// The flags an event reports for a parsed file: its flags, and \Recent for
/// a new message.
pub open spec fn event_flags(p: ParsedView) -> Seq<FlagModel> {
    if p.is_new {
        p.flags.push(FlagModel::Recent)
    } else {
        p.flags
    }
}

fn flags_for_event(parsed: &ParsedMessage) -> (r: Vec<MessageFlag>)
    ensures
        flag_views(r@) == event_flags(parsed@),
{
    let mut flags = copy_flags(&parsed.flags);
    if parsed.is_new {
        let ghost before = flags@;
        flags.push(MessageFlag::Recent);
        assert(flag_views(flags@) =~= flag_views(before).push(FlagModel::Recent));
    }
    flags
}

/// The event for a message file that appeared in `username`'s `mailbox`:
/// its path relative to the store is `username/mailbox/<unique id>`.
pub fn created_event(
    username: &str,
    mailbox: &str,
    parsed: &ParsedMessage,
    summary: MessageSummary,
    size: usize,
    internal_date: i64,
) -> (r: Event)
    ensures
        r matches Event::MessageCreated {
            username: u,
            mailbox: m,
            unique_id: id,
            path: p,
            flags: f,
            is_new: n,
            from: fr,
            to: t,
            subject: s,
            body_preview: b,
            size: z,
            internal_date: d,
        } && u@ == username@ && m@ == mailbox@ && id@ == parsed.unique_id@ && p@ == username@
            + "/"@ + mailbox@ + "/"@ + parsed.unique_id@ && flag_views(f@) == event_flags(parsed@)
            && n == parsed.is_new && (fr@, t@, s@, b@) == summary_view(summary) && z == size && d
            == internal_date,
{
    let path = concat(
        concat(concat(concat(username, "/").as_str(), mailbox).as_str(), "/").as_str(),
        parsed.unique_id.as_str(),
    );
    Event::MessageCreated {
        username: username.to_owned(),
        mailbox: mailbox.to_owned(),
        unique_id: parsed.unique_id.clone(),
        path,
        flags: flags_for_event(parsed),
        is_new: parsed.is_new,
        from: summary.from,
        to: summary.to,
        subject: summary.subject,
        body_preview: summary.body_preview,
        size,
        internal_date,
    }
}

/// The event for a message file whose name changed (its flags changed).
pub fn modified_event(parsed: &ParsedMessage) -> (r: Event)
    ensures
        r matches Event::MessageModified { username: u, mailbox: m, unique_id: id, flags: f }
            && u@ == parsed.username@ && m@ == parsed.mailbox@ && id@ == parsed.unique_id@
            && flag_views(f@) == event_flags(parsed@),
{
    Event::MessageModified {
        username: parsed.username.clone(),
        mailbox: parsed.mailbox.clone(),
        unique_id: parsed.unique_id.clone(),
        flags: flags_for_event(parsed),
    }
}

/// The event for a message file that was removed.
pub fn deleted_event(parsed: &ParsedMessage) -> (r: Event)
    ensures
        r matches Event::MessageDeleted { username: u, mailbox: m, unique_id: id } && u@
            == parsed.username@ && m@ == parsed.mailbox@ && id@ == parsed.unique_id@,
{
    Event::MessageDeleted {
        username: parsed.username.clone(),
        mailbox: parsed.mailbox.clone(),
        unique_id: parsed.unique_id.clone(),
    }
}

// ---------------------------------------------------------------------------
// Watched mailboxes
// ---------------------------------------------------------------------------

/// The directory of `username`'s `mailbox` under `root`.
pub fn mailbox_dir(root: &str, username: &str, mailbox: &str) -> (r: String)
    ensures
        r@ == std_join(std_join(root@, username@), mailbox@),
{
    let user_dir = path_join(root, username);
    path_join(user_dir.as_str(), mailbox)
}

/// The mailboxes being watched, each with its directory, and the way back
/// from a directory to its mailbox.
pub struct WatchTable {
    watched: KeyedMap<(String, String), String>,
    by_path: KeyedMap<String, (String, String)>,
}

impl WatchTable {
    /// The directory watched for each (user, mailbox).
    pub closed spec fn watched(&self) -> Map<(Seq<char>, Seq<char>), Seq<char>> {
        self.watched@.map_values(|p: String| p@)
    }

    /// The (user, mailbox) of each watched directory.
    pub closed spec fn by_path(&self) -> Map<Seq<char>, (Seq<char>, Seq<char>)> {
        self.by_path@.map_values(|k: (String, String)| (k.0@, k.1@))
    }

    pub closed spec fn wf(&self) -> bool {
        self.watched.wf() && self.by_path.wf()
    }

    /// Nothing watched.
    pub fn new() -> (r: Self)
        ensures
            r.wf(),
            r.watched() == Map::<(Seq<char>, Seq<char>), Seq<char>>::empty(),
            r.by_path() == Map::<Seq<char>, (Seq<char>, Seq<char>)>::empty(),
    {
        let r = WatchTable { watched: KeyedMap::new(), by_path: KeyedMap::new() };
        assert(r.watched() =~= Map::<(Seq<char>, Seq<char>), Seq<char>>::empty());
        assert(r.by_path() =~= Map::<Seq<char>, (Seq<char>, Seq<char>)>::empty());
        r
    }

    /// Records that `username`'s `mailbox` is watched in the directory `path`.
    pub fn watch(&mut self, username: &str, mailbox: &str, path: &str)
        requires
            old(self).wf(),
        ensures
            final(self).wf(),
            final(self).watched() == old(self).watched().insert((username@, mailbox@), path@),
            final(self).by_path() == old(self).by_path().insert(path@, (username@, mailbox@)),
    {
        let ghost w = self.watched();
        let ghost b = self.by_path();
        self.watched.insert((username.to_owned(), mailbox.to_owned()), path.to_owned());
        self.by_path.insert(path.to_owned(), (username.to_owned(), mailbox.to_owned()));
        assert(self.watched() =~= w.insert((username@, mailbox@), path@));
        assert(self.by_path() =~= b.insert(path@, (username@, mailbox@)));
    }

    /// Stops watching `username`'s `mailbox`; returns the directory to stop
    /// watching. A mailbox that is not watched is reported.
    pub fn unwatch(&mut self, username: &str, mailbox: &str) -> (r: Result<String>)
        requires
            old(self).wf(),
        ensures
            final(self).wf(),
            old(self).watched().contains_key((username@, mailbox@)) ==> {
                let p = old(self).watched()[(username@, mailbox@)];
                &&& r matches Ok(s) && s@ == p
                &&& final(self).watched() == old(self).watched().remove((username@, mailbox@))
                &&& final(self).by_path() == old(self).by_path().remove(p)
            },
            !old(self).watched().contains_key((username@, mailbox@)) ==> {
                &&& r matches Err(Error::NotFound(m)) && m@ == "Mailbox not being watched: "@
                    + username@ + "/"@ + mailbox@
                &&& final(self).watched() == old(self).watched()
                &&& final(self).by_path() == old(self).by_path()
            },
    {
        let ghost w = self.watched();
        let ghost b = self.by_path();
        let key = (username.to_owned(), mailbox.to_owned());
        match self.watched.remove(&key) {
            Some(path) => {
                self.by_path.remove(&path);
                assert(self.watched() =~= w.remove((username@, mailbox@)));
                assert(self.by_path() =~= b.remove(path@));
                Ok(path)
            },
            None => {
                assert(self.watched() =~= w);
                let m = concat(
                    concat(concat("Mailbox not being watched: ", username).as_str(), "/").as_str(),
                    mailbox,
                );
                Err(Error::NotFound(m))
            },
        }
    }
}

} // verus!
