//! The message index: metadata of every message, where its file is, and
//! search over it; and the index's reaction to mail store events.
//!
//! A message added for `user` and `mailbox` is kept at
//! `user/mailbox/<uuid>.eml`, where `<uuid>` is its id in the hyphenated
//! form of a UUID.

use vstd::arithmetic::power::pow;
use vstd::prelude::*;
use vstd::string::*;

use crate::error::{Error, Result};
use crate::keyed::KeyedMap;
use crate::maildir::flag_views;
use crate::mailboxes::MailboxRegistry;
use crate::text::{concat, contains_str, has_substring, occurs_at, same_text};
use crate::types::{FlagModel, MessageFlag, MessageId, SearchQuery, Uid};

verus! {

// ---------------------------------------------------------------------------
// Message ids as text
// ---------------------------------------------------------------------------

/// The lower-case hexadecimal digit of `d` (0 to 15).
pub open spec fn hex_digit(d: int) -> char {
    if d < 10 {
        (d + 48) as char
    } else {
        (d + 87) as char
    }
}

/// The `k`-th hexadecimal digit of `id`, counted from the most significant.
pub open spec fn uuid_nibble(id: u128, k: int) -> int {
    (id as int / pow(16, (31 - k) as nat)) % 16
}

/// Which digit the `i`-th character of the hyphenated form shows.
pub open spec fn uuid_digit_index(i: int) -> int {
    if i < 8 {
        i
    } else if i < 13 {
        i - 1
    } else if i < 18 {
        i - 2
    } else if i < 23 {
        i - 3
    } else {
        i - 4
    }
}

/// The hyphenated lower-case form of a UUID: its 32 hexadecimal digits,
/// most significant first, in groups of 8, 4, 4, 4 and 12 joined by hyphens.
pub open spec fn uuid_text(id: u128) -> Seq<char> {
    Seq::new(
        36,
        |i: int|
            if i == 8 || i == 13 || i == 18 || i == 23 {
                '-'
            } else {
                hex_digit(uuid_nibble(id, uuid_digit_index(i)))
            },
    )
}

/// The hyphenated form of the UUID with bits `id`
/// (`uuid::Uuid::from_u128(id).to_string()`).
#[verifier::external_body]
fn uuid_string(id: u128) -> (r: String)
    ensures
        r@ == uuid_text(id),
{
    uuid::Uuid::from_u128(id).to_string()
}

/// The debug form of a message id, `MessageId(<uuid>)`.
pub open spec fn message_id_text(id: u128) -> Seq<char> {
    "MessageId("@ + uuid_text(id) + ")"@
}

/// The error for a message id the index does not hold.
pub open spec fn missing_message_text(id: u128) -> Seq<char> {
    "Message "@ + message_id_text(id) + " not found"@
}

fn missing_message(id: MessageId) -> (e: Error)
    ensures
        e matches Error::NotFound(m) && m@ == missing_message_text(id.0),
{
    let text = concat(concat("MessageId(", uuid_string(id.0).as_str()).as_str(), ")");
    let m = concat(concat("Message ", text.as_str()).as_str(), " not found");
    Error::NotFound(m)
}

/// Where the index keeps a message: `user/mailbox/<uuid>.eml`.
pub open spec fn message_path(username: Seq<char>, mailbox: Seq<char>, id: u128) -> Seq<char> {
    username + "/"@ + mailbox + "/"@ + uuid_text(id) + ".eml"@
}

/// The path of a message of `username` in `mailbox` with id `id`.
pub fn make_message_path(username: &str, mailbox: &str, id: MessageId) -> (r: String)
    ensures
        r@ == message_path(username@, mailbox@, id.0),
{
    let a = concat(concat(username, "/").as_str(), mailbox);
    let b = concat(concat(a.as_str(), "/").as_str(), uuid_string(id.0).as_str());
    concat(b.as_str(), ".eml")
}

// ---------------------------------------------------------------------------
// Messages and queries
// ---------------------------------------------------------------------------

/// Message metadata stored in the index. Dates are milliseconds since the
/// Unix epoch.
#[derive(Debug, Clone)]
pub struct IndexedMessage {
    pub id: MessageId,
    pub uid: Uid,
    pub mailbox: String,
    pub flags: Vec<MessageFlag>,
    pub internal_date: i64,
    pub size: usize,
    pub from: String,
    pub to: String,
    pub subject: String,
    pub body_preview: String,
}

/// Message metadata with its texts and flags taken by their views.
pub struct MessageView {
    pub id: u128,
    pub uid: u32,
    pub mailbox: Seq<char>,
    pub flags: Seq<FlagModel>,
    pub internal_date: i64,
    pub size: usize,
    pub from: Seq<char>,
    pub to: Seq<char>,
    pub subject: Seq<char>,
    pub body_preview: Seq<char>,
}

impl View for IndexedMessage {
    type V = MessageView;

    open spec fn view(&self) -> MessageView {
        MessageView {
            id: self.id.0,
            uid: self.uid,
            mailbox: self.mailbox@,
            flags: flag_views(self.flags@),
            internal_date: self.internal_date,
            size: self.size,
            from: self.from@,
            to: self.to@,
            subject: self.subject@,
            body_preview: self.body_preview@,
        }
    }
}

/// A copy of a list of flags.
pub fn copy_flags(flags: &Vec<MessageFlag>) -> (r: Vec<MessageFlag>)
    ensures
        flag_views(r@) == flag_views(flags@),
{
    let mut out: Vec<MessageFlag> = Vec::new();
    let mut i: usize = 0;
    while i < flags.len()
        invariant
            i <= flags@.len(),
            out@.len() == i,
            forall|j: int| 0 <= j < i ==> (#[trigger] out@[j])@ == flags@[j]@,
        decreases flags@.len() - i,
    {
        out.push(flags[i].duplicate());
        i = i + 1;
    }
    assert(flag_views(out@) =~= flag_views(flags@));
    out
}

impl IndexedMessage {
    /// A copy of this message's metadata.
    pub fn duplicate(&self) -> (r: IndexedMessage)
        ensures
            r@ == self@,
    {
        IndexedMessage {
            id: self.id,
            uid: self.uid,
            mailbox: self.mailbox.clone(),
            flags: copy_flags(&self.flags),
            internal_date: self.internal_date,
            size: self.size,
            from: self.from.clone(),
            to: self.to.clone(),
            subject: self.subject.clone(),
            body_preview: self.body_preview.clone(),
        }
    }
}

/// Whether a message matches a search query. Sequence numbers are not
/// tracked by the index, so a sequence query matches nothing.
pub open spec fn query_matches(m: MessageView, q: SearchQuery) -> bool
    decreases q,
{
    match q {
        SearchQuery::All => true,
        SearchQuery::From(s) => has_substring(m.from, s@),
        SearchQuery::To(s) => has_substring(m.to, s@),
        SearchQuery::Subject(s) => has_substring(m.subject, s@),
        SearchQuery::Body(s) => has_substring(m.body_preview, s@),
        SearchQuery::Text(s) => has_substring(m.from, s@) || has_substring(m.to, s@)
            || has_substring(m.subject, s@) || has_substring(m.body_preview, s@),
        SearchQuery::Uid(uids) => uids@.contains(m.uid),
        SearchQuery::Sequence(_) => false,
        SearchQuery::Seen => m.flags.contains(FlagModel::Seen),
        SearchQuery::Unseen => !m.flags.contains(FlagModel::Seen),
        SearchQuery::Flagged => m.flags.contains(FlagModel::Flagged),
        SearchQuery::Unflagged => !m.flags.contains(FlagModel::Flagged),
        SearchQuery::Deleted => m.flags.contains(FlagModel::Deleted),
        SearchQuery::Undeleted => !m.flags.contains(FlagModel::Deleted),
        SearchQuery::And(a, b) => query_matches(m, *a) && query_matches(m, *b),
        SearchQuery::Or(a, b) => query_matches(m, *a) || query_matches(m, *b),
        SearchQuery::Not(a) => !query_matches(m, *a),
    }
}

/// Which of three system flags to look for.
enum FlagProbe {
    Seen,
    Flagged,
    Deleted,
}

spec fn probe_model(p: FlagProbe) -> FlagModel {
    match p {
        FlagProbe::Seen => FlagModel::Seen,
        FlagProbe::Flagged => FlagModel::Flagged,
        FlagProbe::Deleted => FlagModel::Deleted,
    }
}

/// Whether `flags` holds the probed flag.
fn has_flag(flags: &Vec<MessageFlag>, probe: FlagProbe) -> (r: bool)
    ensures
        r == flag_views(flags@).contains(probe_model(probe)),
{
    let mut i: usize = 0;
    while i < flags.len()
        invariant
            i <= flags@.len(),
            forall|j: int| 0 <= j < i ==> flags@[j]@ != probe_model(probe),
        decreases flags@.len() - i,
    {
        let hit = match (&flags[i], &probe) {
            (MessageFlag::Seen, FlagProbe::Seen) => true,
            (MessageFlag::Flagged, FlagProbe::Flagged) => true,
            (MessageFlag::Deleted, FlagProbe::Deleted) => true,
            _ => false,
        };
        if hit {
            assert(flag_views(flags@)[i as int] == probe_model(probe));
            return true;
        }
        i = i + 1;
    }
    assert(!flag_views(flags@).contains(probe_model(probe))) by {
        if flag_views(flags@).contains(probe_model(probe)) {
            let j = choose|j: int|
                0 <= j < flag_views(flags@).len() && flag_views(flags@)[j] == probe_model(probe);
            assert(flags@[j]@ != probe_model(probe));
        }
    }
    false
}

/// Whether `uid` is among `uids`.
fn has_uid(uids: &Vec<Uid>, uid: Uid) -> (r: bool)
    ensures
        r == uids@.contains(uid),
{
    let mut i: usize = 0;
    while i < uids.len()
        invariant
            i <= uids@.len(),
            forall|j: int| 0 <= j < i ==> uids@[j] != uid,
        decreases uids@.len() - i,
    {
        if uids[i] == uid {
            return true;
        }
        i = i + 1;
    }
    false
}

/// Whether a message matches a search query.
pub fn matches_query(message: &IndexedMessage, query: &SearchQuery) -> (r: bool)
    ensures
        r == query_matches(message@, *query),
    decreases query,
{
    match query {
        SearchQuery::All => true,
        SearchQuery::From(s) => contains_str(message.from.as_str(), s.as_str()),
        SearchQuery::To(s) => contains_str(message.to.as_str(), s.as_str()),
        SearchQuery::Subject(s) => contains_str(message.subject.as_str(), s.as_str()),
        SearchQuery::Body(s) => contains_str(message.body_preview.as_str(), s.as_str()),
        SearchQuery::Text(s) => {
            contains_str(message.from.as_str(), s.as_str()) || contains_str(
                message.to.as_str(),
                s.as_str(),
            ) || contains_str(message.subject.as_str(), s.as_str()) || contains_str(
                message.body_preview.as_str(),
                s.as_str(),
            )
        },
        SearchQuery::Uid(uids) => has_uid(uids, message.uid),
        SearchQuery::Sequence(_) => false,
        SearchQuery::Seen => has_flag(&message.flags, FlagProbe::Seen),
        SearchQuery::Unseen => !has_flag(&message.flags, FlagProbe::Seen),
        SearchQuery::Flagged => has_flag(&message.flags, FlagProbe::Flagged),
        SearchQuery::Unflagged => !has_flag(&message.flags, FlagProbe::Flagged),
        SearchQuery::Deleted => has_flag(&message.flags, FlagProbe::Deleted),
        SearchQuery::Undeleted => !has_flag(&message.flags, FlagProbe::Deleted),
        SearchQuery::And(a, b) => matches_query(message, a) && matches_query(message, b),
        SearchQuery::Or(a, b) => matches_query(message, a) || matches_query(message, b),
        SearchQuery::Not(a) => !matches_query(message, a),
    }
}

// ---------------------------------------------------------------------------
// The in-memory backend
// ---------------------------------------------------------------------------

/// A message's metadata, file path and owner.
struct MessageEntry {
    metadata: IndexedMessage,
    path: String,
    username: String,
}

/// A stored message with its texts taken by their views.
pub struct EntryView {
    pub message: MessageView,
    pub path: Seq<char>,
    pub username: Seq<char>,
}

impl View for MessageEntry {
    type V = EntryView;

    closed spec fn view(&self) -> EntryView {
        EntryView { message: self.metadata@, path: self.path@, username: self.username@ }
    }
}

impl MessageEntry {
    fn duplicate(&self) -> (r: MessageEntry)
        ensures
            r@ == self@,
    {
        MessageEntry {
            metadata: self.metadata.duplicate(),
            path: self.path.clone(),
            username: self.username.clone(),
        }
    }
}

/// Whether a stored message belongs to `username`'s `mailbox`.
pub open spec fn in_mailbox(e: EntryView, username: Seq<char>, mailbox: Seq<char>) -> bool {
    e.username == username && e.message.mailbox == mailbox
}

fn entry_in_mailbox(e: &MessageEntry, username: &str, mailbox: &str) -> (r: bool)
    ensures
        r == in_mailbox(e@, username@, mailbox@),
{
    same_text(e.username.as_str(), username) && same_text(e.metadata.mailbox.as_str(), mailbox)
}

spec fn entry_views(m: Map<u128, MessageEntry>) -> Map<u128, EntryView> {
    m.map_values(|e: MessageEntry| e@)
}

/// In-memory storage of the index: every message keyed by its id.
pub struct InMemoryBackend {
    messages: KeyedMap<u128, MessageEntry>,
}

impl Default for InMemoryBackend {
    fn default() -> (r: Self)
        ensures
            r.wf(),
            r.entries() == Map::<u128, EntryView>::empty(),
    {
        InMemoryBackend::new()
    }
}

impl InMemoryBackend {
    /// The stored messages, keyed by id.
    pub closed spec fn entries(&self) -> Map<u128, EntryView> {
        entry_views(self.messages@)
    }

    /// The ids in the order in which lookups and listings visit them.
    pub closed spec fn order(&self) -> Seq<u128> {
        self.messages.key_seq()
    }

    pub closed spec fn wf(&self) -> bool {
        self.messages.wf()
    }

    /// The ids in visiting order are distinct and are all the stored ids.
    pub proof fn lemma_order(&self)
        requires
            self.wf(),
        ensures
            self.order().no_duplicates(),
            forall|id: u128| #[trigger] self.entries().contains_key(id) <==> self.order().contains(id),
    {
        self.messages.lemma_key_seq();
    }

    /// The ids of `username`'s messages in `mailbox` that `pred` selects, in
    /// visiting order.
    pub open spec fn selected(
        &self,
        username: Seq<char>,
        mailbox: Seq<char>,
        pred: spec_fn(MessageView) -> bool,
    ) -> Seq<u128> {
        self.order().filter(
            |id: u128|
                in_mailbox(self.entries()[id], username, mailbox) && pred(
                    self.entries()[id].message,
                ),
        )
    }

    /// An empty index.
    pub fn new() -> (r: Self)
        ensures
            r.wf(),
            r.entries() == Map::<u128, EntryView>::empty(),
    {
        let r = InMemoryBackend { messages: KeyedMap::new() };
        assert(r.entries() =~= Map::<u128, EntryView>::empty());
        r
    }

    /// Adds (or replaces) a message of `username` in `mailbox`; returns the
    /// path where its file is kept.
    pub fn add_message(&mut self, username: &str, mailbox: &str, message: IndexedMessage) -> (r:
        Result<String>)
        requires
            old(self).wf(),
        ensures
            final(self).wf(),
            r matches Ok(p) && p@ == message_path(username@, mailbox@, message.id.0),
            final(self).entries() == old(self).entries().insert(
                message.id.0,
                EntryView {
                    message: message@,
                    path: message_path(username@, mailbox@, message.id.0),
                    username: username@,
                },
            ),
    {
        let ghost before = self.entries();
        let ghost mv = message@;
        let path = make_message_path(username, mailbox, message.id);
        let id = message.id.0;
        let entry = MessageEntry { metadata: message, path: path.clone(), username: username.to_owned() };
        self.messages.insert(id, entry);
        assert(self.entries() =~= before.insert(
            id,
            EntryView { message: mv, path: path@, username: username@ },
        ));
        Ok(path)
    }

    /// Replaces the flags of the message `id`.
    pub fn update_flags(&mut self, id: MessageId, flags: Vec<MessageFlag>) -> (r: Result<()>)
        requires
            old(self).wf(),
        ensures
            final(self).wf(),
            old(self).entries().contains_key(id.0) ==> {
                let e = old(self).entries()[id.0];
                &&& r is Ok
                &&& final(self).entries() == old(self).entries().insert(
                    id.0,
                    EntryView {
                        message: MessageView { flags: flag_views(flags@), ..e.message },
                        ..e
                    },
                )
            },
            !old(self).entries().contains_key(id.0) ==> {
                &&& r matches Err(Error::NotFound(m)) && m@ == missing_message_text(id.0)
                &&& final(self).entries() == old(self).entries()
            },
    {
        let ghost before = self.entries();
        let ghost fv = flag_views(flags@);
        match self.messages.get(&id.0) {
            Some(e) => {
                let mut updated = e.duplicate();
                updated.metadata.flags = flags;
                self.messages.insert(id.0, updated);
                assert(self.entries() =~= before.insert(
                    id.0,
                    EntryView {
                        message: MessageView { flags: fv, ..before[id.0].message },
                        ..before[id.0]
                    },
                ));
                Ok(())
            },
            None => Err(missing_message(id)),
        }
    }

    /// Deletes the message `id`.
    pub fn delete_message(&mut self, id: MessageId) -> (r: Result<()>)
        requires
            old(self).wf(),
        ensures
            final(self).wf(),
            final(self).entries() == old(self).entries().remove(id.0),
            old(self).entries().contains_key(id.0) ==> r is Ok,
            !old(self).entries().contains_key(id.0) ==> (r matches Err(Error::NotFound(m)) && m@
                == missing_message_text(id.0)),
    {
        let ghost before = self.entries();
        let removed = self.messages.remove(&id.0);
        assert(self.entries() =~= before.remove(id.0));
        match removed {
            Some(_) => Ok(()),
            None => Err(missing_message(id)),
        }
    }

    /// Removes every message of `username` in `mailbox`.
    pub fn remove_messages_for_mailbox(&mut self, username: &str, mailbox: &str) -> (r: Result<()>)
        requires
            old(self).wf(),
        ensures
            final(self).wf(),
            r is Ok,
            final(self).entries() == Map::new(
                |id: u128|
                    old(self).entries().contains_key(id) && !in_mailbox(
                        old(self).entries()[id],
                        username@,
                        mailbox@,
                    ),
                |id: u128| old(self).entries()[id],
            ),
    {
        let ghost before = self.entries();
        let ghost keys = self.order();
        proof {
            self.lemma_order();
        }
        let mut kept: KeyedMap<u128, MessageEntry> = KeyedMap::new();
        let n = self.messages.size();
        let mut i: usize = 0;
        while i < n
            invariant
                self.wf(),
                kept.wf(),
                self.entries() == before,
                keys == self.order(),
                n == keys.len(),
                keys.no_duplicates(),
                forall|id: u128| #[trigger] before.contains_key(id) <==> keys.contains(id),
                i <= n,
                entry_views(kept@) == Map::new(
                    |id: u128|
                        keys.take(i as int).contains(id) && !in_mailbox(
                            before[id],
                            username@,
                            mailbox@,
                        ),
                    |id: u128| before[id],
                ),
            decreases n - i,
        {
            let id = *self.messages.key_at(i);
            let e = self.messages.value_at(i);
            let ghost kept_before = entry_views(kept@);
            proof {
                assert(keys.take(i as int + 1) =~= keys.take(i as int).push(keys[i as int]));
                assert(!keys.take(i as int).contains(keys[i as int])) by {
                    if keys.take(i as int).contains(keys[i as int]) {
                        let j = choose|j: int|
                            0 <= j < i && keys.take(i as int)[j] == keys[i as int];
                        assert(keys[j] == keys[i as int]);
                    }
                }
                assert(before[id] == e@);
                assert forall|k: u128| #[trigger]
                    keys.take(i as int + 1).contains(k) == (keys.take(i as int).contains(k) || k
                        == keys[i as int]) by {
                    if keys.take(i as int).contains(k) {
                        let j = choose|j: int| 0 <= j < i && #[trigger] keys.take(i as int)[j] == k;
                        assert(keys.take(i as int + 1)[j] == k);
                    }
                    if k == keys[i as int] {
                        assert(keys.take(i as int + 1)[i as int] == k);
                    }
                    if keys.take(i as int + 1).contains(k) {
                        let j = choose|j: int| 0 <= j < i + 1 && #[trigger] keys.take(i as int + 1)[j] == k;
                        if j < i {
                            assert(keys.take(i as int)[j] == k);
                        }
                    }
                }
            }
            if !entry_in_mailbox(e, username, mailbox) {
                let ghost old_kept = kept@;
                let dup = e.duplicate();
                kept.insert(id, dup);
                assert(entry_views(kept@) =~= entry_views(old_kept).insert(id, before[id]));
                assert(entry_views(kept@) =~= Map::new(
                    |k: u128|
                        keys.take(i as int + 1).contains(k) && !in_mailbox(
                            before[k],
                            username@,
                            mailbox@,
                        ),
                    |k: u128| before[k],
                ));
            } else {
                assert(entry_views(kept@) =~= Map::new(
                    |k: u128|
                        keys.take(i as int + 1).contains(k) && !in_mailbox(
                            before[k],
                            username@,
                            mailbox@,
                        ),
                    |k: u128| before[k],
                ));
            }
            i = i + 1;
        }
        assert(keys.take(n as int) =~= keys);
        self.messages = kept;
        assert(self.entries() =~= Map::new(
            |id: u128| before.contains_key(id) && !in_mailbox(before[id], username@, mailbox@),
            |id: u128| before[id],
        ));
        Ok(())
    }

    /// The path of the message `id`.
    pub fn get_message_path(&self, id: MessageId) -> (r: Option<String>)
        requires
            self.wf(),
        ensures
            match r {
                Some(p) => self.entries().contains_key(id.0) && p@ == self.entries()[id.0].path,
                None => !self.entries().contains_key(id.0),
            },
    {
        match self.messages.get(&id.0) {
            Some(e) => Some(e.path.clone()),
            None => None,
        }
    }

    /// The metadata of the message `id`.
    pub fn get_message_metadata(&self, id: MessageId) -> (r: Option<IndexedMessage>)
        requires
            self.wf(),
        ensures
            match r {
                Some(m) => self.entries().contains_key(id.0) && m@ == self.entries()[id.0].message,
                None => !self.entries().contains_key(id.0),
            },
    {
        match self.messages.get(&id.0) {
            Some(e) => Some(e.metadata.duplicate()),
            None => None,
        }
    }

    /// The paths of `username`'s messages in `mailbox` that `query` selects
    /// (all of them for `None`), in visiting order.
    fn paths_where(&self, username: &str, mailbox: &str, query: Option<&SearchQuery>) -> (r: Vec<
        String,
    >)
        requires
            self.wf(),
        ensures
            r@.len() == self.selected(username@, mailbox@, query_pred(query)).len(),
            forall|i: int|
                0 <= i < r@.len() ==> (#[trigger] r@[i])@ == self.entries()[self.selected(
                    username@,
                    mailbox@,
                    query_pred(query),
                )[i]].path,
    {
        let ghost keys = self.order();
        let ghost pred = |id: u128|
            in_mailbox(self.entries()[id], username@, mailbox@) && query_pred(query)(
                self.entries()[id].message,
            );
        let mut out: Vec<String> = Vec::new();
        let n = self.messages.size();
        let mut i: usize = 0;
        while i < n
            invariant
                self.wf(),
                keys == self.order(),
                n == keys.len(),
                i <= n,
                pred == (|id: u128|
                    in_mailbox(self.entries()[id], username@, mailbox@) && query_pred(query)(
                        self.entries()[id].message,
                    )),
                out@.len() == keys.take(i as int).filter(pred).len(),
                forall|j: int|
                    0 <= j < out@.len() ==> (#[trigger] out@[j])@ == self.entries()[keys.take(
                        i as int,
                    ).filter(pred)[j]].path,
            decreases n - i,
        {
            let e = self.messages.value_at(i);
            proof {
                assert(keys.take(i as int + 1) =~= keys.take(i as int).push(keys[i as int]));
                keys.take(i as int).lemma_filter_push(keys[i as int], pred);
                assert(self.entries()[keys[i as int]] == e@);
            }
            let wanted = entry_in_mailbox(e, username, mailbox) && match query {
                Some(q) => matches_query(&e.metadata, q),
                None => true,
            };
            if wanted {
                out.push(e.path.clone());
            }
            i = i + 1;
        }
        assert(keys.take(n as int) =~= keys);
        out
    }

    /// The paths of all of `username`'s messages in `mailbox`.
    pub fn list_message_paths(&self, username: &str, mailbox: &str) -> (r: Result<Vec<String>>)
        requires
            self.wf(),
        ensures
            r matches Ok(v) && {
                let ids = self.selected(username@, mailbox@, query_pred(None));
                &&& v@.len() == ids.len()
                &&& forall|i: int|
                    0 <= i < v@.len() ==> (#[trigger] v@[i])@ == self.entries()[ids[i]].path
            },
    {
        Ok(self.paths_where(username, mailbox, None))
    }

    /// The paths of `username`'s messages in `mailbox` that match `query`.
    pub fn search(&self, username: &str, mailbox: &str, query: &SearchQuery) -> (r: Result<
        Vec<String>,
    >)
        requires
            self.wf(),
        ensures
            r matches Ok(v) && {
                let ids = self.selected(username@, mailbox@, query_pred(Some(query)));
                &&& v@.len() == ids.len()
                &&& forall|i: int|
                    0 <= i < v@.len() ==> (#[trigger] v@[i])@ == self.entries()[ids[i]].path
            },
    {
        Ok(self.paths_where(username, mailbox, Some(query)))
    }

    /// The path of `username`'s message in `mailbox` with UID `uid`: the first
    /// such message in visiting order.
    pub fn get_message_path_by_uid(&self, username: &str, mailbox: &str, uid: Uid) -> (r: Result<
        Option<String>,
    >)
        requires
            self.wf(),
        ensures
            r matches Ok(o) && {
                let ids = self.selected(username@, mailbox@, uid_pred(uid));
                match o {
                    Some(p) => ids.len() > 0 && p@ == self.entries()[ids[0]].path,
                    None => ids.len() == 0,
                }
            },
    {
        let ghost keys = self.order();
        let ghost pred = |id: u128|
            in_mailbox(self.entries()[id], username@, mailbox@) && uid_pred(uid)(
                self.entries()[id].message,
            );
        let n = self.messages.size();
        let mut i: usize = 0;
        while i < n
            invariant
                self.wf(),
                keys == self.order(),
                n == keys.len(),
                i <= n,
                pred == (|id: u128|
                    in_mailbox(self.entries()[id], username@, mailbox@) && uid_pred(uid)(
                        self.entries()[id].message,
                    )),
                keys.take(i as int).filter(pred).len() == 0,
            decreases n - i,
        {
            let e = self.messages.value_at(i);
            proof {
                assert(keys.take(i as int + 1) =~= keys.take(i as int).push(keys[i as int]));
                keys.take(i as int).lemma_filter_push(keys[i as int], pred);
                assert(self.entries()[keys[i as int]] == e@);
            }
            if entry_in_mailbox(e, username, mailbox) && e.metadata.uid == uid {
                proof {
                    assert(keys.take(i as int + 1).filter(pred) =~= seq![keys[i as int]]);
                    lemma_filter_prefix(keys, pred, i as int + 1);
                    assert(self.selected(username@, mailbox@, uid_pred(uid)) == keys.filter(pred));
                    assert(keys.take(i as int + 1).filter(pred)[0] == keys[i as int]);
                    assert(keys.filter(pred)[0] == keys[i as int]);
                }
                return Ok(Some(e.path.clone()));
            }
            i = i + 1;
        }
        assert(keys.take(n as int) =~= keys);
        Ok(None)
    }
}

/// The key under which the index remembers a message file: `user/mailbox/id`.
pub open spec fn unique_key(username: Seq<char>, mailbox: Seq<char>, unique_id: Seq<char>) -> Seq<
    char,
> {
    username + "/"@ + mailbox + "/"@ + unique_id
}

/// The error for a message file the index does not know.
pub open spec fn unknown_file_text(key: Seq<char>) -> Seq<char> {
    "Message not found for unique_id: "@ + key
}

/// The index kept up to date from mail store events: the stored messages,
/// and for each message file the id the index gave it.
pub struct IndexState {
    backend: InMemoryBackend,
    unique_ids: KeyedMap<String, u128>,
}

impl IndexState {
    /// The stored messages.
    pub closed spec fn entries(&self) -> Map<u128, EntryView> {
        self.backend.entries()
    }

    /// The id given to each message file.
    pub closed spec fn ids(&self) -> Map<Seq<char>, u128> {
        self.unique_ids@
    }

    pub closed spec fn wf(&self) -> bool {
        self.backend.wf() && self.unique_ids.wf()
    }

    /// The backend, for lookups and searches.
    pub fn backend(&self) -> (r: &InMemoryBackend)
        requires
            self.wf(),
        ensures
            r.wf(),
            r.entries() == self.entries(),
    {
        &self.backend
    }

    /// An empty index.
    pub fn new() -> (r: Self)
        ensures
            r.wf(),
            r.entries() == Map::<u128, EntryView>::empty(),
            r.ids() == Map::<Seq<char>, u128>::empty(),
    {
        IndexState { backend: InMemoryBackend::new(), unique_ids: KeyedMap::new() }
    }

    /// The message file `user/mailbox/unique_id` appeared: the message gets
    /// the id `message_id` and the next UID of its mailbox, is indexed, and
    /// the file's unique id is mapped to `message_id`. A mailbox the
    /// registry does not know is reported and nothing changes.
    pub fn message_created(
        &mut self,
        registry: &mut MailboxRegistry,
        username: &str,
        mailbox: &str,
        unique_id: &str,
        flags: Vec<MessageFlag>,
        summary: (String, String, String, String),
        size: usize,
        internal_date: i64,
        message_id: MessageId,
    ) -> (r: Result<String>)
        requires
            old(self).wf(),
            old(registry).wf(),
            old(registry).mailboxes().contains_key((username@, mailbox@)) ==> old(
                registry,
            ).mailboxes()[(username@, mailbox@)].next_uid < u32::MAX,
        ensures
            final(self).wf(),
            final(registry).wf(),
            final(registry).next_validity() == old(registry).next_validity(),
            !old(registry).mailboxes().contains_key((username@, mailbox@)) ==> {
                &&& r matches Err(Error::MailboxNotFound(m)) && m@ == mailbox@
                &&& final(registry).mailboxes() == old(registry).mailboxes()
                &&& final(self).entries() == old(self).entries()
                &&& final(self).ids() == old(self).ids()
            },
            old(registry).mailboxes().contains_key((username@, mailbox@)) ==> {
                let info = old(registry).mailboxes()[(username@, mailbox@)];
                let uid = info.next_uid;
                &&& final(registry).mailboxes() == old(registry).mailboxes().insert(
                    (username@, mailbox@),
                    crate::mailboxes::MailboxInfoView { next_uid: (uid + 1) as u32, ..info },
                )
                &&& r matches Ok(p) && p@ == message_path(username@, mailbox@, message_id.0)
                &&& final(self).entries() == old(self).entries().insert(
                    message_id.0,
                    EntryView {
                        message: MessageView {
                            id: message_id.0,
                            uid,
                            mailbox: mailbox@,
                            flags: flag_views(flags@),
                            internal_date,
                            size,
                            from: summary.0@,
                            to: summary.1@,
                            subject: summary.2@,
                            body_preview: summary.3@,
                        },
                        path: message_path(username@, mailbox@, message_id.0),
                        username: username@,
                    },
                )
                &&& final(self).ids() == old(self).ids().insert(
                    unique_key(username@, mailbox@, unique_id@),
                    message_id.0,
                )
            },
    {
        let uid = match registry.get_next_uid(username, mailbox) {
            Ok(u) => u,
            Err(e) => {
                return Err(e);
            },
        };
        let (from, to, subject, body_preview) = summary;
        let message = IndexedMessage {
            id: message_id,
            uid,
            mailbox: mailbox.to_owned(),
            flags,
            internal_date,
            size,
            from,
            to,
            subject,
            body_preview,
        };
        let stored = self.backend.add_message(username, mailbox, message);
        let key = concat(
            concat(concat(concat(username, "/").as_str(), mailbox).as_str(), "/").as_str(),
            unique_id,
        );
        self.unique_ids.insert(key, message_id.0);
        stored
    }

    /// The message file `user/mailbox/unique_id` now records `flags`.
    pub fn message_modified(
        &mut self,
        username: &str,
        mailbox: &str,
        unique_id: &str,
        flags: Vec<MessageFlag>,
    ) -> (r: Result<()>)
        requires
            old(self).wf(),
        ensures
            final(self).wf(),
            final(self).ids() == old(self).ids(),
            ({
                let key = unique_key(username@, mailbox@, unique_id@);
                if !old(self).ids().contains_key(key) {
                    &&& r matches Err(Error::NotFound(m)) && m@ == unknown_file_text(key)
                    &&& final(self).entries() == old(self).entries()
                } else {
                    let id = old(self).ids()[key];
                    if old(self).entries().contains_key(id) {
                        let e = old(self).entries()[id];
                        &&& r is Ok
                        &&& final(self).entries() == old(self).entries().insert(
                            id,
                            EntryView {
                                message: MessageView { flags: flag_views(flags@), ..e.message },
                                ..e
                            },
                        )
                    } else {
                        &&& r matches Err(Error::NotFound(m)) && m@ == missing_message_text(id)
                        &&& final(self).entries() == old(self).entries()
                    }
                }
            }),
    {
        let key = concat(
            concat(concat(concat(username, "/").as_str(), mailbox).as_str(), "/").as_str(),
            unique_id,
        );
        let id = match self.unique_ids.get(&key) {
            Some(id) => *id,
            None => {
                return Err(Error::NotFound(concat("Message not found for unique_id: ", key.as_str())));
            },
        };
        self.backend.update_flags(MessageId(id), flags)
    }

    /// The message file `user/mailbox/unique_id` was removed: its message
    /// leaves the index.
    pub fn message_deleted(&mut self, username: &str, mailbox: &str, unique_id: &str) -> (r: Result<
        (),
    >)
        requires
            old(self).wf(),
        ensures
            final(self).wf(),
            ({
                let key = unique_key(username@, mailbox@, unique_id@);
                if !old(self).ids().contains_key(key) {
                    &&& r matches Err(Error::NotFound(m)) && m@ == unknown_file_text(key)
                    &&& final(self).entries() == old(self).entries()
                    &&& final(self).ids() == old(self).ids()
                } else {
                    let id = old(self).ids()[key];
                    &&& final(self).ids() == old(self).ids().remove(key)
                    &&& final(self).entries() == old(self).entries().remove(id)
                    &&& old(self).entries().contains_key(id) ==> r is Ok
                    &&& !old(self).entries().contains_key(id) ==> (r matches Err(Error::NotFound(m))
                        && m@ == missing_message_text(id))
                }
            }),
    {
        let key = concat(
            concat(concat(concat(username, "/").as_str(), mailbox).as_str(), "/").as_str(),
            unique_id,
        );
        let id = match self.unique_ids.remove(&key) {
            Some(id) => id,
            None => {
                return Err(Error::NotFound(concat("Message not found for unique_id: ", key.as_str())));
            },
        };
        self.backend.delete_message(MessageId(id))
    }
}

/// The selection made by an optional query: everything for `None`.
pub open spec fn query_pred(query: Option<&SearchQuery>) -> spec_fn(MessageView) -> bool {
    |m: MessageView|
        match query {
            Some(q) => query_matches(m, *q),
            None => true,
        }
}

/// The selection of messages with UID `uid`.
pub open spec fn uid_pred(uid: Uid) -> spec_fn(MessageView) -> bool {
    |m: MessageView| m.uid == uid
}

/// Each field query looks in its own field only: FROM, TO, SUBJECT and BODY
/// match a message exactly when the text occurs in its sender, its
/// recipients, its subject or its body preview respectively.
pub proof fn law_field_queries(m: MessageView, s: String)
    ensures
        query_matches(m, SearchQuery::From(s)) <==> (exists|i: int| 0 <= i && i + s@.len() <= m.from.len() && #[trigger] m.from.subrange(i, i + s@.len()) == s@),
        query_matches(m, SearchQuery::To(s)) <==> (exists|i: int| 0 <= i && i + s@.len() <= m.to.len() && #[trigger] m.to.subrange(i, i + s@.len()) == s@),
        query_matches(m, SearchQuery::Subject(s)) <==> (exists|i: int| 0 <= i && i + s@.len() <= m.subject.len() && #[trigger] m.subject.subrange(i, i + s@.len()) == s@),
        query_matches(m, SearchQuery::Body(s)) <==> (exists|i: int| 0 <= i && i + s@.len() <= m.body_preview.len() && #[trigger] m.body_preview.subrange(i, i + s@.len()) == s@),
{
    lemma_substring_at(m.from, s@);
    lemma_substring_at(m.to, s@);
    lemma_substring_at(m.subject, s@);
    lemma_substring_at(m.body_preview, s@);
}

/// The flag queries ask for a flag among the message's flags, and their
/// negated forms for its absence; UID asks for the message's UID among the
/// listed ones; ALL matches everything; AND, OR and NOT combine as in logic.
pub proof fn law_flag_and_combined_queries(
    m: MessageView,
    uids: Vec<Uid>,
    a: SearchQuery,
    b: SearchQuery,
)
    ensures
        query_matches(m, SearchQuery::All),
        query_matches(m, SearchQuery::Seen) <==> exists|i: int|
            0 <= i < m.flags.len() && m.flags[i] == FlagModel::Seen,
        query_matches(m, SearchQuery::Flagged) <==> exists|i: int|
            0 <= i < m.flags.len() && m.flags[i] == FlagModel::Flagged,
        query_matches(m, SearchQuery::Deleted) <==> exists|i: int|
            0 <= i < m.flags.len() && m.flags[i] == FlagModel::Deleted,
        query_matches(m, SearchQuery::Unseen) <==> !query_matches(m, SearchQuery::Seen),
        query_matches(m, SearchQuery::Unflagged) <==> !query_matches(m, SearchQuery::Flagged),
        query_matches(m, SearchQuery::Undeleted) <==> !query_matches(m, SearchQuery::Deleted),
        query_matches(m, SearchQuery::Uid(uids)) <==> exists|i: int|
            0 <= i < uids@.len() && uids@[i] == m.uid,
        query_matches(m, SearchQuery::And(Box::new(a), Box::new(b))) <==> (query_matches(m, a)
            && query_matches(m, b)),
        query_matches(m, SearchQuery::Or(Box::new(a), Box::new(b))) <==> (query_matches(m, a)
            || query_matches(m, b)),
        query_matches(m, SearchQuery::Not(Box::new(a))) <==> !query_matches(m, a),
{
}

/// TEXT searches all four texts of a message: a message matches `TEXT s`
/// exactly when `s` occurs in its sender, its recipients, its subject or its
/// body preview, that is, exactly when it matches FROM, TO, SUBJECT or BODY
/// with `s`.
pub proof fn law_text_searches_every_field(m: MessageView, s: String)
    ensures
        query_matches(m, SearchQuery::Text(s)) <==> (
            (exists|i: int| 0 <= i && i + s@.len() <= m.from.len() && #[trigger] m.from.subrange(i, i + s@.len()) == s@)
            || (exists|i: int| 0 <= i && i + s@.len() <= m.to.len() && #[trigger] m.to.subrange(i, i + s@.len()) == s@)
            || (exists|i: int| 0 <= i && i + s@.len() <= m.subject.len() && #[trigger] m.subject.subrange(i, i + s@.len()) == s@)
            || (exists|i: int| 0 <= i && i + s@.len() <= m.body_preview.len() && #[trigger] m.body_preview.subrange(i, i + s@.len()) == s@)
        ),
        query_matches(m, SearchQuery::Text(s)) <==> (query_matches(m, SearchQuery::From(s))
            || query_matches(m, SearchQuery::To(s)) || query_matches(m, SearchQuery::Subject(s))
            || query_matches(m, SearchQuery::Body(s))),
{
    lemma_substring_at(m.from, s@);
    lemma_substring_at(m.to, s@);
    lemma_substring_at(m.subject, s@);
    lemma_substring_at(m.body_preview, s@);
}

proof fn lemma_substring_at(t: Seq<char>, p: Seq<char>)
    ensures
        has_substring(t, p) <==> exists|i: int|
            0 <= i && i + p.len() <= t.len() && #[trigger] t.subrange(i, i + p.len()) == p,
{
    if has_substring(t, p) {
        let i = choose|i: int| occurs_at(t, p, i);
        assert(t.subrange(i, i + p.len()) == p);
    }
    if exists|i: int| 0 <= i && i + p.len() <= t.len() && #[trigger] t.subrange(i, i + p.len()) == p {
        let i = choose|i: int| 0 <= i && i + p.len() <= t.len() && #[trigger] t.subrange(i, i + p.len()) == p;
        assert(occurs_at(t, p, i));
    }
}

/// A message file created and then deleted leaves the index as it was: the
/// creation maps the file's unique id to the new message's id and stores the
/// message; the deletion finds that id under the same unique id and takes
/// out both.
pub proof fn law_delete_undoes_create(
    before: IndexState,
    username: Seq<char>,
    mailbox: Seq<char>,
    unique_id: Seq<char>,
    id: u128,
    entry: EntryView,
)
    requires
        !before.ids().contains_key(unique_key(username, mailbox, unique_id)),
        !before.entries().contains_key(id),
    ensures
        ({
            let key = unique_key(username, mailbox, unique_id);
            let ids = before.ids().insert(key, id);
            let entries = before.entries().insert(id, entry);
            &&& ids.contains_key(key)
            &&& ids[key] == id
            &&& entries.contains_key(id)
            &&& ids.remove(key) == before.ids()
            &&& entries.remove(id) == before.entries()
        }),
{
    let key = unique_key(username, mailbox, unique_id);
    assert(before.ids().insert(key, id).remove(key) =~= before.ids());
    assert(before.entries().insert(id, entry).remove(id) =~= before.entries());
}

/// A search finds each of the user's messages in the mailbox that match the
/// query, once, and nothing else.
pub proof fn law_search_finds_matches(
    b: InMemoryBackend,
    username: Seq<char>,
    mailbox: Seq<char>,
    query: SearchQuery,
)
    requires
        b.wf(),
    ensures
        b.selected(username, mailbox, query_pred(Some(&query))).no_duplicates(),
        forall|id: u128| #[trigger]
            b.selected(username, mailbox, query_pred(Some(&query))).contains(id) <==> {
                &&& b.entries().contains_key(id)
                &&& in_mailbox(b.entries()[id], username, mailbox)
                &&& query_matches(b.entries()[id].message, query)
            },
{
    b.lemma_order();
    crate::keyed::lemma_filter_keeps(
        b.order(),
        |id: u128|
            in_mailbox(b.entries()[id], username, mailbox) && query_pred(Some(&query))(
                b.entries()[id].message,
            ),
    );
}

/// Searching with ALL gives the same paths as listing the mailbox.
pub proof fn law_search_all_is_listing(
    b: InMemoryBackend,
    username: Seq<char>,
    mailbox: Seq<char>,
    query: SearchQuery,
)
    requires
        query is All,
    ensures
        b.selected(username, mailbox, query_pred(Some(&query))) == b.selected(
            username,
            mailbox,
            query_pred(None),
        ),
{
    let p1 = |id: u128|
        in_mailbox(b.entries()[id], username, mailbox) && query_pred(Some(&query))(
            b.entries()[id].message,
        );
    let p2 = |id: u128|
        in_mailbox(b.entries()[id], username, mailbox) && query_pred(None)(
            b.entries()[id].message,
        );
    assert(p1 =~= p2);
}

/// An added message is found at the path `add_message` returned, with the
/// metadata it was added with; a deleted one is not found.
pub proof fn law_lookup_after_change(
    before: Map<u128, EntryView>,
    username: Seq<char>,
    mailbox: Seq<char>,
    message: MessageView,
)
    ensures
        ({
            let after = before.insert(
                message.id,
                EntryView {
                    message,
                    path: message_path(username, mailbox, message.id),
                    username,
                },
            );
            &&& after.contains_key(message.id)
            &&& after[message.id].path == message_path(username, mailbox, message.id)
            &&& after[message.id].message == message
        }),
        !before.remove(message.id).contains_key(message.id),
{
}

/// Filtering a prefix keeps a prefix of the filtered whole.
proof fn lemma_filter_prefix(s: Seq<u128>, pred: spec_fn(u128) -> bool, k: int)
    requires
        0 <= k <= s.len(),
    ensures
        s.filter(pred).len() >= s.take(k).filter(pred).len(),
        forall|j: int|
            0 <= j < s.take(k).filter(pred).len() ==> s.filter(pred)[j] == #[trigger] s.take(
                k,
            ).filter(pred)[j],
    decreases s.len() - k,
{
    if k < s.len() {
        lemma_filter_prefix(s, pred, k + 1);
        assert(s.take(k + 1) =~= s.take(k).push(s[k]));
        s.take(k).lemma_filter_push(s[k], pred);
        assert forall|j: int|
            0 <= j < s.take(k).filter(pred).len() implies s.filter(pred)[j] == #[trigger] s.take(
            k,
        ).filter(pred)[j] by {
            assert(s.take(k + 1).filter(pred)[j] == s.take(k).filter(pred)[j]);
        }
    } else {
        assert(s.take(k) =~= s);
    }
}

} // verus!
