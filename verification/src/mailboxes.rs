//! The mailbox registry: the state shared by all sessions for each mailbox
//! (UID validity, next UID, root path, message counts), keyed by owner and
//! name.
//!
//! The registry hands out UID validity values from a counter and UIDs from a
//! per-mailbox counter, so that values are never handed out twice.

use vstd::prelude::*;
use vstd::string::*;

use crate::error::{Error, Result};
use crate::keyed::KeyedMap;
use crate::text::{
    concat, ends_with, ends_with_str, eq_ignore_ascii_case, eq_ignore_ascii_case_str, same_text,
    starts_with, starts_with_str,
};
use crate::types::{MailboxId, Uid};

verus! {

/// Mailbox information stored in the registry.
#[derive(Debug, Clone)]
pub struct MailboxInfo {
    pub id: MailboxId,
    pub uid_validity: u32,
    pub next_uid: Uid,
    pub root_path: String,
    pub message_count: u32,
    pub unseen_count: u32,
    pub recent_count: u32,
}

/// A mailbox's information with its texts taken by their views.
pub struct MailboxInfoView {
    pub username: Seq<char>,
    pub name: Seq<char>,
    pub uid_validity: u32,
    pub next_uid: u32,
    pub root_path: Seq<char>,
    pub message_count: u32,
    pub unseen_count: u32,
    pub recent_count: u32,
}

impl View for MailboxInfo {
    type V = MailboxInfoView;

    open spec fn view(&self) -> MailboxInfoView {
        MailboxInfoView {
            username: self.id.username@,
            name: self.id.name@,
            uid_validity: self.uid_validity,
            next_uid: self.next_uid,
            root_path: self.root_path@,
            message_count: self.message_count,
            unseen_count: self.unseen_count,
            recent_count: self.recent_count,
        }
    }
}

impl MailboxInfo {
    /// A copy of this information.
    pub fn duplicate(&self) -> (r: MailboxInfo)
        ensures
            r@ == self@,
    {
        MailboxInfo {
            id: self.id.duplicate(),
            uid_validity: self.uid_validity,
            next_uid: self.next_uid,
            root_path: self.root_path.clone(),
            message_count: self.message_count,
            unseen_count: self.unseen_count,
            recent_count: self.recent_count,
        }
    }
}

/// Which of a user's mailboxes a listing returns.
#[derive(Debug, Clone, PartialEq, Eq)]
pub enum MailboxFilter {
    /// Every mailbox.
    All,
    /// The mailbox with exactly this name (INBOX in any letter case).
    Exact(String),
    /// The mailboxes whose names start with this text.
    Prefix(String),
    /// The mailboxes whose names end with this text.
    Suffix(String),
    /// The mailboxes whose names this regular expression matches.
    Regex(String),
}

/// A filter with its text taken by its view.
pub enum FilterView {
    All,
    Exact(Seq<char>),
    Prefix(Seq<char>),
    Suffix(Seq<char>),
    Regex(Seq<char>),
}

impl View for MailboxFilter {
    type V = FilterView;

    open spec fn view(&self) -> FilterView {
        match *self {
            MailboxFilter::All => FilterView::All,
            MailboxFilter::Exact(p) => FilterView::Exact(p@),
            MailboxFilter::Prefix(p) => FilterView::Prefix(p@),
            MailboxFilter::Suffix(p) => FilterView::Suffix(p@),
            MailboxFilter::Regex(p) => FilterView::Regex(p@),
        }
    }
}

/// Whether `pattern` compiles as a regular expression (`regex::Regex::new`
/// succeeds with the default size limit).
pub uninterp spec fn regex_compiles(pattern: Seq<char>) -> bool;

/// Whether the regular expression `pattern` matches somewhere in `haystack`.
pub uninterp spec fn regex_is_match(pattern: Seq<char>, haystack: Seq<char>) -> bool;

#[verifier::external_type_specification]
#[verifier::external_body]
pub struct ExRegex(regex::Regex);

/// Compiles `pattern` with `regex::Regex::new`. The result is present exactly
/// when the pattern compiles.
#[verifier::external_body]
fn compile_regex(pattern: &str) -> (r: Option<regex::Regex>)
    ensures
        r.is_some() == regex_compiles(pattern@),
{
    regex::Regex::new(pattern).ok()
}

/// A compiled regular expression with the pattern it was compiled from. Only
/// `CompiledRegex::compile` builds one.
struct CompiledRegex {
    pattern: String,
    re: regex::Regex,
}

/// `regex::Regex::is_match`: whether the regular expression matches somewhere
/// in `haystack`. It is claimed that the answer is that of the pattern the
/// expression was compiled from.
#[verifier::external_body]
fn regex_matches(compiled: &CompiledRegex, haystack: &str) -> (r: bool)
    ensures
        r == regex_is_match(compiled.pattern@, haystack@),
{
    compiled.re.is_match(haystack)
}

impl CompiledRegex {
    fn compile(pattern: &str) -> (r: Option<CompiledRegex>)
        ensures
            r.is_some() == regex_compiles(pattern@),
            r matches Some(c) ==> c.pattern@ == pattern@,
    {
        match compile_regex(pattern) {
            Some(re) => Some(CompiledRegex { pattern: pattern.to_owned(), re }),
            None => None,
        }
    }
}

/// Whether a mailbox called `name` passes `filter`.
pub open spec fn filter_accepts(filter: FilterView, name: Seq<char>) -> bool {
    match filter {
        FilterView::All => true,
        FilterView::Exact(p) => (eq_ignore_ascii_case(name, "INBOX"@) && eq_ignore_ascii_case(
            p,
            "INBOX"@,
        )) || name == p,
        FilterView::Prefix(p) => starts_with(name, p),
        FilterView::Suffix(p) => ends_with(name, p),
        FilterView::Regex(p) => regex_is_match(p, name),
    }
}

/// Whether the filter can be applied at all: a regular expression must compile.
pub open spec fn filter_usable(filter: FilterView) -> bool {
    match filter {
        FilterView::Regex(p) => regex_compiles(p),
        _ => true,
    }
}

fn accepts(filter: &MailboxFilter, compiled: &Option<CompiledRegex>, name: &str) -> (r: bool)
    requires
        filter matches MailboxFilter::Regex(p) ==> (compiled matches Some(c) && c.pattern@ == p@),
    ensures
        r == filter_accepts(filter@, name@),
{
    match filter {
        MailboxFilter::All => true,
        MailboxFilter::Exact(p) => {
            if eq_ignore_ascii_case_str(name, "INBOX") && eq_ignore_ascii_case_str(p.as_str(), "INBOX") {
                true
            } else {
                same_text(name, p.as_str())
            }
        },
        MailboxFilter::Prefix(p) => starts_with_str(name, p.as_str()),
        MailboxFilter::Suffix(p) => ends_with_str(name, p.as_str()),
        MailboxFilter::Regex(_) => match compiled {
            Some(c) => regex_matches(c, name),
            None => false,
        },
    }
}

/// Whether a mailbox key is listed for `username` under `filter`.
pub open spec fn listing_pred(username: Seq<char>, filter: FilterView) -> spec_fn(
    (Seq<char>, Seq<char>),
) -> bool {
    |k: (Seq<char>, Seq<char>)| k.0 == username && filter_accepts(filter, k.1)
}

/// The path under which a user's mailbox is stored: `username/name`.
pub open spec fn root_path_of(username: Seq<char>, name: Seq<char>) -> Seq<char> {
    username + "/"@ + name
}

/// The information of a newly created mailbox.
pub open spec fn fresh_info(username: Seq<char>, name: Seq<char>, uid_validity: u32) -> MailboxInfoView {
    MailboxInfoView {
        username,
        name,
        uid_validity,
        next_uid: 1,
        root_path: root_path_of(username, name),
        message_count: 0,
        unseen_count: 0,
        recent_count: 0,
    }
}

/// The registry of all users' mailboxes.
pub struct MailboxRegistry {
    table: KeyedMap<(String, String), MailboxInfo>,
    next_uid_validity: u32,
}

impl Default for MailboxRegistry {
    fn default() -> (r: Self)
        ensures
            r.wf(),
            r.mailboxes() == Map::<(Seq<char>, Seq<char>), MailboxInfoView>::empty(),
            r.next_validity() == 1,
    {
        MailboxRegistry::new()
    }
}

impl MailboxRegistry {
    /// The information of each mailbox, keyed by (owner, name).
    pub closed spec fn mailboxes(&self) -> Map<(Seq<char>, Seq<char>), MailboxInfoView> {
        self.table@.map_values(|i: MailboxInfo| i@)
    }

    /// The keys in the order in which listings report them.
    pub closed spec fn keys(&self) -> Seq<(Seq<char>, Seq<char>)> {
        self.table.key_seq()
    }

    /// The UID validity the next created mailbox receives.
    pub closed spec fn next_validity(&self) -> u32 {
        self.next_uid_validity
    }

    /// Well formed: each mailbox is stored under its own (owner, name), the
    /// keys in listing order are exactly the mailboxes' keys, and the UID
    /// validity counter has started.
    pub closed spec fn wf(&self) -> bool {
        &&& self.table.wf()
        &&& self.next_uid_validity >= 1
        &&& forall|k: (Seq<char>, Seq<char>)| #[trigger]
            self.table@.contains_key(k) ==> self.table@[k].id@ == k
    }

    /// The keys in listing order are distinct and are the mailboxes' keys.
    pub proof fn lemma_keys(&self)
        requires
            self.wf(),
        ensures
            self.keys().no_duplicates(),
            forall|k: (Seq<char>, Seq<char>)| #[trigger]
                self.mailboxes().contains_key(k) <==> self.keys().contains(k),
    {
        self.table.lemma_key_seq();
    }

    /// Mailboxes listed for `username` under `filter`, in listing order.
    pub open spec fn listed(&self, username: Seq<char>, filter: FilterView) -> Seq<
        (Seq<char>, Seq<char>),
    > {
        self.keys().filter(listing_pred(username, filter))
    }

    /// An empty registry; UID validity values start at 1.
    pub fn new() -> (r: Self)
        ensures
            r.wf(),
            r.mailboxes() == Map::<(Seq<char>, Seq<char>), MailboxInfoView>::empty(),
            r.next_validity() == 1,
    {
        let r = MailboxRegistry { table: KeyedMap::new(), next_uid_validity: 1 };
        assert(r.mailboxes() =~= Map::<(Seq<char>, Seq<char>), MailboxInfoView>::empty());
        r
    }

    /// The UID validity the next created mailbox receives.
    pub fn next_uid_validity(&self) -> (r: u32)
        ensures
            r == self.next_validity(),
    {
        self.next_uid_validity
    }

    /// Creates a mailbox for `username` called `name`, with the next UID
    /// validity value, UIDs starting at 1, root path `username/name` and no
    /// messages. An existing mailbox of that name is refused.
    pub fn create_mailbox(&mut self, username: &str, name: &str) -> (r: Result<MailboxInfo>)
        requires
            old(self).wf(),
            old(self).next_validity() < u32::MAX,
        ensures
            final(self).wf(),
            old(self).mailboxes().contains_key((username@, name@)) ==> {
                &&& r matches Err(Error::MailboxExists(m)) && m@ == name@
                &&& final(self).mailboxes() == old(self).mailboxes()
                &&& final(self).next_validity() == old(self).next_validity()
            },
            !old(self).mailboxes().contains_key((username@, name@)) ==> {
                &&& r matches Ok(info) && info@ == fresh_info(
                    username@,
                    name@,
                    old(self).next_validity(),
                )
                &&& final(self).mailboxes() == old(self).mailboxes().insert(
                    (username@, name@),
                    fresh_info(username@, name@, old(self).next_validity()),
                )
                &&& final(self).next_validity() == old(self).next_validity() + 1
            },
    {
        let key = (username.to_owned(), name.to_owned());
        if self.table.contains_key(&key) {
            return Err(Error::MailboxExists(name.to_owned()));
        }
        let ghost old_self = *self;
        let uid_validity = self.next_uid_validity;
        self.next_uid_validity = uid_validity + 1;
        let root = concat(concat(username, "/").as_str(), name);
        let info = MailboxInfo {
            id: MailboxId { username: username.to_owned(), name: name.to_owned() },
            uid_validity,
            next_uid: 1,
            root_path: root,
            message_count: 0,
            unseen_count: 0,
            recent_count: 0,
        };
        let reply = info.duplicate();
        self.table.insert(key, info);
        assert(self.mailboxes() =~= old_self.mailboxes().insert(
            (username@, name@),
            fresh_info(username@, name@, uid_validity),
        ));
        Ok(reply)
    }

    /// The information of `username`'s mailbox `name`, if there is one.
    pub fn get_mailbox(&self, username: &str, name: &str) -> (r: Option<MailboxInfo>)
        requires
            self.wf(),
        ensures
            match r {
                Some(info) => self.mailboxes().contains_key((username@, name@)) && info@
                    == self.mailboxes()[(username@, name@)],
                None => !self.mailboxes().contains_key((username@, name@)),
            },
    {
        let key = (username.to_owned(), name.to_owned());
        match self.table.get(&key) {
            Some(info) => Some(info.duplicate()),
            None => None,
        }
    }

    /// Deletes `username`'s mailbox `name`.
    pub fn delete_mailbox(&mut self, username: &str, name: &str) -> (r: Result<()>)
        requires
            old(self).wf(),
        ensures
            final(self).wf(),
            final(self).next_validity() == old(self).next_validity(),
            final(self).mailboxes() == old(self).mailboxes().remove((username@, name@)),
            old(self).mailboxes().contains_key((username@, name@)) ==> r is Ok,
            !old(self).mailboxes().contains_key((username@, name@)) ==> (r matches Err(
                Error::MailboxNotFound(m),
            ) && m@ == name@),
    {
        let ghost old_self = *self;
        let key = (username.to_owned(), name.to_owned());
        match self.table.remove(&key) {
            Some(_) => {
                assert(self.mailboxes() =~= old_self.mailboxes().remove((username@, name@)));
                Ok(())
            },
            None => {
                assert(self.mailboxes() =~= old_self.mailboxes().remove((username@, name@)));
                Err(Error::MailboxNotFound(name.to_owned()))
            },
        }
    }

    /// Hands out the next UID of `username`'s mailbox `name` and advances
    /// its counter by one.
    pub fn get_next_uid(&mut self, username: &str, name: &str) -> (r: Result<Uid>)
        requires
            old(self).wf(),
            old(self).mailboxes().contains_key((username@, name@)) ==> old(self).mailboxes()[(
            username@,
            name@,
            )].next_uid < u32::MAX,
        ensures
            final(self).wf(),
            final(self).next_validity() == old(self).next_validity(),
            old(self).mailboxes().contains_key((username@, name@)) ==> {
                let old_info = old(self).mailboxes()[(username@, name@)];
                &&& r == Ok::<Uid, Error>(old_info.next_uid)
                &&& final(self).mailboxes() == old(self).mailboxes().insert(
                    (username@, name@),
                    MailboxInfoView { next_uid: (old_info.next_uid + 1) as u32, ..old_info },
                )
            },
            !old(self).mailboxes().contains_key((username@, name@)) ==> {
                &&& r matches Err(Error::MailboxNotFound(m)) && m@ == name@
                &&& final(self).mailboxes() == old(self).mailboxes()
            },
    {
        let ghost old_self = *self;
        let key = (username.to_owned(), name.to_owned());
        match self.table.get(&key) {
            Some(info) => {
                let uid = info.next_uid;
                let mut updated = info.duplicate();
                updated.next_uid = uid + 1;
                self.table.insert(key, updated);
                assert(self.mailboxes() =~= old_self.mailboxes().insert(
                    (username@, name@),
                    MailboxInfoView { next_uid: (uid + 1) as u32, ..old_self.mailboxes()[(username@, name@)] },
                ));
                Ok(uid)
            },
            None => Err(Error::MailboxNotFound(name.to_owned())),
        }
    }

    /// Applies `change` to the information of the mailbox `id`; refused for a
    /// mailbox that does not exist.
    fn update_info(&mut self, id: &MailboxId, change: InfoChange) -> (r: Result<()>)
        requires
            old(self).wf(),
        ensures
            final(self).wf(),
            final(self).next_validity() == old(self).next_validity(),
            old(self).mailboxes().contains_key(id@) ==> {
                &&& r is Ok
                &&& final(self).mailboxes() == old(self).mailboxes().insert(
                    id@,
                    updated_info(old(self).mailboxes()[id@], change),
                )
            },
            !old(self).mailboxes().contains_key(id@) ==> {
                &&& r matches Err(Error::MailboxNotFound(m)) && m@ == id.name@
                &&& final(self).mailboxes() == old(self).mailboxes()
            },
    {
        let ghost old_self = *self;
        let key = (id.username.clone(), id.name.clone());
        match self.table.get(&key) {
            Some(info) => {
                let mut updated = info.duplicate();
                match change {
                    InfoChange::NextUid(a) => {
                        updated.next_uid = a;
                    },
                    InfoChange::UidValidity(a) => {
                        updated.uid_validity = a;
                    },
                    InfoChange::Counts(a, b, c) => {
                        updated.message_count = a;
                        updated.unseen_count = b;
                        updated.recent_count = c;
                    },
                }
                self.table.insert(key, updated);
                assert(self.mailboxes() =~= old_self.mailboxes().insert(
                    id@,
                    updated_info(old_self.mailboxes()[id@], change),
                ));
                Ok(())
            },
            None => Err(Error::MailboxNotFound(id.name.clone())),
        }
    }

    /// Sets the next UID of the mailbox `id`.
    pub fn update_next_uid(&mut self, id: &MailboxId, next_uid: Uid) -> (r: Result<()>)
        requires
            old(self).wf(),
        ensures
            final(self).wf(),
            final(self).next_validity() == old(self).next_validity(),
            old(self).mailboxes().contains_key(id@) ==> {
                &&& r is Ok
                &&& final(self).mailboxes() == old(self).mailboxes().insert(
                    id@,
                    MailboxInfoView { next_uid, ..old(self).mailboxes()[id@] },
                )
            },
            !old(self).mailboxes().contains_key(id@) ==> {
                &&& r matches Err(Error::MailboxNotFound(m)) && m@ == id.name@
                &&& final(self).mailboxes() == old(self).mailboxes()
            },
    {
        self.update_info(id, InfoChange::NextUid(next_uid))
    }

    /// Sets the UID validity of the mailbox `id`.
    pub fn update_uid_validity(&mut self, id: &MailboxId, uid_validity: u32) -> (r: Result<()>)
        requires
            old(self).wf(),
        ensures
            final(self).wf(),
            final(self).next_validity() == old(self).next_validity(),
            old(self).mailboxes().contains_key(id@) ==> {
                &&& r is Ok
                &&& final(self).mailboxes() == old(self).mailboxes().insert(
                    id@,
                    MailboxInfoView { uid_validity, ..old(self).mailboxes()[id@] },
                )
            },
            !old(self).mailboxes().contains_key(id@) ==> {
                &&& r matches Err(Error::MailboxNotFound(m)) && m@ == id.name@
                &&& final(self).mailboxes() == old(self).mailboxes()
            },
    {
        self.update_info(id, InfoChange::UidValidity(uid_validity))
    }

    /// Sets the message, unseen and recent counts of the mailbox `id`.
    pub fn update_counts(
        &mut self,
        id: &MailboxId,
        message_count: u32,
        unseen_count: u32,
        recent_count: u32,
    ) -> (r: Result<()>)
        requires
            old(self).wf(),
        ensures
            final(self).wf(),
            final(self).next_validity() == old(self).next_validity(),
            old(self).mailboxes().contains_key(id@) ==> {
                &&& r is Ok
                &&& final(self).mailboxes() == old(self).mailboxes().insert(
                    id@,
                    MailboxInfoView {
                        message_count,
                        unseen_count,
                        recent_count,
                        ..old(self).mailboxes()[id@]
                    },
                )
            },
            !old(self).mailboxes().contains_key(id@) ==> {
                &&& r matches Err(Error::MailboxNotFound(m)) && m@ == id.name@
                &&& final(self).mailboxes() == old(self).mailboxes()
            },
    {
        self.update_info(id, InfoChange::Counts(message_count, unseen_count, recent_count))
    }

    /// The mailboxes of `username` that pass `filter`, in listing order. A
    /// regular expression that does not compile lists nothing.
    pub fn list_mailboxes(&self, username: &str, filter: &MailboxFilter) -> (r: Result<Vec<MailboxInfo>>)
        requires
            self.wf(),
        ensures
            r matches Ok(v) && {
                &&& !filter_usable(filter@) ==> v@.len() == 0
                &&& filter_usable(filter@) ==> {
                    &&& v@.len() == self.listed(username@, filter@).len()
                    &&& forall|i: int|
                        0 <= i < v@.len() ==> #[trigger] v@[i]@ == self.mailboxes()[self.listed(
                            username@,
                            filter@,
                        )[i]] && v@[i]@.name == self.listed(username@, filter@)[i].1
                }
            },
    {
        let compiled = match filter {
            MailboxFilter::Regex(p) => {
                let c = CompiledRegex::compile(p.as_str());
                if c.is_none() {
                    return Ok(Vec::new());
                }
                c
            },
            _ => None,
        };
        let ghost pred = listing_pred(username@, filter@);
        let ghost keys = self.keys();
        let mut out: Vec<MailboxInfo> = Vec::new();
        let n = self.table.size();
        let mut i: usize = 0;
        while i < n
            invariant
                self.wf(),
                n == keys.len(),
                keys == self.keys(),
                i <= n,
                pred == listing_pred(username@, filter@),
                filter matches MailboxFilter::Regex(p) ==> (compiled matches Some(c) && c.pattern@ == p@),
                out@.len() == keys.take(i as int).filter(pred).len(),
                forall|j: int|
                    0 <= j < out@.len() ==> #[trigger] out@[j]@ == self.mailboxes()[keys.take(
                        i as int,
                    ).filter(pred)[j]] && out@[j]@.name == keys.take(i as int).filter(pred)[j].1,
            decreases n - i,
        {
            let k = self.table.key_at(i);
            let info = self.table.value_at(i);
            assert(info@ == self.mailboxes()[keys[i as int]]);
            assert(info.id@ == keys[i as int]);
            proof {
                assert(keys.take(i as int + 1) =~= keys.take(i as int).push(keys[i as int]));
                keys.take(i as int).lemma_filter_push(keys[i as int], pred);
            }
            let owner_matches = same_text(k.0.as_str(), username);
            if owner_matches && accepts(filter, &compiled, k.1.as_str()) {
                out.push(info.duplicate());
            }
            i = i + 1;
        }
        proof {
            assert(keys.take(n as int) =~= keys);
        }
        Ok(out)
    }
}

/// Listing with the filter that accepts everything gives each of the user's
/// mailboxes exactly once, and no other.
pub proof fn law_list_all(r: MailboxRegistry, username: Seq<char>)
    requires
        r.wf(),
    ensures
        r.listed(username, FilterView::All).no_duplicates(),
        forall|k: (Seq<char>, Seq<char>)| #[trigger]
            r.listed(username, FilterView::All).contains(k) <==> (r.mailboxes().contains_key(k)
                && k.0 == username),
{
    r.lemma_keys();
    let pred = listing_pred(username, FilterView::All);
    crate::keyed::lemma_filter_keeps(r.keys(), pred);
    assert(r.listed(username, FilterView::All) == r.keys().filter(pred));
    assert forall|k: (Seq<char>, Seq<char>)| #[trigger]
        r.listed(username, FilterView::All).contains(k) <==> (r.mailboxes().contains_key(k) && k.0
            == username) by {
        assert(r.keys().filter(pred).contains(k) <==> (r.keys().contains(k) && pred(k)));
        assert(r.mailboxes().contains_key(k) <==> r.keys().contains(k));
    }
}

/// Listing by an exact name that is not INBOX finds that mailbox of the
/// user, if it exists, and nothing else.
pub proof fn law_list_exact(r: MailboxRegistry, username: Seq<char>, name: Seq<char>)
    requires
        r.wf(),
        !eq_ignore_ascii_case(name, "INBOX"@),
    ensures
        forall|k: (Seq<char>, Seq<char>)| #[trigger]
            r.listed(username, FilterView::Exact(name)).contains(k) <==> (
            r.mailboxes().contains_key(k) && k == (username, name)),
{
    r.lemma_keys();
    let pred = listing_pred(username, FilterView::Exact(name));
    crate::keyed::lemma_filter_keeps(r.keys(), pred);
    assert(r.listed(username, FilterView::Exact(name)) == r.keys().filter(pred));
    assert forall|k: (Seq<char>, Seq<char>)| #[trigger]
        r.listed(username, FilterView::Exact(name)).contains(k) <==> (r.mailboxes().contains_key(
            k,
        ) && k == (username, name)) by {
        assert(r.keys().filter(pred).contains(k) <==> (r.keys().contains(k) && pred(k)));
        assert(r.mailboxes().contains_key(k) <==> r.keys().contains(k));
        assert(pred(k) <==> k == (username, name));
    }
}

/// Listing by a prefix finds exactly the user's mailboxes whose names begin
/// with that prefix; a mailbox named exactly the prefix is among them.
pub proof fn law_list_prefix(r: MailboxRegistry, username: Seq<char>, prefix: Seq<char>)
    requires
        r.wf(),
    ensures
        forall|k: (Seq<char>, Seq<char>)| #[trigger]
            r.listed(username, FilterView::Prefix(prefix)).contains(k) <==> (
            r.mailboxes().contains_key(k) && k.0 == username && prefix.len() <= k.1.len() && (
            forall|i: int| 0 <= i < prefix.len() ==> k.1[i] == prefix[i])),
        r.mailboxes().contains_key((username, prefix)) ==> r.listed(
            username,
            FilterView::Prefix(prefix),
        ).contains((username, prefix)),
{
    r.lemma_keys();
    let pred = listing_pred(username, FilterView::Prefix(prefix));
    crate::keyed::lemma_filter_keeps(r.keys(), pred);
    assert(r.listed(username, FilterView::Prefix(prefix)) == r.keys().filter(pred));
    assert forall|k: (Seq<char>, Seq<char>)| #[trigger]
        r.listed(username, FilterView::Prefix(prefix)).contains(k) <==> (
        r.mailboxes().contains_key(k) && k.0 == username && prefix.len() <= k.1.len() && (
        forall|i: int| 0 <= i < prefix.len() ==> k.1[i] == prefix[i])) by {
        assert(r.keys().filter(pred).contains(k) <==> (r.keys().contains(k) && pred(k)));
        assert(r.mailboxes().contains_key(k) <==> r.keys().contains(k));
        if prefix.len() <= k.1.len() {
            if forall|i: int| 0 <= i < prefix.len() ==> k.1[i] == prefix[i] {
                assert(k.1.subrange(0, prefix.len() as int) =~= prefix);
            }
            if k.1.subrange(0, prefix.len() as int) == prefix {
                assert forall|i: int| 0 <= i < prefix.len() implies k.1[i] == prefix[i] by {
                    assert(k.1.subrange(0, prefix.len() as int)[i] == k.1[i]);
                }
            }
        }
    }
    let key = (username, prefix);
    if r.mailboxes().contains_key(key) {
        assert(key.1.subrange(0, prefix.len() as int) =~= prefix);
        assert(r.listed(username, FilterView::Prefix(prefix)).contains(key));
    }
}

/// Listing by a suffix finds exactly the user's mailboxes whose names end
/// with that suffix; a mailbox named exactly the suffix is among them.
pub proof fn law_list_suffix(r: MailboxRegistry, username: Seq<char>, suffix: Seq<char>)
    requires
        r.wf(),
    ensures
        forall|k: (Seq<char>, Seq<char>)| #[trigger]
            r.listed(username, FilterView::Suffix(suffix)).contains(k) <==> (
            r.mailboxes().contains_key(k) && k.0 == username && suffix.len() <= k.1.len() && (
            forall|i: int|
                0 <= i < suffix.len() ==> k.1[k.1.len() - suffix.len() + i] == suffix[i])),
        r.mailboxes().contains_key((username, suffix)) ==> r.listed(
            username,
            FilterView::Suffix(suffix),
        ).contains((username, suffix)),
{
    r.lemma_keys();
    let pred = listing_pred(username, FilterView::Suffix(suffix));
    crate::keyed::lemma_filter_keeps(r.keys(), pred);
    assert(r.listed(username, FilterView::Suffix(suffix)) == r.keys().filter(pred));
    assert forall|k: (Seq<char>, Seq<char>)| #[trigger]
        r.listed(username, FilterView::Suffix(suffix)).contains(k) <==> (
        r.mailboxes().contains_key(k) && k.0 == username && suffix.len() <= k.1.len() && (
        forall|i: int|
            0 <= i < suffix.len() ==> k.1[k.1.len() - suffix.len() + i] == suffix[i])) by {
        assert(r.keys().filter(pred).contains(k) <==> (r.keys().contains(k) && pred(k)));
        assert(r.mailboxes().contains_key(k) <==> r.keys().contains(k));
        if suffix.len() <= k.1.len() {
            let t = k.1.subrange(k.1.len() - suffix.len(), k.1.len() as int);
            if forall|i: int|
                0 <= i < suffix.len() ==> k.1[k.1.len() - suffix.len() + i] == suffix[i] {
                assert(t =~= suffix);
            }
            if t == suffix {
                assert forall|i: int| 0 <= i < suffix.len() implies k.1[k.1.len() - suffix.len()
                    + i] == suffix[i] by {
                    assert(t[i] == k.1[k.1.len() - suffix.len() + i]);
                }
            }
        }
    }
    let key = (username, suffix);
    if r.mailboxes().contains_key(key) {
        assert(key.1.subrange(0, suffix.len() as int) =~= suffix);
        assert(r.listed(username, FilterView::Suffix(suffix)).contains(key));
    }
}

/// Listing INBOX in any letter case finds the user's inbox whatever its
/// letter case, besides a mailbox named exactly as asked.
pub proof fn law_list_inbox_any_case(r: MailboxRegistry, username: Seq<char>, pattern: Seq<char>)
    requires
        r.wf(),
        eq_ignore_ascii_case(pattern, "INBOX"@),
    ensures
        forall|k: (Seq<char>, Seq<char>)| #[trigger]
            r.listed(username, FilterView::Exact(pattern)).contains(k) <==> (
            r.mailboxes().contains_key(k) && k.0 == username && (eq_ignore_ascii_case(
                k.1,
                "INBOX"@,
            ) || k.1 == pattern)),
{
    r.lemma_keys();
    let pred = listing_pred(username, FilterView::Exact(pattern));
    crate::keyed::lemma_filter_keeps(r.keys(), pred);
    assert(r.listed(username, FilterView::Exact(pattern)) == r.keys().filter(pred));
    assert forall|k: (Seq<char>, Seq<char>)| #[trigger]
        r.listed(username, FilterView::Exact(pattern)).contains(k) <==> (r.mailboxes().contains_key(
            k,
        ) && k.0 == username && (eq_ignore_ascii_case(k.1, "INBOX"@) || k.1 == pattern)) by {
        assert(r.keys().filter(pred).contains(k) <==> (r.keys().contains(k) && pred(k)));
        assert(r.mailboxes().contains_key(k) <==> r.keys().contains(k));
    }
}

/// UIDs handed out for a mailbox only grow: after a UID is handed out, the
/// next one is larger, so no UID is handed out twice.
pub proof fn law_next_uid_grows(before: MailboxInfoView, after: MailboxInfoView, uid: u32)
    requires
        uid == before.next_uid,
        before.next_uid < u32::MAX,
        after == (MailboxInfoView { next_uid: (before.next_uid + 1) as u32, ..before }),
    ensures
        after.next_uid > uid,
        after.uid_validity == before.uid_validity,
{
}

/// Mailboxes created one after the other get different UID validity values.
pub proof fn law_uid_validity_fresh(first: u32, second_counter: u32)
    requires
        second_counter == first + 1,
    ensures
        first != second_counter,
{
}

/// A created mailbox is found with the information it was created with,
/// and a deleted one is not found: what `create_mailbox` and
/// `delete_mailbox` leave is what `get_mailbox` reads.
pub proof fn law_lookup_after_change(
    before: Map<(Seq<char>, Seq<char>), MailboxInfoView>,
    username: Seq<char>,
    name: Seq<char>,
    uid_validity: u32,
)
    ensures
        before.insert((username, name), fresh_info(username, name, uid_validity)).contains_key(
            (username, name),
        ),
        before.insert((username, name), fresh_info(username, name, uid_validity))[(username, name)]
            == fresh_info(username, name, uid_validity),
        !before.remove((username, name)).contains_key((username, name)),
{
}

/// One of the updates of a mailbox's information.
#[derive(Clone, Copy)]
enum InfoChange {
    NextUid(u32),
    UidValidity(u32),
    Counts(u32, u32, u32),
}

/// The information after an update.
spec fn updated_info(info: MailboxInfoView, change: InfoChange) -> MailboxInfoView {
    match change {
        InfoChange::NextUid(a) => MailboxInfoView { next_uid: a, ..info },
        InfoChange::UidValidity(a) => MailboxInfoView { uid_validity: a, ..info },
        InfoChange::Counts(a, b, c) => MailboxInfoView {
            message_count: a,
            unseen_count: b,
            recent_count: c,
            ..info
        },
    }
}

} // verus!
