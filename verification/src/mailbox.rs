//! The state behind a shared mailbox handle: UID assignment and the
//! UID <-> path mapping of one mailbox.
//!
//! The handle that serialises commands to this state through a channel, and
//! the subscriptions for unsolicited notifications, live with the server.

use vstd::prelude::*;

use crate::error::{Error, Result};
use crate::keyed::KeyedMap;
use crate::text::{concat, decimal, u32_text};
use crate::types::Uid;

verus! {

/// Mailbox state snapshot (read-only).
#[derive(Debug, Clone)]
pub struct MailboxState {
    pub username: String,
    pub name: String,
    pub uid_validity: u32,
    pub uid_next: Uid,
    pub message_count: usize,
}

/// Notification sent to IDLE subscribers.
#[derive(Debug, Clone, Copy, PartialEq, Eq)]
pub enum MailboxNotification {
    /// New message arrived (UID)
    MessageAdded(Uid),
    /// Message was expunged (UID)
    MessageExpunged(Uid),
    /// Message flags changed (UID)
    FlagsChanged(Uid),
}

/// The UID bookkeeping of one mailbox: the next UID to hand out and the two
/// directions of the UID <-> path mapping.
pub struct Mailbox {
    username: String,
    name: String,
    uid_validity: u32,
    uid_next: Uid,
    uid_to_path: KeyedMap<u32, String>,
    path_to_uid: KeyedMap<String, u32>,
}

impl Mailbox {
    /// The path recorded for each UID.
    pub closed spec fn paths(&self) -> Map<u32, Seq<char>> {
        self.uid_to_path@.map_values(|p: String| p@)
    }

    /// The UID recorded for each path.
    pub closed spec fn uids(&self) -> Map<Seq<char>, u32> {
        self.path_to_uid@
    }

    /// The UID the next assignment hands out.
    pub closed spec fn next_uid(&self) -> u32 {
        self.uid_next
    }

    pub closed spec fn username_view(&self) -> Seq<char> {
        self.username@
    }

    pub closed spec fn name_view(&self) -> Seq<char> {
        self.name@
    }

    pub closed spec fn uid_validity_view(&self) -> u32 {
        self.uid_validity
    }

    /// Well formed: the maps are sound, the next UID is at least 1, and every
    /// UID that occurs in either direction is below it.
    pub closed spec fn wf(&self) -> bool {
        &&& self.uid_to_path.wf()
        &&& self.path_to_uid.wf()
        &&& self.uid_next >= 1
        &&& forall|u: u32| #[trigger] self.uid_to_path@.contains_key(u) ==> u < self.uid_next
        &&& forall|p: Seq<char>| #[trigger] self.path_to_uid@.contains_key(p) ==> self.path_to_uid@[p] < self.uid_next
    }

    /// The two directions agree: each UID's path maps back to it and each
    /// path's UID maps back to it.
    pub open spec fn consistent(&self) -> bool {
        &&& forall|u: u32| #[trigger] self.paths().contains_key(u) ==> self.uids().contains_key(self.paths()[u])
            && self.uids()[self.paths()[u]] == u
        &&& forall|p: Seq<char>| #[trigger] self.uids().contains_key(p) ==> self.paths().contains_key(self.uids()[p])
            && self.paths()[self.uids()[p]] == p
    }

    /// A fresh mailbox: no messages, UIDs start at 1.
    pub fn new(username: String, name: String, uid_validity: u32) -> (m: Self)
        ensures
            m.wf(),
            m.consistent(),
            m.paths() == Map::<u32, Seq<char>>::empty(),
            m.uids() == Map::<Seq<char>, u32>::empty(),
            m.next_uid() == 1,
            m.username_view() == username@,
            m.name_view() == name@,
            m.uid_validity_view() == uid_validity,
    {
        let m = Mailbox {
            username,
            name,
            uid_validity,
            uid_next: 1,
            uid_to_path: KeyedMap::new(),
            path_to_uid: KeyedMap::new(),
        };
        assert(m.paths() =~= Map::<u32, Seq<char>>::empty());
        m
    }

    /// Assigns the next UID to a message path. A path that already has a UID
    /// is refused and nothing changes.
    pub fn assign_uid(&mut self, path: &str) -> (r: Result<Uid>)
        requires
            old(self).wf(),
            !old(self).uids().contains_key(path@) ==> old(self).next_uid() < u32::MAX,
        ensures
            final(self).wf(),
            final(self).username_view() == old(self).username_view(),
            final(self).name_view() == old(self).name_view(),
            final(self).uid_validity_view() == old(self).uid_validity_view(),
            old(self).uids().contains_key(path@) ==> {
                &&& r matches Err(Error::Internal(m)) && m@ == "Path already has UID assigned: "@
                    + path@
                &&& final(self).paths() == old(self).paths()
                &&& final(self).uids() == old(self).uids()
                &&& final(self).next_uid() == old(self).next_uid()
            },
            !old(self).uids().contains_key(path@) ==> {
                &&& r == Ok::<Uid, Error>(old(self).next_uid())
                &&& final(self).paths() == old(self).paths().insert(old(self).next_uid(), path@)
                &&& final(self).uids() == old(self).uids().insert(path@, old(self).next_uid())
                &&& final(self).next_uid() == old(self).next_uid() + 1
            },
            old(self).consistent() ==> final(self).consistent(),
    {
        let key = path.to_owned();
        if self.path_to_uid.contains_key(&key) {
            return Err(Error::Internal(concat("Path already has UID assigned: ", path)));
        }
        let ghost old_self = *self;
        let uid = self.uid_next;
        self.uid_to_path.insert(uid, path.to_owned());
        self.path_to_uid.insert(key, uid);
        self.uid_next = uid + 1;
        assert(self.paths() =~= old_self.paths().insert(uid, path@));
        proof {
            if old_self.consistent() {
                assert(!old_self.paths().contains_key(uid));
                assert forall|u: u32| #[trigger] self.paths().contains_key(u) implies self.uids().contains_key(
                    self.paths()[u],
                ) && self.uids()[self.paths()[u]] == u by {
                    if u != uid {
                        assert(old_self.paths().contains_key(u));
                        assert(old_self.uids().contains_key(old_self.paths()[u]));
                    }
                }
                assert forall|p: Seq<char>| #[trigger] self.uids().contains_key(p) implies self.paths().contains_key(
                    self.uids()[p],
                ) && self.paths()[self.uids()[p]] == p by {
                    if p != path@ {
                        assert(old_self.uids().contains_key(p));
                        assert(old_self.uids()[p] < uid);
                    }
                }
            }
        }
        Ok(uid)
    }

    /// The path of a UID.
    pub fn get_path(&self, uid: Uid) -> (r: Option<String>)
        requires
            self.wf(),
        ensures
            match r {
                Some(p) => self.paths().contains_key(uid) && p@ == self.paths()[uid],
                None => !self.paths().contains_key(uid),
            },
    {
        match self.uid_to_path.get(&uid) {
            Some(p) => Some(p.clone()),
            None => None,
        }
    }

    /// The UID of a path.
    pub fn get_uid(&self, path: &str) -> (r: Option<Uid>)
        requires
            self.wf(),
        ensures
            match r {
                Some(u) => self.uids().contains_key(path@) && u == self.uids()[path@],
                None => !self.uids().contains_key(path@),
            },
    {
        let key = path.to_owned();
        match self.path_to_uid.get(&key) {
            Some(u) => Some(*u),
            None => None,
        }
    }

    /// Removes the message with `uid` from both directions of the mapping.
    pub fn remove_message(&mut self, uid: Uid) -> (r: Result<()>)
        requires
            old(self).wf(),
        ensures
            final(self).wf(),
            final(self).username_view() == old(self).username_view(),
            final(self).name_view() == old(self).name_view(),
            final(self).uid_validity_view() == old(self).uid_validity_view(),
            final(self).next_uid() == old(self).next_uid(),
            old(self).paths().contains_key(uid) ==> {
                &&& r == Ok::<(), Error>(())
                &&& final(self).paths() == old(self).paths().remove(uid)
                &&& final(self).uids() == old(self).uids().remove(old(self).paths()[uid])
                &&& final(self).paths().len() == old(self).paths().len() - 1
            },
            !old(self).paths().contains_key(uid) ==> {
                &&& r matches Err(Error::NotFound(m)) && m@ == "UID not found: "@ + decimal(
                    uid as nat,
                )
                &&& final(self).paths() == old(self).paths()
                &&& final(self).uids() == old(self).uids()
            },
            old(self).consistent() ==> final(self).consistent(),
    {
        let ghost old_self = *self;
        proof {
            old_self.lemma_finite();
        }
        match self.uid_to_path.remove(&uid) {
            Some(path) => {
                self.path_to_uid.remove(&path);
                assert(self.paths() =~= old_self.paths().remove(uid));
                assert(self.paths().dom() =~= old_self.paths().dom().remove(uid));
                proof {
                    assert(path@ == old_self.paths()[uid]);
                    if old_self.consistent() {
                        assert forall|u: u32| #[trigger] self.paths().contains_key(u) implies self.uids().contains_key(
                            self.paths()[u],
                        ) && self.uids()[self.paths()[u]] == u by {
                            assert(old_self.paths().contains_key(u));
                            assert(old_self.uids().contains_key(old_self.paths()[u]));
                            if old_self.paths()[u] == path@ {
                                assert(old_self.uids()[path@] == uid);
                            }
                        }
                        assert forall|p: Seq<char>| #[trigger] self.uids().contains_key(p) implies self.paths().contains_key(
                            self.uids()[p],
                        ) && self.paths()[self.uids()[p]] == p by {
                            assert(old_self.uids().contains_key(p));
                            assert(old_self.paths().contains_key(old_self.uids()[p]));
                            assert(p != path@);
                            assert(old_self.uids()[p] != uid);
                        }
                        assert(self.consistent());
                    }
                }
                Ok(())
            },
            None => {
                assert(self.uid_to_path@ =~= old_self.uid_to_path@);
                let m = concat("UID not found: ", u32_text(uid).as_str());
                Err(Error::NotFound(m))
            },
        }
    }

    /// Moves the message with `uid` to `new_path` (a flag change renames the
    /// file): the UID maps to the new path, the old path no longer maps to
    /// anything, and the new path maps to `uid`.
    pub fn update_path(&mut self, uid: Uid, new_path: &str) -> (r: Result<()>)
        requires
            old(self).wf(),
        ensures
            final(self).wf(),
            final(self).username_view() == old(self).username_view(),
            final(self).name_view() == old(self).name_view(),
            final(self).uid_validity_view() == old(self).uid_validity_view(),
            final(self).next_uid() == old(self).next_uid(),
            old(self).paths().contains_key(uid) ==> {
                &&& r == Ok::<(), Error>(())
                &&& final(self).paths() == old(self).paths().insert(uid, new_path@)
                &&& final(self).uids() == old(self).uids().remove(old(self).paths()[uid]).insert(
                    new_path@,
                    uid,
                )
            },
            !old(self).paths().contains_key(uid) ==> {
                &&& r matches Err(Error::NotFound(m)) && m@ == "UID not found: "@ + decimal(
                    uid as nat,
                )
                &&& final(self).paths() == old(self).paths()
                &&& final(self).uids() == old(self).uids()
            },
            old(self).consistent() && (!old(self).uids().contains_key(new_path@) || old(
                self,
            ).uids()[new_path@] == uid) ==> final(self).consistent(),
    {
        let ghost old_self = *self;
        match self.uid_to_path.remove(&uid) {
            Some(old_path) => {
                self.path_to_uid.remove(&old_path);
                self.uid_to_path.insert(uid, new_path.to_owned());
                self.path_to_uid.insert(new_path.to_owned(), uid);
                assert(self.paths() =~= old_self.paths().insert(uid, new_path@));
                proof {
                    assert(old_path@ == old_self.paths()[uid]);
                    if old_self.consistent() && (!old_self.uids().contains_key(new_path@)
                        || old_self.uids()[new_path@] == uid) {
                        assert forall|u: u32| #[trigger] self.paths().contains_key(u) implies self.uids().contains_key(
                            self.paths()[u],
                        ) && self.uids()[self.paths()[u]] == u by {
                            if u != uid {
                                assert(old_self.paths().contains_key(u));
                                assert(old_self.uids().contains_key(old_self.paths()[u]));
                                assert(old_self.uids()[old_path@] == uid);
                                assert(old_self.paths()[u] != old_path@);
                            }
                        }
                        assert forall|p: Seq<char>| #[trigger] self.uids().contains_key(p) implies self.paths().contains_key(
                            self.uids()[p],
                        ) && self.paths()[self.uids()[p]] == p by {
                            if p != new_path@ {
                                assert(old_self.uids().contains_key(p));
                                assert(old_self.paths().contains_key(old_self.uids()[p]));
                                assert(p != old_path@);
                                assert(old_self.uids()[p] != uid);
                            }
                        }
                        assert(self.consistent());
                    }
                }
                Ok(())
            },
            None => {
                assert(self.uid_to_path@ =~= old_self.uid_to_path@);
                let m = concat("UID not found: ", u32_text(uid).as_str());
                Err(Error::NotFound(m))
            },
        }
    }

    /// The mappings of a well-formed mailbox are finite.
    pub proof fn lemma_finite(&self)
        requires
            self.wf(),
        ensures
            self.paths().dom().finite(),
            self.uids().dom().finite(),
    {
        self.uid_to_path.lemma_finite();
        self.path_to_uid.lemma_finite();
        assert(self.paths().dom() =~= self.uid_to_path@.dom());
    }

    /// A snapshot: the names, the UID validity, the next UID and the number of
    /// messages.
    pub fn get_state(&self) -> (s: MailboxState)
        requires
            self.wf(),
        ensures
            s.username@ == self.username_view(),
            s.name@ == self.name_view(),
            s.uid_validity == self.uid_validity_view(),
            s.uid_next == self.next_uid(),
            s.message_count == self.paths().len(),
    {
        assert(self.paths().dom() =~= self.uid_to_path@.dom());
        MailboxState {
            username: self.username.clone(),
            name: self.name.clone(),
            uid_validity: self.uid_validity,
            uid_next: self.uid_next,
            message_count: self.uid_to_path.len(),
        }
    }
}

/// A UID is never handed out twice: the next UID belongs to no message, and
/// no path maps to it.
pub proof fn law_next_uid_is_fresh(m: Mailbox)
    requires
        m.wf(),
    ensures
        !m.paths().contains_key(m.next_uid()),
        forall|p: Seq<char>| #[trigger] m.uids().contains_key(p) ==> m.uids()[p] != m.next_uid(),
{
}

/// What every operation keeps of a well-formed mailbox: it holds finitely
/// many messages, the next UID is at least 1, and every UID it maps, in
/// either direction, is below the next UID.
pub proof fn law_mapped_uids_below_next(m: Mailbox)
    requires
        m.wf(),
    ensures
        m.paths().dom().finite(),
        m.uids().dom().finite(),
        m.next_uid() >= 1,
        forall|u: u32| #[trigger] m.paths().contains_key(u) ==> u < m.next_uid(),
        forall|p: Seq<char>| #[trigger] m.uids().contains_key(p) ==> m.uids()[p] < m.next_uid(),
{
    m.lemma_finite();
}

/// Removing a message that was just assigned a UID gives back the mappings
/// that were there before the assignment.
pub proof fn law_remove_undoes_assign(
    paths: Map<u32, Seq<char>>,
    uids: Map<Seq<char>, u32>,
    uid: u32,
    path: Seq<char>,
)
    requires
        !paths.contains_key(uid),
        !uids.contains_key(path),
    ensures
        paths.insert(uid, path).remove(uid) == paths,
        uids.insert(path, uid).remove(paths.insert(uid, path)[uid]) == uids,
{
    assert(paths.insert(uid, path).remove(uid) =~= paths);
    assert(uids.insert(path, uid).remove(path) =~= uids);
}

/// A path given a UID is found under that UID, and the UID under the path.
pub proof fn law_assigned_uid_is_found(
    paths: Map<u32, Seq<char>>,
    uids: Map<Seq<char>, u32>,
    uid: u32,
    path: Seq<char>,
)
    ensures
        paths.insert(uid, path)[uid] == path,
        uids.insert(path, uid)[path] == uid,
{
}

} // verus!
