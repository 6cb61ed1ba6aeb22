//! Core types used throughout the IMAP server.

use vstd::prelude::*;

use crate::text::same_text;

verus! {

/// Unique identifier for a message (the 128 bits of a UUID).
#[derive(Debug, Clone, Copy, PartialEq, Eq, Hash)]
pub struct MessageId(pub u128);

/// The 128 bits of a random (version 4, RFC 4122 variant) UUID: the version
/// nibble is 4 and the two variant bits are `10`; the other bits are random.
pub open spec fn is_v4_uuid(x: u128) -> bool {
    x & 0xF000C000000000000000u128 == 0x40008000000000000000u128
}

/// A fresh random version-4 UUID, as its 128 bits (`uuid::Uuid::new_v4`).
/// Its version and variant bits are fixed; nothing else is promised of the
/// value, which is random.
#[verifier::external_body]
pub(crate) fn random_uuid() -> (r: u128)
    ensures
        is_v4_uuid(r),
{
    uuid::Uuid::new_v4().as_u128()
}

impl MessageId {
    /// A new random message id: a version-4 UUID.
    pub fn new() -> (r: Self)
        ensures
            is_v4_uuid(r.0),
    {
        MessageId(random_uuid())
    }
}

/// Unique identifier for a mailbox.
#[derive(Debug, Clone, PartialEq, Eq, Hash)]
pub struct MailboxId {
    pub username: Username,
    pub name: MailboxName,
}

impl View for MailboxId {
    type V = (Seq<char>, Seq<char>);

    open spec fn view(&self) -> (Seq<char>, Seq<char>) {
        (self.username@, self.name@)
    }
}

impl MailboxId {
    /// A copy of this id.
    pub fn duplicate(&self) -> (r: MailboxId)
        ensures
            r@ == self@,
    {
        MailboxId { username: self.username.clone(), name: self.name.clone() }
    }
}

/// Message UID (unique within a mailbox).
pub type Uid = u32;

/// Message sequence number (changes as messages are deleted).
pub type SequenceNumber = u32;

/// Mailbox name.
pub type MailboxName = String;

/// Username.
pub type Username = String;

/// Message flags as defined by IMAP.
#[derive(Debug, Clone, PartialEq, Eq)]
pub enum MessageFlag {
    Seen,
    Answered,
    Flagged,
    Deleted,
    Draft,
    Recent,
    Custom(String),
}

/// A message flag with a custom flag's text taken by its view.
pub enum FlagModel {
    Seen,
    Answered,
    Flagged,
    Deleted,
    Draft,
    Recent,
    Custom(Seq<char>),
}

impl View for MessageFlag {
    type V = FlagModel;

    open spec fn view(&self) -> FlagModel {
        match self {
            MessageFlag::Seen => FlagModel::Seen,
            MessageFlag::Answered => FlagModel::Answered,
            MessageFlag::Flagged => FlagModel::Flagged,
            MessageFlag::Deleted => FlagModel::Deleted,
            MessageFlag::Draft => FlagModel::Draft,
            MessageFlag::Recent => FlagModel::Recent,
            MessageFlag::Custom(s) => FlagModel::Custom(s@),
        }
    }
}

/// The IMAP text of a flag: a backslash and the system flag's name, or a
/// custom flag's own text.
pub open spec fn flag_text(f: FlagModel) -> Seq<char> {
    match f {
        FlagModel::Seen => "\\Seen"@,
        FlagModel::Answered => "\\Answered"@,
        FlagModel::Flagged => "\\Flagged"@,
        FlagModel::Deleted => "\\Deleted"@,
        FlagModel::Draft => "\\Draft"@,
        FlagModel::Recent => "\\Recent"@,
        FlagModel::Custom(s) => s,
    }
}

/// The flag an IMAP text denotes: a system flag for its exact name, a custom
/// flag for any other text.
pub open spec fn flag_of_text(s: Seq<char>) -> FlagModel {
    if s == "\\Seen"@ {
        FlagModel::Seen
    } else if s == "\\Answered"@ {
        FlagModel::Answered
    } else if s == "\\Flagged"@ {
        FlagModel::Flagged
    } else if s == "\\Deleted"@ {
        FlagModel::Deleted
    } else if s == "\\Draft"@ {
        FlagModel::Draft
    } else if s == "\\Recent"@ {
        FlagModel::Recent
    } else {
        FlagModel::Custom(s)
    }
}

/// The texts of the system flags.
pub open spec fn is_system_flag_text(s: Seq<char>) -> bool {
    s == "\\Seen"@ || s == "\\Answered"@ || s == "\\Flagged"@ || s == "\\Deleted"@ || s
        == "\\Draft"@ || s == "\\Recent"@
}

impl MessageFlag {
    pub fn to_imap_string(&self) -> (s: String)
        ensures
            s@ == flag_text(self@),
    {
        match self {
            MessageFlag::Seen => "\\Seen".to_owned(),
            MessageFlag::Answered => "\\Answered".to_owned(),
            MessageFlag::Flagged => "\\Flagged".to_owned(),
            MessageFlag::Deleted => "\\Deleted".to_owned(),
            MessageFlag::Draft => "\\Draft".to_owned(),
            MessageFlag::Recent => "\\Recent".to_owned(),
            MessageFlag::Custom(s) => s.clone(),
        }
    }

    pub fn from_imap_string(s: &str) -> (f: MessageFlag)
        ensures
            f@ == flag_of_text(s@),
    {
        if same_text(s, "\\Seen") {
            MessageFlag::Seen
        } else if same_text(s, "\\Answered") {
            MessageFlag::Answered
        } else if same_text(s, "\\Flagged") {
            MessageFlag::Flagged
        } else if same_text(s, "\\Deleted") {
            MessageFlag::Deleted
        } else if same_text(s, "\\Draft") {
            MessageFlag::Draft
        } else if same_text(s, "\\Recent") {
            MessageFlag::Recent
        } else {
            MessageFlag::Custom(s.to_owned())
        }
    }

    /// Whether this is the `\Seen` flag.
    /// A copy of this flag.
    pub fn duplicate(&self) -> (r: MessageFlag)
        ensures
            r@ == self@,
    {
        match self {
            MessageFlag::Seen => MessageFlag::Seen,
            MessageFlag::Answered => MessageFlag::Answered,
            MessageFlag::Flagged => MessageFlag::Flagged,
            MessageFlag::Deleted => MessageFlag::Deleted,
            MessageFlag::Draft => MessageFlag::Draft,
            MessageFlag::Recent => MessageFlag::Recent,
            MessageFlag::Custom(s) => MessageFlag::Custom(s.clone()),
        }
    }

    pub fn is_seen(&self) -> (r: bool)
        ensures
            r == (self@ == FlagModel::Seen),
    {
        match self {
            MessageFlag::Seen => true,
            _ => false,
        }
    }
}

/// Reading back the IMAP text of a flag gives the same flag, for every flag
/// except a custom flag whose text is a system flag's name.
pub proof fn law_flag_text_round_trip(f: FlagModel)
    requires
        !(f matches FlagModel::Custom(s) && is_system_flag_text(s)),
    ensures
        flag_of_text(flag_text(f)) == f,
        !(f is Custom) ==> is_system_flag_text(flag_text(f)),
{
    reveal_strlit("\\Seen");
    reveal_strlit("\\Answered");
    reveal_strlit("\\Flagged");
    reveal_strlit("\\Deleted");
    reveal_strlit("\\Draft");
    reveal_strlit("\\Recent");
    assert("\\Seen"@.len() == 5);
    assert("\\Answered"@.len() == 9);
    assert("\\Flagged"@.len() == 8);
    assert("\\Deleted"@.len() == 8);
    assert("\\Draft"@.len() == 6);
    assert("\\Recent"@.len() == 7);
    assert("\\Flagged"@[1] != "\\Deleted"@[1]);
}

/// Mailbox information.
#[derive(Debug, Clone)]
pub struct Mailbox {
    pub name: MailboxName,
    pub uid_validity: u32,
    pub uid_next: Uid,
    pub flags: Vec<MessageFlag>,
    pub permanent_flags: Vec<MessageFlag>,
    pub message_count: usize,
    pub recent_count: usize,
    pub unseen_count: usize,
}

/// User credentials.
#[derive(Debug, Clone)]
pub struct Credentials {
    pub username: Username,
    pub password: String,
}

/// Search query for finding messages.
#[derive(Debug)]
pub enum SearchQuery {
    All,
    Text(String),
    From(String),
    To(String),
    Subject(String),
    Body(String),
    Uid(Vec<Uid>),
    Sequence(Vec<SequenceNumber>),
    Seen,
    Unseen,
    Flagged,
    Unflagged,
    Deleted,
    Undeleted,
    And(Box<SearchQuery>, Box<SearchQuery>),
    Or(Box<SearchQuery>, Box<SearchQuery>),
    Not(Box<SearchQuery>),
}

/// Types of tasks that can be queued.
#[derive(Debug, Clone, PartialEq, Eq)]
pub enum TaskType {
    UidCompaction,
    IndexUpdate,
    Expunge,
    Custom(String),
}

} // verus!
