//! Error type of the server.

use vstd::prelude::*;
use vstd::string::*;

use crate::text::concat;

verus! {

/// Errors of the server components. Each carries a human-readable detail.
#[derive(Debug, Clone, PartialEq, Eq)]
pub enum Error {
    Io(String),
    Database(String),
    Index(String),
    AuthenticationFailed(String),
    AuthorizationFailed(String),
    InvalidMailbox(String),
    InvalidMessage(String),
    ProtocolError(String),
    NotFound(String),
    AlreadyExists(String),
    InvalidState(String),
    QueueError(String),
    Internal(String),
    MailboxExists(String),
    MailboxNotFound(String),
    TlsError(String),
}

pub type Result<T> = core::result::Result<T, Error>;

/// The text that describes an error: a fixed prefix for its kind, then its detail.
pub open spec fn error_text(e: Error) -> Seq<char> {
    match e {
        Error::Io(d) => "IO error: "@ + d@,
        Error::Database(d) => "Database error: "@ + d@,
        Error::Index(d) => "Index error: "@ + d@,
        Error::AuthenticationFailed(d) => "Authentication failed: "@ + d@,
        Error::AuthorizationFailed(d) => "Authorization failed: "@ + d@,
        Error::InvalidMailbox(d) => "Invalid mailbox: "@ + d@,
        Error::InvalidMessage(d) => "Invalid message: "@ + d@,
        Error::ProtocolError(d) => "Protocol error: "@ + d@,
        Error::NotFound(d) => "Not found: "@ + d@,
        Error::AlreadyExists(d) => "Already exists: "@ + d@,
        Error::InvalidState(d) => "Invalid state: "@ + d@,
        Error::QueueError(d) => "Queue error: "@ + d@,
        Error::Internal(d) => "Internal error: "@ + d@,
        Error::MailboxExists(d) => "Mailbox already exists: "@ + d@,
        Error::MailboxNotFound(d) => "Mailbox not found: "@ + d@,
        Error::TlsError(d) => "TLS error: "@ + d@,
    }
}

impl Error {
    /// The text that describes this error.
    pub fn to_string(&self) -> (s: String)
        ensures
            s@ == error_text(*self),
    {
        match self {
            Error::Io(d) => concat("IO error: ", d.as_str()),
            Error::Database(d) => concat("Database error: ", d.as_str()),
            Error::Index(d) => concat("Index error: ", d.as_str()),
            Error::AuthenticationFailed(d) => concat("Authentication failed: ", d.as_str()),
            Error::AuthorizationFailed(d) => concat("Authorization failed: ", d.as_str()),
            Error::InvalidMailbox(d) => concat("Invalid mailbox: ", d.as_str()),
            Error::InvalidMessage(d) => concat("Invalid message: ", d.as_str()),
            Error::ProtocolError(d) => concat("Protocol error: ", d.as_str()),
            Error::NotFound(d) => concat("Not found: ", d.as_str()),
            Error::AlreadyExists(d) => concat("Already exists: ", d.as_str()),
            Error::InvalidState(d) => concat("Invalid state: ", d.as_str()),
            Error::QueueError(d) => concat("Queue error: ", d.as_str()),
            Error::Internal(d) => concat("Internal error: ", d.as_str()),
            Error::MailboxExists(d) => concat("Mailbox already exists: ", d.as_str()),
            Error::MailboxNotFound(d) => concat("Mailbox not found: ", d.as_str()),
            Error::TlsError(d) => concat("TLS error: ", d.as_str()),
        }
    }
}

} // verus!
