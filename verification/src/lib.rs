//! Scuttled: the verified core of an IMAP server.
//!
//! The library holds what the server decides: parsing commands, answering
//! them, the mailbox registry and UID bookkeeping, the message index and its
//! search, the Maildir file name conventions, the event bus's subscription
//! table, the task queue, and what a session does with each line. Sockets,
//! files, the user database and the clock belong to the server around it.

use vstd::prelude::*;

pub mod command_handlers;
pub mod error;
pub mod events;
pub mod handlers;
pub mod index;
pub mod keyed;
pub mod maildir;
pub mod mailbox;
pub mod mailboxes;
pub mod paths;
pub mod protocol;
pub mod queue;
pub mod session;
pub mod session_context;
pub mod storage;
pub mod text;
pub mod types;
pub mod users;
pub mod watcher;

pub use command_handlers::CommandHandlers;
pub use error::{Error, Result};
pub use handlers::CommandHandler;
pub use mailbox::{Mailbox, MailboxNotification, MailboxState};
pub use mailboxes::MailboxInfo;
pub use session_context::SessionState;
pub use storage::Storage;
pub use types::{
    Credentials, FlagModel, MailboxId, MailboxName, MessageFlag, MessageId, SearchQuery,
    SequenceNumber, TaskType, Uid, Username,
};
