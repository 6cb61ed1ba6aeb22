# scuttled

The verified core of an IMAP server.

- `src/` is the library. Every function in it carries a contract that Verus
  proves: command parsing and responses (`protocol`), the built-in command
  handlers (`handlers`) and their registry (`command_handlers`), what a session
  does with each line (`session`), the mailbox registry (`mailboxes`) and a
  mailbox's UID bookkeeping (`mailbox`), the message index and search
  (`index`), Maildir file names (`maildir`, `storage`), the watcher's events
  (`watcher`), the event bus's subscriptions (`events`), the task queue
  (`queue`) and password hashing and checks (`users`). Calls into `std::path`, `regex`,
  `uuid`, `mailparse`, `bcrypt` and `chrono` go through small trusted
  functions whose contracts name what those calls return.
- `app/` is the server around it: sockets and TLS, the session loop, the
  SQLite user store, files on disk, the filesystem watcher and the tasks that
  own shared state.
- `tests/` exercises the library on concrete values.
