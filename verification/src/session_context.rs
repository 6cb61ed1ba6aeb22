//! The state of a session as the command handlers see it.

use vstd::prelude::*;

use crate::types::{MailboxName, Username};

verus! {

/// Session state.
#[derive(Debug, Clone, PartialEq)]
pub enum SessionState {
    NotAuthenticated,
    Authenticated { username: Username },
    Selected { username: Username, mailbox: MailboxName },
    Logout,
}

/// A session state with its texts taken by their views.
pub enum SessionStateView {
    NotAuthenticated,
    Authenticated(Seq<char>),
    Selected(Seq<char>, Seq<char>),
    Logout,
}

impl View for SessionState {
    type V = SessionStateView;

    open spec fn view(&self) -> SessionStateView {
        match *self {
            SessionState::NotAuthenticated => SessionStateView::NotAuthenticated,
            SessionState::Authenticated { username } => SessionStateView::Authenticated(username@),
            SessionState::Selected { username, mailbox } => SessionStateView::Selected(
                username@,
                mailbox@,
            ),
            SessionState::Logout => SessionStateView::Logout,
        }
    }
}

/// The view of an optional state update.
pub open spec fn update_view(s: Option<SessionState>) -> Option<SessionStateView> {
    match s {
        Some(st) => Some(st@),
        None => None,
    }
}

/// The user a state belongs to, for the authenticated and selected states.
pub open spec fn state_user(s: SessionState) -> Option<Seq<char>> {
    match s {
        SessionState::Authenticated { username } => Some(username@),
        SessionState::Selected { username, .. } => Some(username@),
        _ => None,
    }
}

impl SessionState {
    /// The authenticated user, if the state has one.
    pub fn username(&self) -> (r: Option<String>)
        ensures
            match r {
                Some(u) => state_user(*self) == Some(u@),
                None => state_user(*self) is None,
            },
    {
        match self {
            SessionState::Authenticated { username } => Some(username.clone()),
            SessionState::Selected { username, .. } => Some(username.clone()),
            _ => None,
        }
    }

    /// Whether the session has left the not-authenticated state.
    pub fn is_authenticated(&self) -> (r: bool)
        ensures
            r == !(*self is NotAuthenticated),
    {
        !matches!(self, SessionState::NotAuthenticated)
    }

    /// Whether a mailbox is selected.
    pub fn is_selected(&self) -> (r: bool)
        ensures
            r == (*self is Selected),
    {
        matches!(self, SessionState::Selected { .. })
    }
}

} // verus!
