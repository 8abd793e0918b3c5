//! The events that flow through the dashboard: keystrokes, polling results
//! and the side-effecting commands the reducer queues for execution. Events
//! are immutable values; the channel between tasks only moves them.

use vstd::prelude::*;

use crate::tmux::sessions_view;
use crate::tmux::SessionModel;
use crate::tmux::TmuxSession;

verus! {

/// The part of a keystroke the dashboard reads.
#[derive(Debug, Clone, Copy, PartialEq, Eq, Structural)]
pub enum KeyCode {
    /// A printable character.
    Char(char),
    Enter,
    Esc,
    Backspace,
    Up,
    Down,
    /// Any key the dashboard does not react to.
    Other,
}

/// A key press: which key, and whether Control was held.
#[derive(Debug, Clone, Copy, PartialEq, Eq, Structural)]
pub struct Key {
    pub code: KeyCode,
    pub ctrl: bool,
}

/// An event dispatched through the application.
#[derive(Debug, Clone)]
pub enum Action {
    /// A key was pressed.
    KeyPress(Key),
    /// A poll cycle produced a fresh registry snapshot.
    SessionsUpdated(Vec<TmuxSession>),
    /// Something failed; carries the message to display.
    Error(String),
    /// Request to quit the application.
    Quit,
    /// Attach the terminal to the session with this id.
    AttachSession(String),
    /// Create a session with this name.
    CreateSession(String),
    /// Kill the session with this id.
    DeleteSession(String),
    /// Toggle the auxiliary display mode.
    ToggleMcpMode,
    /// Copy the project skeleton to the clipboard.
    CopySkeleton,
}

/// The mathematical shape of an event.
pub enum ActionModel {
    KeyPress(Key),
    SessionsUpdated(Seq<SessionModel>),
    Error(Seq<char>),
    Quit,
    AttachSession(Seq<char>),
    CreateSession(Seq<char>),
    DeleteSession(Seq<char>),
    ToggleMcpMode,
    CopySkeleton,
}

/// The views of a sequence of events.
pub open spec fn actions_view(v: Seq<Action>) -> Seq<ActionModel> {
    Seq::new(v.len(), |i: int| v[i]@)
}

impl View for Action {
    type V = ActionModel;

    open spec fn view(&self) -> ActionModel {
        match self {
            Action::KeyPress(k) => ActionModel::KeyPress(*k),
            Action::SessionsUpdated(v) => ActionModel::SessionsUpdated(sessions_view(v@)),
            Action::Error(m) => ActionModel::Error(m@),
            Action::Quit => ActionModel::Quit,
            Action::AttachSession(id) => ActionModel::AttachSession(id@),
            Action::CreateSession(name) => ActionModel::CreateSession(name@),
            Action::DeleteSession(id) => ActionModel::DeleteSession(id@),
            Action::ToggleMcpMode => ActionModel::ToggleMcpMode,
            Action::CopySkeleton => ActionModel::CopySkeleton,
        }
    }
}

} // verus!
