//! The state reducer: the single owner of the session registry, the
//! selection cursor, the modal input state and the queue of pending
//! commands. It applies one event at a time, atomically; the whole
//! transition relation is written out as the spec function [`step`], and
//! every handler is proved to implement it.

use vstd::prelude::*;

use crate::actions::{actions_view, Action, ActionModel, Key, KeyCode};
use crate::text::{alphanumeric, is_alphanumeric_char, pop_char, push_char};
use crate::tmux::{sessions_view, SessionModel, TmuxSession};

verus! {

/// Which set of keys is currently meaningful. Exactly one mode is active at
/// a time; it is independent of any session's status.
#[derive(Debug, Clone, Copy, PartialEq, Eq, Structural)]
pub enum InputMode {
    /// Browsing the registry.
    Normal,
    /// Entering the name of a session to create.
    Creating,
    /// Confirming a deletion.
    Confirming,
}

/// The mathematical shape of the reducer's state.
#[verifier::ext_equal]
pub struct AppModel {
    pub sessions: Seq<SessionModel>,
    pub selected: Option<usize>,
    pub error_message: Option<Seq<char>>,
    pub mcp_mode: bool,
    pub input_mode: InputMode,
    pub input_buffer: Seq<char>,
    pub pending: Seq<ActionModel>,
}

/// The selection cursor never points past the end of the registry.
pub open spec fn cursor_ok(m: AppModel) -> bool {
    match m.selected {
        Some(i) => i < m.sessions.len(),
        None => true,
    }
}

/// The session the cursor rests on, if the cursor rests on one.
pub open spec fn selected_session_of(m: AppModel) -> Option<SessionModel> {
    match m.selected {
        Some(i) => if i < m.sessions.len() {
            Some(m.sessions[i as int])
        } else {
            None
        },
        None => None,
    }
}

/// Where the cursor comes to rest after the registry is replaced by one of
/// length `len`: unchanged while still valid, clamped to the last index of a
/// shorter registry, set to the first entry when it was unset, and unset
/// when no entry is left.
pub open spec fn clamp_cursor(cur: Option<usize>, len: int) -> Option<usize> {
    if len == 0 {
        None
    } else {
        match cur {
            None => Some(0usize),
            Some(i) => if (i as int) < len {
                Some(i)
            } else {
                Some((len - 1) as usize)
            },
        }
    }
}

/// One step down the registry, wrapping from the last entry to the first;
/// nothing happens on an empty registry.
pub open spec fn move_next(pre: AppModel) -> AppModel {
    if pre.sessions.len() == 0 {
        pre
    } else {
        let next = match pre.selected {
            None => Some(0usize),
            Some(i) => if i as int >= pre.sessions.len() - 1 {
                Some(0usize)
            } else {
                Some((i + 1) as usize)
            },
        };
        AppModel { selected: next, ..pre }
    }
}

/// One step up the registry, wrapping from the first entry to the last;
/// nothing happens on an empty registry.
pub open spec fn move_prev(pre: AppModel) -> AppModel {
    if pre.sessions.len() == 0 {
        pre
    } else {
        let prev = match pre.selected {
            None => Some(0usize),
            Some(i) => if i == 0 {
                Some((pre.sessions.len() - 1) as usize)
            } else {
                Some((i - 1) as usize)
            },
        };
        AppModel { selected: prev, ..pre }
    }
}

/// A character allowed in a session name: alphanumeric, dash or underscore.
pub open spec fn is_session_name_char(c: char) -> bool {
    alphanumeric(c) || c == '-' || c == '_'
}

/// In Normal mode a keypress first clears any displayed message.
pub open spec fn clear_msg_if_normal(pre: AppModel) -> AppModel {
    if pre.input_mode == InputMode::Normal && pre.error_message is Some {
        AppModel { error_message: None, ..pre }
    } else {
        pre
    }
}

/// What a keypress does in Normal mode, and whether it quits.
pub open spec fn step_normal(pre: AppModel, key: Key) -> (AppModel, bool) {
    match key.code {
        KeyCode::Char(c) => {
            if c == 'q' {
                (pre, true)
            } else if c == 'j' {
                (move_next(pre), false)
            } else if c == 'k' {
                (move_prev(pre), false)
            } else if c == 'M' {
                (AppModel { mcp_mode: !pre.mcp_mode, ..pre }, false)
            } else if c == 'n' {
                (
                    AppModel {
                        input_mode: InputMode::Creating,
                        input_buffer: Seq::empty(),
                        ..pre
                    },
                    false,
                )
            } else if c == 'd' {
                if selected_session_of(pre) is Some {
                    (AppModel { input_mode: InputMode::Confirming, ..pre }, false)
                } else {
                    (pre, false)
                }
            } else if c == 'y' {
                (AppModel { pending: pre.pending.push(ActionModel::CopySkeleton), ..pre }, false)
            } else if c == 'c' && key.ctrl {
                (pre, true)
            } else {
                (pre, false)
            }
        },
        KeyCode::Down => (move_next(pre), false),
        KeyCode::Up => (move_prev(pre), false),
        KeyCode::Enter => match selected_session_of(pre) {
            Some(s) => (
                AppModel { pending: pre.pending.push(ActionModel::AttachSession(s.id)), ..pre },
                false,
            ),
            None => (pre, false),
        },
        _ => (pre, false),
    }
}

/// What a keypress does in Creating mode: allowed characters grow the name
/// buffer, Backspace shrinks it, Enter submits a non-empty buffer, and
/// Enter or Escape return to Normal mode.
pub open spec fn step_creating(pre: AppModel, key: Key) -> AppModel {
    match key.code {
        KeyCode::Enter => {
            if pre.input_buffer.len() > 0 {
                AppModel {
                    pending: pre.pending.push(ActionModel::CreateSession(pre.input_buffer)),
                    input_buffer: Seq::empty(),
                    input_mode: InputMode::Normal,
                    ..pre
                }
            } else {
                AppModel { input_mode: InputMode::Normal, ..pre }
            }
        },
        KeyCode::Esc => AppModel {
            input_buffer: Seq::empty(),
            input_mode: InputMode::Normal,
            ..pre
        },
        KeyCode::Char(c) => {
            if is_session_name_char(c) {
                AppModel { input_buffer: pre.input_buffer.push(c), ..pre }
            } else {
                pre
            }
        },
        KeyCode::Backspace => {
            if pre.input_buffer.len() > 0 {
                AppModel { input_buffer: pre.input_buffer.drop_last(), ..pre }
            } else {
                pre
            }
        },
        _ => pre,
    }
}

/// What a keypress does in Confirming mode: `y` queues the deletion of the
/// selected session and returns to Normal; `n` or Escape just return.
pub open spec fn step_confirming(pre: AppModel, key: Key) -> AppModel {
    match key.code {
        KeyCode::Char(c) => {
            if c == 'y' || c == 'Y' {
                match selected_session_of(pre) {
                    Some(s) => AppModel {
                        pending: pre.pending.push(ActionModel::DeleteSession(s.id)),
                        input_mode: InputMode::Normal,
                        ..pre
                    },
                    None => AppModel { input_mode: InputMode::Normal, ..pre },
                }
            } else if c == 'n' || c == 'N' {
                AppModel { input_mode: InputMode::Normal, ..pre }
            } else {
                pre
            }
        },
        KeyCode::Esc => AppModel { input_mode: InputMode::Normal, ..pre },
        _ => pre,
    }
}

/// The whole transition relation of the reducer: the state after applying
/// one event, and whether the event quits the application.
pub open spec fn step(pre: AppModel, a: ActionModel) -> (AppModel, bool) {
    match a {
        ActionModel::KeyPress(key) => {
            let p = clear_msg_if_normal(pre);
            match p.input_mode {
                InputMode::Normal => step_normal(p, key),
                InputMode::Creating => (step_creating(p, key), false),
                InputMode::Confirming => (step_confirming(p, key), false),
            }
        },
        ActionModel::SessionsUpdated(s) => (
            AppModel {
                sessions: s,
                selected: clamp_cursor(pre.selected, s.len() as int),
                ..pre
            },
            false,
        ),
        ActionModel::Error(m) => (AppModel { error_message: Some(m), ..pre }, false),
        ActionModel::Quit => (pre, true),
        _ => (pre, false),
    }
}

/// Main application state: the registry, the cursor, the modal input state
/// and the pending command queue, owned by a single writer.
pub struct App {
    /// Last snapshot of the session registry.
    pub sessions: Vec<TmuxSession>,
    /// Currently selected index, if any entry is selected.
    pub selected: Option<usize>,
    /// Message currently displayed in the footer (info or error).
    pub error_message: Option<String>,
    /// Whether the auxiliary display mode is active.
    pub mcp_mode: bool,
    /// Current input mode.
    pub input_mode: InputMode,
    /// Text buffer for the name of a session being created.
    pub input_buffer: String,
    /// Commands queued for the executor.
    pub pending_actions: Vec<Action>,
}

impl View for App {
    type V = AppModel;

    open spec fn view(&self) -> AppModel {
        AppModel {
            sessions: sessions_view(self.sessions@),
            selected: self.selected,
            error_message: match self.error_message {
                Some(m) => Some(m@),
                None => None,
            },
            mcp_mode: self.mcp_mode,
            input_mode: self.input_mode,
            input_buffer: self.input_buffer@,
            pending: actions_view(self.pending_actions@),
        }
    }
}

impl App {
    /// A fresh dashboard: empty registry, nothing selected, Normal mode.
    pub fn new() -> (app: App)
        ensures
            app@.sessions.len() == 0,
            app@.selected is None,
            app@.error_message is None,
            !app@.mcp_mode,
            app@.input_mode == InputMode::Normal,
            app@.input_buffer.len() == 0,
            app@.pending.len() == 0,
            cursor_ok(app@),
    {
        App {
            sessions: Vec::new(),
            selected: None,
            error_message: None,
            mcp_mode: false,
            input_mode: InputMode::Normal,
            input_buffer: String::new(),
            pending_actions: Vec::new(),
        }
    }

    /// The currently selected session, if one is selected.
    pub fn selected_session(&self) -> (r: Option<&TmuxSession>)
        ensures
            match r {
                Some(s) => selected_session_of(self@) == Some(s@),
                None => selected_session_of(self@) is None,
            },
    {
        match self.selected {
            Some(i) => if i < self.sessions.len() {
                Some(&self.sessions[i])
            } else {
                None
            },
            None => None,
        }
    }

    /// Drains the pending command queue, leaving it empty.
    pub fn take_pending_actions(&mut self) -> (r: Vec<Action>)
        ensures
            r@ == old(self).pending_actions@,
            final(self)@ == (AppModel { pending: Seq::empty(), ..old(self)@ }),
    {
        let mut taken: Vec<Action> = Vec::new();
        core::mem::swap(&mut taken, &mut self.pending_actions);
        proof {
            assert(final(self)@ =~= (AppModel { pending: Seq::empty(), ..old(self)@ }));
        }
        taken
    }

    /// Applies one event atomically; the result says whether to quit.
    pub fn handle_action(&mut self, action: Action) -> (quit: bool)
        requires
            cursor_ok(old(self)@),
        ensures
            final(self)@ == step(old(self)@, action@).0,
            quit == step(old(self)@, action@).1,
            cursor_ok(final(self)@),
    {
        match action {
            Action::KeyPress(key) => self.handle_key(key),
            Action::SessionsUpdated(sessions) => {
                self.sessions = sessions;
                let len = self.sessions.len();
                if len == 0 {
                    self.selected = None;
                } else {
                    match self.selected {
                        Some(i) => if i >= len {
                            self.selected = Some(len - 1);
                        },
                        None => {
                            self.selected = Some(0);
                        },
                    }
                }
                proof {
                    assert(self@ =~= step(old(self)@, action@).0);
                }
                false
            },
            Action::Error(msg) => {
                self.error_message = Some(msg);
                proof {
                    assert(self@ =~= step(old(self)@, action@).0);
                }
                false
            },
            Action::Quit => true,
            _ => false,
        }
    }

    /// Routes a keypress by the current mode, after clearing any displayed
    /// message in Normal mode.
    fn handle_key(&mut self, key: Key) -> (quit: bool)
        requires
            cursor_ok(old(self)@),
        ensures
            final(self)@ == step(old(self)@, ActionModel::KeyPress(key)).0,
            quit == step(old(self)@, ActionModel::KeyPress(key)).1,
    {
        if self.error_message.is_some() && self.input_mode == InputMode::Normal {
            self.error_message = None;
        }
        proof {
            assert(self@ =~= clear_msg_if_normal(old(self)@));
        }
        match self.input_mode {
            InputMode::Normal => self.handle_normal_key(key),
            InputMode::Creating => {
                self.handle_creating_key(key);
                false
            },
            InputMode::Confirming => {
                self.handle_confirming_key(key);
                false
            },
        }
    }

    fn handle_normal_key(&mut self, key: Key) -> (quit: bool)
        requires
            cursor_ok(old(self)@),
            old(self).input_mode == InputMode::Normal,
        ensures
            final(self)@ == step_normal(old(self)@, key).0,
            quit == step_normal(old(self)@, key).1,
    {
        match key.code {
            KeyCode::Char(c) => {
                if c == 'q' {
                    return true;
                }
                if c == 'j' {
                    self.next_session();
                    return false;
                }
                if c == 'k' {
                    self.previous_session();
                    return false;
                }
                if c == 'M' {
                    self.mcp_mode = !self.mcp_mode;
                    proof {
                        assert(self@ =~= step_normal(old(self)@, key).0);
                    }
                    return false;
                }
                if c == 'n' {
                    self.input_mode = InputMode::Creating;
                    self.input_buffer = String::new();
                    proof {
                        assert(self@ =~= step_normal(old(self)@, key).0);
                    }
                    return false;
                }
                if c == 'd' {
                    if self.selected_session().is_some() {
                        self.input_mode = InputMode::Confirming;
                    }
                    proof {
                        assert(self@ =~= step_normal(old(self)@, key).0);
                    }
                    return false;
                }
                if c == 'y' {
                    self.pending_actions.push(Action::CopySkeleton);
                    proof {
                        assert(self@ =~= step_normal(old(self)@, key).0);
                    }
                    return false;
                }
                if c == 'c' && key.ctrl {
                    return true;
                }
                false
            },
            KeyCode::Down => {
                self.next_session();
                false
            },
            KeyCode::Up => {
                self.previous_session();
                false
            },
            KeyCode::Enter => {
                let id = match self.selected_session() {
                    Some(s) => Some(s.id.clone()),
                    None => None,
                };
                match id {
                    Some(id) => {
                        self.pending_actions.push(Action::AttachSession(id));
                        proof {
                            assert(self@ =~= step_normal(old(self)@, key).0);
                        }
                    },
                    None => {},
                }
                false
            },
            _ => false,
        }
    }

    fn handle_creating_key(&mut self, key: Key)
        requires
            old(self).input_mode == InputMode::Creating,
        ensures
            final(self)@ == step_creating(old(self)@, key),
    {
        match key.code {
            KeyCode::Enter => {
                if !self.input_buffer.as_str().is_empty() {
                    let name = self.input_buffer.clone();
                    self.pending_actions.push(Action::CreateSession(name));
                    self.input_buffer = String::new();
                }
                self.input_mode = InputMode::Normal;
                proof {
                    assert(self@ =~= step_creating(old(self)@, key));
                }
            },
            KeyCode::Esc => {
                self.input_buffer = String::new();
                self.input_mode = InputMode::Normal;
                proof {
                    assert(self@ =~= step_creating(old(self)@, key));
                }
            },
            KeyCode::Char(c) => {
                if is_alphanumeric_char(c) || c == '-' || c == '_' {
                    push_char(&mut self.input_buffer, c);
                    proof {
                        assert(self@ =~= step_creating(old(self)@, key));
                    }
                }
            },
            KeyCode::Backspace => {
                let _ = pop_char(&mut self.input_buffer);
                proof {
                    assert(self@ =~= step_creating(old(self)@, key));
                }
            },
            _ => {},
        }
    }

    fn handle_confirming_key(&mut self, key: Key)
        requires
            cursor_ok(old(self)@),
            old(self).input_mode == InputMode::Confirming,
        ensures
            final(self)@ == step_confirming(old(self)@, key),
    {
        match key.code {
            KeyCode::Char(c) => {
                if c == 'y' || c == 'Y' {
                    let id = match self.selected_session() {
                        Some(s) => Some(s.id.clone()),
                        None => None,
                    };
                    match id {
                        Some(id) => {
                            self.pending_actions.push(Action::DeleteSession(id));
                        },
                        None => {},
                    }
                    self.input_mode = InputMode::Normal;
                    proof {
                        assert(self@ =~= step_confirming(old(self)@, key));
                    }
                } else if c == 'n' || c == 'N' {
                    self.input_mode = InputMode::Normal;
                    proof {
                        assert(self@ =~= step_confirming(old(self)@, key));
                    }
                }
            },
            KeyCode::Esc => {
                self.input_mode = InputMode::Normal;
                proof {
                    assert(self@ =~= step_confirming(old(self)@, key));
                }
            },
            _ => {},
        }
    }

    fn next_session(&mut self)
        requires
            cursor_ok(old(self)@),
        ensures
            final(self)@ == move_next(old(self)@),
    {
        if self.sessions.len() == 0 {
            return;
        }
        let len = self.sessions.len();
        let i = match self.selected {
            Some(i) => if i >= len - 1 {
                0
            } else {
                i + 1
            },
            None => 0,
        };
        self.selected = Some(i);
        proof {
            assert(self@ =~= move_next(old(self)@));
        }
    }

    fn previous_session(&mut self)
        requires
            cursor_ok(old(self)@),
        ensures
            final(self)@ == move_prev(old(self)@),
    {
        if self.sessions.len() == 0 {
            return;
        }
        let len = self.sessions.len();
        let i = match self.selected {
            Some(i) => if i == 0 {
                len - 1
            } else {
                i - 1
            },
            None => 0,
        };
        self.selected = Some(i);
        proof {
            assert(self@ =~= move_prev(old(self)@));
        }
    }
}

/// After a registry replace the cursor rests inside the new registry, or on
/// nothing when the registry is empty: clamping never leaves it out of
/// bounds.
pub proof fn lemma_clamp_in_bounds(cur: Option<usize>, len: int)
    requires
        0 <= len <= usize::MAX,
    ensures
        match clamp_cursor(cur, len) {
            Some(i) => len > 0 && (i as int) < len,
            None => len == 0,
        },
{
}

/// Every step of the reducer keeps the cursor inside the registry.
pub proof fn lemma_step_preserves_cursor_ok(pre: AppModel, a: ActionModel)
    requires
        cursor_ok(pre),
        a matches ActionModel::SessionsUpdated(s) ==> s.len() <= usize::MAX,
    ensures
        cursor_ok(step(pre, a).0),
{
    match a {
        ActionModel::SessionsUpdated(s) => {
            lemma_clamp_in_bounds(pre.selected, s.len() as int);
        },
        _ => {},
    }
}

/// Moving down from the last entry wraps to the first, moving up from the
/// first wraps to the last, and both do nothing on an empty registry.
pub proof fn lemma_wraparound(pre: AppModel)
    requires
        cursor_ok(pre),
        pre.sessions.len() <= usize::MAX,
    ensures
        pre.sessions.len() == 0 ==> move_next(pre) == pre && move_prev(pre) == pre,
        pre.sessions.len() > 0 && pre.selected == Some((pre.sessions.len() - 1) as usize)
            ==> move_next(pre).selected == Some(0usize),
        pre.sessions.len() > 0 && pre.selected == Some(0usize) ==> move_prev(pre).selected
            == Some((pre.sessions.len() - 1) as usize),
{
}

/// In Normal mode, `d` opens the confirmation dialog exactly when a session
/// is selected, and never itself queues a deletion.
pub proof fn lemma_modal_gating(pre: AppModel)
    requires
        pre.input_mode == InputMode::Normal,
    ensures
        ({
            let post = step(
                pre,
                ActionModel::KeyPress(Key { code: KeyCode::Char('d'), ctrl: false }),
            ).0;
            &&& (selected_session_of(pre) is None ==> post.input_mode == InputMode::Normal)
            &&& (selected_session_of(pre) is Some ==> post.input_mode == InputMode::Confirming)
            &&& post.pending == pre.pending
        }),
{
}

} // verus!
