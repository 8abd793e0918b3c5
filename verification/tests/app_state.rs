use agent_deck::actions::Action;
use agent_deck::actions::Key;
use agent_deck::actions::KeyCode;
use agent_deck::app::App;
use agent_deck::app::InputMode;
use agent_deck::tmux::TmuxSession;

fn key(c: char) -> Action {
    Action::KeyPress(Key { code: KeyCode::Char(c), ctrl: false })
}

fn special(code: KeyCode) -> Action {
    Action::KeyPress(Key { code, ctrl: false })
}

fn registry(n: usize) -> Vec<TmuxSession> {
    let mut v = Vec::new();
    for i in 0..n {
        v.push(TmuxSession::new(format!("${}", i), format!("s{}", i)));
    }
    v
}

#[test]
fn registry_replace_clamps_cursor() {
    let mut app = App::new();
    assert!(!app.handle_action(Action::SessionsUpdated(registry(5))));
    for _ in 0..4 {
        app.handle_action(key('j'));
    }
    assert_eq!(app.selected, Some(4));
    app.handle_action(Action::SessionsUpdated(registry(2)));
    assert_eq!(app.selected, Some(1));
}

#[test]
fn registry_replace_empties_cursor() {
    let mut app = App::new();
    app.handle_action(Action::SessionsUpdated(registry(3)));
    assert_eq!(app.selected, Some(0));
    app.handle_action(Action::SessionsUpdated(registry(0)));
    assert_eq!(app.selected, None);
}

#[test]
fn navigation_wraps_around() {
    let mut app = App::new();
    app.handle_action(Action::SessionsUpdated(registry(3)));
    assert_eq!(app.selected, Some(0));
    app.handle_action(key('k'));
    assert_eq!(app.selected, Some(2));
    app.handle_action(key('j'));
    assert_eq!(app.selected, Some(0));
    app.handle_action(special(KeyCode::Down));
    assert_eq!(app.selected, Some(1));
    app.handle_action(special(KeyCode::Up));
    assert_eq!(app.selected, Some(0));
}

#[test]
fn navigation_is_noop_on_empty_registry() {
    let mut app = App::new();
    app.handle_action(key('j'));
    assert_eq!(app.selected, None);
    app.handle_action(key('k'));
    assert_eq!(app.selected, None);
}

#[test]
fn delete_key_needs_a_selection() {
    let mut app = App::new();
    app.handle_action(key('d'));
    assert_eq!(app.input_mode, InputMode::Normal);

    app.handle_action(Action::SessionsUpdated(registry(2)));
    app.handle_action(key('d'));
    assert_eq!(app.input_mode, InputMode::Confirming);
    // Opening the dialog must not itself queue the deletion.
    assert!(app.take_pending_actions().is_empty());
}

#[test]
fn confirming_yes_queues_delete() {
    let mut app = App::new();
    app.handle_action(Action::SessionsUpdated(registry(2)));
    app.handle_action(key('j'));
    app.handle_action(key('d'));
    app.handle_action(key('y'));
    assert_eq!(app.input_mode, InputMode::Normal);
    let pending = app.take_pending_actions();
    assert_eq!(pending.len(), 1);
    match &pending[0] {
        Action::DeleteSession(id) => assert_eq!(id, "$1"),
        other => panic!("unexpected action: {:?}", other),
    }
}

#[test]
fn confirming_no_and_escape_cancel() {
    let mut app = App::new();
    app.handle_action(Action::SessionsUpdated(registry(1)));
    app.handle_action(key('d'));
    app.handle_action(key('n'));
    assert_eq!(app.input_mode, InputMode::Normal);
    assert!(app.take_pending_actions().is_empty());

    app.handle_action(key('d'));
    app.handle_action(special(KeyCode::Esc));
    assert_eq!(app.input_mode, InputMode::Normal);
    assert!(app.take_pending_actions().is_empty());
}

#[test]
fn session_name_input_filters_characters() {
    let mut app = App::new();
    app.handle_action(key('n'));
    assert_eq!(app.input_mode, InputMode::Creating);
    for c in "ab#c-1_2".chars() {
        app.handle_action(key(c));
    }
    assert_eq!(app.input_buffer, "abc-1_2");
}

#[test]
fn creating_enter_submits_nonempty_buffer() {
    let mut app = App::new();
    app.handle_action(key('n'));
    for c in "worker1".chars() {
        app.handle_action(key(c));
    }
    app.handle_action(special(KeyCode::Enter));
    assert_eq!(app.input_mode, InputMode::Normal);
    assert_eq!(app.input_buffer, "");
    let pending = app.take_pending_actions();
    assert_eq!(pending.len(), 1);
    match &pending[0] {
        Action::CreateSession(name) => assert_eq!(name, "worker1"),
        other => panic!("unexpected action: {:?}", other),
    }
}

#[test]
fn creating_enter_on_empty_buffer_submits_nothing() {
    let mut app = App::new();
    app.handle_action(key('n'));
    app.handle_action(special(KeyCode::Enter));
    assert_eq!(app.input_mode, InputMode::Normal);
    assert!(app.take_pending_actions().is_empty());
}

#[test]
fn creating_backspace_and_escape() {
    let mut app = App::new();
    app.handle_action(key('n'));
    for c in "abc".chars() {
        app.handle_action(key(c));
    }
    app.handle_action(special(KeyCode::Backspace));
    assert_eq!(app.input_buffer, "ab");
    app.handle_action(special(KeyCode::Esc));
    assert_eq!(app.input_mode, InputMode::Normal);
    assert_eq!(app.input_buffer, "");
    assert!(app.take_pending_actions().is_empty());
}

#[test]
fn enter_attaches_selected_session() {
    let mut app = App::new();
    app.handle_action(Action::SessionsUpdated(registry(3)));
    app.handle_action(key('j'));
    app.handle_action(key('j'));
    app.handle_action(special(KeyCode::Enter));
    let pending = app.take_pending_actions();
    assert_eq!(pending.len(), 1);
    match &pending[0] {
        Action::AttachSession(id) => assert_eq!(id, "$2"),
        other => panic!("unexpected action: {:?}", other),
    }
}

#[test]
fn quit_keys_quit() {
    let mut app = App::new();
    assert!(app.handle_action(key('q')));
    let mut app = App::new();
    assert!(app.handle_action(Action::KeyPress(Key { code: KeyCode::Char('c'), ctrl: true })));
    let mut app = App::new();
    assert!(app.handle_action(Action::Quit));
    let mut app = App::new();
    assert!(!app.handle_action(key('x')));
}

#[test]
fn error_message_set_and_cleared() {
    let mut app = App::new();
    app.handle_action(Action::Error("Tmux: boom".to_string()));
    assert_eq!(app.error_message.as_deref(), Some("Tmux: boom"));
    // Any keypress in Normal mode clears the message before acting.
    app.handle_action(key('j'));
    assert_eq!(app.error_message, None);
}

#[test]
fn mcp_mode_toggles_without_mode_change() {
    let mut app = App::new();
    assert!(!app.mcp_mode);
    app.handle_action(key('M'));
    assert!(app.mcp_mode);
    assert_eq!(app.input_mode, InputMode::Normal);
    app.handle_action(key('M'));
    assert!(!app.mcp_mode);
}

#[test]
fn copy_skeleton_key_queues_command() {
    let mut app = App::new();
    app.handle_action(key('y'));
    let pending = app.take_pending_actions();
    assert_eq!(pending.len(), 1);
    assert!(matches!(pending[0], Action::CopySkeleton));
    assert!(app.take_pending_actions().is_empty());
}

#[test]
fn selected_session_follows_cursor() {
    let mut app = App::new();
    assert!(app.selected_session().is_none());
    app.handle_action(Action::SessionsUpdated(registry(2)));
    assert_eq!(app.selected_session().unwrap().name, "s0");
    app.handle_action(key('j'));
    assert_eq!(app.selected_session().unwrap().name, "s1");
}
