use agent_deck::actions::Action;
use agent_deck::app::App;
use agent_deck::tmux::AgentStatus;
use agent_deck::tmux::ProcessError;
use agent_deck::tmux::TmuxClient;
use agent_deck::tmux::TmuxSession;

#[test]
fn parse_session_line_reads_four_fields() {
    let s = TmuxClient::parse_session_line("$0|work|1700000000|2").unwrap();
    assert_eq!(s.id, "$0");
    assert_eq!(s.name, "work");
    assert_eq!(s.created_at, 1700000000);
    assert_eq!(s.attached_clients, 2);
    assert_eq!(s.status, AgentStatus::Unknown);
}

#[test]
fn parse_session_line_drops_short_records() {
    assert!(TmuxClient::parse_session_line("$0|work|123").is_none());
    assert!(TmuxClient::parse_session_line("").is_none());
    assert!(TmuxClient::parse_session_line("no pipes at all").is_none());
}

#[test]
fn parse_session_line_defaults_bad_numbers_to_zero() {
    let s = TmuxClient::parse_session_line("$1|x|notanum|-3").unwrap();
    assert_eq!(s.created_at, 0);
    assert_eq!(s.attached_clients, 0);
    let s = TmuxClient::parse_session_line("$1|x|99999999999999999999999999|1").unwrap();
    assert_eq!(s.created_at, 0);
    assert_eq!(s.attached_clients, 1);
}

#[test]
fn parse_list_output_keeps_order_and_drops_garbage() {
    let out = "$0|alpha|5|1\nnot a record\n$1|beta|6|0\n";
    let sessions = TmuxClient::parse_list_output(out);
    assert_eq!(sessions.len(), 2);
    assert_eq!(sessions[0].name, "alpha");
    assert_eq!(sessions[1].name, "beta");
}

#[test]
fn empty_server_diagnostic_is_not_an_error() {
    let r = TmuxClient::list_sessions_outcome(false, "", "no server running on /tmp/tmux-0/default");
    assert!(r.unwrap().is_empty());
    let r = TmuxClient::list_sessions_outcome(false, "", "no sessions");
    assert!(r.unwrap().is_empty());
}

#[test]
fn other_failures_carry_the_diagnostic() {
    let r = TmuxClient::list_sessions_outcome(false, "", "permission denied");
    match r {
        Err(ProcessError::CommandFailed(m)) => {
            assert_eq!(m, "tmux list-sessions failed: permission denied");
        }
        other => panic!("unexpected outcome: {:?}", other),
    }
}

#[test]
fn successful_listing_parses_stdout() {
    let r = TmuxClient::list_sessions_outcome(true, "$9|w|7|0\n", "ignored");
    let sessions = r.unwrap();
    assert_eq!(sessions.len(), 1);
    assert_eq!(sessions[0].id, "$9");
}

#[test]
fn create_and_kill_outcomes() {
    assert!(TmuxClient::create_session_outcome(true, "").is_ok());
    match TmuxClient::create_session_outcome(false, "duplicate session") {
        Err(ProcessError::CommandFailed(m)) => {
            assert_eq!(m, "Failed to create session: duplicate session");
        }
        other => panic!("unexpected outcome: {:?}", other),
    }
    assert!(TmuxClient::kill_session_outcome(true, "").is_ok());
    match TmuxClient::kill_session_outcome(false, "no such session") {
        Err(ProcessError::CommandFailed(m)) => {
            assert_eq!(m, "Failed to kill session: no such session");
        }
        other => panic!("unexpected outcome: {:?}", other),
    }
}

#[test]
fn find_created_session_picks_first_match() {
    let sessions = vec![
        TmuxSession::new("$0".into(), "other".into()),
        TmuxSession::new("$1".into(), "target".into()),
        TmuxSession::new("$2".into(), "target".into()),
    ];
    let found = TmuxClient::find_created_session(sessions, "target").unwrap();
    assert_eq!(found.id, "$1");

    let sessions = vec![TmuxSession::new("$0".into(), "other".into())];
    match TmuxClient::find_created_session(sessions, "target") {
        Err(ProcessError::SessionNotFound) => {}
        other => panic!("unexpected outcome: {:?}", other),
    }
}

#[test]
fn session_status_comes_from_capture() {
    let s = TmuxSession::new("$0".into(), "w".into());
    let s = TmuxClient::session_with_status(s, Some("Previous output\n$ "));
    assert_eq!(s.status, AgentStatus::Idle);
    let s = TmuxClient::session_with_status(s, None);
    assert_eq!(s.status, AgentStatus::Unknown);
}

#[test]
fn poll_event_wraps_outcome() {
    let sessions = vec![TmuxSession::new("$0".into(), "w".into())];
    match TmuxClient::poll_event(Ok(sessions)) {
        Action::SessionsUpdated(v) => assert_eq!(v.len(), 1),
        other => panic!("unexpected action: {:?}", other),
    }
    match TmuxClient::poll_event(Err(ProcessError::CommandFailed("boom".into()))) {
        Action::Error(m) => assert_eq!(m, "Tmux: boom"),
        other => panic!("unexpected action: {:?}", other),
    }
}

#[test]
fn command_lines_are_exact() {
    let client = TmuxClient::new();
    assert_eq!(client.path(), "tmux");
    assert_eq!(client.attach_command("$3"), vec!["tmux", "attach-session", "-t", "$3"]);
    assert_eq!(
        client.list_sessions_args(),
        vec!["list-sessions", "-F", "#{session_id}|#{session_name}|#{session_created}|#{session_attached}"]
    );
    assert_eq!(client.capture_pane_args("$1"), vec!["capture-pane", "-p", "-t", "$1"]);
    assert_eq!(client.create_session_args("w"), vec!["new-session", "-d", "-s", "w"]);
    assert_eq!(client.kill_session_args("$1"), vec!["kill-session", "-t", "$1"]);
}

#[test]
fn history_paths_are_keyed_by_session_name() {
    assert_eq!(TmuxClient::history_dir_path("/home/u"), "/home/u/.agent-deck/history");
    assert_eq!(
        TmuxClient::history_file_path("/home/u", "worker1"),
        "/home/u/.agent-deck/history/worker1.hist"
    );
}

#[test]
fn create_then_list_shows_the_session() {
    // The creation succeeds, and the next poll cycle lists the new session:
    // it must be in the registry, with a status no worse than Unknown.
    assert!(TmuxClient::create_session_outcome(true, "").is_ok());
    let listing = TmuxClient::list_sessions_outcome(true, "$0|worker1|1700000000|0\n", "");
    let sessions = listing.unwrap();
    let found = TmuxClient::find_created_session(sessions.clone(), "worker1").unwrap();
    assert_eq!(found.name, "worker1");

    let mut app = App::new();
    app.handle_action(TmuxClient::poll_event(Ok(sessions)));
    let shown = app.selected_session().expect("session must be present");
    assert_eq!(shown.name, "worker1");
    assert_eq!(shown.status, AgentStatus::Unknown);
}

#[test]
fn tmux_session_new_defaults() {
    let s = TmuxSession::new("$7".into(), "fresh".into());
    assert_eq!(s.id, "$7");
    assert_eq!(s.name, "fresh");
    assert_eq!(s.created_at, 0);
    assert_eq!(s.attached_clients, 0);
    assert_eq!(s.status, AgentStatus::Unknown);
}
