use agent_deck::tmux::AgentStatus;
use agent_deck::tmux::StateInferenceEngine;

#[test]
fn test_detect_waiting_for_input() {
    let content = "Some output\n\n> ";
    assert_eq!(StateInferenceEngine::analyze(content), AgentStatus::WaitingForInput);

    let content = "Do you want to continue? [y/n]";
    assert_eq!(StateInferenceEngine::analyze(content), AgentStatus::WaitingForInput);
}

#[test]
fn test_detect_busy() {
    let content = "Working on the task...\nThinking...";
    assert_eq!(StateInferenceEngine::analyze(content), AgentStatus::Busy);
}

#[test]
fn test_detect_error() {
    let content = "Something went wrong\nError: connection refused";
    assert_eq!(StateInferenceEngine::analyze(content), AgentStatus::Error);
}

#[test]
fn test_detect_idle() {
    let content = "Previous output\n$ ";
    assert_eq!(StateInferenceEngine::analyze(content), AgentStatus::Idle);
}

#[test]
fn busy_beats_idle_prompt() {
    // An idle prompt and a spinner compete: the higher-priority family wins.
    let content = "\u{280b} compiling\n$ ";
    assert_eq!(StateInferenceEngine::analyze(content), AgentStatus::Busy);
}

#[test]
fn error_beats_waiting() {
    let content = "Error: broken pipe\nDo you want to retry? [y/n]";
    assert_eq!(StateInferenceEngine::analyze(content), AgentStatus::Error);
}

#[test]
fn waiting_beats_busy() {
    let content = "Thinking...\nType a message to continue";
    assert_eq!(StateInferenceEngine::analyze(content), AgentStatus::WaitingForInput);
}

#[test]
fn classification_is_deterministic() {
    let content = "Loading widgets\nSomething else";
    let first = StateInferenceEngine::analyze(content);
    for _ in 0..5 {
        assert_eq!(StateInferenceEngine::analyze(content), first);
    }
}

#[test]
fn window_ignores_lines_beyond_twenty() {
    // An error marker followed by twenty unrelated lines falls out of the
    // classification window.
    let mut content = String::from("Error: out of range\n");
    for i in 0..19 {
        content.push_str(&format!("line {}\n", i));
    }
    // The trailing newline opens a twentieth, empty line.
    assert_eq!(StateInferenceEngine::analyze(&content), AgentStatus::Unknown);

    // One unrelated line fewer, and the marker is inside the window again.
    let mut content = String::from("Error: out of range\n");
    for i in 0..18 {
        content.push_str(&format!("line {}\n", i));
    }
    assert_eq!(StateInferenceEngine::analyze(&content), AgentStatus::Error);
}

#[test]
fn question_mark_at_end_waits() {
    let content = "Shall I proceed with the plan?";
    assert_eq!(StateInferenceEngine::analyze(content), AgentStatus::WaitingForInput);
}

#[test]
fn ellipsis_line_is_busy() {
    let content = "downloading artifacts...";
    assert_eq!(StateInferenceEngine::analyze(content), AgentStatus::Busy);
}

#[test]
fn named_prompt_is_idle() {
    let content = "some banner\nagent> ";
    assert_eq!(StateInferenceEngine::analyze(content), AgentStatus::Idle);
}

#[test]
fn named_prompt_is_case_sensitive() {
    let content = "some banner\nAGENT> hm";
    assert_eq!(StateInferenceEngine::analyze(content), AgentStatus::Unknown);
}

#[test]
fn failure_words_fold_case() {
    assert_eq!(StateInferenceEngine::analyze("PANIC in thread main"), AgentStatus::Error);
    assert_eq!(StateInferenceEngine::analyze("LOADING"), AgentStatus::Busy);
    assert_eq!(StateInferenceEngine::analyze("ERROR: nope"), AgentStatus::Error);
}

#[test]
fn plain_text_is_unknown() {
    assert_eq!(StateInferenceEngine::analyze("hello there\ngeneral text"), AgentStatus::Unknown);
    assert_eq!(StateInferenceEngine::analyze(""), AgentStatus::Unknown);
}

#[test]
fn default_status_is_unknown() {
    assert_eq!(AgentStatus::default(), AgentStatus::Unknown);
}
