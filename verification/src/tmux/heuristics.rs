//! Status inference: turns the visible text of a session's pane into a
//! lifecycle status. Only the last twenty lines are read; four pattern
//! families are tried in a fixed priority order — failure markers, then
//! requests for input, then progress markers, then bare prompts — and the
//! first family that matches decides.

use vstd::prelude::*;

use crate::text::{
    contains_ci, contains_ci_exec, contains_exec, contains_seq, ends_with_exec, ends_with_seq,
    is_space, is_space_char, split_by, split_chars, starts_with_ci, starts_with_ci_exec, str_chars,
};

verus! {

/// Status of an agent session, inferred from its pane text.
#[derive(Debug, Clone, Copy, PartialEq, Eq, Structural)]
pub enum AgentStatus {
    /// Actively processing (progress words, a spinner glyph).
    Busy,
    /// Sitting at a bare shell-style prompt.
    Idle,
    /// Asking the user for input (question or confirmation markup).
    WaitingForInput,
    /// Showing an explicit failure marker.
    Error,
    /// Nothing recognisable in the pane.
    Unknown,
}

impl Default for AgentStatus {
    /// The fallback status.
    fn default() -> (r: Self)
        ensures
            r == AgentStatus::Unknown,
    {
        AgentStatus::Unknown
    }
}

/// A failure marker: a line opening with an error prefix, or mentioning a
/// failure word anywhere (both case-insensitively).
pub open spec fn line_error_spec(l: Seq<char>) -> bool {
    ||| starts_with_ci(l, "error:"@)
    ||| contains_ci(l, "exception"@)
    ||| contains_ci(l, "failed"@)
    ||| contains_ci(l, "panic"@)
    ||| contains_ci(l, "fatal"@)
    ||| contains_ci(l, "crash"@)
}

/// A blank prompt line: whitespace, one caret, whitespace, nothing else.
pub open spec fn blank_caret_line(l: Seq<char>) -> bool {
    exists|i: int|
        0 <= i < l.len() && #[trigger] l[i] == '>' && (forall|j: int|
            0 <= j < l.len() && j != i ==> is_space_char(#[trigger] l[j]))
}

/// A request for input: a blank caret prompt, an inviting phrase, or yes/no
/// confirmation markup (case-insensitively).
pub open spec fn line_waiting_spec(l: Seq<char>) -> bool {
    ||| blank_caret_line(l)
    ||| contains_ci(l, "type a message"@)
    ||| contains_ci(l, "press enter"@)
    ||| contains_ci(l, "waiting for input"@)
    ||| contains_ci(l, "[y/n]"@)
    ||| contains_ci(l, "(y/n)"@)
}

/// One of the braille glyphs the usual terminal spinners cycle through.
pub open spec fn is_spinner_char(c: char) -> bool {
    ||| c == '\u{280b}'
    ||| c == '\u{2819}'
    ||| c == '\u{2839}'
    ||| c == '\u{2838}'
    ||| c == '\u{283c}'
    ||| c == '\u{2834}'
    ||| c == '\u{2826}'
    ||| c == '\u{2827}'
    ||| c == '\u{2807}'
    ||| c == '\u{280f}'
}

/// A progress marker: a progress word (case-insensitively), a spinner glyph,
/// or a line trailing off in an ellipsis.
pub open spec fn line_busy_spec(l: Seq<char>) -> bool {
    ||| contains_ci(l, "thinking..."@)
    ||| contains_ci(l, "processing"@)
    ||| contains_ci(l, "loading"@)
    ||| contains_ci(l, "working"@)
    ||| (exists|i: int| 0 <= i < l.len() && is_spinner_char(#[trigger] l[i]))
    ||| ends_with_seq(l, "..."@)
}

/// A line holding only the marker `m` and trailing whitespace.
pub open spec fn bare_prompt_line(l: Seq<char>, m: char) -> bool {
    l.len() > 0 && l[0] == m && (forall|j: int| 1 <= j < l.len() ==> is_space_char(#[trigger] l[j]))
}

/// An idle prompt: a bare shell prompt line, or the named application prompt
/// (case-sensitively).
pub open spec fn line_idle_spec(l: Seq<char>) -> bool {
    ||| bare_prompt_line(l, '$')
    ||| bare_prompt_line(l, '\u{276f}')
    ||| bare_prompt_line(l, '>')
    ||| contains_seq(l, "agent>"@)
}

/// The classification window: the last twenty lines, or all of them if there
/// are fewer.
pub open spec fn window_of(ls: Seq<Seq<char>>) -> Seq<Seq<char>> {
    if ls.len() <= 20 {
        ls
    } else {
        ls.skip(ls.len() - 20)
    }
}

pub open spec fn has_error_marker(ls: Seq<Seq<char>>) -> bool {
    exists|i: int| 0 <= i < ls.len() && line_error_spec(#[trigger] ls[i])
}

/// A request for input somewhere in the lines, or a final line ending in a
/// question mark immediately before the end of the content.
pub open spec fn has_waiting_marker(ls: Seq<Seq<char>>) -> bool {
    ||| (exists|i: int| 0 <= i < ls.len() && line_waiting_spec(#[trigger] ls[i]))
    ||| (ls.len() > 0 && ls.last().len() > 0 && ls.last().last() == '?')
}

pub open spec fn has_busy_marker(ls: Seq<Seq<char>>) -> bool {
    exists|i: int| 0 <= i < ls.len() && line_busy_spec(#[trigger] ls[i])
}

pub open spec fn has_idle_marker(ls: Seq<Seq<char>>) -> bool {
    exists|i: int| 0 <= i < ls.len() && line_idle_spec(#[trigger] ls[i])
}

/// The classification of a sequence of lines: the four families are tried on
/// the window in priority order and the first match decides.
pub open spec fn classify_lines(ls: Seq<Seq<char>>) -> AgentStatus {
    let w = window_of(ls);
    if has_error_marker(w) {
        AgentStatus::Error
    } else if has_waiting_marker(w) {
        AgentStatus::WaitingForInput
    } else if has_busy_marker(w) {
        AgentStatus::Busy
    } else if has_idle_marker(w) {
        AgentStatus::Idle
    } else {
        AgentStatus::Unknown
    }
}

/// The classification of raw pane text: its lines, classified.
pub open spec fn classify_spec(s: Seq<char>) -> AgentStatus {
    classify_lines(split_by(s, '\n', '\n'))
}

/// Priority of the pattern families: a failure marker decides before a
/// request for input, that before a progress marker, that before an idle
/// prompt; only a window with none of them is unknown.
pub proof fn lemma_priority(ls: Seq<Seq<char>>)
    ensures
        has_error_marker(window_of(ls)) ==> classify_lines(ls) == AgentStatus::Error,
        !has_error_marker(window_of(ls)) && has_waiting_marker(window_of(ls)) ==> classify_lines(
            ls,
        ) == AgentStatus::WaitingForInput,
        !has_error_marker(window_of(ls)) && !has_waiting_marker(window_of(ls)) && has_busy_marker(
            window_of(ls),
        ) ==> classify_lines(ls) == AgentStatus::Busy,
        !has_error_marker(window_of(ls)) && !has_waiting_marker(window_of(ls)) && !has_busy_marker(
            window_of(ls),
        ) && has_idle_marker(window_of(ls)) ==> classify_lines(ls) == AgentStatus::Idle,
        !has_error_marker(window_of(ls)) && !has_waiting_marker(window_of(ls)) && !has_busy_marker(
            window_of(ls),
        ) && !has_idle_marker(window_of(ls)) ==> classify_lines(ls) == AgentStatus::Unknown,
{
}

/// Classification is a function of the snapshot text alone: equal text
/// classifies equally, however often it is classified.
pub proof fn lemma_classify_deterministic(s1: Seq<char>, s2: Seq<char>)
    requires
        s1 == s2,
    ensures
        classify_spec(s1) == classify_spec(s2),
{
}

/// Classification reads only the final twenty lines: lines prepended before
/// a tail of at least twenty lines cannot change the result.
pub proof fn lemma_window_bound(prefix: Seq<Seq<char>>, ls: Seq<Seq<char>>)
    requires
        ls.len() >= 20,
    ensures
        classify_lines(prefix + ls) == classify_lines(ls),
{
    assert(window_of(prefix + ls) =~= window_of(ls));
}

/// The window bound on raw text: any text ending in a newline, prepended
/// before pane text of at least twenty lines, cannot change the result.
pub proof fn lemma_window_bound_text(prefix: Seq<char>, t: Seq<char>)
    requires
        prefix.len() > 0,
        prefix.last() == '\n',
        split_by(t, '\n', '\n').len() >= 20,
    ensures
        classify_spec(prefix + t) == classify_spec(t),
{
    crate::text::lemma_split_by_concat(prefix, t, '\n', '\n');
    crate::text::lemma_split_by_len(t, '\n', '\n');
    let rp = split_by(prefix, '\n', '\n');
    let rt = split_by(t, '\n', '\n');
    assert(rp == split_by(prefix.drop_last(), '\n', '\n').push(Seq::<char>::empty()));
    assert(rp.last() + rt.first() =~= rt.first());
    assert(split_by(prefix + t, '\n', '\n') =~~= rp.drop_last() + rt);
    lemma_window_bound(rp.drop_last(), rt);
}

fn line_is_error(l: &Vec<char>) -> (r: bool)
    ensures
        r == line_error_spec(l@),
{
    let p0 = str_chars("error:");
    if starts_with_ci_exec(l, &p0) {
        return true;
    }
    let p1 = str_chars("exception");
    if contains_ci_exec(l, &p1) {
        return true;
    }
    let p2 = str_chars("failed");
    if contains_ci_exec(l, &p2) {
        return true;
    }
    let p3 = str_chars("panic");
    if contains_ci_exec(l, &p3) {
        return true;
    }
    let p4 = str_chars("fatal");
    if contains_ci_exec(l, &p4) {
        return true;
    }
    let p5 = str_chars("crash");
    contains_ci_exec(l, &p5)
}

fn is_blank_caret(l: &Vec<char>) -> (r: bool)
    ensures
        r == blank_caret_line(l@),
{
    let mut i: usize = 0;
    while i < l.len()
        invariant
            i <= l@.len(),
            forall|j: int| 0 <= j < i ==> is_space_char(#[trigger] l@[j]),
        decreases l@.len() - i,
    {
        let c = l[i];
        if !is_space(c) {
            if c != '>' {
                proof {
                    if blank_caret_line(l@) {
                        let w = choose|w: int|
                            0 <= w < l@.len() && #[trigger] l@[w] == '>' && (forall|j: int|
                                0 <= j < l@.len() && j != w ==> is_space_char(#[trigger] l@[j]));
                        assert(w == i);
                    }
                }
                return false;
            }
            let mut j: usize = i + 1;
            while j < l.len()
                invariant
                    i < l@.len(),
                    l@[i as int] == '>',
                    i < j <= l@.len(),
                    forall|k: int| 0 <= k < i ==> is_space_char(#[trigger] l@[k]),
                    forall|k: int| i < k < j ==> is_space_char(#[trigger] l@[k]),
                decreases l@.len() - j,
            {
                if !is_space(l[j]) {
                    proof {
                        if blank_caret_line(l@) {
                            let w = choose|w: int|
                                0 <= w < l@.len() && #[trigger] l@[w] == '>' && (forall|jj: int|
                                    0 <= jj < l@.len() && jj != w ==> is_space_char(
                                        #[trigger] l@[jj],
                                    ));
                            assert(w == j);
                            assert(!is_space_char(l@[i as int]));
                        }
                    }
                    return false;
                }
                j += 1;
            }
            assert(blank_caret_line(l@));
            return true;
        }
        i += 1;
    }
    proof {
        if blank_caret_line(l@) {
            let w = choose|w: int|
                0 <= w < l@.len() && #[trigger] l@[w] == '>' && (forall|j: int|
                    0 <= j < l@.len() && j != w ==> is_space_char(#[trigger] l@[j]));
            assert(is_space_char(l@[w]));
        }
    }
    false
}

fn line_is_waiting(l: &Vec<char>) -> (r: bool)
    ensures
        r == line_waiting_spec(l@),
{
    if is_blank_caret(l) {
        return true;
    }
    let p0 = str_chars("type a message");
    if contains_ci_exec(l, &p0) {
        return true;
    }
    let p1 = str_chars("press enter");
    if contains_ci_exec(l, &p1) {
        return true;
    }
    let p2 = str_chars("waiting for input");
    if contains_ci_exec(l, &p2) {
        return true;
    }
    let p3 = str_chars("[y/n]");
    if contains_ci_exec(l, &p3) {
        return true;
    }
    let p4 = str_chars("(y/n)");
    contains_ci_exec(l, &p4)
}

fn has_spinner(l: &Vec<char>) -> (r: bool)
    ensures
        r == (exists|i: int| 0 <= i < l@.len() && is_spinner_char(#[trigger] l@[i])),
{
    let mut i: usize = 0;
    while i < l.len()
        invariant
            i <= l@.len(),
            forall|j: int| 0 <= j < i ==> !is_spinner_char(#[trigger] l@[j]),
        decreases l@.len() - i,
    {
        let c = l[i];
        if c == '\u{280b}' || c == '\u{2819}' || c == '\u{2839}' || c == '\u{2838}'
            || c == '\u{283c}' || c == '\u{2834}' || c == '\u{2826}' || c == '\u{2827}'
            || c == '\u{2807}' || c == '\u{280f}' {
            return true;
        }
        i += 1;
    }
    false
}

fn line_is_busy(l: &Vec<char>) -> (r: bool)
    ensures
        r == line_busy_spec(l@),
{
    let p0 = str_chars("thinking...");
    if contains_ci_exec(l, &p0) {
        return true;
    }
    let p1 = str_chars("processing");
    if contains_ci_exec(l, &p1) {
        return true;
    }
    let p2 = str_chars("loading");
    if contains_ci_exec(l, &p2) {
        return true;
    }
    let p3 = str_chars("working");
    if contains_ci_exec(l, &p3) {
        return true;
    }
    if has_spinner(l) {
        return true;
    }
    let p4 = str_chars("...");
    ends_with_exec(l, &p4)
}

fn is_bare_prompt(l: &Vec<char>, m: char) -> (r: bool)
    ensures
        r == bare_prompt_line(l@, m),
{
    if l.len() == 0 {
        return false;
    }
    if l[0] != m {
        return false;
    }
    let mut j: usize = 1;
    while j < l.len()
        invariant
            l@.len() > 0,
            l@[0] == m,
            1 <= j <= l@.len(),
            forall|k: int| 1 <= k < j ==> is_space_char(#[trigger] l@[k]),
        decreases l@.len() - j,
    {
        if !is_space(l[j]) {
            return false;
        }
        j += 1;
    }
    true
}

fn line_is_idle(l: &Vec<char>) -> (r: bool)
    ensures
        r == line_idle_spec(l@),
{
    if is_bare_prompt(l, '$') {
        return true;
    }
    if is_bare_prompt(l, '\u{276f}') {
        return true;
    }
    if is_bare_prompt(l, '>') {
        return true;
    }
    let p = str_chars("agent>");
    contains_exec(l, &p)
}

/// The status-inference engine: a fixed, immutable rule set applied
/// uniformly to every snapshot.
pub struct StateInferenceEngine;

impl StateInferenceEngine {
    /// Classifies pane text by the four pattern families in priority order.
    pub fn analyze(content: &str) -> (status: AgentStatus)
        ensures
            status == classify_spec(content@),
    {
        let chars = str_chars(content);
        let lines = split_chars(&chars, '\n', '\n');
        let start = if lines.len() > 20 { lines.len() - 20 } else { 0 };
        let ghost dv = lines.deep_view();
        let ghost w = window_of(dv);
        proof {
            assert(dv.len() == lines@.len());
            if lines@.len() <= 20 {
                assert(dv.skip(0) =~= dv);
            }
            assert(w =~= dv.skip(start as int));
        }
        let mut err = false;
        let mut waiting = false;
        let mut busy = false;
        let mut idle = false;
        let mut i: usize = start;
        while i < lines.len()
            invariant
                start <= i <= lines@.len(),
                dv == lines.deep_view(),
                err == (exists|k: int| start <= k < i && line_error_spec(#[trigger] dv[k])),
                waiting == (exists|k: int| start <= k < i && line_waiting_spec(#[trigger] dv[k])),
                busy == (exists|k: int| start <= k < i && line_busy_spec(#[trigger] dv[k])),
                idle == (exists|k: int| start <= k < i && line_idle_spec(#[trigger] dv[k])),
            decreases lines@.len() - i,
        {
            let line = &lines[i];
            proof {
                assert(dv[i as int] =~= lines@[i as int]@);
            }
            if !err && line_is_error(line) {
                err = true;
            }
            if !waiting && line_is_waiting(line) {
                waiting = true;
            }
            if !busy && line_is_busy(line) {
                busy = true;
            }
            if !idle && line_is_idle(line) {
                idle = true;
            }
            i += 1;
        }
        let last = &lines[lines.len() - 1];
        let question = last.len() > 0 && last[last.len() - 1] == '?';
        proof {
            assert(dv[dv.len() - 1] =~= lines@[lines@.len() - 1]@);
            assert(w.len() == dv.len() - start);
            assert forall|k: int| 0 <= k < w.len() implies w[k] == dv[k + start] by {}
            assert(err == has_error_marker(w)) by {
                if err {
                    let k = choose|k: int|
                        start <= k < dv.len() && line_error_spec(#[trigger] dv[k]);
                    assert(w[k - start] == dv[k]);
                }
                if has_error_marker(w) {
                    let k = choose|k: int| 0 <= k < w.len() && line_error_spec(#[trigger] w[k]);
                    assert(dv[k + start] == w[k]);
                }
            }
            assert(busy == has_busy_marker(w)) by {
                if busy {
                    let k = choose|k: int| start <= k < dv.len() && line_busy_spec(#[trigger] dv[k]);
                    assert(w[k - start] == dv[k]);
                }
                if has_busy_marker(w) {
                    let k = choose|k: int| 0 <= k < w.len() && line_busy_spec(#[trigger] w[k]);
                    assert(dv[k + start] == w[k]);
                }
            }
            assert(idle == has_idle_marker(w)) by {
                if idle {
                    let k = choose|k: int| start <= k < dv.len() && line_idle_spec(#[trigger] dv[k]);
                    assert(w[k - start] == dv[k]);
                }
                if has_idle_marker(w) {
                    let k = choose|k: int| 0 <= k < w.len() && line_idle_spec(#[trigger] w[k]);
                    assert(dv[k + start] == w[k]);
                }
            }
            assert(w.last() == dv.last());
            assert((waiting || question) == has_waiting_marker(w)) by {
                if waiting {
                    let k = choose|k: int|
                        start <= k < dv.len() && line_waiting_spec(#[trigger] dv[k]);
                    assert(w[k - start] == dv[k]);
                }
                if has_waiting_marker(w) && !(w.len() > 0 && w.last().len() > 0 && w.last().last()
                    == '?') {
                    let k = choose|k: int| 0 <= k < w.len() && line_waiting_spec(#[trigger] w[k]);
                    assert(dv[k + start] == w[k]);
                }
            }
        }
        if err {
            return AgentStatus::Error;
        }
        if waiting || question {
            return AgentStatus::WaitingForInput;
        }
        if busy {
            return AgentStatus::Busy;
        }
        if idle {
            return AgentStatus::Idle;
        }
        AgentStatus::Unknown
    }
}

} // verus!
