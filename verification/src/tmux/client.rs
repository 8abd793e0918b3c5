//! The gateway to the multiplexer process: builds the exact command lines
//! the dashboard runs, and interprets what the process printed. The
//! invocation itself is I/O and happens outside the library; everything
//! here is the pure preparation and interpretation around it.

use vstd::prelude::*;

use vstd::string::StringExecFns;

use crate::actions::{Action, ActionModel};
use crate::text::{
    chars_string, contains_exec, contains_seq, parse_u64_or_zero, parse_usize_or_zero, parsed_u64,
    parsed_usize, split_by, split_chars, str_chars, str_eq,
};
use crate::tmux::heuristics::{classify_spec, AgentStatus, StateInferenceEngine};
use crate::tmux::{sessions_view, SessionModel, TmuxSession};

verus! {

/// A failure of the external multiplexer process.
#[derive(Debug, Clone)]
pub enum ProcessError {
    /// The process exited unsuccessfully; carries the prepared diagnostic.
    CommandFailed(String),
    /// The process could not be spawned; carries the reported reason.
    SpawnFailed(String),
    /// A session that was just created did not appear in the listing.
    SessionNotFound,
}

impl ProcessError {
    /// The diagnostic text of this failure.
    pub open spec fn message_spec(&self) -> Seq<char> {
        match self {
            ProcessError::CommandFailed(m) => m@,
            ProcessError::SpawnFailed(m) => m@,
            ProcessError::SessionNotFound => "Session created but not found"@,
        }
    }

    /// The diagnostic text of this failure, for display.
    pub fn message(&self) -> (r: String)
        ensures
            r@ == self.message_spec(),
    {
        match self {
            ProcessError::CommandFailed(m) => m.clone(),
            ProcessError::SpawnFailed(m) => m.clone(),
            ProcessError::SessionNotFound => String::from_str("Session created but not found"),
        }
    }
}

/// Client for interacting with the multiplexer through its command line.
pub struct TmuxClient {
    /// Path of the multiplexer binary.
    tmux_path: String,
}

impl TmuxClient {
    /// The path of the binary every command line starts with.
    pub closed spec fn path_spec(&self) -> Seq<char> {
        self.tmux_path@
    }

    /// A client that runs the multiplexer found on the search path.
    pub fn new() -> (c: Self)
        ensures
            c.path_spec() == "tmux"@,
    {
        TmuxClient { tmux_path: String::from_str("tmux") }
    }

    /// The command line that attaches the terminal to a session in the
    /// foreground, for the caller to run with inherited standard streams.
    pub fn attach_command(&self, session_id: &str) -> (cmd: Vec<String>)
        ensures
            cmd.deep_view() == seq![self.path_spec(), "attach-session"@, "-t"@, session_id@],
    {
        let mut cmd: Vec<String> = Vec::new();
        cmd.push(self.tmux_path.clone());
        cmd.push(String::from_str("attach-session"));
        cmd.push(String::from_str("-t"));
        cmd.push(session_id.to_owned());
        proof {
            assert(cmd.deep_view() =~= seq![
                self.path_spec(),
                "attach-session"@,
                "-t"@,
                session_id@,
            ]);
        }
        cmd
    }
}

/// What one line of the listing parses to: four pipe-delimited fields give
/// a session with status not yet inferred; fewer fields give nothing.
/// Numeric fields that do not parse read as zero.
pub open spec fn parse_line_spec(l: Seq<char>) -> Option<SessionModel> {
    let fields = split_by(l, '|', '|');
    if fields.len() < 4 {
        None
    } else {
        Some(
            SessionModel {
                id: fields[0],
                name: fields[1],
                created_at: parsed_u64(fields[2]),
                attached_clients: parsed_usize(fields[3]),
                status: AgentStatus::Unknown,
            },
        )
    }
}

/// The sessions a sequence of listing lines parses to, in order; lines that
/// do not parse are dropped.
pub open spec fn parse_lines_spec(lines: Seq<Seq<char>>) -> Seq<SessionModel>
    decreases lines.len(),
{
    if lines.len() == 0 {
        Seq::empty()
    } else {
        let front = parse_lines_spec(lines.drop_last());
        match parse_line_spec(lines.last()) {
            Some(s) => front.push(s),
            None => front,
        }
    }
}

/// The sessions the listing's standard output parses to.
pub open spec fn parse_list_spec(out: Seq<char>) -> Seq<SessionModel> {
    parse_lines_spec(split_by(out, '\n', '\n'))
}

/// The diagnostics by which the multiplexer reports an absent server or an
/// empty session list: both are success with no sessions, not failures.
pub open spec fn empty_server_diag(err: Seq<char>) -> bool {
    contains_seq(err, "no server running"@) || contains_seq(err, "no sessions"@)
}

/// The first session of the given name, if one is listed.
pub open spec fn find_by_name_spec(ss: Seq<SessionModel>, name: Seq<char>) -> Option<SessionModel>
    decreases ss.len(),
{
    if ss.len() == 0 {
        None
    } else if ss.first().name == name {
        Some(ss.first())
    } else {
        find_by_name_spec(ss.drop_first(), name)
    }
}

fn parse_line_chars(l: &Vec<char>) -> (r: Option<TmuxSession>)
    ensures
        match r {
            Some(s) => parse_line_spec(l@) == Some(s@),
            None => parse_line_spec(l@) is None,
        },
{
    let fields = split_chars(l, '|', '|');
    let ghost fv = fields.deep_view();
    if fields.len() < 4 {
        return None;
    }
    proof {
        assert(fv[0] =~= fields@[0]@);
        assert(fv[1] =~= fields@[1]@);
        assert(fv[2] =~= fields@[2]@);
        assert(fv[3] =~= fields@[3]@);
    }
    let id = chars_string(&fields[0]);
    let name = chars_string(&fields[1]);
    let created_at = parse_u64_or_zero(&fields[2]);
    let attached_clients = parse_usize_or_zero(&fields[3]);
    let s = TmuxSession { id, name, created_at, attached_clients, status: AgentStatus::Unknown };
    proof {
        let fs = split_by(l@, '|', '|');
        assert(s@ =~= (SessionModel {
            id: fs[0],
            name: fs[1],
            created_at: parsed_u64(fs[2]),
            attached_clients: parsed_usize(fs[3]),
            status: AgentStatus::Unknown,
        }));
    }
    Some(s)
}

impl TmuxClient {
    /// One line of the listing, parsed; the status is not inferred here.
    pub fn parse_session_line(line: &str) -> (r: Option<TmuxSession>)
        ensures
            match r {
                Some(s) => parse_line_spec(line@) == Some(s@),
                None => parse_line_spec(line@) is None,
            },
    {
        let chars = str_chars(line);
        parse_line_chars(&chars)
    }

    /// Everything the listing's standard output names, in order.
    pub fn parse_list_output(stdout: &str) -> (r: Vec<TmuxSession>)
        ensures
            sessions_view(r@) == parse_list_spec(stdout@),
    {
        let chars = str_chars(stdout);
        let lines = split_chars(&chars, '\n', '\n');
        let ghost dv = lines.deep_view();
        let mut out: Vec<TmuxSession> = Vec::new();
        let mut i: usize = 0;
        proof {
            assert(dv.take(0) =~= Seq::<Seq<char>>::empty());
            assert(sessions_view(out@) =~= parse_lines_spec(dv.take(0)));
        }
        while i < lines.len()
            invariant
                i <= lines@.len(),
                dv == lines.deep_view(),
                sessions_view(out@) == parse_lines_spec(dv.take(i as int)),
            decreases lines@.len() - i,
        {
            proof {
                assert(dv.take(i + 1).drop_last() =~= dv.take(i as int));
                assert(dv.take(i + 1).last() == dv[i as int]);
                assert(dv[i as int] =~= lines@[i as int]@);
            }
            match parse_line_chars(&lines[i]) {
                Some(s) => {
                    out.push(s);
                    proof {
                        assert(sessions_view(out@) =~= parse_lines_spec(dv.take(i + 1)));
                    }
                },
                None => {
                    proof {
                        assert(sessions_view(out@) =~= parse_lines_spec(dv.take(i + 1)));
                    }
                },
            }
            i += 1;
        }
        proof {
            assert(dv.take(dv.len() as int) =~= dv);
        }
        out
    }

    /// What the listing invocation's outcome means: success parses the
    /// output; the known "empty server" diagnostics are an empty listing;
    /// any other failure carries the prepared diagnostic.
    pub fn list_sessions_outcome(exit_success: bool, stdout: &str, stderr: &str) -> (r: Result<
        Vec<TmuxSession>,
        ProcessError,
    >)
        ensures
            exit_success ==> (r matches Ok(v) && sessions_view(v@) == parse_list_spec(stdout@)),
            !exit_success && empty_server_diag(stderr@) ==> (r matches Ok(v) && v@.len() == 0),
            !exit_success && !empty_server_diag(stderr@) ==> (r matches Err(e) && e matches
                ProcessError::CommandFailed(m) && m@ == "tmux list-sessions failed: "@ + stderr@),
    {
        if exit_success {
            return Ok(Self::parse_list_output(stdout));
        }
        let echars = str_chars(stderr);
        let p1 = str_chars("no server running");
        let p2 = str_chars("no sessions");
        if contains_exec(&echars, &p1) || contains_exec(&echars, &p2) {
            return Ok(Vec::new());
        }
        let mut m = String::from_str("tmux list-sessions failed: ");
        m.append(stderr);
        Err(ProcessError::CommandFailed(m))
    }

    /// What the creation invocation's outcome means.
    pub fn create_session_outcome(exit_success: bool, stderr: &str) -> (r: Result<
        (),
        ProcessError,
    >)
        ensures
            exit_success ==> r is Ok,
            !exit_success ==> (r matches Err(e) && e matches ProcessError::CommandFailed(m) && m@
                == "Failed to create session: "@ + stderr@),
    {
        if exit_success {
            return Ok(());
        }
        let mut m = String::from_str("Failed to create session: ");
        m.append(stderr);
        Err(ProcessError::CommandFailed(m))
    }

    /// What the kill invocation's outcome means.
    pub fn kill_session_outcome(exit_success: bool, stderr: &str) -> (r: Result<(), ProcessError>)
        ensures
            exit_success ==> r is Ok,
            !exit_success ==> (r matches Err(e) && e matches ProcessError::CommandFailed(m) && m@
                == "Failed to kill session: "@ + stderr@),
    {
        if exit_success {
            return Ok(());
        }
        let mut m = String::from_str("Failed to kill session: ");
        m.append(stderr);
        Err(ProcessError::CommandFailed(m))
    }

    /// The just-created session, picked from a fresh listing by its name;
    /// a listing that does not show it is reported as a failure.
    #[verifier::loop_isolation(false)]
    pub fn find_created_session(sessions: Vec<TmuxSession>, name: &str) -> (r: Result<
        TmuxSession,
        ProcessError,
    >)
        ensures
            ({
                let found = find_by_name_spec(sessions_view(sessions@), name@);
                &&& (found is Some ==> r is Ok && r->Ok_0@ == found->Some_0)
                &&& (found is None ==> r is Err && r->Err_0 is SessionNotFound)
            }),
    {
        let ghost sv = sessions_view(sessions@);
        let mut sessions = sessions;
        let mut i: usize = 0;
        proof {
            assert(sv.skip(0) =~= sv);
        }
        while i < sessions.len()
            invariant
                i <= sessions@.len(),
                sv == sessions_view(sessions@),
                find_by_name_spec(sv, name@) == find_by_name_spec(sv.skip(i as int), name@),
            decreases sessions@.len() - i,
        {
            proof {
                assert(sv.skip(i as int).first() == sv[i as int]);
                assert(sv.skip(i as int).drop_first() =~= sv.skip(i + 1));
            }
            if str_eq(sessions[i].name.as_str(), name) {
                proof {
                    assert(sv[i as int].name == name@);
                    assert(find_by_name_spec(sv.skip(i as int), name@) == Some(sv[i as int]));
                }
                let s = sessions.remove(i);
                proof {
                    assert(s@ == sv[i as int]);
                    assert(find_by_name_spec(sv, name@) == Some(s@));
                }
                return Ok(s);
            }
            i += 1;
        }
        proof {
            assert(sv.skip(i as int).len() == 0);
        }
        Err(ProcessError::SessionNotFound)
    }

    /// The session record with the status its captured pane infers; a
    /// capture that failed leaves the status unknown rather than aborting
    /// the poll cycle.
    pub fn session_with_status(s: TmuxSession, capture: Option<&str>) -> (r: TmuxSession)
        ensures
            r@ == (SessionModel {
                status: match capture {
                    Some(t) => classify_spec(t@),
                    None => AgentStatus::Unknown,
                },
                ..s@
            }),
    {
        let status = match capture {
            Some(t) => StateInferenceEngine::analyze(t),
            None => AgentStatus::Unknown,
        };
        let r = TmuxSession {
            id: s.id,
            name: s.name,
            created_at: s.created_at,
            attached_clients: s.attached_clients,
            status,
        };
        proof {
            assert(r@ =~= (SessionModel {
                status: match capture {
                    Some(t) => classify_spec(t@),
                    None => AgentStatus::Unknown,
                },
                ..s@
            }));
        }
        r
    }

    /// The event one poll cycle hands the reducer: the fresh registry on
    /// success, a message on failure; a failed poll never stops polling.
    pub fn poll_event(r: Result<Vec<TmuxSession>, ProcessError>) -> (a: Action)
        ensures
            r matches Ok(v) ==> a@ == ActionModel::SessionsUpdated(sessions_view(v@)),
            r matches Err(e) ==> a@ == ActionModel::Error("Tmux: "@ + e.message_spec()),
    {
        match r {
            Ok(v) => Action::SessionsUpdated(v),
            Err(e) => {
                let mut m = String::from_str("Tmux: ");
                m.append(e.message().as_str());
                Action::Error(m)
            },
        }
    }

    /// The path of the multiplexer binary, for the caller to invoke.
    pub fn path(&self) -> (r: &str)
        ensures
            r@ == self.path_spec(),
    {
        self.tmux_path.as_str()
    }

    /// The arguments of the listing invocation: one line per session, four
    /// pipe-delimited fields.
    pub fn list_sessions_args(&self) -> (args: Vec<String>)
        ensures
            args.deep_view() == seq![
                "list-sessions"@,
                "-F"@,
                "#{session_id}|#{session_name}|#{session_created}|#{session_attached}"@,
            ],
    {
        let mut args: Vec<String> = Vec::new();
        args.push(String::from_str("list-sessions"));
        args.push(String::from_str("-F"));
        args.push(String::from_str("#{session_id}|#{session_name}|#{session_created}|#{session_attached}"));
        proof {
            assert(args.deep_view() =~= seq![
                "list-sessions"@,
                "-F"@,
                "#{session_id}|#{session_name}|#{session_created}|#{session_attached}"@,
            ]);
        }
        args
    }

    /// The arguments that capture a session's visible pane text.
    pub fn capture_pane_args(&self, session_id: &str) -> (args: Vec<String>)
        ensures
            args.deep_view() == seq!["capture-pane"@, "-p"@, "-t"@, session_id@],
    {
        let mut args: Vec<String> = Vec::new();
        args.push(String::from_str("capture-pane"));
        args.push(String::from_str("-p"));
        args.push(String::from_str("-t"));
        args.push(session_id.to_owned());
        proof {
            assert(args.deep_view() =~= seq!["capture-pane"@, "-p"@, "-t"@, session_id@]);
        }
        args
    }

    /// The arguments that create a detached session of the given name.
    pub fn create_session_args(&self, name: &str) -> (args: Vec<String>)
        ensures
            args.deep_view() == seq!["new-session"@, "-d"@, "-s"@, name@],
    {
        let mut args: Vec<String> = Vec::new();
        args.push(String::from_str("new-session"));
        args.push(String::from_str("-d"));
        args.push(String::from_str("-s"));
        args.push(name.to_owned());
        proof {
            assert(args.deep_view() =~= seq!["new-session"@, "-d"@, "-s"@, name@]);
        }
        args
    }

    /// The arguments that kill a session.
    pub fn kill_session_args(&self, session_id: &str) -> (args: Vec<String>)
        ensures
            args.deep_view() == seq!["kill-session"@, "-t"@, session_id@],
    {
        let mut args: Vec<String> = Vec::new();
        args.push(String::from_str("kill-session"));
        args.push(String::from_str("-t"));
        args.push(session_id.to_owned());
        proof {
            assert(args.deep_view() =~= seq!["kill-session"@, "-t"@, session_id@]);
        }
        args
    }

    /// The directory holding the per-session history sinks, under the
    /// dashboard's state directory in the given home directory.
    pub fn history_dir_path(home: &str) -> (r: String)
        ensures
            r@ == home@ + "/.agent-deck/history"@,
    {
        let mut p = home.to_owned();
        p.append("/.agent-deck/history");
        p
    }

    /// The isolated history sink of the named session, keyed by its name so
    /// later inspection does not cross-contaminate sessions.
    pub fn history_file_path(home: &str, name: &str) -> (r: String)
        ensures
            r@ == home@ + "/.agent-deck/history/"@ + name@ + ".hist"@,
    {
        let mut p = home.to_owned();
        p.append("/.agent-deck/history/");
        p.append(name);
        p.append(".hist");
        p
    }
}

impl Default for TmuxClient {
    /// The same client `new` yields.
    fn default() -> (c: Self)
        ensures
            c.path_spec() == "tmux"@,
    {
        TmuxClient::new()
    }
}

} // verus!
