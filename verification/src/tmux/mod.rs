//! The multiplexer-facing side of the dashboard: the session record, the
//! status-inference engine and the client that prepares and interprets the
//! multiplexer's command lines.

pub mod client;
pub mod heuristics;

pub use client::ProcessError;
pub use client::TmuxClient;
pub use heuristics::AgentStatus;
pub use heuristics::StateInferenceEngine;

use vstd::prelude::*;

verus! {

/// One session as the dashboard knows it.
#[derive(Debug, Clone)]
pub struct TmuxSession {
    /// Opaque identifier assigned by the multiplexer (e.g. "$0").
    pub id: String,
    /// User-chosen session name.
    pub name: String,
    /// Unix timestamp of the session's creation.
    pub created_at: u64,
    /// Number of clients attached to the session.
    pub attached_clients: usize,
    /// Status inferred from the session's pane text.
    pub status: AgentStatus,
}

/// The mathematical shape of a session record.
#[verifier::ext_equal]
pub struct SessionModel {
    pub id: Seq<char>,
    pub name: Seq<char>,
    pub created_at: u64,
    pub attached_clients: usize,
    pub status: AgentStatus,
}

impl View for TmuxSession {
    type V = SessionModel;

    open spec fn view(&self) -> SessionModel {
        SessionModel {
            id: self.id@,
            name: self.name@,
            created_at: self.created_at,
            attached_clients: self.attached_clients,
            status: self.status,
        }
    }
}

/// The views of a sequence of session records.
pub open spec fn sessions_view(v: Seq<TmuxSession>) -> Seq<SessionModel> {
    Seq::new(v.len(), |i: int| v[i]@)
}

impl TmuxSession {
    /// A fresh record for a session of which only identity and name are
    /// known yet.
    pub fn new(id: String, name: String) -> (s: Self)
        ensures
            s@.id == id@,
            s@.name == name@,
            s@.created_at == 0,
            s@.attached_clients == 0,
            s@.status == AgentStatus::Unknown,
    {
        TmuxSession { id, name, created_at: 0, attached_clients: 0, status: AgentStatus::Unknown }
    }
}

} // verus!
