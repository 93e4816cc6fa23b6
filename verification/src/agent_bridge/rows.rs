//! The rows of the store, and what is written to it.

use vstd::prelude::*;
use vstd::string::*;
use crate::text::{dup_opt, opt, Dup};

verus! {

/// A session as it is listed.
#[derive(Clone, Debug, PartialEq)]
pub struct SessionRow {
    pub id: String,
    pub folder: String,
    /// "ask", "plan" or "coding".
    pub mode: String,
    pub title: Option<String>,
    pub parent_session_id: Option<String>,
    pub created_at: String,
    pub updated_at: String,
    /// "active", "idle" or "error".
    pub status: String,
    /// The provider and the model the session goes on with.
    pub provider_id: Option<String>,
    pub model: Option<String>,
}

/// What a [`SessionRow`] stands for.
#[verifier::ext_equal]
pub struct SessionRowView {
    pub id: Seq<char>,
    pub folder: Seq<char>,
    pub mode: Seq<char>,
    pub title: Option<Seq<char>>,
    pub parent_session_id: Option<Seq<char>>,
    pub created_at: Seq<char>,
    pub updated_at: Seq<char>,
    pub status: Seq<char>,
    pub provider_id: Option<Seq<char>>,
    pub model: Option<Seq<char>>,
}

impl View for SessionRow {
    type V = SessionRowView;

    open spec fn view(&self) -> SessionRowView {
        SessionRowView {
            id: self.id@,
            folder: self.folder@,
            mode: self.mode@,
            title: opt(self.title),
            parent_session_id: opt(self.parent_session_id),
            created_at: self.created_at@,
            updated_at: self.updated_at@,
            status: self.status@,
            provider_id: opt(self.provider_id),
            model: opt(self.model),
        }
    }
}

impl Dup for SessionRow {
    fn dup(&self) -> (r: Self) {
        SessionRow {
            id: self.id.clone(),
            folder: self.folder.clone(),
            mode: self.mode.clone(),
            title: dup_opt(&self.title),
            parent_session_id: dup_opt(&self.parent_session_id),
            created_at: self.created_at.clone(),
            updated_at: self.updated_at.clone(),
            status: self.status.clone(),
            provider_id: dup_opt(&self.provider_id),
            model: dup_opt(&self.model),
        }
    }
}

/// A session as it is kept: one that was deleted stays, out of sight.
#[derive(Clone, Debug, PartialEq)]
pub struct SessionRecord {
    pub row: SessionRow,
    pub deleted_at: Option<String>,
}

/// What a [`SessionRecord`] stands for.
#[verifier::ext_equal]
pub struct SessionRecordView {
    pub row: SessionRowView,
    pub deleted_at: Option<Seq<char>>,
}

impl View for SessionRecord {
    type V = SessionRecordView;

    open spec fn view(&self) -> SessionRecordView {
        SessionRecordView {
            row: self.row@,
            deleted_at: opt(self.deleted_at),
        }
    }
}

impl Dup for SessionRecord {
    fn dup(&self) -> (r: Self) {
        SessionRecord {
            row: self.row.dup(),
            deleted_at: dup_opt(&self.deleted_at),
        }
    }
}

/// A message as it is kept.
#[derive(Clone, Debug, PartialEq)]
pub struct StoredMessage {
    pub id: i64,
    pub session_id: String,
    pub project_path: String,
    pub role: String,
    pub type_: String,
    /// The message as JSON text.
    pub llm_message: String,
    /// JSON text.
    pub metadata: String,
    pub created_at: String,
    /// Set where the conversation was taken back to before this message.
    pub rewound_at: Option<String>,
    pub turn_count: Option<u32>,
}

/// What a [`StoredMessage`] stands for.
#[verifier::ext_equal]
pub struct StoredMessageView {
    pub id: i64,
    pub session_id: Seq<char>,
    pub project_path: Seq<char>,
    pub role: Seq<char>,
    pub type_: Seq<char>,
    pub llm_message: Seq<char>,
    pub metadata: Seq<char>,
    pub created_at: Seq<char>,
    pub rewound_at: Option<Seq<char>>,
    pub turn_count: Option<u32>,
}

impl View for StoredMessage {
    type V = StoredMessageView;

    open spec fn view(&self) -> StoredMessageView {
        StoredMessageView {
            id: self.id,
            session_id: self.session_id@,
            project_path: self.project_path@,
            role: self.role@,
            type_: self.type_@,
            llm_message: self.llm_message@,
            metadata: self.metadata@,
            created_at: self.created_at@,
            rewound_at: opt(self.rewound_at),
            turn_count: self.turn_count,
        }
    }
}

impl Dup for StoredMessage {
    fn dup(&self) -> (r: Self) {
        StoredMessage {
            id: self.id,
            session_id: self.session_id.clone(),
            project_path: self.project_path.clone(),
            role: self.role.clone(),
            type_: self.type_.clone(),
            llm_message: self.llm_message.clone(),
            metadata: self.metadata.clone(),
            created_at: self.created_at.clone(),
            rewound_at: dup_opt(&self.rewound_at),
            turn_count: self.turn_count,
        }
    }
}

/// A run as it is kept, its lists as JSON texts.
#[derive(Clone, Debug, PartialEq)]
pub struct RunRow {
    pub id: String,
    pub session_id: String,
    pub status: String,
    pub plan_versions: String,
    pub worker_results: String,
    pub cost_cents: u32,
    pub replans_used: u32,
    pub current_worker: String,
    pub pending_failure: String,
    pub created_at: String,
    pub updated_at: String,
}

/// What a [`RunRow`] stands for.
#[verifier::ext_equal]
pub struct RunRowView {
    pub id: Seq<char>,
    pub session_id: Seq<char>,
    pub status: Seq<char>,
    pub plan_versions: Seq<char>,
    pub worker_results: Seq<char>,
    pub cost_cents: u32,
    pub replans_used: u32,
    pub current_worker: Seq<char>,
    pub pending_failure: Seq<char>,
    pub created_at: Seq<char>,
    pub updated_at: Seq<char>,
}

impl View for RunRow {
    type V = RunRowView;

    open spec fn view(&self) -> RunRowView {
        RunRowView {
            id: self.id@,
            session_id: self.session_id@,
            status: self.status@,
            plan_versions: self.plan_versions@,
            worker_results: self.worker_results@,
            cost_cents: self.cost_cents,
            replans_used: self.replans_used,
            current_worker: self.current_worker@,
            pending_failure: self.pending_failure@,
            created_at: self.created_at@,
            updated_at: self.updated_at@,
        }
    }
}

impl Dup for RunRow {
    fn dup(&self) -> (r: Self) {
        RunRow {
            id: self.id.clone(),
            session_id: self.session_id.clone(),
            status: self.status.clone(),
            plan_versions: self.plan_versions.clone(),
            worker_results: self.worker_results.clone(),
            cost_cents: self.cost_cents,
            replans_used: self.replans_used,
            current_worker: self.current_worker.clone(),
            pending_failure: self.pending_failure.clone(),
            created_at: self.created_at.clone(),
            updated_at: self.updated_at.clone(),
        }
    }
}

/// A change to one session.
#[derive(Clone, Debug, PartialEq)]
pub enum SessionChange {
    Status(String),
    Title(String),
    Mode(String),
    Model { provider_id: String, model: String },
    Deleted,
    Touched,
}

/// What a [`SessionChange`] stands for.
#[verifier::ext_equal]
pub enum SessionChangeView {
    Status(Seq<char>),
    Title(Seq<char>),
    Mode(Seq<char>),
    Model { provider_id: Seq<char>, model: Seq<char> },
    Deleted,
    Touched,
}

impl View for SessionChange {
    type V = SessionChangeView;

    open spec fn view(&self) -> SessionChangeView {
        match self {
            SessionChange::Status(x) => SessionChangeView::Status(x@),
            SessionChange::Title(x) => SessionChangeView::Title(x@),
            SessionChange::Mode(x) => SessionChangeView::Mode(x@),
            SessionChange::Model { provider_id, model } => SessionChangeView::Model {
                provider_id: provider_id@,
                model: model@,
            },
            SessionChange::Deleted => SessionChangeView::Deleted,
            SessionChange::Touched => SessionChangeView::Touched,
        }
    }
}

impl Dup for SessionChange {
    fn dup(&self) -> (r: Self) {
        match self {
            SessionChange::Status(x) => SessionChange::Status(x.clone()),
            SessionChange::Title(x) => SessionChange::Title(x.clone()),
            SessionChange::Mode(x) => SessionChange::Mode(x.clone()),
            SessionChange::Model { provider_id, model } => SessionChange::Model {
                provider_id: provider_id.clone(),
                model: model.clone(),
            },
            SessionChange::Deleted => SessionChange::Deleted,
            SessionChange::Touched => SessionChange::Touched,
        }
    }
}

/// A write to the store.
#[allow(inconsistent_fields)]
#[derive(Clone, Debug, PartialEq)]
pub enum Write {
    CreateSession(SessionRow),
    ChangeSession { id: String, change: SessionChange, now: String },
    SetSkill { name: String, enabled: bool },
    SetSubagent { name: String, enabled: bool },
    InsertMessage(StoredMessage),
    DeleteContextUsage { session_id: String },
    RewindFromId { session_id: String, from_id: i64, now: String },
    RewindFromTurn { session_id: String, from_turn: u32, now: String },
    SetMessageContent { row_id: i64, llm_message: String },
    InsertRun(RunRow),
    /// Replaces everything of a run but its session and the time it was made.
    UpdateRun(RunRow),
    FailZombies { now: String },
}

/// What a [`Write`] stands for.
#[allow(inconsistent_fields)]
#[verifier::ext_equal]
pub enum WriteView {
    CreateSession(SessionRowView),
    ChangeSession { id: Seq<char>, change: SessionChangeView, now: Seq<char> },
    SetSkill { name: Seq<char>, enabled: bool },
    SetSubagent { name: Seq<char>, enabled: bool },
    InsertMessage(StoredMessageView),
    DeleteContextUsage { session_id: Seq<char> },
    RewindFromId { session_id: Seq<char>, from_id: i64, now: Seq<char> },
    RewindFromTurn { session_id: Seq<char>, from_turn: u32, now: Seq<char> },
    SetMessageContent { row_id: i64, llm_message: Seq<char> },
    InsertRun(RunRowView),
    UpdateRun(RunRowView),
    FailZombies { now: Seq<char> },
}

impl View for Write {
    type V = WriteView;

    open spec fn view(&self) -> WriteView {
        match self {
            Write::CreateSession(x) => WriteView::CreateSession(x@),
            Write::ChangeSession { id, change, now } => WriteView::ChangeSession {
                id: id@,
                change: change@,
                now: now@,
            },
            Write::SetSkill { name, enabled } => WriteView::SetSkill {
                name: name@,
                enabled: *enabled,
            },
            Write::SetSubagent { name, enabled } => WriteView::SetSubagent {
                name: name@,
                enabled: *enabled,
            },
            Write::InsertMessage(x) => WriteView::InsertMessage(x@),
            Write::DeleteContextUsage { session_id } => WriteView::DeleteContextUsage {
                session_id: session_id@,
            },
            Write::RewindFromId { session_id, from_id, now } => WriteView::RewindFromId {
                session_id: session_id@,
                from_id: *from_id,
                now: now@,
            },
            Write::RewindFromTurn { session_id, from_turn, now } => WriteView::RewindFromTurn {
                session_id: session_id@,
                from_turn: *from_turn,
                now: now@,
            },
            Write::SetMessageContent { row_id, llm_message } => WriteView::SetMessageContent {
                row_id: *row_id,
                llm_message: llm_message@,
            },
            Write::InsertRun(x) => WriteView::InsertRun(x@),
            Write::UpdateRun(x) => WriteView::UpdateRun(x@),
            Write::FailZombies { now } => WriteView::FailZombies {
                now: now@,
            },
        }
    }
}

impl Dup for Write {
    fn dup(&self) -> (r: Self) {
        match self {
            Write::CreateSession(x) => Write::CreateSession(x.dup()),
            Write::ChangeSession { id, change, now } => Write::ChangeSession {
                id: id.clone(),
                change: change.dup(),
                now: now.clone(),
            },
            Write::SetSkill { name, enabled } => Write::SetSkill {
                name: name.clone(),
                enabled: *enabled,
            },
            Write::SetSubagent { name, enabled } => Write::SetSubagent {
                name: name.clone(),
                enabled: *enabled,
            },
            Write::InsertMessage(x) => Write::InsertMessage(x.dup()),
            Write::DeleteContextUsage { session_id } => Write::DeleteContextUsage {
                session_id: session_id.clone(),
            },
            Write::RewindFromId { session_id, from_id, now } => Write::RewindFromId {
                session_id: session_id.clone(),
                from_id: *from_id,
                now: now.clone(),
            },
            Write::RewindFromTurn { session_id, from_turn, now } => Write::RewindFromTurn {
                session_id: session_id.clone(),
                from_turn: *from_turn,
                now: now.clone(),
            },
            Write::SetMessageContent { row_id, llm_message } => Write::SetMessageContent {
                row_id: *row_id,
                llm_message: llm_message.clone(),
            },
            Write::InsertRun(x) => Write::InsertRun(x.dup()),
            Write::UpdateRun(x) => Write::UpdateRun(x.dup()),
            Write::FailZombies { now } => Write::FailZombies {
                now: now.clone(),
            },
        }
    }
}

/// Why the store refused.
#[derive(Clone, Debug, PartialEq)]
pub enum AgentDbError {
    Sqlite(String),
    Io(String),
    Json(String),
}

/// What an [`AgentDbError`] stands for.
#[verifier::ext_equal]
pub enum AgentDbErrorView {
    Sqlite(Seq<char>),
    Io(Seq<char>),
    Json(Seq<char>),
}

impl View for AgentDbError {
    type V = AgentDbErrorView;

    open spec fn view(&self) -> AgentDbErrorView {
        match self {
            AgentDbError::Sqlite(x) => AgentDbErrorView::Sqlite(x@),
            AgentDbError::Io(x) => AgentDbErrorView::Io(x@),
            AgentDbError::Json(x) => AgentDbErrorView::Json(x@),
        }
    }
}

impl Dup for AgentDbError {
    fn dup(&self) -> (r: Self) {
        match self {
            AgentDbError::Sqlite(x) => AgentDbError::Sqlite(x.clone()),
            AgentDbError::Io(x) => AgentDbError::Io(x.clone()),
            AgentDbError::Json(x) => AgentDbError::Json(x.clone()),
        }
    }
}

impl AgentDbErrorView {
    /// The error as a sentence.
    pub open spec fn text(self) -> Seq<char> {
        match self {
            AgentDbErrorView::Sqlite(e) => "SQLite error: "@ + e,
            AgentDbErrorView::Io(e) => "IO error: "@ + e,
            AgentDbErrorView::Json(e) => "JSON error: "@ + e,
        }
    }
}

impl AgentDbError {
    /// The error as a sentence.
    pub fn to_text(&self) -> (r: String)
        ensures
            r@ == self@.text(),
    {
        match self {
            AgentDbError::Sqlite(e) => {
                let mut s = "SQLite error: ".to_owned();
                s.append(e.as_str());
                s
            },
            AgentDbError::Io(e) => {
                let mut s = "IO error: ".to_owned();
                s.append(e.as_str());
                s
            },
            AgentDbError::Json(e) => {
                let mut s = "JSON error: ".to_owned();
                s.append(e.as_str());
                s
            },
        }
    }
}

} // verus!
