//! What is to be done to a database file before it is used.

use vstd::prelude::*;
use vstd::string::*;
use crate::agent_bridge::rows::{AgentDbError, AgentDbErrorView};
use crate::text::{deep, lemma_deep_push};

verus! {

broadcast use lemma_deep_push;

/// How a connection is set up.
pub const CONNECTION_PRAGMAS: &'static str = "PRAGMA journal_mode = WAL; PRAGMA busy_timeout = 5000; PRAGMA synchronous = NORMAL; PRAGMA wal_autocheckpoint = 400; PRAGMA cache_size = -32768;";

/// How a new file is laid out; it has no effect once there are tables.
pub const PAGE_SIZE_PRAGMA: &'static str = "PRAGMA page_size = 8192;";

/// The tables and their indexes.
pub const SCHEMA: &'static str = "CREATE TABLE IF NOT EXISTS sessions ( id TEXT PRIMARY KEY, folder TEXT NOT NULL, mode TEXT NOT NULL, title TEXT, parent_session_id TEXT, created_at TEXT NOT NULL, updated_at TEXT NOT NULL, status TEXT NOT NULL DEFAULT 'active', provider_id TEXT, model TEXT, deleted_at TEXT ); CREATE INDEX IF NOT EXISTS idx_sessions_updated ON sessions(updated_at DESC); CREATE INDEX IF NOT EXISTS idx_sessions_folder ON sessions(folder); CREATE TABLE IF NOT EXISTS agent_messages ( id INTEGER PRIMARY KEY AUTOINCREMENT, session_id TEXT NOT NULL DEFAULT '', project_path TEXT NOT NULL DEFAULT '', role TEXT NOT NULL, type TEXT NOT NULL, llm_message TEXT NOT NULL, metadata TEXT NOT NULL DEFAULT '{}', created_at TEXT NOT NULL, rewound_at TEXT DEFAULT NULL, turn_count INTEGER DEFAULT NULL ); CREATE INDEX IF NOT EXISTS idx_msgs_session ON agent_messages(session_id, created_at); CREATE INDEX IF NOT EXISTS idx_msgs_session_active ON agent_messages(session_id, rewound_at); CREATE INDEX IF NOT EXISTS idx_msgs_type ON agent_messages(session_id, type); CREATE TABLE IF NOT EXISTS skill_prefs ( skill_name TEXT PRIMARY KEY, enabled INTEGER NOT NULL DEFAULT 1 ); CREATE TABLE IF NOT EXISTS subagent_prefs ( subagent_name TEXT PRIMARY KEY, enabled INTEGER NOT NULL DEFAULT 1 ); CREATE TABLE IF NOT EXISTS auto_runs ( id TEXT PRIMARY KEY, session_id TEXT NOT NULL, status TEXT NOT NULL, plan_versions TEXT NOT NULL DEFAULT '[]', worker_results TEXT NOT NULL DEFAULT '[]', cost_cents INTEGER NOT NULL DEFAULT 0, replans_used INTEGER NOT NULL DEFAULT 0, current_worker TEXT NOT NULL DEFAULT 'null', pending_failure TEXT NOT NULL DEFAULT 'null', created_at TEXT NOT NULL, updated_at TEXT NOT NULL ); CREATE INDEX IF NOT EXISTS idx_auto_runs_session ON auto_runs(session_id, updated_at DESC); PRAGMA user_version = 1;";

/// A statement for a database file.
#[derive(Clone, Debug, PartialEq)]
pub struct Statement {
    pub sql: String,
    /// Whether the column that the statement adds may be there already.
    pub adds_column: bool,
}

/// What a [`Statement`] stands for.
#[verifier::ext_equal]
pub struct StatementView {
    pub sql: Seq<char>,
    pub adds_column: bool,
}

impl View for Statement {
    type V = StatementView;

    open spec fn view(&self) -> StatementView {
        StatementView { sql: self.sql@, adds_column: self.adds_column }
    }
}

pub open spec fn plain(sql: Seq<char>) -> StatementView {
    StatementView { sql, adds_column: false }
}

pub open spec fn column(sql: Seq<char>) -> StatementView {
    StatementView { sql, adds_column: true }
}

/// The statements that add the columns that files of earlier versions lack.
pub open spec fn migrations() -> Seq<StatementView> {
    seq![
        column("ALTER TABLE sessions ADD COLUMN provider_id TEXT"@),
        column("ALTER TABLE sessions ADD COLUMN model TEXT"@),
        column("ALTER TABLE sessions ADD COLUMN deleted_at TEXT"@),
        column("ALTER TABLE auto_runs ADD COLUMN current_worker TEXT NOT NULL DEFAULT 'null'"@),
        column("ALTER TABLE auto_runs ADD COLUMN pending_failure TEXT NOT NULL DEFAULT 'null'"@),
    ]
}

/// What brings a file up to date; `initialized` says whether it has tables.
pub open spec fn schema_of(initialized: bool) -> Seq<StatementView> {
    let tables = if initialized {
        seq![plain(SCHEMA@)]
    } else {
        seq![plain(PAGE_SIZE_PRAGMA@), plain(SCHEMA@)]
    };
    tables + migrations()
}

fn statement(sql: &str, adds_column: bool) -> (r: Statement)
    ensures
        r@ == (StatementView { sql: sql@, adds_column }),
{
    Statement { sql: sql.to_owned(), adds_column }
}

/// What brings a file up to date, in order.
pub fn schema_statements(initialized: bool) -> (r: Vec<Statement>)
    ensures
        deep(r@) == schema_of(initialized),
{
    let mut out: Vec<Statement> = Vec::new();
    if !initialized {
        out.push(statement(PAGE_SIZE_PRAGMA, false));
    }
    out.push(statement(SCHEMA, false));
    out.push(statement("ALTER TABLE sessions ADD COLUMN provider_id TEXT", true));
    out.push(statement("ALTER TABLE sessions ADD COLUMN model TEXT", true));
    out.push(statement("ALTER TABLE sessions ADD COLUMN deleted_at TEXT", true));
    out.push(
        statement(
            "ALTER TABLE auto_runs ADD COLUMN current_worker TEXT NOT NULL DEFAULT 'null'",
            true,
        ),
    );
    out.push(
        statement(
            "ALTER TABLE auto_runs ADD COLUMN pending_failure TEXT NOT NULL DEFAULT 'null'",
            true,
        ),
    );
    assert(deep(out@) =~= schema_of(initialized));
    out
}

/// Whether `p` stands at place `i` of `s`.
pub open spec fn stands_at(s: Seq<char>, p: Seq<char>, i: int) -> bool {
    0 <= i && i + p.len() <= s.len() && s.subrange(i, i + p.len()) == p
}

/// Whether `p` stands somewhere in `s`.
pub open spec fn has_part(s: Seq<char>, p: Seq<char>) -> bool {
    exists|i: int| stands_at(s, p, i)
}

fn contains_part(s: &str, p: &str) -> (r: bool)
    ensures
        r == has_part(s@, p@),
{
    let n: usize = s.unicode_len();
    let k: usize = p.unicode_len();
    if k > n {
        return false;
    }
    let mut i: usize = 0;
    loop
        invariant_except_break
            i <= n - k,
            forall|x: int| 0 <= x < i ==> !#[trigger] stands_at(s@, p@, x),
        invariant
            n == s@.len(),
            k == p@.len(),
            k <= n,
        ensures
            forall|x: int| 0 <= x <= n - k ==> !#[trigger] stands_at(s@, p@, x),
        decreases n - k - i,
    {
        if crate::text::same_text(s.substring_char(i, i + k), p) {
            assert(stands_at(s@, p@, i as int));
            return true;
        }
        assert(!stands_at(s@, p@, i as int));
        if i == n - k {
            break;
        }
        i += 1;
    }
    proof {
        if has_part(s@, p@) {
            let x = choose|x: int| stands_at(s@, p@, x);
            assert(stands_at(s@, p@, x));
        }
    }
    false
}

/// What the outcome of a statement means: an error stops the opening, unless it
/// says that the column to be added is there.
pub fn statement_outcome(s: &Statement, error: Option<String>) -> (r: Result<(), AgentDbError>)
    ensures
        match error {
            Some(e) if !(s@.adds_column && has_part(e@, "duplicate column"@)) => r matches Err(f)
                && f@ == AgentDbErrorView::Sqlite(e@),
            _ => r is Ok,
        },
{
    match error {
        Some(e) => if s.adds_column && contains_part(e.as_str(), "duplicate column") {
            Ok(())
        } else {
            Err(AgentDbError::Sqlite(e))
        },
        None => Ok(()),
    }
}

} // verus!
