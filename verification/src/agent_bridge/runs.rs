//! The runs in the store, and the messages that anchor them in a conversation.

use vstd::prelude::*;
use vstd::string::*;
use crate::agent_bridge::db::{error_of, AgentDb};
use crate::agent_bridge::messages::first_message;
use crate::agent_bridge::order::{newest_order, order_newest, positions};
use crate::agent_bridge::rows::{
    AgentDbError, AgentDbErrorView, RunRow, RunRowView, StoredMessage, StoredMessageView, Write,
    WriteView,
};
use crate::agent_bridge::tables::TablesView;
use crate::auto::codec::{
    array_of, auto_status_from_text, auto_status_of, auto_status_text, auto_status_to_text,
    law_auto_status_roundtrip, law_list_roundtrip, law_opt_roundtrip, lemma_depth_grows,
    list_from_json, list_json, list_to_json, opt_from_json, opt_json, opt_of, opt_to_json, Coded,
};
use crate::auto::types::{
    AutoRun, AutoRunView, AutoStatus, Plan, WorkerFailureContext, WorkerResult, WorkerSpec,
};
use crate::json::{
    json_parsed, json_text, parse_json, parsed_view, quote, quoted, reads_as, text_json, write_json,
    Json, JsonV,
};
use crate::sqlite::{compares, json_member_is, member_is};
use crate::text::{
    deep, first_where, is_first, lemma_deep_push, lemma_first, lemma_no_first, lemma_take_next, opt,
    same_text, Dup,
};

verus! {

broadcast use lemma_deep_push;

// ── Columns ──

/// The error of a column whose JSON is of another shape than what it should hold.
pub open spec fn shape_error() -> Seq<char> {
    "unexpected shape"@
}

/// What a list column holds, given what its text was read as.
pub open spec fn list_column<T: Coded>(parsed: Result<JsonV, Seq<char>>) -> Result<
    Seq<T::V>,
    Seq<char>,
> {
    match parsed {
        Err(e) => Err(e),
        Ok(j) => match array_of::<T>(j) {
            Some(s) => Ok(s),
            None => Err(shape_error()),
        },
    }
}

/// What an optional column holds, given what its text was read as.
pub open spec fn opt_column<T: Coded>(parsed: Result<JsonV, Seq<char>>) -> Result<
    Option<T::V>,
    Seq<char>,
> {
    match parsed {
        Err(e) => Err(e),
        Ok(j) => match opt_of::<T>(j) {
            Some(o) => Ok(o),
            None => Err(shape_error()),
        },
    }
}

/// Takes a list column from what its text was read as.
pub fn read_list<T: Coded>(parsed: Result<Json, String>) -> (r: Result<Vec<T>, String>)
    ensures
        match r {
            Ok(v) => list_column::<T>(parsed_view(parsed)) == Ok::<Seq<T::V>, Seq<char>>(deep(v@)),
            Err(e) => list_column::<T>(parsed_view(parsed)) == Err::<Seq<T::V>, Seq<char>>(e@),
        },
{
    match parsed {
        Err(e) => Err(e),
        Ok(j) => match list_from_json::<T>(&j) {
            Some(v) => Ok(v),
            None => Err("unexpected shape".to_owned()),
        },
    }
}

/// Takes an optional column from what its text was read as.
pub fn read_opt<T: Coded>(parsed: Result<Json, String>) -> (r: Result<Option<T>, String>)
    ensures
        match r {
            Ok(o) => opt_column::<T>(parsed_view(parsed)) == Ok::<Option<T::V>, Seq<char>>(opt(o)),
            Err(e) => opt_column::<T>(parsed_view(parsed)) == Err::<Option<T::V>, Seq<char>>(e@),
        },
{
    match parsed {
        Err(e) => Err(e),
        Ok(j) => match opt_from_json::<T>(&j) {
            Some(o) => Ok(o),
            None => Err("unexpected shape".to_owned()),
        },
    }
}

// ── Rows ──

/// What a status column holds, given what its text, in quotes, was read as.
pub open spec fn status_column(parsed: Result<JsonV, Seq<char>>) -> Result<AutoStatus, Seq<char>> {
    match parsed {
        Err(e) => Err(e),
        Ok(JsonV::Str(s)) => match auto_status_of(s) {
            Some(status) => Ok(status),
            None => Err(shape_error()),
        },
        Ok(_) => Err(shape_error()),
    }
}

/// Takes a status column from what its text, in quotes, was read as.
pub fn read_status(parsed: Result<Json, String>) -> (r: Result<AutoStatus, String>)
    ensures
        match r {
            Ok(s) => status_column(parsed_view(parsed)) == Ok::<AutoStatus, Seq<char>>(s),
            Err(e) => status_column(parsed_view(parsed)) == Err::<AutoStatus, Seq<char>>(e@),
        },
{
    match parsed {
        Err(e) => Err(e),
        Ok(j) => match j.as_str() {
            Some(s) => match auto_status_from_text(s) {
                Some(status) => Ok(status),
                None => Err("unexpected shape".to_owned()),
            },
            None => Err("unexpected shape".to_owned()),
        },
    }
}

/// The run of a row, or the error of the first column that cannot be read.
pub open spec fn run_of_row(row: RunRowView) -> Result<AutoRunView, AgentDbErrorView> {
    match status_column(json_parsed(quoted(row.status))) {
        Err(e) => Err(AgentDbErrorView::Json(e)),
        Ok(status) => match list_column::<Plan>(json_parsed(row.plan_versions)) {
            Err(e) => Err(AgentDbErrorView::Json(e)),
            Ok(plan_versions) => match list_column::<WorkerResult>(
                json_parsed(row.worker_results),
            ) {
                Err(e) => Err(AgentDbErrorView::Json(e)),
                Ok(worker_results) => match opt_column::<WorkerSpec>(
                    json_parsed(row.current_worker),
                ) {
                    Err(e) => Err(AgentDbErrorView::Json(e)),
                    Ok(current_worker) => match opt_column::<WorkerFailureContext>(
                        json_parsed(row.pending_failure),
                    ) {
                        Err(e) => Err(AgentDbErrorView::Json(e)),
                        Ok(pending_failure) => Ok(
                            AutoRunView {
                                id: row.id,
                                session_id: row.session_id,
                                status,
                                plan_versions,
                                worker_results,
                                cost_cents: row.cost_cents,
                                replans_used: row.replans_used,
                                current_worker,
                                pending_failure,
                            },
                        ),
                    },
                },
            },
        },
    }
}

/// The row of a run.
pub open spec fn row_of_run(run: AutoRunView, now: Seq<char>) -> RunRowView {
    RunRowView {
        id: run.id,
        session_id: run.session_id,
        status: auto_status_text(run.status),
        plan_versions: json_text(JsonV::Array(list_json::<Plan>(run.plan_versions))),
        worker_results: json_text(JsonV::Array(list_json::<WorkerResult>(run.worker_results))),
        cost_cents: run.cost_cents,
        replans_used: run.replans_used,
        current_worker: json_text(opt_json::<WorkerSpec>(run.current_worker)),
        pending_failure: json_text(opt_json::<WorkerFailureContext>(run.pending_failure)),
        created_at: now,
        updated_at: now,
    }
}

/// What an attempt to read a run came to.
pub open spec fn run_result(r: Result<AutoRun, AgentDbError>) -> Result<AutoRunView, AgentDbErrorView> {
    match r {
        Ok(run) => Ok(run@),
        Err(e) => Err(e@),
    }
}

fn run_from_row(row: &RunRow) -> (r: Result<AutoRun, AgentDbError>)
    ensures
        run_result(r) == run_of_row(row@),
{
    let status = match read_status(parse_json(quote(row.status.as_str()).as_str())) {
        Ok(s) => s,
        Err(e) => {
            return Err(AgentDbError::Json(e));
        },
    };
    let plan_versions = match read_list::<Plan>(parse_json(row.plan_versions.as_str())) {
        Ok(v) => v,
        Err(e) => {
            return Err(AgentDbError::Json(e));
        },
    };
    let worker_results = match read_list::<WorkerResult>(parse_json(row.worker_results.as_str())) {
        Ok(v) => v,
        Err(e) => {
            return Err(AgentDbError::Json(e));
        },
    };
    let current_worker = match read_opt::<WorkerSpec>(parse_json(row.current_worker.as_str())) {
        Ok(v) => v,
        Err(e) => {
            return Err(AgentDbError::Json(e));
        },
    };
    let pending_failure = match read_opt::<WorkerFailureContext>(
        parse_json(row.pending_failure.as_str()),
    ) {
        Ok(v) => v,
        Err(e) => {
            return Err(AgentDbError::Json(e));
        },
    };
    Ok(
        AutoRun {
            id: row.id.clone(),
            session_id: row.session_id.clone(),
            status,
            plan_versions,
            worker_results,
            cost_cents: row.cost_cents,
            replans_used: row.replans_used,
            current_worker,
            pending_failure,
        },
    )
}

proof fn lemma_status_plain(s: AutoStatus)
    ensures
        JsonV::Str(auto_status_text(s)).needs_no_escape(),
{
    reveal_strlit("planning");
    reveal_strlit("awaiting_approval");
    reveal_strlit("running");
    reveal_strlit("awaiting_failure_decision");
    reveal_strlit("done");
    reveal_strlit("failed");
    reveal_strlit("cancelled");
}

/// The text of a status as it is kept: its JSON form without the quotes.
fn status_text(s: AutoStatus) -> (r: String)
    ensures
        r@ == auto_status_text(s),
        reads_as(quoted(r@), JsonV::Str(r@)),
{
    proof {
        lemma_status_plain(s);
        reveal_strlit("\"");
    }
    let written = write_json(&text_json(auto_status_to_text(s)));
    let n: usize = written.as_str().unicode_len();
    let bare = written.as_str().substring_char(1, n - 1).to_owned();
    assert(bare@ =~= auto_status_text(s));
    bare
}

fn row_from_run(run: &AutoRun, now: &str) -> (r: RunRow)
    ensures
        r@ == row_of_run(run@, now@),
        run_of_row(r@) == Ok::<AutoRunView, AgentDbErrorView>(run@),
{
    let ghost rv = run@;
    proof {
        law_auto_status_roundtrip(rv.status);
        law_list_roundtrip::<Plan>(rv.plan_versions);
        law_list_roundtrip::<WorkerResult>(rv.worker_results);
        law_opt_roundtrip::<WorkerSpec>(rv.current_worker);
        law_opt_roundtrip::<WorkerFailureContext>(rv.pending_failure);
        lemma_depth_grows(JsonV::Array(list_json::<Plan>(rv.plan_versions)), 5, 127);
        lemma_depth_grows(JsonV::Array(list_json::<WorkerResult>(rv.worker_results)), 3, 127);
        lemma_depth_grows(opt_json::<WorkerSpec>(rv.current_worker), 2, 127);
        lemma_depth_grows(opt_json::<WorkerFailureContext>(rv.pending_failure), 1, 127);
    }
    RunRow {
        id: run.id.clone(),
        session_id: run.session_id.clone(),
        status: status_text(run.status),
        plan_versions: write_json(&list_to_json(&run.plan_versions)),
        worker_results: write_json(&list_to_json(&run.worker_results)),
        cost_cents: run.cost_cents,
        replans_used: run.replans_used,
        current_worker: write_json(&opt_to_json(&run.current_worker)),
        pending_failure: write_json(&opt_to_json(&run.pending_failure)),
        created_at: now.to_owned(),
        updated_at: now.to_owned(),
    }
}

// ── Queries ──

/// The row of a run, if there is one.
pub open spec fn run_row(t: TablesView, id: Seq<char>) -> Option<RunRowView> {
    match first_where(t.runs.len() as int, |i: int| t.runs[i].id == id) {
        Some(i) => Some(t.runs[i]),
        None => None,
    }
}

/// The runs of a session, the one that was changed last first.
pub open spec fn session_rows(t: TablesView, session_id: Seq<char>) -> Seq<RunRowView> {
    newest_rows(t.runs.filter(|r: RunRowView| r.session_id == session_id))
}

pub open spec fn newest_rows(rows: Seq<RunRowView>) -> Seq<RunRowView> {
    let stamps = Seq::new(rows.len(), |i: int| rows[i].updated_at);
    Seq::new(rows.len(), |k: int| rows[newest_order(stamps)[k]])
}

/// The runs of rows, or the error of the first that cannot be read.
pub open spec fn runs_of_rows(rows: Seq<RunRowView>) -> Result<Seq<AutoRunView>, AgentDbErrorView>
    decreases rows.len(),
{
    if rows.len() == 0 {
        Ok(Seq::empty())
    } else {
        match runs_of_rows(rows.drop_last()) {
            Err(e) => Err(e),
            Ok(runs) => match run_of_row(rows.last()) {
                Err(e) => Err(e),
                Ok(run) => Ok(runs.push(run)),
            },
        }
    }
}

/// What stopping at the first error of a list gives.
proof fn lemma_first_error(rows: Seq<RunRowView>, i: int)
    requires
        0 <= i < rows.len(),
        runs_of_rows(rows.take(i + 1)) is Err,
    ensures
        runs_of_rows(rows) == runs_of_rows(rows.take(i + 1)),
    decreases rows.len() - i,
{
    if i + 1 < rows.len() {
        assert(rows.take(i + 2).drop_last() =~= rows.take(i + 1));
        lemma_first_error(rows, i + 1);
    } else {
        assert(rows.take(i + 1) =~= rows);
    }
}

/// Where a message's metadata says which run it belongs to.
pub const RUN_ID_PATH: &'static str = "$.auto_run_id";

/// Whether a message carries a run's id, or why that cannot be said.
pub open spec fn tags_run(m: StoredMessageView, run_id: Seq<char>) -> Result<bool, Seq<char>> {
    member_is(m.metadata, RUN_ID_PATH@, run_id)
}

/// A message at which looking for one of a role that carries a run's id ends: it does
/// and was not taken back, or it cannot be said whether it does.
pub open spec fn ends_search(m: StoredMessageView, role: Seq<char>, run_id: Seq<char>) -> bool {
    &&& m.role == role
    &&& match tags_run(m, run_id) {
        Err(_) => true,
        Ok(tagged) => tagged && m.rewound_at is None,
    }
}

/// The first message of a role that carries a run's id and was not taken back. A
/// message of the role on the way there of which that cannot be said is an error.
pub open spec fn anchor_of(t: TablesView, role: Seq<char>, run_id: Seq<char>) -> Result<
    Option<StoredMessageView>,
    AgentDbErrorView,
> {
    match first_message(t.messages, |m: StoredMessageView| ends_search(m, role, run_id)) {
        Some(m) => match tags_run(m, run_id) {
            Err(e) => Err(AgentDbErrorView::Sqlite(e)),
            Ok(_) => Ok(Some(m)),
        },
        None => Ok(None),
    }
}

/// What is known of each message that was looked at: those of the role, as far as
/// the search went.
pub open spec fn looked_at(t: TablesView, role: Seq<char>, run_id: Seq<char>) -> bool {
    forall|i: int|
        0 <= i < t.messages.len() && (#[trigger] t.messages[i]).role == role && (forall|j: int|
            0 <= j < i ==> !ends_search(#[trigger] t.messages[j], role, run_id)) ==> compares(
            t.messages[i].metadata,
            RUN_ID_PATH@,
            run_id,
            tags_run(t.messages[i], run_id),
        )
}

/// What an attempt to find a message came to.
pub open spec fn found_message(r: Result<Option<StoredMessage>, AgentDbError>) -> Result<
    Option<StoredMessageView>,
    AgentDbErrorView,
> {
    match r {
        Ok(o) => Ok(opt(o)),
        Err(e) => Err(e@),
    }
}

/// The text of a user's message, given what it was read as.
pub open spec fn prompt_in(message: Result<JsonV, Seq<char>>) -> Result<
    Option<Seq<char>>,
    AgentDbErrorView,
> {
    match message {
        Err(e) => Err(AgentDbErrorView::Json(e)),
        Ok(j) => match j.get("content"@) {
            Some(v) => Ok(v.as_str()),
            None => Ok(None),
        },
    }
}

/// Reads off the text of a user's message.
pub fn read_prompt(message: Result<Json, String>) -> (r: Result<Option<String>, AgentDbError>)
    ensures
        match r {
            Ok(o) => prompt_in(parsed_view(message)) == Ok::<_, AgentDbErrorView>(opt(o)),
            Err(e) => prompt_in(parsed_view(message)) == Err::<Option<Seq<char>>, _>(e@),
        },
{
    match message {
        Err(e) => Err(AgentDbError::Json(e)),
        Ok(j) => match j.get_str("content") {
            Some(s) => Ok(Some(s.to_owned())),
            None => Ok(None),
        },
    }
}

fn sort_rows(rows: Vec<RunRow>) -> (r: Vec<RunRow>)
    ensures
        deep(r@) == newest_rows(deep(rows@)),
{
    let ghost all = deep(rows@);
    let ghost want = Seq::new(all.len(), |i: int| all[i].updated_at);
    let mut stamps: Vec<String> = Vec::new();
    let mut i: usize = 0;
    assert(deep(stamps@) =~= want.take(0));
    while i < rows.len()
        invariant
            i <= rows@.len(),
            all == deep(rows@),
            want == Seq::new(all.len(), |i: int| all[i].updated_at),
            deep(stamps@) == want.take(i as int),
        decreases rows@.len() - i,
    {
        let s = rows[i].updated_at.clone();
        proof {
            assert(all[i as int] == rows@[i as int]@);
            lemma_take_next(want, i as int);
        }
        stamps.push(s);
        i += 1;
    }
    assert(want.take(i as int) =~= want);
    let order = order_newest(&stamps);
    let mut out: Vec<RunRow> = Vec::new();
    let mut k: usize = 0;
    while k < order.len()
        invariant
            k <= order@.len(),
            all == deep(rows@),
            order@.len() == rows@.len(),
            forall|k: int| 0 <= k < order@.len() ==> (#[trigger] order@[k]) < rows@.len(),
            deep(out@).len() == k,
            forall|j: int| 0 <= j < k ==> #[trigger] deep(out@)[j] == all[order@[j] as int],
        decreases order@.len() - k,
    {
        let p: usize = order[k];
        let row = rows[p].dup();
        assert(row@ == all[order@[k as int] as int]);
        out.push(row);
        k += 1;
    }
    proof {
        assert forall|j: int| 0 <= j < all.len() implies #[trigger] deep(out@)[j]
            == all[newest_order(want)[j]] by {
            assert(positions(order@)[j] == order@[j] as int);
        }
        assert(deep(out@) =~= newest_rows(all));
    }
    out
}

impl AgentDb {
    fn find_run(&self, id: &str) -> (r: Option<usize>)
        requires
            self.wf(),
        ensures
            match r {
                Some(i) => i < self@.runs.len() && first_where(
                    self@.runs.len() as int,
                    |i: int| self@.runs[i].id == id@,
                ) == Some(i as int) && self@.has_run(id@),
                None => first_where(
                    self@.runs.len() as int,
                    |i: int| self@.runs[i].id == id@,
                ) is None && !self@.has_run(id@),
            },
    {
        let runs = self.runs();
        let ghost all = self@.runs;
        let ghost hit = |i: int| self@.runs[i].id == id@;
        let mut i: usize = 0;
        while i < runs.len()
            invariant
                i <= runs@.len(),
                all == self@.runs,
                all == deep(runs@),
                hit == (|i: int| self@.runs[i].id == id@),
                forall|k: int| 0 <= k < i ==> !#[trigger] hit(k),
            decreases runs@.len() - i,
        {
            assert(all[i as int] == runs@[i as int]@);
            if same_text(runs[i].id.as_str(), id) {
                proof {
                    assert(hit(i as int));
                    lemma_first(all.len() as int, hit, i as int);
                }
                return Some(i);
            }
            assert(!hit(i as int));
            i += 1;
        }
        proof {
            lemma_no_first(all.len() as int, hit);
            assert forall|k: int| 0 <= k < all.len() implies (#[trigger] all[k]).id != id@ by {
                assert(!hit(k));
            }
        }
        None
    }

    /// Adds a run.
    pub fn insert_auto_run(&mut self, run: &AutoRun, now: &str) -> (r: Result<(), AgentDbError>)
        requires
            old(self).wf(),
        ensures
            final(self).wf(),
            final(self).saved() == old(self).saved(),
            old(self)@.has_run(run@.id) ==> final(self)@ == old(self)@ && error_of(r) == Some(
                AgentDbErrorView::Sqlite("UNIQUE constraint failed: auto_runs.id"@),
            ),
            !old(self)@.has_run(run@.id) ==> {
                &&& r is Ok
                &&& final(self)@ == old(self)@.after(WriteView::InsertRun(row_of_run(run@, now@)))
                &&& run_of_row(row_of_run(run@, now@)) == Ok::<AutoRunView, AgentDbErrorView>(run@)
            },
    {
        if self.find_run(run.id.as_str()).is_some() {
            return Err(AgentDbError::Sqlite("UNIQUE constraint failed: auto_runs.id".to_owned()));
        }
        let row = row_from_run(run, now);
        self.write(Write::InsertRun(row));
        Ok(())
    }

    /// Replaces what is kept of a run.
    pub fn update_auto_run(&mut self, run: &AutoRun, now: &str) -> (r: Result<(), AgentDbError>)
        requires
            old(self).wf(),
        ensures
            final(self).wf(),
            final(self).saved() == old(self).saved(),
            r is Ok,
            final(self)@ == old(self)@.after(WriteView::UpdateRun(row_of_run(run@, now@))),
            run_of_row(row_of_run(run@, now@)) == Ok::<AutoRunView, AgentDbErrorView>(run@),
    {
        let row = row_from_run(run, now);
        self.write(Write::UpdateRun(row));
        Ok(())
    }

    /// The run with an id.
    pub fn get_auto_run(&self, id: &str) -> (r: Result<Option<AutoRun>, AgentDbError>)
        requires
            self.wf(),
        ensures
            match run_row(self@, id@) {
                None => r matches Ok(o) && o is None,
                Some(row) => match run_of_row(row) {
                    Ok(run) => r matches Ok(o) && opt(o) == Some(run),
                    Err(e) => error_of(r) == Some(e),
                },
            },
    {
        match self.find_run(id) {
            None => Ok(None),
            Some(i) => {
                let runs = self.runs();
                assert(self@.runs[i as int] == runs@[i as int]@);
                match run_from_row(&runs[i]) {
                    Ok(run) => Ok(Some(run)),
                    Err(e) => Err(e),
                }
            },
        }
    }

    /// Gives up the runs that were being executed when the program ended. Gives
    /// their number.
    pub fn mark_zombie_auto_runs_failed(&mut self, now: &str) -> (r: Result<usize, AgentDbError>)
        requires
            old(self).wf(),
        ensures
            final(self).wf(),
            final(self).saved() == old(self).saved(),
            r matches Ok(n) && n == old(self)@.runs.filter(|r: RunRowView| r.executing()).len(),
            reads_as(quoted("failed"@), JsonV::Str("failed"@)),
            final(self)@ == old(self)@.after(WriteView::FailZombies { now: now@ }),
    {
        let runs = self.runs();
        let ghost all = deep(runs@);
        let ghost p = |r: RunRowView| r.executing();
        let mut n: usize = 0;
        let mut i: usize = 0;
        proof {
            reveal(Seq::filter);
            assert(all.take(0).filter(p) =~= Seq::empty());
        }
        while i < runs.len()
            invariant
                n <= i <= runs@.len(),
                all == deep(runs@),
                p == (|r: RunRowView| r.executing()),
                n == all.take(i as int).filter(p).len(),
            decreases runs@.len() - i,
        {
            let row = &runs[i];
            proof {
                assert(all[i as int] == row@);
                lemma_take_next(all, i as int);
                all.take(i as int).lemma_filter_push(all[i as int], p);
            }
            if same_text(row.status.as_str(), "planning") || same_text(
                row.status.as_str(),
                "running",
            ) {
                n += 1;
            }
            i += 1;
        }
        assert(all.take(i as int) =~= all);
        let failed = status_text(AutoStatus::Failed);
        assert(failed@ == "failed"@);
        self.write(Write::FailZombies { now: now.to_owned() });
        Ok(n)
    }

    /// The runs of a session, the one that was changed last first.
    pub fn list_auto_runs_for_session(&self, session_id: &str) -> (r: Result<
        Vec<AutoRun>,
        AgentDbError,
    >)
        requires
            self.wf(),
        ensures
            match runs_of_rows(session_rows(self@, session_id@)) {
                Ok(runs) => r matches Ok(v) && deep(v@) == runs,
                Err(e) => error_of(r) == Some(e),
            },
    {
        let runs = self.runs();
        let ghost all = deep(runs@);
        let ghost p = |r: RunRowView| r.session_id == session_id@;
        let mut mine: Vec<RunRow> = Vec::new();
        let mut i: usize = 0;
        proof {
            reveal(Seq::filter);
            assert(deep(mine@) =~= all.take(0).filter(p));
        }
        while i < runs.len()
            invariant
                i <= runs@.len(),
                all == deep(runs@),
                p == (|r: RunRowView| r.session_id == session_id@),
                deep(mine@) == all.take(i as int).filter(p),
            decreases runs@.len() - i,
        {
            let row = &runs[i];
            proof {
                assert(all[i as int] == row@);
                lemma_take_next(all, i as int);
                all.take(i as int).lemma_filter_push(all[i as int], p);
            }
            if same_text(row.session_id.as_str(), session_id) {
                mine.push(row.dup());
            }
            i += 1;
        }
        assert(all.take(i as int) =~= all);
        let rows = sort_rows(mine);
        let ghost rv = deep(rows@);
        let mut out: Vec<AutoRun> = Vec::new();
        let mut k: usize = 0;
        proof {
            assert(rv.take(0) =~= Seq::empty());
            assert(deep(out@) =~= Seq::<AutoRunView>::empty());
        }
        while k < rows.len()
            invariant
                k <= rows@.len(),
                rv == deep(rows@),
                rv == session_rows(self@, session_id@),
                runs_of_rows(rv.take(k as int)) == Ok::<Seq<AutoRunView>, AgentDbErrorView>(
                    deep(out@),
                ),
            decreases rows@.len() - k,
        {
            proof {
                assert(rv[k as int] == rows@[k as int]@);
                lemma_take_next(rv, k as int);
                assert(rv.take(k + 1).drop_last() =~= rv.take(k as int));
            }
            match run_from_row(&rows[k]) {
                Ok(run) => {
                    out.push(run);
                },
                Err(e) => {
                    proof {
                        lemma_first_error(rv, k as int);
                    }
                    return Err(e);
                },
            }
            k += 1;
        }
        assert(rv.take(k as int) =~= rv);
        Ok(out)
    }

    fn find_anchor(&self, role: &str, run_id: &str) -> (r: Result<
        Option<StoredMessage>,
        AgentDbError,
    >)
        requires
            self.wf(),
        ensures
            found_message(r) == anchor_of(self@, role@, run_id@),
            looked_at(self@, role@, run_id@),
    {
        let ms = self.messages();
        let ghost all = self@.messages;
        let ghost fits = |m: StoredMessageView| ends_search(m, role@, run_id@);
        let ghost hit = |i: int| fits(all[i]);
        let mut i: usize = 0;
        while i < ms.len()
            invariant
                i <= ms@.len(),
                all == deep(ms@),
                all == self@.messages,
                fits == (|m: StoredMessageView| ends_search(m, role@, run_id@)),
                hit == (|i: int| fits(all[i])),
                forall|k: int| 0 <= k < i ==> !#[trigger] hit(k),
                forall|k: int|
                    0 <= k < i && (#[trigger] all[k]).role == role@ ==> compares(
                        all[k].metadata,
                        RUN_ID_PATH@,
                        run_id@,
                        tags_run(all[k], run_id@),
                    ),
            decreases ms@.len() - i,
        {
            let m = &ms[i];
            assert(all[i as int] == m@);
            if same_text(m.role.as_str(), role) {
                match json_member_is(m.metadata.as_str(), RUN_ID_PATH, run_id) {
                    Err(e) => {
                        proof {
                            assert(hit(i as int));
                            assert(ends_search(all[i as int], role@, run_id@));
                            lemma_first(all.len() as int, hit, i as int);
                        }
                        return Err(AgentDbError::Sqlite(e));
                    },
                    Ok(tagged) => {
                        if tagged && m.rewound_at.is_none() {
                            proof {
                                assert(hit(i as int));
                                assert(ends_search(all[i as int], role@, run_id@));
                                lemma_first(all.len() as int, hit, i as int);
                            }
                            return Ok(Some(m.dup()));
                        }
                    },
                }
            }
            assert(!hit(i as int));
            i += 1;
        }
        proof {
            lemma_no_first(all.len() as int, hit);
        }
        Ok(None)
    }

    /// The id of the message that stands for a run in the conversation.
    pub fn find_auto_assistant_row_id(&self, auto_run_id: &str) -> (r: Result<
        Option<i64>,
        AgentDbError,
    >)
        requires
            self.wf(),
        ensures
            match anchor_of(self@, "assistant"@, auto_run_id@) {
                Ok(Some(m)) => r matches Ok(o) && o == Some(m.id),
                Ok(None) => r matches Ok(o) && o is None,
                Err(e) => error_of(r) == Some(e),
            },
            looked_at(self@, "assistant"@, auto_run_id@),
    {
        match self.find_anchor("assistant", auto_run_id) {
            Ok(Some(m)) => Ok(Some(m.id)),
            Ok(None) => Ok(None),
            Err(e) => Err(e),
        }
    }

    /// The task that a run was started with.
    pub fn find_auto_user_prompt(&self, auto_run_id: &str) -> (r: Result<
        Option<String>,
        AgentDbError,
    >)
        requires
            self.wf(),
        ensures
            match anchor_of(self@, "user"@, auto_run_id@) {
                Ok(Some(m)) => match prompt_in(json_parsed(m.llm_message)) {
                    Ok(p) => r matches Ok(o) && opt(o) == p,
                    Err(e) => error_of(r) == Some(e),
                },
                Ok(None) => r matches Ok(o) && o is None,
                Err(e) => error_of(r) == Some(e),
            },
            looked_at(self@, "user"@, auto_run_id@),
    {
        match self.find_anchor("user", auto_run_id) {
            Ok(Some(m)) => read_prompt(parse_json(m.llm_message.as_str())),
            Ok(None) => Ok(None),
            Err(e) => Err(e),
        }
    }
}

// ── Laws ──

/// A run that was added is read back as it was.
pub proof fn law_read_after_insert(t: TablesView, run: AutoRunView, now: Seq<char>)
    requires
        !t.has_run(run.id),
        run_of_row(row_of_run(run, now)) == Ok::<AutoRunView, AgentDbErrorView>(run),
    ensures
        run_row(t.after(WriteView::InsertRun(row_of_run(run, now))), run.id) == Some(
            row_of_run(run, now),
        ),
        run_of_row(
            run_row(t.after(WriteView::InsertRun(row_of_run(run, now))), run.id)->0,
        ) == Ok::<AutoRunView, AgentDbErrorView>(run),
{
    let u = t.after(WriteView::InsertRun(row_of_run(run, now)));
    let hit = |i: int| u.runs[i].id == run.id;
    let n = t.runs.len() as int;
    assert(hit(n));
    assert forall|j: int| 0 <= j < n implies !#[trigger] hit(j) by {
        assert(t.runs[j].id != run.id);
    }
    assert(is_first(u.runs.len() as int, hit, n));
    lemma_first(u.runs.len() as int, hit, n);
}

/// A run that was replaced is read back as it was last written; its session stays.
pub proof fn law_read_after_update(t: TablesView, run: AutoRunView, now: Seq<char>)
    requires
        run_row(t, run.id) matches Some(row) && row.session_id == run.session_id,
        run_of_row(row_of_run(run, now)) == Ok::<AutoRunView, AgentDbErrorView>(run),
    ensures
        run_row(t.after(WriteView::UpdateRun(row_of_run(run, now))), run.id) matches Some(row)
            && run_of_row(row) == Ok::<AutoRunView, AgentDbErrorView>(run),
{
    let u = t.after(WriteView::UpdateRun(row_of_run(run, now)));
    let hit = |i: int| t.runs[i].id == run.id;
    let hit2 = |i: int| u.runs[i].id == run.id;
    let n = t.runs.len() as int;
    let i = choose|i: int| is_first(n, hit, i);
    assert(is_first(n, hit, i));
    assert(hit(i));
    assert(hit2(i));
    assert forall|j: int| 0 <= j < i implies !#[trigger] hit2(j) by {
        assert(!hit(j));
    }
    assert(is_first(u.runs.len() as int, hit2, i));
    lemma_first(u.runs.len() as int, hit2, i);
    lemma_first(n, hit, i);
}

/// Giving up the runs that were being executed leaves those that wait for the user,
/// and those that have ended, as they are. The others are read as failed, and as
/// they were otherwise. The second condition is what
/// [`AgentDb::mark_zombie_auto_runs_failed`] hands on.
pub proof fn law_zombies_spare_waiting(t: TablesView, now: Seq<char>, i: int)
    requires
        0 <= i < t.runs.len(),
        reads_as(quoted("failed"@), JsonV::Str("failed"@)),
    ensures
        ({
            let before = t.runs[i];
            let after = t.after(WriteView::FailZombies { now }).runs[i];
            let status = auto_status_of(before.status);
            &&& status == Some(AutoStatus::AwaitingApproval) ==> after == before
            &&& status == Some(AutoStatus::AwaitingFailureDecision) ==> after == before
            &&& status == Some(AutoStatus::Done) ==> after == before
            &&& status == Some(AutoStatus::Failed) ==> after == before
            &&& status == Some(AutoStatus::Cancelled) ==> after == before
            &&& status == Some(AutoStatus::Planning) || status == Some(AutoStatus::Running) ==> {
                &&& auto_status_of(after.status) == Some(AutoStatus::Failed)
                &&& run_of_row(before) matches Ok(run) ==> run_of_row(after) == Ok::<
                    AutoRunView,
                    AgentDbErrorView,
                >(AutoRunView { status: AutoStatus::Failed, ..run })
            }
        }),
{
    law_auto_status_roundtrip(AutoStatus::Planning);
    law_auto_status_roundtrip(AutoStatus::Running);
    law_auto_status_roundtrip(AutoStatus::Failed);
}

} // verus!
