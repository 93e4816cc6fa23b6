//! What holds of the store: what each write changes and what it leaves, and what is
//! found in it.

use vstd::prelude::*;
use crate::agent_bridge::db::{active_sessions, live_sessions, rows_of};
use crate::agent_bridge::message_laws::lemma_filter_has;
use crate::agent_bridge::messages::{
    chat_json, compaction_json, count_under, first_message, new_message, session_init_of,
    usage_json, usage_of,
};
use crate::agent_bridge::order::{
    law_newest_order, lemma_order_reaches, newest_order, text_less,
};
use crate::agent_bridge::rows::{
    AgentDbErrorView, RunRowView, SessionChangeView, SessionRecordView, SessionRowView,
    StoredMessageView, WriteView,
};
use crate::agent_bridge::runs::{
    anchor_of, row_of_run, run_of_row, run_row, runs_of_rows, session_rows,
};
use crate::agent_bridge::settings::{auto_pair, pool_in, settings_of, switch_fault, uses_auto};
use crate::agent_bridge::startup::{has_part, schema_of, stands_at};
use crate::agent_bridge::tables::TablesView;
use crate::agent_bridge::turns::{run_anchor, run_task};
use crate::auto::codec::{
    failure_json, list_json, model_ref_of, plan_json, worker_result_json, worker_spec_json,
};
use crate::auto::types::{AutoRunView, AutoStatus, Plan, WorkerResult};
use crate::json::{json_parsed, json_text, JsonV};
use crate::sqlite::member_is;
use crate::text::{holds_text, dec, first_where, is_first, lemma_filtered, lemma_first, lemma_has_first, lemma_no_first};

verus! {

// ── What a write changes ──

/// Only the table that a write is about changes.
pub proof fn law_write_keeps_the_rest(t: TablesView, w: WriteView)
    ensures
        ({
            let u = t.after(w);
            let on_sessions = w is CreateSession || w is ChangeSession;
            let on_messages = w is InsertMessage || w is DeleteContextUsage || w is RewindFromId
                || w is RewindFromTurn || w is SetMessageContent;
            let on_runs = w is InsertRun || w is UpdateRun || w is FailZombies;
            &&& !on_sessions ==> u.sessions == t.sessions
            &&& !on_messages ==> u.messages == t.messages
            &&& !(w is InsertMessage) ==> u.last_id == t.last_id
            &&& !on_runs ==> u.runs == t.runs
            &&& !(w is SetSkill) ==> u.skills == t.skills
            &&& !(w is SetSubagent) ==> u.subagents == t.subagents
        }),
{
}

/// A session that is made stands behind the others, as it was given and not deleted. A
/// skill or a subagent is as it was last set.
pub proof fn law_added(t: TablesView, row: SessionRowView, name: Seq<char>, enabled: bool)
    ensures
        t.after(WriteView::CreateSession(row)).sessions == t.sessions.push(
            SessionRecordView { row, deleted_at: None },
        ),
        t.after(WriteView::SetSkill { name, enabled }).skills == t.skills.insert(name, enabled),
        t.after(WriteView::SetSubagent { name, enabled }).subagents == t.subagents.insert(
            name,
            enabled,
        ),
{
}

/// A change of a session changes what it names and when the session was last changed,
/// of that session alone.
pub proof fn law_session_changed(
    t: TablesView,
    id: Seq<char>,
    change: SessionChangeView,
    now: Seq<char>,
    i: int,
)
    requires
        0 <= i < t.sessions.len(),
    ensures
        ({
            let u = t.after(WriteView::ChangeSession { id, change, now });
            let a = t.sessions[i];
            let b = u.sessions[i];
            &&& u.sessions.len() == t.sessions.len()
            &&& a.row.id != id ==> b == a
            &&& a.row.id == id ==> {
                &&& b.row.id == a.row.id && b.row.folder == a.row.folder
                &&& b.row.parent_session_id == a.row.parent_session_id
                &&& b.row.created_at == a.row.created_at
                &&& b.row.updated_at == now
                &&& b.row.status == if change is Status { change->Status_0 } else { a.row.status }
                &&& b.row.title == if change is Title { Some(change->Title_0) } else { a.row.title }
                &&& b.row.mode == if change is Mode { change->Mode_0 } else { a.row.mode }
                &&& change matches SessionChangeView::Model { provider_id, model } ==> (
                b.row.provider_id == Some(provider_id) && b.row.model == Some(model))
                &&& !(change is Model) ==> b.row.provider_id == a.row.provider_id && b.row.model
                    == a.row.model
                &&& b.deleted_at == if change is Deleted { Some(now) } else { a.deleted_at }
            }
        }),
{
}

/// A message that is added stands behind the others and is the newest.
pub proof fn law_message_added(t: TablesView, m: StoredMessageView)
    ensures
        t.after(WriteView::InsertMessage(m)).messages == t.messages.push(m),
        t.after(WriteView::InsertMessage(m)).last_id == m.id,
{
}

/// A new message has the next number, is as it was given, and was not taken back.
pub proof fn law_new_message(
    t: TablesView,
    session_id: Seq<char>,
    project_path: Seq<char>,
    role: Seq<char>,
    type_: Seq<char>,
    llm_message: Seq<char>,
    metadata: Seq<char>,
    turn_count: Option<u32>,
    now: Seq<char>,
)
    requires
        0 <= t.last_id < i64::MAX,
    ensures
        ({
            let m = new_message(
                t,
                session_id,
                project_path,
                role,
                type_,
                llm_message,
                metadata,
                turn_count,
                now,
            );
            &&& m.id == t.last_id + 1
            &&& m.session_id == session_id && m.project_path == project_path
            &&& m.role == role && m.type_ == type_
            &&& m.llm_message == llm_message && m.metadata == metadata
            &&& m.turn_count == turn_count && m.created_at == now
            &&& m.rewound_at is None
        }),
{
}

/// Taking a session back hides what is behind the message or the turn, that one too, as
/// far as it was not hidden before, and records when; nothing else of any message
/// changes.
pub proof fn law_taken_back(
    t: TablesView,
    session_id: Seq<char>,
    from_id: i64,
    from_turn: u32,
    now: Seq<char>,
    i: int,
)
    requires
        0 <= i < t.messages.len(),
    ensures
        ({
            let m = t.messages[i];
            let hidden = (StoredMessageView { rewound_at: Some(now), ..m });
            let by_id = t.after(WriteView::RewindFromId { session_id, from_id, now }).messages;
            let by_turn = t.after(
                WriteView::RewindFromTurn { session_id, from_turn, now },
            ).messages;
            &&& by_id.len() == t.messages.len() && by_turn.len() == t.messages.len()
            &&& by_id[i] == if m.session_id == session_id && m.id >= from_id
                && m.rewound_at is None {
                hidden
            } else {
                m
            }
            &&& by_turn[i] == if m.session_id == session_id && m.turn_count is Some
                && m.turn_count->0 >= from_turn && m.rewound_at is None {
                hidden
            } else {
                m
            }
        }),
{
}

/// How many messages were hidden is how many of the session were behind the message and
/// were not hidden yet.
pub proof fn law_counted_taken_back(
    t: TablesView,
    session_id: Seq<char>,
    from_id: i64,
    from_turn: u32,
    m: StoredMessageView,
)
    ensures
        m.rewound_by_id(session_id, from_id) <==> m.session_id == session_id && m.id >= from_id
            && m.rewound_at is None,
        m.rewound_by_turn(session_id, from_turn) <==> m.session_id == session_id
            && m.turn_count is Some && m.turn_count->0 >= from_turn && m.rewound_at is None,
{
}

/// The text of a message is replaced by its number, and nothing else of it.
pub proof fn law_content_set(t: TablesView, row_id: i64, llm_message: Seq<char>, i: int)
    requires
        0 <= i < t.messages.len(),
    ensures
        ({
            let u = t.after(WriteView::SetMessageContent { row_id, llm_message });
            &&& u.messages.len() == t.messages.len()
            &&& t.messages[i].id == row_id ==> u.messages[i] == (StoredMessageView {
                llm_message,
                ..t.messages[i]
            })
            &&& t.messages[i].id != row_id ==> u.messages[i] == t.messages[i]
        }),
{
}

/// Forgetting the usage of a session takes out its usage rows, and nothing else, and
/// keeps the order.
pub proof fn law_usage_forgotten(t: TablesView, session_id: Seq<char>, m: StoredMessageView)
    ensures
        t.after(WriteView::DeleteContextUsage { session_id }).messages.contains(m)
            <==> t.messages.contains(m) && !(m.session_id == session_id && m.type_
            == "context_usage"@),
        t.after(WriteView::DeleteContextUsage { session_id }).messages == t.messages.filter(
            |x: StoredMessageView| !(x.session_id == session_id && x.type_ == "context_usage"@),
        ),
{
    let p = |x: StoredMessageView| !x.is_usage_of(session_id);
    let q = |x: StoredMessageView|
        !(x.session_id == session_id && x.type_ == "context_usage"@);
    assert(p =~= q);
    lemma_filtered(t.messages, p);
    let u = t.messages.filter(p);
    if u.contains(m) {
        let k = choose|k: int| 0 <= k < u.len() && u[k] == m;
        assert(p(u[k]));
    }
    if t.messages.contains(m) && p(m) {
        lemma_filter_has(t.messages, p, m);
    }
}

/// A run that is added stands behind the others; one that is replaced keeps its session
/// and when it was made; and runs that were being planned or executed when the program
/// ended are marked as failed, and only those.
pub proof fn law_runs_written(t: TablesView, row: RunRowView, now: Seq<char>, i: int)
    requires
        0 <= i < t.runs.len(),
    ensures
        t.after(WriteView::InsertRun(row)).runs == t.runs.push(row),
        t.after(WriteView::UpdateRun(row)).runs.len() == t.runs.len(),
        t.after(WriteView::UpdateRun(row)).runs[i] == if t.runs[i].id == row.id {
            RunRowView {
                session_id: t.runs[i].session_id,
                created_at: t.runs[i].created_at,
                ..row
            }
        } else {
            t.runs[i]
        },
        t.after(WriteView::FailZombies { now }).runs.len() == t.runs.len(),
        t.after(WriteView::FailZombies { now }).runs[i] == if t.runs[i].status == "planning"@
            || t.runs[i].status == "running"@ {
            RunRowView { status: "failed"@, updated_at: now, ..t.runs[i] }
        } else {
            t.runs[i]
        },
{
}

// ── What is found ──

/// The sessions that are listed are those that were not deleted.
pub proof fn law_listed_sessions(t: TablesView, row: SessionRowView)
    ensures
        live_sessions(t).contains(row) <==> exists|i: int|
            0 <= i < t.sessions.len() && (#[trigger] t.sessions[i]).row == row
                && t.sessions[i].deleted_at is None,
{
    let p = |s: SessionRecordView| s.deleted_at is None;
    lemma_rows_kept(t.sessions, p, row);
    assert(live_sessions(t) == rows_of(t.sessions.filter(p)));
    if live_sessions(t).contains(row) {
        let i = choose|i: int|
            0 <= i < t.sessions.len() && (#[trigger] t.sessions[i]).row == row && p(t.sessions[i]);
        assert(t.sessions[i].deleted_at is None);
    }
    if exists|i: int|
        0 <= i < t.sessions.len() && (#[trigger] t.sessions[i]).row == row
            && t.sessions[i].deleted_at is None {
        let i = choose|i: int|
            0 <= i < t.sessions.len() && (#[trigger] t.sessions[i]).row == row
                && t.sessions[i].deleted_at is None;
        assert(p(t.sessions[i]));
    }
}

/// The sessions among which a folder's active one is looked for: those of the folder
/// that are marked as active and were not deleted.
pub proof fn law_active_sessions(t: TablesView, folder: Seq<char>, row: SessionRowView)
    ensures
        active_sessions(t, folder).contains(row) <==> row.folder == folder && row.status
            == "active"@ && live_sessions(t).contains(row),
{
    let p = |s: SessionRecordView|
        s.row.folder == folder && s.row.status == "active"@ && s.deleted_at is None;
    lemma_rows_kept(t.sessions, p, row);
    law_listed_sessions(t, row);
    if active_sessions(t, folder).contains(row) {
        let i = choose|i: int|
            0 <= i < t.sessions.len() && (#[trigger] t.sessions[i]).row == row && p(t.sessions[i]);
        assert(t.sessions[i].row == row);
    }
    if row.folder == folder && row.status == "active"@ && live_sessions(t).contains(row) {
        let i = choose|i: int|
            0 <= i < t.sessions.len() && (#[trigger] t.sessions[i]).row == row
                && t.sessions[i].deleted_at is None;
        assert(p(t.sessions[i]));
    }
}

proof fn lemma_rows_kept(
    s: Seq<SessionRecordView>,
    p: spec_fn(SessionRecordView) -> bool,
    row: SessionRowView,
)
    ensures
        rows_of(s.filter(p)).contains(row) <==> exists|i: int|
            0 <= i < s.len() && (#[trigger] s[i]).row == row && p(s[i]),
    decreases s.len(),
{
    reveal(Seq::filter);
    if s.len() > 0 {
        let t = s.drop_last();
        let f = t.filter(p);
        lemma_rows_kept(t, p, row);
        let g = s.filter(p);
        if rows_of(g).contains(row) {
            let k = choose|k: int| 0 <= k < rows_of(g).len() && rows_of(g)[k] == row;
            if k < f.len() {
                assert(rows_of(f)[k] == row);
                let i = choose|i: int| 0 <= i < t.len() && (#[trigger] t[i]).row == row && p(t[i]);
                assert(s[i].row == row && p(s[i]));
            } else {
                assert(s[s.len() - 1].row == row && p(s[s.len() - 1]));
            }
        }
        if exists|i: int| 0 <= i < s.len() && (#[trigger] s[i]).row == row && p(s[i]) {
            let i = choose|i: int| 0 <= i < s.len() && (#[trigger] s[i]).row == row && p(s[i]);
            if i < t.len() {
                assert(t[i].row == row && p(t[i]));
                let k = choose|k: int| 0 <= k < rows_of(f).len() && rows_of(f)[k] == row;
                assert(rows_of(g)[k] == row);
            } else {
                assert(rows_of(g)[f.len() as int] == row);
            }
        }
    } else {
        assert(rows_of(s.filter(p)).len() == 0);
    }
}

/// What is looked for among the messages is the first that fits.
pub proof fn law_first_message(
    ms: Seq<StoredMessageView>,
    p: spec_fn(StoredMessageView) -> bool,
)
    ensures
        match first_message(ms, p) {
            Some(m) => p(m) && exists|i: int|
                {
                    &&& 0 <= i < ms.len()
                    &&& #[trigger] ms[i] == m
                    &&& forall|j: int| 0 <= j < i ==> !p(#[trigger] ms[j])
                },
            None => forall|i: int| 0 <= i < ms.len() ==> !p(#[trigger] ms[i]),
        },
{
    let n = ms.len() as int;
    let hit = |i: int| p(ms[i]);
    if exists|i: int| is_first(n, hit, i) {
        let k = choose|i: int| is_first(n, hit, i);
        lemma_first(n, hit, k);
        assert(hit(k));
        assert forall|j: int| 0 <= j < k implies !p(#[trigger] ms[j]) by {
            assert(!hit(j));
        }
        assert(ms[k] == first_message(ms, p)->0);
    } else {
        assert forall|i: int| 0 <= i < n implies !p(#[trigger] ms[i]) by {
            if hit(i) {
                lemma_has_first(n, hit, i);
            }
        }
        assert(first_where(n, hit) is None);
    }
}

/// The message that opens a session is the last of that session that says so.
pub proof fn law_session_opening(ms: Seq<StoredMessageView>, session_id: Seq<char>, i: int)
    requires
        0 <= i < ms.len(),
        ms[i].session_id == session_id,
        ms[i].type_ == "session_init"@,
        forall|j: int|
            i < j < ms.len() ==> !((#[trigger] ms[j]).session_id == session_id && ms[j].type_
                == "session_init"@),
    ensures
        session_init_of(ms, session_id) == Some(ms[i]),
{
    let p = |m: StoredMessageView| m.session_id == session_id && m.type_ == "session_init"@;
    lemma_last_kept(ms, p, i);
}

proof fn lemma_last_kept(
    ms: Seq<StoredMessageView>,
    p: spec_fn(StoredMessageView) -> bool,
    i: int,
)
    requires
        0 <= i < ms.len(),
        p(ms[i]),
        forall|j: int| i < j < ms.len() ==> !p(#[trigger] ms[j]),
    ensures
        ms.filter(p).len() > 0,
        ms.filter(p).last() == ms[i],
    decreases ms.len(),
{
    reveal(Seq::filter);
    let t = ms.drop_last();
    if i < ms.len() - 1 {
        assert(!p(ms[ms.len() - 1]));
        assert forall|j: int| i < j < t.len() implies !p(#[trigger] t[j]) by {
            assert(t[j] == ms[j]);
        }
        lemma_last_kept(t, p, i);
    } else {
        assert(p(ms.last()));
    }
}

/// The usage of a session is read from its first usage row; a count that is not there
/// is none.
pub proof fn law_usage_read(t: TablesView, session_id: Seq<char>)
    ensures
        match usage_of(t, session_id) {
            None => forall|i: int|
                0 <= i < t.messages.len() ==> !((#[trigger] t.messages[i]).session_id == session_id
                    && t.messages[i].type_ == "context_usage"@),
            Some(u) => exists|i: int|
                {
                    &&& 0 <= i < t.messages.len()
                    &&& (#[trigger] t.messages[i]).session_id == session_id
                    &&& t.messages[i].type_ == "context_usage"@
                    &&& match json_parsed(t.messages[i].metadata) {
                        Ok(j) => u.0 == count_under(j, "total_tokens"@) && u.1 == count_under(
                            j,
                            "context_limit"@,
                        ) && u.2 == count_under(j, "message_count"@),
                        Err(_) => u == (0u32, 0u32, 0u32),
                    }
                },
        },
{
    let p = |m: StoredMessageView| m.is_usage_of(session_id);
    law_first_message(t.messages, p);
    match first_message(t.messages, p) {
        Some(m) => {
            let i = choose|i: int|
                {
                    &&& 0 <= i < t.messages.len()
                    &&& #[trigger] t.messages[i] == m
                    &&& forall|j: int| 0 <= j < i ==> !p(#[trigger] t.messages[j])
                };
            assert(p(m));
            assert(t.messages[i].session_id == session_id);
        },
        None => {
            assert forall|i: int| 0 <= i < t.messages.len() implies !((
            #[trigger] t.messages[i]).session_id == session_id && t.messages[i].type_
                == "context_usage"@) by {
                assert(!p(t.messages[i]));
            }
        },
    }
}

/// What is written of a session's usage, of a summary and of what was said.
pub proof fn law_written_objects(
    total_tokens: u32,
    context_limit: u32,
    message_count: u32,
    role: Seq<char>,
    content: Seq<char>,
)
    ensures
        ({
            let u = usage_json(total_tokens, context_limit, message_count);
            let c = compaction_json(message_count);
            let m = chat_json(role, content);
            &&& u.get("total_tokens"@) == Some(JsonV::Int(total_tokens as int))
            &&& u.get("context_limit"@) == Some(JsonV::Int(context_limit as int))
            &&& u.get("message_count"@) == Some(JsonV::Int(message_count as int))
            &&& c.get("version"@) == Some(JsonV::Int(1))
            &&& c.get("kept_before_count"@) == Some(JsonV::Int(message_count as int))
            &&& m.get("role"@) == Some(JsonV::Str(role))
            &&& m.get("content"@) == Some(JsonV::Str(content))
        }),
{
    reveal_strlit("total_tokens");
    reveal_strlit("context_limit");
    reveal_strlit("message_count");
    reveal_strlit("version");
    reveal_strlit("kept_before_count");
    reveal_strlit("role");
    reveal_strlit("content");
    assert("total_tokens"@.len() == 12 && "context_limit"@.len() == 13);
    assert("context_limit"@[0] != "message_count"@[0]);
    assert("context_limit"@ != "message_count"@);
    assert("version"@.len() == 7 && "kept_before_count"@.len() == 17);
    assert("role"@.len() == 4 && "content"@.len() == 7);
}

/// A run is found by its id.
pub proof fn law_run_found(t: TablesView, id: Seq<char>)
    ensures
        match run_row(t, id) {
            Some(row) => row.id == id && exists|i: int|
                {
                    &&& 0 <= i < t.runs.len()
                    &&& #[trigger] t.runs[i] == row
                    &&& forall|j: int| 0 <= j < i ==> (#[trigger] t.runs[j]).id != id
                },
            None => forall|i: int| 0 <= i < t.runs.len() ==> (#[trigger] t.runs[i]).id != id,
        },
{
    let n = t.runs.len() as int;
    let hit = |i: int| t.runs[i].id == id;
    if exists|i: int| is_first(n, hit, i) {
        let k = choose|i: int| is_first(n, hit, i);
        lemma_first(n, hit, k);
        assert(hit(k));
        assert forall|j: int| 0 <= j < k implies (#[trigger] t.runs[j]).id != id by {
            assert(!hit(j));
        }
        assert(t.runs[k] == run_row(t, id)->0);
    } else {
        assert forall|i: int| 0 <= i < n implies (#[trigger] t.runs[i]).id != id by {
            if hit(i) {
                lemma_has_first(n, hit, i);
            }
        }
        assert(first_where(n, hit) is None);
    }
}

/// The runs of a session are all of them and no others, the one that was changed last
/// first.
pub proof fn law_runs_of_session(t: TablesView, session_id: Seq<char>, r: RunRowView)
    ensures
        session_rows(t, session_id).contains(r) <==> t.runs.contains(r) && r.session_id
            == session_id,
        session_rows(t, session_id).len() == t.runs.filter(
            |x: RunRowView| x.session_id == session_id,
        ).len(),
        forall|a: int, b: int|
            0 <= a < b < session_rows(t, session_id).len() ==> !text_less(
                (#[trigger] session_rows(t, session_id)[a]).updated_at,
                (#[trigger] session_rows(t, session_id)[b]).updated_at,
            ),
{
    let p = |x: RunRowView| x.session_id == session_id;
    let rows = t.runs.filter(p);
    let stamps = Seq::new(rows.len(), |i: int| rows[i].updated_at);
    law_newest_order(stamps);
    let order = newest_order(stamps);
    let all = session_rows(t, session_id);
    lemma_filtered(t.runs, p);
    if all.contains(r) {
        let k = choose|k: int| 0 <= k < all.len() && all[k] == r;
        assert(rows[order[k]] == r);
        assert(p(rows[order[k]]));
    }
    if t.runs.contains(r) && r.session_id == session_id {
        lemma_run_kept(t.runs, p, r);
        let i = choose|i: int| 0 <= i < rows.len() && rows[i] == r;
        lemma_order_reaches(stamps, i);
        let k = choose|k: int| 0 <= k < order.len() && order[k] == i;
        assert(all[k] == r);
    }
    assert forall|a: int, b: int| 0 <= a < b < all.len() implies !text_less(
        (#[trigger] all[a]).updated_at,
        (#[trigger] all[b]).updated_at,
    ) by {
        assert(!text_less(stamps[order[a]], stamps[order[b]]));
    }
}

proof fn lemma_run_kept(s: Seq<RunRowView>, p: spec_fn(RunRowView) -> bool, r: RunRowView)
    requires
        s.contains(r),
        p(r),
    ensures
        s.filter(p).contains(r),
    decreases s.len(),
{
    reveal(Seq::filter);
    if s.last() == r {
        assert(s.filter(p)[s.filter(p).len() - 1] == r);
    } else {
        let k = choose|k: int| 0 <= k < s.len() && s[k] == r;
        assert(s.drop_last()[k] == r);
        lemma_run_kept(s.drop_last(), p, r);
        let f = s.drop_last().filter(p);
        let j = choose|j: int| 0 <= j < f.len() && f[j] == r;
        assert(s.filter(p)[j] == r);
    }
}

/// Rows are read one by one, in order; the first that cannot be read is the error.
#[verifier::rlimit(40)]
pub proof fn law_rows_read(rows: Seq<RunRowView>)
    ensures
        runs_of_rows(rows) is Ok <==> forall|i: int|
            0 <= i < rows.len() ==> run_of_row(#[trigger] rows[i]) is Ok,
        runs_of_rows(rows) matches Ok(rs) ==> rs.len() == rows.len() && forall|i: int|
            0 <= i < rows.len() ==> run_of_row(rows[i]) == Ok::<_, AgentDbErrorView>(
                #[trigger] rs[i],
            ),
        forall|i: int|
            {
                &&& 0 <= i < rows.len()
                &&& run_of_row(#[trigger] rows[i]) is Err
                &&& forall|j: int| 0 <= j < i ==> run_of_row(#[trigger] rows[j]) is Ok
            } ==> runs_of_rows(rows) == Err::<Seq<AutoRunView>, _>(run_of_row(rows[i])->Err_0),
    decreases rows.len(),
{
    if rows.len() > 0 {
        let before = rows.drop_last();
        let n = rows.len() - 1;
        law_rows_read(before);
        if runs_of_rows(before) is Ok {
            assert forall|i: int| 0 <= i < n implies run_of_row(#[trigger] rows[i]) is Ok by {
                assert(before[i] == rows[i]);
            }
            if let Ok(rs) = runs_of_rows(rows) {
                assert forall|i: int| 0 <= i < rows.len() implies run_of_row(rows[i]) == Ok::<
                    _,
                    AgentDbErrorView,
                >(#[trigger] rs[i]) by {
                    if i < n {
                        assert(before[i] == rows[i]);
                        assert(rs[i] == runs_of_rows(before)->Ok_0[i]);
                    }
                }
                assert(run_of_row(rows[n]) is Ok);
                assert forall|i: int| 0 <= i < rows.len() implies run_of_row(
                    #[trigger] rows[i],
                ) is Ok by {}
            } else {
                assert(run_of_row(rows[n]) is Err);
            }
        } else {
            let i = choose|i: int| 0 <= i < before.len() && !(run_of_row(#[trigger] before[i]) is Ok);
            assert(!(run_of_row(rows[i]) is Ok));
            assert forall|i: int|
                {
                    &&& 0 <= i < rows.len()
                    &&& run_of_row(#[trigger] rows[i]) is Err
                    &&& forall|j: int| 0 <= j < i ==> run_of_row(#[trigger] rows[j]) is Ok
                } implies runs_of_rows(rows) == Err::<Seq<AutoRunView>, _>(
                run_of_row(rows[i])->Err_0,
            ) by {
                if i == n {
                    let b = choose|b: int|
                        0 <= b < before.len() && !(run_of_row(#[trigger] before[b]) is Ok);
                    assert(run_of_row(rows[b]) is Ok);
                    assert(before[b] == rows[b]);
                }
                assert(before[i] == rows[i]);
                assert forall|j: int| 0 <= j < i implies run_of_row(#[trigger] before[j]) is Ok by {
                    assert(before[j] == rows[j]);
                }
            }
        }
    }
}

/// A run is kept under its id and its session, with its status by name, its plans, its
/// results and what it costs; a worker or a failure that is not there is kept as null.
pub proof fn law_run_columns(run: AutoRunView, now: Seq<char>)
    ensures
        ({
            let row = row_of_run(run, now);
            let plans = Seq::new(run.plan_versions.len(), |i: int| plan_json(run.plan_versions[i]));
            let results = Seq::new(
                run.worker_results.len(),
                |i: int| worker_result_json(run.worker_results[i]),
            );
            &&& row.id == run.id && row.session_id == run.session_id
            &&& row.status == match run.status {
                AutoStatus::Planning => "planning"@,
                AutoStatus::AwaitingApproval => "awaiting_approval"@,
                AutoStatus::Running => "running"@,
                AutoStatus::AwaitingFailureDecision => "awaiting_failure_decision"@,
                AutoStatus::Done => "done"@,
                AutoStatus::Failed => "failed"@,
                AutoStatus::Cancelled => "cancelled"@,
            }
            &&& row.plan_versions == json_text(JsonV::Array(plans))
            &&& row.worker_results == json_text(JsonV::Array(results))
            &&& row.cost_cents == run.cost_cents && row.replans_used == run.replans_used
            &&& row.current_worker == json_text(
                match run.current_worker {
                    Some(w) => worker_spec_json(w),
                    None => JsonV::Null,
                },
            )
            &&& row.pending_failure == json_text(
                match run.pending_failure {
                    Some(f) => failure_json(f),
                    None => JsonV::Null,
                },
            )
            &&& row.created_at == now && row.updated_at == now
        }),
{
    assert(list_json::<Plan>(run.plan_versions) =~= Seq::new(
        run.plan_versions.len(),
        |i: int| plan_json(run.plan_versions[i]),
    ));
    assert(list_json::<WorkerResult>(run.worker_results) =~= Seq::new(
        run.worker_results.len(),
        |i: int| worker_result_json(run.worker_results[i]),
    ));
}

/// What is read of a run comes from its own row: its id, its session and what it costs
/// as they stand there.
pub proof fn law_run_read_from_row(row: RunRowView)
    ensures
        run_of_row(row) matches Ok(run) ==> {
            &&& run.id == row.id && run.session_id == row.session_id
            &&& run.cost_cents == row.cost_cents && run.replans_used == row.replans_used
        },
        run_of_row(row) matches Err(e) ==> e is Json,
{
}

/// The message that stands for a run is the first of its role that is marked with the
/// run and was not taken back; a message of that role before it whose marking cannot be
/// read is an error.
pub proof fn law_anchor_found(t: TablesView, role: Seq<char>, run_id: Seq<char>, i: int)
    requires
        0 <= i < t.messages.len(),
        t.messages[i].role == role,
        forall|j: int|
            0 <= j < i && (#[trigger] t.messages[j]).role == role ==> (member_is(
                t.messages[j].metadata,
                "$.auto_run_id"@,
                run_id,
            ) matches Ok(tagged) && !(tagged && t.messages[j].rewound_at is None)),
    ensures
        match member_is(t.messages[i].metadata, "$.auto_run_id"@, run_id) {
            Ok(tagged) => tagged && t.messages[i].rewound_at is None ==> anchor_of(t, role, run_id)
                == Ok::<_, AgentDbErrorView>(Some(t.messages[i])),
            Err(e) => anchor_of(t, role, run_id) == Err::<Option<StoredMessageView>, _>(
                AgentDbErrorView::Sqlite(e),
            ),
        },
{
    let p = |m: StoredMessageView| crate::agent_bridge::runs::ends_search(m, role, run_id);
    let n = t.messages.len() as int;
    let hit = |k: int| p(t.messages[k]);
    if hit(i) {
        assert forall|j: int| 0 <= j < i implies !#[trigger] hit(j) by {
            assert(t.messages[j] == t.messages[j]);
        }
        assert(is_first(n, hit, i));
        lemma_first(n, hit, i);
    }
}

/// Where nothing of a role is marked with a run, no message stands for it.
pub proof fn law_no_anchor(t: TablesView, role: Seq<char>, run_id: Seq<char>)
    requires
        forall|j: int|
            0 <= j < t.messages.len() && (#[trigger] t.messages[j]).role == role ==> (member_is(
                t.messages[j].metadata,
                "$.auto_run_id"@,
                run_id,
            ) matches Ok(tagged) && !(tagged && t.messages[j].rewound_at is None)),
    ensures
        anchor_of(t, role, run_id) == Ok::<Option<StoredMessageView>, AgentDbErrorView>(None),
{
    let p = |m: StoredMessageView| crate::agent_bridge::runs::ends_search(m, role, run_id);
    let n = t.messages.len() as int;
    let hit = |k: int| p(t.messages[k]);
    assert forall|j: int| 0 <= j < n implies !#[trigger] hit(j) by {
        assert(t.messages[j] == t.messages[j]);
    }
    lemma_no_first(n, hit);
}

/// A run is taken up with the number of the assistant's message that stands for it and
/// with what the user's says; where one is missing, the error names the run.
pub proof fn law_anchor_and_task(t: TablesView, run_id: Seq<char>)
    ensures
        match anchor_of(t, "assistant"@, run_id) {
            Ok(Some(m)) => run_anchor(t, run_id) == Ok::<_, Seq<char>>(m.id),
            Ok(None) => run_anchor(t, run_id) == Err::<i64, _>(
                "No assistant anchor row for run_id="@ + run_id,
            ),
            Err(e) => run_anchor(t, run_id) == Err::<i64, _>(
                "Failed to look up assistant row: "@ + e.text(),
            ),
        },
        match anchor_of(t, "user"@, run_id) {
            Ok(Some(m)) => match json_parsed(m.llm_message) {
                Ok(j) => match j.get("content"@) {
                    Some(JsonV::Str(said)) => run_task(t, run_id) == Ok::<_, Seq<char>>(said),
                    _ => run_task(t, run_id) == Err::<Seq<char>, _>(
                        "No user prompt found for run_id="@ + run_id,
                    ),
                },
                Err(e) => run_task(t, run_id) == Err::<Seq<char>, _>(
                    "Failed to look up user prompt: "@ + AgentDbErrorView::Json(e).text(),
                ),
            },
            Ok(None) => run_task(t, run_id) == Err::<Seq<char>, _>(
                "No user prompt found for run_id="@ + run_id,
            ),
            Err(e) => run_task(t, run_id) == Err::<Seq<char>, _>(
                "Failed to look up user prompt: "@ + e.text(),
            ),
        },
{
}

// ── Settings ──

/// Where the settings of automatic mode are kept, and what is made of what stands
/// there: the switch is on only where it says so, and what cannot be read is not set.
pub proof fn law_settings_kept(s: Map<Seq<char>, Seq<char>>)
    ensures
        settings_of(s).enabled <==> s.dom().contains("auto_enabled"@) && s["auto_enabled"@]
            == "true"@,
        settings_of(s).orchestrator == if s.dom().contains("auto_orchestrator_model"@) {
            match json_parsed(s["auto_orchestrator_model"@]) {
                Ok(j) => model_ref_of(j),
                Err(_) => None,
            }
        } else {
            None
        },
        settings_of(s).worker_pool == if s.dom().contains("auto_worker_pool"@) {
            pool_in(json_parsed(s["auto_worker_pool"@]))
        } else {
            Seq::empty()
        },
{
}

/// Automatic mode can be switched on only with an orchestrator and a worker, and off
/// only where no session uses it.
pub proof fn law_switching(
    enabled: bool,
    s: Map<Seq<char>, Seq<char>>,
    users: Seq<SessionRowView>,
)
    ensures
        enabled ==> (switch_fault(enabled, s, users) is None <==> settings_of(s).orchestrator is Some
            && settings_of(s).worker_pool.len() > 0),
        !enabled ==> (switch_fault(enabled, s, users) is None <==> users.len() == 0),
        enabled && settings_of(s).orchestrator is None ==> switch_fault(enabled, s, users) == Some(
            "Cannot enable Auto: pick an orchestrator model in Settings → Auto first."@,
        ),
        enabled && settings_of(s).orchestrator is Some && settings_of(s).worker_pool.len() == 0
            ==> switch_fault(enabled, s, users) == Some(
            "Cannot enable Auto: add at least one model to the worker pool first."@,
        ),
        !enabled && users.len() > 0 ==> switch_fault(enabled, s, users) == Some(
            "Cannot disable Auto: "@ + dec(users.len())
                + " session(s) still use it. Switch them to a regular model first."@,
        ),
{
}

/// A session is in automatic mode where both its provider and its model say so.
pub proof fn law_uses_auto(s: SessionRowView, provider_id: Seq<char>, model: Seq<char>)
    ensures
        auto_pair(provider_id, model) <==> provider_id == "auto"@ && model == "auto"@,
        uses_auto(s) <==> s.provider_id == Some("auto"@) && s.model == Some("auto"@),
{
}

// ── Opening ──

/// A new file is laid out first; then the tables are made where they are missing, and
/// the columns that files of earlier versions lack are added, of which alone it may be
/// said that they are there.
pub proof fn law_opening_statements(i: int)
    ensures
        schema_of(false).len() == 7,
        schema_of(true).len() == 6,
        schema_of(false)[0].sql == "PRAGMA page_size = 8192;"@,
        schema_of(false).skip(1) == schema_of(true),
        0 <= i < 6 ==> (schema_of(true)[i].adds_column <==> i > 0),
        !schema_of(false)[0].adds_column,
        schema_of(true)[1].sql == "ALTER TABLE sessions ADD COLUMN provider_id TEXT"@,
        schema_of(true)[2].sql == "ALTER TABLE sessions ADD COLUMN model TEXT"@,
        schema_of(true)[3].sql == "ALTER TABLE sessions ADD COLUMN deleted_at TEXT"@,
        schema_of(true)[4].sql
            == "ALTER TABLE auto_runs ADD COLUMN current_worker TEXT NOT NULL DEFAULT 'null'"@,
        schema_of(true)[5].sql
            == "ALTER TABLE auto_runs ADD COLUMN pending_failure TEXT NOT NULL DEFAULT 'null'"@,
{
    assert(schema_of(false).skip(1) =~= schema_of(true));
}

/// A part of a text is what stands somewhere in it.
pub proof fn law_part_of_text(a: Seq<char>, p: Seq<char>, b: Seq<char>)
    ensures
        has_part(a + p + b, p),
        forall|s: Seq<char>| #[trigger] has_part(s, p) ==> holds_text(s, p),
{
    assert((a + p + b).subrange(a.len() as int, (a.len() + p.len()) as int) =~= p);
    assert(stands_at(a + p + b, p, a.len() as int));
    assert forall|s: Seq<char>| #[trigger] has_part(s, p) implies holds_text(s, p) by {
        let i = choose|i: int| stands_at(s, p, i);
        assert(s.subrange(i, i + p.len()) == p);
    }
}

} // verus!
