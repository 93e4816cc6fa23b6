//! What holds of every turn in automatic mode: on which models it runs, what it is
//! started and taken up with, and what it leaves behind.

use vstd::prelude::*;
use crate::agent_bridge::messages::chat_json;
use crate::agent_bridge::rows::{
    AgentDbErrorView, SessionRowView, StoredMessageView, WriteView,
};
use crate::agent_bridge::runs::{law_read_after_update, row_of_run, run_of_row, run_row};
use crate::agent_bridge::store_laws::{law_run_found, law_run_read_from_row};
use crate::agent_bridge::settings::AutoSettingsView;
use crate::agent_bridge::tables::TablesView;
use crate::agent_bridge::turns::{
    approval_step, completed_lines, events_after, failure_step, fallback_title, finished_turn,
    given_up_run, closed_run, marked_active, needs_title, pipeline_of, pool_configs, resolved,
    resumed_turn, run_anchor, run_task, saved_run, started_turn, summary_text, ApprovalStepView,
    AutoTurnView, FailureStepView, PipelineView, ResolvedModelView, ResumeActionView, TurnInputView,
};
use crate::agent_bridge::db::session_with_id;
use crate::auto::types::{
    AutoResultView, AutoRunView, AutoStatus, WorkerPoolEntryView, WorkerResultView,
    WorkerStatusView,
};
use crate::auto::codec::ModelRefView;
use crate::auto::worker::ModelConfigView;
use crate::json::{json_text, JsonV};
use crate::llm::LlmClientConfigView;
use crate::text::{dec, first_where, is_first, lemma_first, lemma_has_first, taken, trimmed};
use crate::types::AgentEventView;

verus! {

// ── On which models ──

/// A configured model of that provider and of that name, the first there is.
pub open spec fn is_configured(
    table: Seq<ResolvedModelView>,
    provider_id: Seq<char>,
    model: Seq<char>,
    k: int,
) -> bool {
    &&& 0 <= k < table.len()
    &&& table[k].provider_id == provider_id
    &&& table[k].model == model
    &&& forall|j: int|
        0 <= j < k ==> !((#[trigger] table[j]).provider_id == provider_id && table[j].model
            == model)
}

/// A model is looked up by its provider and its name, both of them.
pub proof fn law_lookup_by_both(
    table: Seq<ResolvedModelView>,
    provider_id: Seq<char>,
    model: Seq<char>,
)
    ensures
        match resolved(table, provider_id, model) {
            Some(c) => exists|k: int| #[trigger]
                is_configured(table, provider_id, model, k) && table[k].config == c,
            None => forall|k: int|
                0 <= k < table.len() ==> !((#[trigger] table[k]).provider_id == provider_id
                    && table[k].model == model),
        },
{
    let n = table.len() as int;
    let hit = |i: int| table[i].provider_id == provider_id && table[i].model == model;
    if exists|i: int| is_first(n, hit, i) {
        let k = choose|i: int| is_first(n, hit, i);
        lemma_first(n, hit, k);
        assert(hit(k));
        assert forall|j: int| 0 <= j < k implies !((#[trigger] table[j]).provider_id == provider_id
            && table[j].model == model) by {
            assert(!hit(j));
        }
        assert(is_configured(table, provider_id, model, k));
    } else {
        assert forall|k: int| 0 <= k < n implies !((#[trigger] table[k]).provider_id == provider_id
            && table[k].model == model) by {
            if hit(k) {
                lemma_has_first(n, hit, k);
            }
        }
        assert(first_where(n, hit) is None);
    }
}

/// Where a pool can be used, the configuration of each of its workers is, but for cache
/// control, which is left on, that of a configured model whose provider and name are
/// both those of the pool's entry.
pub proof fn law_workers_run_where_the_pool_says(
    pool: Seq<WorkerPoolEntryView>,
    table: Seq<ResolvedModelView>,
    cs: Seq<ModelConfigView>,
    i: int,
)
    requires
        pool_configs(pool, table) == Ok::<_, Seq<char>>(cs),
        0 <= i < pool.len(),
    ensures
        cs.len() == pool.len(),
        cs[i].model == pool[i].model,
        exists|k: int|
            {
                &&& #[trigger] is_configured(table, pool[i].provider_id, pool[i].model, k)
                &&& cs[i].config == (LlmClientConfigView {
                    disable_cache_control: false,
                    ..table[k].config
                })
            },
    decreases pool.len(),
{
    let e = pool.last();
    let before = pool.drop_last();
    let bs = pool_configs(before, table)->Ok_0;
    law_lookup_by_both(table, e.provider_id, e.model);
    lemma_configs_len(before, table);
    if i < before.len() {
        law_workers_run_where_the_pool_says(before, table, bs, i);
        assert(before[i] == pool[i]);
        assert(cs[i] == bs[i]);
    }
}

proof fn lemma_configs_len(pool: Seq<WorkerPoolEntryView>, table: Seq<ResolvedModelView>)
    ensures
        pool_configs(pool, table) matches Ok(cs) ==> cs.len() == pool.len() && forall|i: int|
            0 <= i < cs.len() ==> (#[trigger] cs[i]).model == pool[i].model,
    decreases pool.len(),
{
    if pool.len() > 0 {
        lemma_configs_len(pool.drop_last(), table);
    }
}

/// An entry of a pool that can be used with those before it: no other has its model,
/// and its provider and its model are among the configured ones.
pub open spec fn usable_entry(
    pool: Seq<WorkerPoolEntryView>,
    table: Seq<ResolvedModelView>,
    i: int,
) -> bool {
    &&& forall|j: int| 0 <= j < i ==> (#[trigger] pool[j]).model != pool[i].model
    &&& exists|k: int|
        0 <= k < table.len() && (#[trigger] table[k]).provider_id == pool[i].provider_id
            && table[k].model == pool[i].model
}

/// A pool can be used exactly where each of its entries can. The first that cannot is
/// what the refusal names: its model, where the model is there twice, and its model and
/// its provider, where they are not among the configured ones.
#[verifier::rlimit(40)]
pub proof fn law_unusable_pool_is_refused(
    pool: Seq<WorkerPoolEntryView>,
    table: Seq<ResolvedModelView>,
)
    ensures
        pool_configs(pool, table) is Ok <==> forall|i: int|
            0 <= i < pool.len() ==> #[trigger] usable_entry(pool, table, i),
        forall|i: int|
            {
                &&& 0 <= i < pool.len()
                &&& !#[trigger] usable_entry(pool, table, i)
                &&& forall|j: int| 0 <= j < i ==> #[trigger] usable_entry(pool, table, j)
            } ==> pool_configs(pool, table) == Err::<Seq<ModelConfigView>, _>(
                if exists|j: int| 0 <= j < i && (#[trigger] pool[j]).model == pool[i].model {
                    "Auto mode: worker pool has duplicate model name `"@ + pool[i].model
                        + "` across providers — make pool entries' model names unique (the dispatcher looks up by model only)"@
                } else {
                    "Auto mode: worker pool entry `"@ + pool[i].model
                        + "` references missing provider id=`"@ + pool[i].provider_id
                        + "`. Fix Settings → Auto (remove the worker or re-add the provider)."@
                },
            ),
    decreases pool.len(),
{
    if pool.len() > 0 {
        let n = pool.len() - 1;
        let e = pool.last();
        let before = pool.drop_last();
        law_unusable_pool_is_refused(before, table);
        lemma_configs_len(before, table);
        law_lookup_by_both(table, e.provider_id, e.model);
        assert forall|i: int| 0 <= i < n implies #[trigger] usable_entry(pool, table, i)
            == usable_entry(before, table, i) by {
            lemma_usable_before(pool, table, i);
        }
        if pool_configs(before, table) is Ok {
            let cs = pool_configs(before, table)->Ok_0;
            assert forall|i: int| 0 <= i < n implies #[trigger] usable_entry(pool, table, i) by {
                assert(usable_entry(before, table, i));
            }
            if exists|j: int| 0 <= j < n && (#[trigger] pool[j]).model == e.model {
                let j = choose|j: int| 0 <= j < n && (#[trigger] pool[j]).model == e.model;
                assert(before[j] == pool[j]);
                assert(cs[j].model == e.model);
                assert(!usable_entry(pool, table, n));
            } else {
                assert forall|j: int| 0 <= j < cs.len() implies (#[trigger] cs[j]).model
                    != e.model by {
                    assert(cs[j].model == before[j].model);
                    assert(pool[j] == before[j]);
                }
                match resolved(table, e.provider_id, e.model) {
                    Some(c) => {
                        let k = choose|k: int| #[trigger]
                            is_configured(table, e.provider_id, e.model, k) && table[k].config == c;
                        assert(table[k].provider_id == pool[n].provider_id);
                        assert(usable_entry(pool, table, n));
                    },
                    None => {
                        assert(!usable_entry(pool, table, n));
                    },
                }
            }
        } else {
            let i = choose|i: int| 0 <= i < before.len() && !#[trigger] usable_entry(before, table, i);
            assert(!usable_entry(pool, table, i));
            assert forall|i: int|
                {
                    &&& 0 <= i < pool.len()
                    &&& !#[trigger] usable_entry(pool, table, i)
                    &&& forall|j: int| 0 <= j < i ==> #[trigger] usable_entry(pool, table, j)
                } implies pool_configs(pool, table) == Err::<Seq<ModelConfigView>, _>(
                if exists|j: int| 0 <= j < i && (#[trigger] pool[j]).model == pool[i].model {
                    "Auto mode: worker pool has duplicate model name `"@ + pool[i].model
                        + "` across providers — make pool entries' model names unique (the dispatcher looks up by model only)"@
                } else {
                    "Auto mode: worker pool entry `"@ + pool[i].model
                        + "` references missing provider id=`"@ + pool[i].provider_id
                        + "`. Fix Settings → Auto (remove the worker or re-add the provider)."@
                },
            ) by {
                assert(i < n);
                assert(!usable_entry(before, table, i));
                assert forall|j: int| 0 <= j < i implies #[trigger] usable_entry(
                    before,
                    table,
                    j,
                ) by {
                    assert(usable_entry(pool, table, j));
                }
                assert(before[i] == pool[i]);
                if exists|j: int| 0 <= j < i && (#[trigger] pool[j]).model == pool[i].model {
                    let j = choose|j: int|
                        0 <= j < i && (#[trigger] pool[j]).model == pool[i].model;
                    assert(before[j].model == before[i].model);
                } else {
                    assert forall|j: int| 0 <= j < i implies (#[trigger] before[j]).model
                        != before[i].model by {
                        assert(pool[j] == before[j]);
                    }
                }
            }
        }
    }
}

proof fn lemma_usable_before(
    pool: Seq<WorkerPoolEntryView>,
    table: Seq<ResolvedModelView>,
    i: int,
)
    requires
        0 <= i < pool.len() - 1,
    ensures
        usable_entry(pool, table, i) == usable_entry(pool.drop_last(), table, i),
{
    let before = pool.drop_last();
    assert(before[i] == pool[i]);
    if usable_entry(pool, table, i) {
        assert forall|j: int| 0 <= j < i implies (#[trigger] before[j]).model != before[i].model by {
            assert(pool[j] == before[j]);
        }
    }
    if usable_entry(before, table, i) {
        assert forall|j: int| 0 <= j < i implies (#[trigger] pool[j]).model != pool[i].model by {
            assert(pool[j] == before[j]);
        }
    }
}

/// A run that the settings allow has the orchestrator that was chosen, on the
/// configuration of its own provider, without cache control; its workers share the
/// session, the run and the folder, and take a hundred iterations at most.
pub proof fn law_pipeline(
    s: AutoSettingsView,
    input: TurnInputView,
    resuming: bool,
    p: PipelineView,
)
    requires
        pipeline_of(s, input, resuming) == Ok::<_, Seq<char>>(p),
    ensures
        s.orchestrator == Some(p.orchestrator),
        s.worker_pool.len() > 0,
        p.worker_pool == s.worker_pool,
        exists|k: int|
            {
                &&& #[trigger] is_configured(
                    input.models,
                    p.orchestrator.provider_id,
                    p.orchestrator.model,
                    k,
                )
                &&& p.orchestrator_llm == (LlmClientConfigView {
                    disable_cache_control: true,
                    ..input.models[k].config
                })
            },
        pool_configs(s.worker_pool, input.models) == Ok::<_, Seq<char>>(
            p.worker_ctx.worker_llm_configs,
        ),
        p.worker_ctx.session_id == input.session_id,
        p.worker_ctx.run_id == input.run_id,
        p.worker_ctx.working_dir == input.folder,
        p.worker_ctx.max_iterations == 100,
        p.worker_ctx.compaction_llm is None,
        p.worker_ctx.checkpoint_dir is None,
        p.worker_ctx.has_context_engine == input.context_engine_enabled,
        input.context_engine_enabled ==> p.worker_ctx.context_engine_repo_path == Some(input.folder),
        !input.context_engine_enabled ==> p.worker_ctx.context_engine_repo_path is None,
{
    let o = s.orchestrator->0;
    law_lookup_by_both(input.models, o.provider_id, o.model);
}

/// Settings that do not allow a run are refused, and the refusal says what is missing:
/// the orchestrator, the workers, the orchestrator's provider or a worker's.
pub proof fn law_pipeline_refused(s: AutoSettingsView, input: TurnInputView, resuming: bool)
    ensures
        ({
            let r = pipeline_of(s, input, resuming);
            let who = if resuming { "Resume: "@ } else { "Auto mode: "@ };
            &&& s.orchestrator is None ==> r == Err::<PipelineView, _>(
                who + "orchestrator model not configured in Settings → Auto"@,
            )
            &&& s.orchestrator is Some && s.worker_pool.len() == 0 ==> r == Err::<PipelineView, _>(
                who + "worker pool is empty in Settings → Auto"@,
            )
            &&& s.orchestrator matches Some(o) ==> s.worker_pool.len() > 0 ==> {
                let there = exists|k: int|
                    0 <= k < input.models.len() && (#[trigger] input.models[k]).provider_id
                        == o.provider_id && input.models[k].model == o.model;
                &&& !there ==> r == Err::<PipelineView, _>(
                    who + "orchestrator provider `"@ + o.provider_id + "` is not configured"@,
                )
                &&& there ==> match pool_configs(s.worker_pool, input.models) {
                    Ok(_) => r is Ok,
                    Err(e) => r == Err::<PipelineView, _>(e),
                }
            }
        }),
{
    reveal_strlit("Resume: ");
    reveal_strlit("Auto mode: ");
    reveal_strlit("orchestrator model not configured in Settings → Auto");
    reveal_strlit("Resume: orchestrator model not configured in Settings → Auto");
    reveal_strlit("Auto mode: orchestrator model not configured in Settings → Auto");
    reveal_strlit("worker pool is empty in Settings → Auto");
    reveal_strlit("Resume: worker pool is empty in Settings → Auto");
    reveal_strlit("Auto mode: worker pool is empty in Settings → Auto");
    reveal_strlit("orchestrator provider `");
    reveal_strlit("Resume: orchestrator provider `");
    reveal_strlit("Auto mode: orchestrator provider `");
    assert("Resume: "@ + "orchestrator model not configured in Settings → Auto"@
        =~= "Resume: orchestrator model not configured in Settings → Auto"@);
    assert("Auto mode: "@ + "orchestrator model not configured in Settings → Auto"@
        =~= "Auto mode: orchestrator model not configured in Settings → Auto"@);
    assert("Resume: "@ + "worker pool is empty in Settings → Auto"@
        =~= "Resume: worker pool is empty in Settings → Auto"@);
    assert("Auto mode: "@ + "worker pool is empty in Settings → Auto"@
        =~= "Auto mode: worker pool is empty in Settings → Auto"@);
    assert("Resume: "@ + "orchestrator provider `"@ =~= "Resume: orchestrator provider `"@);
    assert("Auto mode: "@ + "orchestrator provider `"@ =~= "Auto mode: orchestrator provider `"@);
    if let Some(o) = s.orchestrator {
        law_lookup_by_both(input.models, o.provider_id, o.model);
        if resolved(input.models, o.provider_id, o.model) is Some {
            let k = choose|k: int| #[trigger]
                is_configured(input.models, o.provider_id, o.model, k) && input.models[k].config
                    == resolved(input.models, o.provider_id, o.model)->0;
            assert(input.models[k].provider_id == o.provider_id);
        }
    }
}

// ── Starting ──

/// A session is found by its id: the first that has it, and none where none has it.
pub proof fn law_session_found(t: TablesView, id: Seq<char>)
    ensures
        match session_with_id(t, id) {
            Some(row) => row.id == id && exists|i: int|
                {
                    &&& 0 <= i < t.sessions.len()
                    &&& (#[trigger] t.sessions[i]).row == row
                    &&& forall|j: int| 0 <= j < i ==> (#[trigger] t.sessions[j]).row.id != id
                },
            None => forall|i: int|
                0 <= i < t.sessions.len() ==> (#[trigger] t.sessions[i]).row.id != id,
        },
{
    let n = t.sessions.len() as int;
    let hit = |i: int| t.sessions[i].row.id == id;
    if exists|i: int| is_first(n, hit, i) {
        let k = choose|i: int| is_first(n, hit, i);
        lemma_first(n, hit, k);
        assert(hit(k));
        assert forall|j: int| 0 <= j < k implies (#[trigger] t.sessions[j]).row.id != id by {
            assert(!hit(j));
        }
        assert(t.sessions[k].row == session_with_id(t, id)->0);
    } else {
        assert forall|i: int| 0 <= i < n implies (#[trigger] t.sessions[i]).row.id != id by {
            if hit(i) {
                lemma_has_first(n, hit, i);
            }
        }
        assert(first_where(n, hit) is None);
    }
}

/// A session needs a title where it has none or an empty one, and where there is no
/// such session. What is made of a message for want of a title is the beginning of it,
/// without white space round it.
pub proof fn law_title_needed(t: TablesView, session_id: Seq<char>, message: Seq<char>)
    ensures
        needs_title(t, session_id) <==> match session_with_id(t, session_id) {
            Some(row) => row.title is None || row.title->0.len() == 0,
            None => true,
        },
        message.len() <= 60 ==> fallback_title(message) == trimmed(message),
        message.len() > 60 ==> fallback_title(message) == trimmed(message.take(60)),
{
    if message.len() <= 60 {
        assert(taken(message, 60) =~= message);
    } else {
        assert(taken(message, 60) =~= message.take(60));
    }
}

/// A turn starts by marking its session as active; where the session needs a title and
/// the message is not blank, it gets one. Nothing else of it changes but when it was
/// last changed, and nothing else in the store changes.
pub proof fn law_session_marked_active(
    t: TablesView,
    session_id: Seq<char>,
    message: Seq<char>,
    now: Seq<char>,
    i: int,
)
    requires
        0 <= i < t.sessions.len(),
    ensures
        ({
            let u = marked_active(t, session_id, message, now);
            let a = t.sessions[i];
            let b = u.sessions[i];
            &&& u.sessions.len() == t.sessions.len()
            &&& u.messages == t.messages && u.runs == t.runs && u.last_id == t.last_id
            &&& u.skills == t.skills && u.subagents == t.subagents
            &&& a.row.id != session_id ==> b == a
            &&& a.row.id == session_id ==> {
                let titled = needs_title(t, session_id) && fallback_title(message).len() > 0;
                &&& b.deleted_at == a.deleted_at
                &&& b.row == (SessionRowView {
                    status: "active"@,
                    updated_at: now,
                    title: if titled { Some(fallback_title(message)) } else { a.row.title },
                    ..a.row
                })
            }
        }),
{
}

/// Where a turn cannot be started for its settings, nothing is written.
pub proof fn law_refused_turn_writes_nothing(
    settings: AutoSettingsView,
    t: TablesView,
    input: TurnInputView,
    message: Seq<char>,
    title_model: Option<ModelRefView>,
    now: Seq<char>,
    run_now: Seq<char>,
)
    ensures
        ({
            let o = started_turn(settings, t, input, message, title_model, now, run_now);
            &&& !settings.enabled ==> o.0 == t && o.1 == Err::<AutoTurnView, _>(
                "Auto mode is disabled in Settings. Re-enable it, or pick a regular model."@,
            )
            &&& settings.enabled && pipeline_of(settings, input, false) is Err ==> o.0 == t && o.1
                == Err::<AutoTurnView, _>(pipeline_of(settings, input, false)->Err_0)
            &&& o.1 is Ok ==> settings.enabled && pipeline_of(settings, input, false) is Ok
        }),
{
}

/// A turn that was started has the message as its task and the models of its settings;
/// no replan is its own, and it begins afresh.
pub proof fn law_started_turn(
    settings: AutoSettingsView,
    t: TablesView,
    input: TurnInputView,
    message: Seq<char>,
    title_model: Option<ModelRefView>,
    now: Seq<char>,
    run_now: Seq<char>,
    turn: AutoTurnView,
)
    requires
        started_turn(settings, t, input, message, title_model, now, run_now).1 == Ok::<
            _,
            Seq<char>,
        >(turn),
    ensures
        turn.exec_config.task == message,
        turn.exec_config.auto_run_id == input.run_id,
        turn.exec_config.session_id == input.session_id,
        turn.exec_config.worker_pool == settings.worker_pool,
        turn.exec_config.replan_budget == 0,
        turn.exec_config.resume_from is None,
        turn.exec_config.start_at_worker_id is None,
        turn.exec_config.initial_replan_reason is None,
        ({
            let p = pipeline_of(settings, input, false)->Ok_0;
            &&& pipeline_of(settings, input, false) is Ok
            &&& turn.orchestrator_llm == p.orchestrator_llm
            &&& turn.worker_ctx == p.worker_ctx
            &&& turn.title_model == if needs_title(t, input.session_id) && trimmed(message).len()
                > 0 {
                if title_model is Some { title_model } else { settings.orchestrator }
            } else {
                None
            }
        }),
{
    law_pipeline(settings, input, false, pipeline_of(settings, input, false)->Ok_0);
}

/// A turn that was started has left in the store, behind what was there, an empty run
/// and two messages that stand for it: the user's, with what the user said, and one of
/// the assistant's to be filled in, whose number the turn keeps.
pub proof fn law_started_turn_is_written(
    settings: AutoSettingsView,
    t: TablesView,
    input: TurnInputView,
    message: Seq<char>,
    title_model: Option<ModelRefView>,
    now: Seq<char>,
    run_now: Seq<char>,
    turn: AutoTurnView,
)
    requires
        t.wf(),
        started_turn(settings, t, input, message, title_model, now, run_now).1 == Ok::<
            _,
            Seq<char>,
        >(turn),
    ensures
        ({
            let u = started_turn(settings, t, input, message, title_model, now, run_now).0;
            let n = t.messages.len() as int;
            let metadata = JsonV::Object(
                map![
                    "auto_run_id"@ => JsonV::Str(input.run_id),
                    "kind"@ => JsonV::Str("auto"@),
                ],
            );
            let user = StoredMessageView {
                id: (t.last_id + 1) as i64,
                session_id: input.session_id,
                project_path: input.folder,
                role: "user"@,
                type_: "text"@,
                llm_message: json_text(
                    JsonV::Object(
                        map!["role"@ => JsonV::Str("user"@), "content"@ => JsonV::Str(message)],
                    ),
                ),
                metadata: json_text(metadata),
                created_at: now,
                rewound_at: None,
                turn_count: None,
            };
            let assistant = StoredMessageView {
                id: turn.assistant_row_id,
                role: "assistant"@,
                llm_message: json_text(
                    JsonV::Object(
                        map![
                            "role"@ => JsonV::Str("assistant"@),
                            "content"@ => JsonV::Str("Auto run in progress…"@),
                        ],
                    ),
                ),
                ..user
            };
            let run = AutoRunView {
                id: input.run_id,
                session_id: input.session_id,
                status: AutoStatus::Planning,
                plan_versions: Seq::empty(),
                worker_results: Seq::empty(),
                cost_cents: 0,
                replans_used: 0,
                current_worker: None,
                pending_failure: None,
            };
            &&& turn.assistant_row_id == t.last_id + 2
            &&& u.messages == t.messages.push(user).push(assistant)
            &&& !t.has_run(input.run_id)
            &&& u.runs == t.runs.push(row_of_run(run, run_now))
            &&& u.sessions == marked_active(t, input.session_id, message, now).sessions
            &&& u.skills == t.skills && u.subagents == t.subagents
        }),
{
    let v = marked_active(t, input.session_id, message, now);
    assert(v.runs == t.runs && v.messages == t.messages && v.last_id == t.last_id);
    if t.has_run(input.run_id) {
        assert(v.has_run(input.run_id));
    }
}

// ── Taking up ──

/// A run that is taken up goes on as itself, in its own session and folder, with the
/// task that it was started with, and with what the user decided: a retry begins with
/// the worker, a replan tells the reason, and an approval does neither.
pub proof fn law_resumed_turn(
    settings: AutoSettingsView,
    t: TablesView,
    running: Set<Seq<char>>,
    snapshot: AutoRunView,
    action: ResumeActionView,
    models: Seq<ResolvedModelView>,
    engine: bool,
    turn: AutoTurnView,
)
    requires
        resumed_turn(settings, t, running, snapshot, action, models, engine) == Ok::<
            _,
            Seq<char>,
        >(turn),
    ensures
        turn.exec_config.resume_from == Some(snapshot),
        turn.exec_config.auto_run_id == snapshot.id,
        turn.exec_config.session_id == snapshot.session_id,
        turn.exec_config.worker_pool == settings.worker_pool,
        turn.exec_config.replan_budget == 0,
        run_task(t, snapshot.id) == Ok::<_, Seq<char>>(turn.exec_config.task),
        run_anchor(t, snapshot.id) == Ok::<_, Seq<char>>(turn.assistant_row_id),
        action is ApproveSavedPlan ==> turn.exec_config.start_at_worker_id is None
            && turn.exec_config.initial_replan_reason is None,
        action matches ResumeActionView::RetryWorker { worker_id } ==> (
        turn.exec_config.start_at_worker_id == Some(worker_id)
            && turn.exec_config.initial_replan_reason is None),
        action matches ResumeActionView::ReplanAfterFailure { reason } ==> (
        turn.exec_config.start_at_worker_id is None && turn.exec_config.initial_replan_reason
            == Some(reason)),
        turn.title_model is None,
        ({
            let row = session_with_id(t, snapshot.session_id)->0;
            let input = TurnInputView {
                session_id: snapshot.session_id,
                folder: row.folder,
                run_id: snapshot.id,
                models,
                context_engine_enabled: engine,
            };
            let p = pipeline_of(settings, input, true)->Ok_0;
            &&& session_with_id(t, snapshot.session_id) is Some
            &&& !running.contains(row.folder)
            &&& pipeline_of(settings, input, true) is Ok
            &&& turn.orchestrator_llm == p.orchestrator_llm
            &&& turn.worker_ctx == p.worker_ctx
        }),
{
}

/// Why a run cannot be taken up, the first that holds: its session is gone, the message
/// that stands for it or its task is not found, the settings do not allow it, or
/// something is running in its folder. Otherwise it can be.
pub proof fn law_resume_refused(
    settings: AutoSettingsView,
    t: TablesView,
    running: Set<Seq<char>>,
    snapshot: AutoRunView,
    action: ResumeActionView,
    models: Seq<ResolvedModelView>,
    engine: bool,
)
    ensures
        ({
            let r = resumed_turn(settings, t, running, snapshot, action, models, engine);
            match session_with_id(t, snapshot.session_id) {
                None => r == Err::<AutoTurnView, _>(
                    "Session "@ + snapshot.session_id + " not found"@,
                ),
                Some(row) => {
                    let input = TurnInputView {
                        session_id: snapshot.session_id,
                        folder: row.folder,
                        run_id: snapshot.id,
                        models,
                        context_engine_enabled: engine,
                    };
                    if run_anchor(t, snapshot.id) is Err {
                        r == Err::<AutoTurnView, _>(run_anchor(t, snapshot.id)->Err_0)
                    } else if run_task(t, snapshot.id) is Err {
                        r == Err::<AutoTurnView, _>(run_task(t, snapshot.id)->Err_0)
                    } else if pipeline_of(settings, input, true) is Err {
                        r == Err::<AutoTurnView, _>(pipeline_of(settings, input, true)->Err_0)
                    } else if running.contains(row.folder) {
                        r == Err::<AutoTurnView, _>(
                            "A session is already running for "@ + row.folder,
                        )
                    } else {
                        r is Ok
                    }
                },
            }
        }),
{
}

// ── Deciding ──

/// A run is read as it was saved; one that is not there, or cannot be read, is an
/// error that names it or says why.
pub proof fn law_saved_run(t: TablesView, run_id: Seq<char>)
    ensures
        match run_row(t, run_id) {
            None => saved_run(t, run_id) == Err::<AutoRunView, _>(
                "No saved Auto run with id="@ + run_id,
            ),
            Some(row) => match run_of_row(row) {
                Ok(run) => saved_run(t, run_id) == Ok::<_, Seq<char>>(run),
                Err(e) => saved_run(t, run_id) == Err::<AutoRunView, _>(
                    "Failed to load auto_run: "@ + e.text(),
                ),
            },
        },
{
}

/// The answer to a plan goes to the run that waits for it. Where none does, the saved
/// run must be waiting for an approval: it is then taken up where the plan was
/// approved, and closed where it was not. In any other status it is refused, and
/// nothing is closed or taken up.
pub proof fn law_approval(t: TablesView, run_id: Seq<char>, approved: bool, waiting: bool)
    ensures
        ({
            let r = approval_step(t, run_id, approved, waiting);
            &&& waiting ==> r == Ok::<_, Seq<char>>(ApprovalStepView::Deliver(approved))
            &&& !waiting ==> match saved_run(t, run_id) {
                Err(e) => r == Err::<ApprovalStepView, _>(e),
                Ok(run) => {
                    &&& run.status == AutoStatus::AwaitingApproval && approved ==> r == Ok::<
                        _,
                        Seq<char>,
                    >(ApprovalStepView::Resume(run))
                    &&& run.status == AutoStatus::AwaitingApproval && !approved ==> r == Ok::<
                        _,
                        Seq<char>,
                    >(ApprovalStepView::Closed)
                    &&& run.status != AutoStatus::AwaitingApproval ==> r is Err
                },
            }
        }),
{
}

/// A run whose plan was not approved is closed as failed and keeps everything else; a
/// run that is given up also forgets the failure that it waited with.
pub proof fn law_closed_runs(t: TablesView, run_id: Seq<char>, run: AutoRunView)
    requires
        saved_run(t, run_id) == Ok::<_, Seq<char>>(run),
    ensures
        closed_run(t, run_id) == (AutoRunView { status: AutoStatus::Failed, ..run }),
        given_up_run(t, run_id) == (AutoRunView {
            status: AutoStatus::Failed,
            pending_failure: None,
            ..run
        }),
{
}

/// What the user decides about a failure: only a run that waits with one can be decided
/// about; a retry names the worker that failed, a replan gives what was wrong, giving
/// up says both, and anything else is refused by name.
pub proof fn law_failure_decision(t: TablesView, run_id: Seq<char>, action: Seq<char>)
    ensures
        ({
            let r = failure_step(t, run_id, action);
            match saved_run(t, run_id) {
                Err(e) => r == Err::<FailureStepView, _>(e),
                Ok(run) => if run.status != AutoStatus::AwaitingFailureDecision {
                    r is Err
                } else {
                    match run.pending_failure {
                        None => r == Err::<FailureStepView, _>(
                            "Auto run id="@ + run_id
                                + " is awaiting_failure_decision but has no pending_failure context"@,
                        ),
                        Some(f) => {
                            &&& action == "retry"@ ==> r == Ok::<_, Seq<char>>(
                                FailureStepView::Resume {
                                    run,
                                    action: ResumeActionView::RetryWorker {
                                        worker_id: f.worker_id,
                                    },
                                },
                            )
                            &&& action == "replan"@ ==> r == Ok::<_, Seq<char>>(
                                FailureStepView::Resume {
                                    run,
                                    action: ResumeActionView::ReplanAfterFailure {
                                        reason: f.error_message,
                                    },
                                },
                            )
                            &&& action == "cancel"@ ==> r == Ok::<_, Seq<char>>(
                                FailureStepView::Cancelled {
                                    session_id: run.session_id,
                                    reason: "Cancelled by user after worker "@ + f.worker_id
                                        + " ("@ + f.worker_model + ") failed: "@
                                        + f.error_message,
                                },
                            )
                            &&& action != "retry"@ && action != "replan"@ && action != "cancel"@
                                ==> r == Err::<FailureStepView, _>(
                                "Unknown action `"@ + action
                                    + "`; expected one of: retry, replan, cancel"@,
                            )
                        },
                    }
                },
            }
        }),
{
    reveal_strlit("cancel");
    reveal_strlit("retry");
    reveal_strlit("replan");
    assert("cancel"@[0] != "replan"@[0]);
    assert("retry"@.len() == 5 && "cancel"@.len() == 6 && "replan"@.len() == 6);
}

/// A refusal for the status says which status it is and what is allowed.
pub proof fn law_status_refusals(t: TablesView, run_id: Seq<char>, run: AutoRunView)
    requires
        saved_run(t, run_id) == Ok::<_, Seq<char>>(run),
    ensures
        ({
            let name = match run.status {
                AutoStatus::Planning => "Planning"@,
                AutoStatus::AwaitingApproval => "AwaitingApproval"@,
                AutoStatus::Running => "Running"@,
                AutoStatus::AwaitingFailureDecision => "AwaitingFailureDecision"@,
                AutoStatus::Done => "Done"@,
                AutoStatus::Failed => "Failed"@,
                AutoStatus::Cancelled => "Cancelled"@,
            };
            let said = "Auto run id="@ + run_id + " is in status "@ + name;
            &&& run.status != AutoStatus::AwaitingApproval ==> forall|approved: bool| #[trigger]
                approval_step(t, run_id, approved, false) == Err::<ApprovalStepView, _>(
                    said + "; resume is only allowed from awaiting_approval"@,
                )
            &&& run.status != AutoStatus::AwaitingFailureDecision ==> forall|action: Seq<char>|
                #[trigger] failure_step(t, run_id, action) == Err::<FailureStepView, _>(
                    said + "; failure-resolve is only allowed from awaiting_failure_decision"@,
                )
        }),
{
}

/// A decision that ends a run is final: what is read of it then is that it failed, and
/// neither a plan can be approved for it any more nor anything decided about it.
pub proof fn law_ended_runs_stay_ended(t: TablesView, run_id: Seq<char>, run_now: Seq<char>)
    ensures
        ({
            let run = closed_run(t, run_id);
            let u = t.after(WriteView::UpdateRun(row_of_run(run, run_now)));
            approval_step(t, run_id, false, false) == Ok::<_, Seq<char>>(ApprovalStepView::Closed)
                && run_of_row(row_of_run(run, run_now)) == Ok::<_, AgentDbErrorView>(run) ==> {
                &&& saved_run(u, run_id) == Ok::<_, Seq<char>>(run)
                &&& run.status == AutoStatus::Failed
                &&& forall|approved: bool| #[trigger]
                    approval_step(u, run_id, approved, false) is Err
                &&& forall|action: Seq<char>| #[trigger] failure_step(u, run_id, action) is Err
            }
        }),
        ({
            let run = given_up_run(t, run_id);
            let u = t.after(WriteView::UpdateRun(row_of_run(run, run_now)));
            failure_step(t, run_id, "cancel"@) is Ok && run_of_row(row_of_run(run, run_now))
                == Ok::<_, AgentDbErrorView>(run) ==> {
                &&& saved_run(u, run_id) == Ok::<_, Seq<char>>(run)
                &&& run.status == AutoStatus::Failed && run.pending_failure is None
                &&& forall|approved: bool| #[trigger]
                    approval_step(u, run_id, approved, false) is Err
                &&& forall|action: Seq<char>| #[trigger] failure_step(u, run_id, action) is Err
            }
        }),
{
    law_run_found(t, run_id);
    if saved_run(t, run_id) is Ok {
        let row = run_row(t, run_id)->0;
        law_run_read_from_row(row);
        let closed = closed_run(t, run_id);
        let given_up = given_up_run(t, run_id);
        assert(closed.id == run_id && given_up.id == run_id);
        if run_of_row(row_of_run(closed, run_now)) == Ok::<_, AgentDbErrorView>(closed) {
            law_read_after_update(t, closed, run_now);
        }
        if run_of_row(row_of_run(given_up, run_now)) == Ok::<_, AgentDbErrorView>(given_up) {
            law_read_after_update(t, given_up, run_now);
        }
    }
}

// ── Ending ──

/// What the message that stands for a run says at its end: what was summed up, or why
/// it failed, or in which phase it was stopped.
pub proof fn law_last_words(result: AutoResultView)
    ensures
        result matches AutoResultView::Done { summary, .. } ==> summary_text(result) == summary,
        result matches AutoResultView::Failed { reason, .. } ==> summary_text(result)
            == "Auto run failed: "@ + reason,
        result matches AutoResultView::Cancelled { run, phase } ==> {
            let stopped = "**Auto run stopped during "@ + phase + ".**\n"@;
            let done = run.worker_results.filter(
                |w: WorkerResultView| w.status == WorkerStatusView::Completed,
            );
            &&& done.len() == 0 ==> summary_text(result) == stopped
            &&& done.len() > 0 ==> summary_text(result) == stopped + "\nCompleted workers ("@ + dec(
                done.len(),
            ) + "):\n"@ + completed_lines(done)
        },
{
}

/// The workers that completed are listed a line each, in order, with the id, the model
/// and the beginning of the summary.
pub proof fn law_completed_workers_listed(ws: Seq<WorkerResultView>, w: WorkerResultView)
    ensures
        completed_lines(Seq::empty()) == Seq::<char>::empty(),
        completed_lines(ws.push(w)) == completed_lines(ws) + ("- **"@ + w.id + "** (`"@ + w.model
            + "`): "@ + (if w.summary.len() <= 240 {
            w.summary
        } else {
            w.summary.take(240) + "…"@
        }) + "\n"@),
{
    assert(ws.push(w).drop_last() =~= ws);
}

/// At the end of a turn the run is saved as it ended, the message that stands for it
/// gets its last words, and nothing else changes.
pub proof fn law_finished_turn(
    t: TablesView,
    result: AutoResultView,
    row_id: i64,
    run_now: Seq<char>,
)
    ensures
        ({
            let u = finished_turn(t, result, row_id, run_now);
            let run = match result {
                AutoResultView::Done { run, .. } => run,
                AutoResultView::Failed { run, .. } => run,
                AutoResultView::Cancelled { run, .. } => run,
            };
            &&& u.sessions == t.sessions && u.skills == t.skills && u.subagents == t.subagents
            &&& u.last_id == t.last_id
            &&& u.messages.len() == t.messages.len() && u.runs.len() == t.runs.len()
            &&& forall|i: int|
                0 <= i < t.messages.len() ==> #[trigger] u.messages[i] == if t.messages[i].id
                    == row_id {
                    StoredMessageView {
                        llm_message: json_text(
                            JsonV::Object(
                                map![
                                    "role"@ => JsonV::Str("assistant"@),
                                    "content"@ => JsonV::Str(summary_text(result)),
                                ],
                            ),
                        ),
                        ..t.messages[i]
                    }
                } else {
                    t.messages[i]
                }
            &&& forall|i: int|
                0 <= i < t.runs.len() ==> #[trigger] u.runs[i] == if t.runs[i].id == run.id {
                    crate::agent_bridge::rows::RunRowView {
                        session_id: t.runs[i].session_id,
                        created_at: t.runs[i].created_at,
                        ..row_of_run(run, run_now)
                    }
                } else {
                    t.runs[i]
                }
        }),
{
}

/// Once a turn has ended, one thing more is told where the user stopped it, and nothing
/// otherwise.
pub proof fn law_told_after_the_end(
    result: AutoResultView,
    session_id: Seq<char>,
    run_id: Seq<char>,
)
    ensures
        result is Cancelled ==> events_after(result, session_id, run_id) == seq![
            AgentEventView::AutoFailed {
                session_id,
                run_id,
                reason: "Interrupted by user"@,
                last_worker_output: None,
            },
        ],
        !(result is Cancelled) ==> events_after(result, session_id, run_id).len() == 0,
{
}

} // verus!
