//! Turns in automatic mode: starting a run, going on with a saved one, and what is
//! done when it ends.
//!
//! The functions here decide and keep the books. Reaching the models, running the
//! executor and talking to the user interface are left to the caller.

use vstd::prelude::*;
use vstd::string::*;
use crate::agent_bridge::db::{session_with_id, AgentDb};
use crate::agent_bridge::messages::{
    build_llm_message_json, chat_json, full_error, is_full, lemma_chat_json, new_message,
};
use crate::agent_bridge::rows::{
    AgentDbError, AgentDbErrorView, SessionChangeView, StoredMessageView, WriteView,
};
use crate::agent_bridge::runs::{
    anchor_of, ends_search, law_read_after_update, looked_at, prompt_in, row_of_run, run_of_row,
    run_row, tags_run, RUN_ID_PATH,
};
use crate::agent_bridge::settings::{
    read_auto_settings, settings_of, AppState, AutoSettings, AutoSettingsView, AUTO_REPLAN_BUDGET,
};
use crate::agent_bridge::tables::TablesView;
use crate::auto::codec::{lemma_depth_grows, ModelRef, ModelRefView};
use crate::auto::executor::{truncated, truncate, ExecutorConfig, ExecutorConfigView};
use crate::auto::types::{
    AutoResult, AutoResultView, AutoRun, AutoRunView, AutoStatus, WorkerFailureContextView,
    WorkerPoolEntry, WorkerPoolEntryView, WorkerResultView, WorkerStatus, WorkerStatusView,
};
use crate::auto::worker::{ModelConfig, ModelConfigView, WorkerContext, WorkerContextView};
use crate::json::{json_parsed, json_text, put, reads_as, text_json, write_json, Json, JsonV};
use crate::llm::{LlmClientConfig, LlmClientConfigView};
use crate::sqlite::{member_path, plain_key, short_enough, written_as};
use crate::text::{
    contains_text, dec, decimal, deep, dup_opt, dup_vec, first_where, is_first, lemma_deep_push,
    lemma_first, lemma_no_first, lemma_take_next, opt, same_text, take_chars, taken, trim, trimmed,
    Dup,
};
use crate::types::{AgentEvent, AgentEventView};

verus! {

broadcast use lemma_deep_push;

// ── Models ──

/// How a model of a configured provider is reached.
#[derive(Clone, Debug, PartialEq)]
pub struct ResolvedModel {
    pub provider_id: String,
    pub model: String,
    pub config: LlmClientConfig,
}

/// What a [`ResolvedModel`] stands for.
#[verifier::ext_equal]
pub struct ResolvedModelView {
    pub provider_id: Seq<char>,
    pub model: Seq<char>,
    pub config: LlmClientConfigView,
}

impl View for ResolvedModel {
    type V = ResolvedModelView;

    open spec fn view(&self) -> ResolvedModelView {
        ResolvedModelView {
            provider_id: self.provider_id@,
            model: self.model@,
            config: self.config@,
        }
    }
}

impl Dup for ResolvedModel {
    fn dup(&self) -> (r: Self) {
        ResolvedModel {
            provider_id: self.provider_id.clone(),
            model: self.model.clone(),
            config: self.config.dup(),
        }
    }
}

/// How a provider's model is reached; `None` where the provider is not configured.
pub open spec fn resolved(table: Seq<ResolvedModelView>, provider_id: Seq<char>, model: Seq<char>) -> Option<
    LlmClientConfigView,
> {
    match first_where(
        table.len() as int,
        |i: int| table[i].provider_id == provider_id && table[i].model == model,
    ) {
        Some(i) => Some(table[i].config),
        None => None,
    }
}

fn resolve(table: &Vec<ResolvedModel>, provider_id: &str, model: &str) -> (r: Option<
    LlmClientConfig,
>)
    ensures
        opt(r) == resolved(deep(table@), provider_id@, model@),
{
    let ghost all = deep(table@);
    let ghost hit = |i: int| all[i].provider_id == provider_id@ && all[i].model == model@;
    let mut i: usize = 0;
    while i < table.len()
        invariant
            i <= table@.len(),
            all == deep(table@),
            hit == (|i: int| all[i].provider_id == provider_id@ && all[i].model == model@),
            forall|k: int| 0 <= k < i ==> !#[trigger] hit(k),
        decreases table@.len() - i,
    {
        assert(all[i as int] == table@[i as int]@);
        if same_text(table[i].provider_id.as_str(), provider_id) && same_text(
            table[i].model.as_str(),
            model,
        ) {
            proof {
                assert(hit(i as int));
                lemma_first(all.len() as int, hit, i as int);
            }
            return Some(table[i].config.dup());
        }
        assert(!hit(i as int));
        i += 1;
    }
    proof {
        lemma_no_first(all.len() as int, hit);
    }
    None
}

pub open spec fn duplicate_model(model: Seq<char>) -> Seq<char> {
    "Auto mode: worker pool has duplicate model name `"@ + model
        + "` across providers — make pool entries' model names unique (the dispatcher looks up by model only)"@
}

pub open spec fn missing_provider(e: WorkerPoolEntryView) -> Seq<char> {
    "Auto mode: worker pool entry `"@ + e.model + "` references missing provider id=`"@
        + e.provider_id
        + "`. Fix Settings → Auto (remove the worker or re-add the provider)."@
}

pub open spec fn has_model(cs: Seq<ModelConfigView>, model: Seq<char>) -> bool {
    exists|i: int| 0 <= i < cs.len() && (#[trigger] cs[i]).model == model
}

/// How the models of a pool are reached, or why the first entry that cannot be used
/// cannot: its model is there already, or its provider is not configured.
pub open spec fn pool_configs(pool: Seq<WorkerPoolEntryView>, table: Seq<ResolvedModelView>) -> Result<
    Seq<ModelConfigView>,
    Seq<char>,
>
    decreases pool.len(),
{
    if pool.len() == 0 {
        Ok(Seq::empty())
    } else {
        let e = pool.last();
        match pool_configs(pool.drop_last(), table) {
            Err(x) => Err(x),
            Ok(cs) => if has_model(cs, e.model) {
                Err(duplicate_model(e.model))
            } else {
                match resolved(table, e.provider_id, e.model) {
                    None => Err(missing_provider(e)),
                    Some(c) => Ok(
                        cs.push(
                            ModelConfigView {
                                model: e.model,
                                config: LlmClientConfigView { disable_cache_control: false, ..c },
                            },
                        ),
                    ),
                }
            },
        }
    }
}

proof fn lemma_pool_error(pool: Seq<WorkerPoolEntryView>, table: Seq<ResolvedModelView>, i: int)
    requires
        0 <= i < pool.len(),
        pool_configs(pool.take(i + 1), table) is Err,
    ensures
        pool_configs(pool, table) == pool_configs(pool.take(i + 1), table),
    decreases pool.len() - i,
{
    if i + 1 < pool.len() {
        assert(pool.take(i + 2).drop_last() =~= pool.take(i + 1));
        lemma_pool_error(pool, table, i + 1);
    } else {
        assert(pool.take(i + 1) =~= pool);
    }
}

/// A pool that can be used gives one entry for each of its models, in order, no
/// model twice.
pub proof fn law_pool_configs(pool: Seq<WorkerPoolEntryView>, table: Seq<ResolvedModelView>)
    ensures
        pool_configs(pool, table) matches Ok(cs) ==> {
            &&& cs.len() == pool.len()
            &&& forall|i: int| 0 <= i < cs.len() ==> (#[trigger] cs[i]).model == pool[i].model
            &&& forall|i: int, j: int|
                0 <= i < j < cs.len() ==> (#[trigger] cs[i]).model != (#[trigger] cs[j]).model
        },
    decreases pool.len(),
{
    if pool.len() > 0 {
        law_pool_configs(pool.drop_last(), table);
    }
}

pub fn build_worker_llm_configs(pool: &Vec<WorkerPoolEntry>, table: &Vec<ResolvedModel>) -> (r: Result<
    Vec<ModelConfig>,
    String,
>)
    ensures
        match r {
            Ok(v) => pool_configs(deep(pool@), deep(table@)) == Ok::<
                Seq<ModelConfigView>,
                Seq<char>,
            >(deep(v@)),
            Err(e) => pool_configs(deep(pool@), deep(table@)) == Err::<
                Seq<ModelConfigView>,
                Seq<char>,
            >(e@),
        },
{
    let ghost pv = deep(pool@);
    let ghost tv = deep(table@);
    let mut out: Vec<ModelConfig> = Vec::new();
    let mut i: usize = 0;
    proof {
        assert(pv.take(0) =~= Seq::empty());
        assert(deep(out@) =~= Seq::<ModelConfigView>::empty());
    }
    while i < pool.len()
        invariant
            i <= pool@.len(),
            pv == deep(pool@),
            tv == deep(table@),
            pool_configs(pv.take(i as int), tv) == Ok::<Seq<ModelConfigView>, Seq<char>>(
                deep(out@),
            ),
        decreases pool@.len() - i,
    {
        let e = &pool[i];
        proof {
            assert(pv[i as int] == e@);
            lemma_take_next(pv, i as int);
            assert(pv.take(i + 1).drop_last() =~= pv.take(i as int));
        }
        if knows_model(&out, e.model.as_str()) {
            let mut msg = "Auto mode: worker pool has duplicate model name `".to_owned();
            msg.append(e.model.as_str());
            msg.append(
                "` across providers — make pool entries' model names unique (the dispatcher looks up by model only)",
            );
            proof {
                lemma_pool_error(pv, tv, i as int);
            }
            return Err(msg);
        }
        match resolve(table, e.provider_id.as_str(), e.model.as_str()) {
            None => {
                let mut msg = "Auto mode: worker pool entry `".to_owned();
                msg.append(e.model.as_str());
                msg.append("` references missing provider id=`");
                msg.append(e.provider_id.as_str());
                msg.append("`. Fix Settings → Auto (remove the worker or re-add the provider).");
                proof {
                    lemma_pool_error(pv, tv, i as int);
                }
                return Err(msg);
            },
            Some(c) => {
                let mut config = c;
                config.disable_cache_control = false;
                out.push(ModelConfig { model: e.model.clone(), config });
            },
        }
        i += 1;
    }
    assert(pv.take(i as int) =~= pv);
    Ok(out)
}

fn knows_model(configs: &Vec<ModelConfig>, model: &str) -> (r: bool)
    ensures
        r == has_model(deep(configs@), model@),
{
    let ghost cs = deep(configs@);
    let mut i: usize = 0;
    while i < configs.len()
        invariant
            i <= configs@.len(),
            cs == deep(configs@),
            forall|k: int| 0 <= k < i ==> (#[trigger] cs[k]).model != model@,
        decreases configs@.len() - i,
    {
        assert(cs[i as int] == configs@[i as int]@);
        if same_text(configs[i].model.as_str(), model) {
            assert(cs[i as int].model == model@);
            return true;
        }
        i += 1;
    }
    false
}

// ── The pipeline of a run ──

/// What a turn is started with.
#[derive(Clone, Debug, PartialEq)]
pub struct TurnInput {
    pub session_id: String,
    pub folder: String,
    pub run_id: String,
    /// The models of the configured providers.
    pub models: Vec<ResolvedModel>,
    pub context_engine_enabled: bool,
}

/// What a [`TurnInput`] stands for.
#[verifier::ext_equal]
pub struct TurnInputView {
    pub session_id: Seq<char>,
    pub folder: Seq<char>,
    pub run_id: Seq<char>,
    pub models: Seq<ResolvedModelView>,
    pub context_engine_enabled: bool,
}

impl View for TurnInput {
    type V = TurnInputView;

    open spec fn view(&self) -> TurnInputView {
        TurnInputView {
            session_id: self.session_id@,
            folder: self.folder@,
            run_id: self.run_id@,
            models: deep(self.models@),
            context_engine_enabled: self.context_engine_enabled,
        }
    }
}

impl Dup for TurnInput {
    fn dup(&self) -> (r: Self) {
        TurnInput {
            session_id: self.session_id.clone(),
            folder: self.folder.clone(),
            run_id: self.run_id.clone(),
            models: dup_vec(&self.models),
            context_engine_enabled: self.context_engine_enabled,
        }
    }
}

/// What a run needs: its orchestrator and what its workers share.
#[derive(Clone, Debug, PartialEq)]
pub struct Pipeline {
    pub orchestrator: ModelRef,
    pub orchestrator_llm: LlmClientConfig,
    pub worker_pool: Vec<WorkerPoolEntry>,
    pub worker_ctx: WorkerContext,
}

/// What a [`Pipeline`] stands for.
#[verifier::ext_equal]
pub struct PipelineView {
    pub orchestrator: ModelRefView,
    pub orchestrator_llm: LlmClientConfigView,
    pub worker_pool: Seq<WorkerPoolEntryView>,
    pub worker_ctx: WorkerContextView,
}

impl View for Pipeline {
    type V = PipelineView;

    open spec fn view(&self) -> PipelineView {
        PipelineView {
            orchestrator: self.orchestrator@,
            orchestrator_llm: self.orchestrator_llm@,
            worker_pool: deep(self.worker_pool@),
            worker_ctx: self.worker_ctx@,
        }
    }
}

impl Dup for Pipeline {
    fn dup(&self) -> (r: Self) {
        Pipeline {
            orchestrator: self.orchestrator.dup(),
            orchestrator_llm: self.orchestrator_llm.dup(),
            worker_pool: dup_vec(&self.worker_pool),
            worker_ctx: self.worker_ctx.dup(),
        }
    }
}

/// The texts of the two kinds of turn for settings that do not allow a run.
pub open spec fn not_configured(resuming: bool) -> Seq<char> {
    if resuming {
        "Resume: orchestrator model not configured in Settings → Auto"@
    } else {
        "Auto mode: orchestrator model not configured in Settings → Auto"@
    }
}

pub open spec fn pool_empty(resuming: bool) -> Seq<char> {
    if resuming {
        "Resume: worker pool is empty in Settings → Auto"@
    } else {
        "Auto mode: worker pool is empty in Settings → Auto"@
    }
}

pub open spec fn provider_missing(resuming: bool, provider_id: Seq<char>) -> Seq<char> {
    (if resuming {
        "Resume: orchestrator provider `"@
    } else {
        "Auto mode: orchestrator provider `"@
    }) + provider_id + "` is not configured"@
}

/// The pipeline of a run under these settings, or why there is none.
pub open spec fn pipeline_of(s: AutoSettingsView, input: TurnInputView, resuming: bool) -> Result<
    PipelineView,
    Seq<char>,
> {
    match s.orchestrator {
        None => Err(not_configured(resuming)),
        Some(o) => if s.worker_pool.len() == 0 {
            Err(pool_empty(resuming))
        } else {
            match resolved(input.models, o.provider_id, o.model) {
                None => Err(provider_missing(resuming, o.provider_id)),
                Some(c) => match pool_configs(s.worker_pool, input.models) {
                    Err(e) => Err(e),
                    Ok(worker_llm_configs) => Ok(
                        PipelineView {
                            orchestrator: o,
                            orchestrator_llm: LlmClientConfigView {
                                disable_cache_control: true,
                                ..c
                            },
                            worker_pool: s.worker_pool,
                            worker_ctx: WorkerContextView {
                                session_id: input.session_id,
                                run_id: input.run_id,
                                working_dir: input.folder,
                                worker_llm_configs,
                                max_iterations: 100,
                                compaction_llm: None,
                                has_context_engine: input.context_engine_enabled,
                                context_engine_repo_path: if input.context_engine_enabled {
                                    Some(input.folder)
                                } else {
                                    None
                                },
                                checkpoint_dir: None,
                            },
                        },
                    ),
                },
            }
        },
    }
}

fn build_pipeline(settings: AutoSettings, input: &TurnInput, resuming: bool) -> (r: Result<
    Pipeline,
    String,
>)
    ensures
        match r {
            Ok(p) => pipeline_of(settings@, input@, resuming) == Ok::<PipelineView, Seq<char>>(p@),
            Err(e) => pipeline_of(settings@, input@, resuming) == Err::<PipelineView, Seq<char>>(e@),
        },
{
    let orchestrator = match settings.orchestrator {
        Some(o) => o,
        None => {
            return Err(
                if resuming {
                    "Resume: orchestrator model not configured in Settings → Auto".to_owned()
                } else {
                    "Auto mode: orchestrator model not configured in Settings → Auto".to_owned()
                },
            );
        },
    };
    if settings.worker_pool.len() == 0 {
        return Err(
            if resuming {
                "Resume: worker pool is empty in Settings → Auto".to_owned()
            } else {
                "Auto mode: worker pool is empty in Settings → Auto".to_owned()
            },
        );
    }
    let found = resolve(
        &input.models,
        orchestrator.provider_id.as_str(),
        orchestrator.model.as_str(),
    );
    let mut orchestrator_llm = match found {
        Some(c) => c,
        None => {
            let mut msg = if resuming {
                "Resume: orchestrator provider `".to_owned()
            } else {
                "Auto mode: orchestrator provider `".to_owned()
            };
            msg.append(orchestrator.provider_id.as_str());
            msg.append("` is not configured");
            return Err(msg);
        },
    };
    orchestrator_llm.disable_cache_control = true;
    let worker_llm_configs = match build_worker_llm_configs(&settings.worker_pool, &input.models) {
        Ok(v) => v,
        Err(e) => {
            return Err(e);
        },
    };
    let worker_ctx = WorkerContext {
        session_id: input.session_id.clone(),
        run_id: input.run_id.clone(),
        working_dir: input.folder.clone(),
        worker_llm_configs,
        max_iterations: 100,
        compaction_llm: None,
        has_context_engine: input.context_engine_enabled,
        context_engine_repo_path: if input.context_engine_enabled {
            Some(input.folder.clone())
        } else {
            None
        },
        checkpoint_dir: None,
    };
    Ok(Pipeline { orchestrator, orchestrator_llm, worker_pool: settings.worker_pool, worker_ctx })
}

// ── Anchors ──

/// The metadata of the messages that stand for a run.
pub open spec fn auto_metadata(run_id: Seq<char>) -> JsonV {
    JsonV::Object(map!["auto_run_id"@ => JsonV::Str(run_id), "kind"@ => JsonV::Str("auto"@)])
}

proof fn lemma_auto_metadata(run_id: Seq<char>)
    ensures
        auto_metadata(run_id).printable(),
        auto_metadata(run_id).depth_at_most(1),
        auto_metadata(run_id).get("auto_run_id"@) == Some(JsonV::Str(run_id)),
{
    reveal_strlit("auto_run_id");
    reveal_strlit("kind");
    assert("auto_run_id"@.len() != "kind"@.len());
    let j = auto_metadata(run_id);
    assert forall|k: Seq<char>| #[trigger] j->Object_0.dom().contains(k) implies {
        &&& j->Object_0[k].printable()
        &&& j->Object_0[k].depth_at_most(0)
    } by {}
}

pub fn build_auto_metadata_json(auto_run_id: &str) -> (r: String)
    ensures
        r@ == json_text(auto_metadata(auto_run_id@)),
        reads_as(r@, auto_metadata(auto_run_id@)),
        auto_metadata(auto_run_id@).get("auto_run_id"@) == Some(JsonV::Str(auto_run_id@)),
{
    let mut m: Vec<(String, Json)> = Vec::new();
    put(&mut m, "auto_run_id", text_json(auto_run_id));
    put(&mut m, "kind", text_json("auto"));
    proof {
        let j = auto_metadata(auto_run_id@);
        lemma_auto_metadata(auto_run_id@);
        lemma_depth_grows(j, 1, 127);
        assert(crate::json::members_view(m@) =~= j->Object_0);
    }
    write_json(&Json::Object(m))
}

/// The message that stands for the user's prompt.
pub open spec fn user_anchor(
    t: TablesView,
    session_id: Seq<char>,
    folder: Seq<char>,
    prompt: Seq<char>,
    run_id: Seq<char>,
    now: Seq<char>,
) -> StoredMessageView {
    new_message(
        t,
        session_id,
        folder,
        "user"@,
        "text"@,
        json_text(chat_json("user"@, prompt)),
        json_text(auto_metadata(run_id)),
        None,
        now,
    )
}

/// The message that stands for the run until it has ended.
pub open spec fn assistant_anchor(
    t: TablesView,
    session_id: Seq<char>,
    folder: Seq<char>,
    run_id: Seq<char>,
    now: Seq<char>,
) -> StoredMessageView {
    new_message(
        t,
        session_id,
        folder,
        "assistant"@,
        "text"@,
        json_text(chat_json("assistant"@, "Auto run in progress…"@)),
        json_text(auto_metadata(run_id)),
        None,
        now,
    )
}

/// The two messages of a run, and the id of the second, or the error of the first
/// that could not be added.
pub open spec fn anchored(
    t: TablesView,
    session_id: Seq<char>,
    folder: Seq<char>,
    prompt: Seq<char>,
    run_id: Seq<char>,
    now: Seq<char>,
) -> (TablesView, Result<i64, Seq<char>>) {
    if is_full(t) {
        (t, Err("Failed to persist Auto user row: "@ + full_error().text()))
    } else {
        let u = t.after(
            WriteView::InsertMessage(user_anchor(t, session_id, folder, prompt, run_id, now)),
        );
        if is_full(u) {
            (u, Err("Failed to persist Auto assistant row: "@ + full_error().text()))
        } else {
            let v = u.after(
                WriteView::InsertMessage(assistant_anchor(u, session_id, folder, run_id, now)),
            );
            (v, Ok((u.last_id + 1) as i64))
        }
    }
}

/// The texts of the two messages of a run read as what they were made of.
pub open spec fn anchors_readable(prompt: Seq<char>, run_id: Seq<char>) -> bool {
    &&& reads_as(json_text(auto_metadata(run_id)), auto_metadata(run_id))
    &&& reads_as(json_text(chat_json("user"@, prompt)), chat_json("user"@, prompt))
}

/// Adds the two messages that stand for a run in the conversation. Gives the id of
/// the second, whose text is replaced when the run has ended.
pub fn persist_auto_anchor_rows(
    db: &mut AgentDb,
    session_id: &str,
    folder: &str,
    prompt: &str,
    auto_run_id: &str,
    now: &str,
) -> (r: Result<i64, String>)
    requires
        old(db).wf(),
    ensures
        final(db).wf(),
        final(db).saved() == old(db).saved(),
        final(db)@ == anchored(old(db)@, session_id@, folder@, prompt@, auto_run_id@, now@).0,
        match r {
            Ok(id) => anchored(old(db)@, session_id@, folder@, prompt@, auto_run_id@, now@).1
                == Ok::<i64, Seq<char>>(id),
            Err(e) => anchored(old(db)@, session_id@, folder@, prompt@, auto_run_id@, now@).1
                == Err::<i64, Seq<char>>(e@),
        },
        anchors_readable(prompt@, auto_run_id@),
{
    proof {
        db.law_store();
    }
    let metadata = build_auto_metadata_json(auto_run_id);
    let user_llm = build_llm_message_json("user", prompt);
    let added = db.insert_message(
        session_id,
        folder,
        "user",
        "text",
        user_llm.as_str(),
        metadata.as_str(),
        None,
        now,
    );
    if let Err(e) = added {
        let mut msg = "Failed to persist Auto user row: ".to_owned();
        msg.append(e.to_text().as_str());
        return Err(msg);
    }
    let asst_llm = build_llm_message_json("assistant", "Auto run in progress…");
    let added = db.insert_message(
        session_id,
        folder,
        "assistant",
        "text",
        asst_llm.as_str(),
        metadata.as_str(),
        None,
        now,
    );
    if let Err(e) = added {
        let mut msg = "Failed to persist Auto assistant row: ".to_owned();
        msg.append(e.to_text().as_str());
        return Err(msg);
    }
    Ok(db.last_id())
}

// ── Starting a run ──

/// A run that is ready to be executed.
#[derive(Debug, PartialEq)]
pub struct AutoTurn {
    pub exec_config: ExecutorConfig,
    pub orchestrator_llm: LlmClientConfig,
    pub worker_ctx: WorkerContext,
    /// The message whose text is replaced when the run has ended.
    pub assistant_row_id: i64,
    /// The model to make up a title with, where the session has none.
    pub title_model: Option<ModelRef>,
}

/// What an [`AutoTurn`] stands for.
#[verifier::ext_equal]
pub struct AutoTurnView {
    pub exec_config: ExecutorConfigView,
    pub orchestrator_llm: LlmClientConfigView,
    pub worker_ctx: WorkerContextView,
    pub assistant_row_id: i64,
    pub title_model: Option<ModelRefView>,
}

impl View for AutoTurn {
    type V = AutoTurnView;

    open spec fn view(&self) -> AutoTurnView {
        AutoTurnView {
            exec_config: self.exec_config@,
            orchestrator_llm: self.orchestrator_llm@,
            worker_ctx: self.worker_ctx@,
            assistant_row_id: self.assistant_row_id,
            title_model: opt(self.title_model),
        }
    }
}

impl Dup for AutoTurn {
    fn dup(&self) -> (r: Self) {
        AutoTurn {
            exec_config: self.exec_config.dup(),
            orchestrator_llm: self.orchestrator_llm.dup(),
            worker_ctx: self.worker_ctx.dup(),
            assistant_row_id: self.assistant_row_id,
            title_model: dup_opt(&self.title_model),
        }
    }
}

/// Whether a session has yet to get a title.
pub open spec fn needs_title(t: TablesView, session_id: Seq<char>) -> bool {
    match session_with_id(t, session_id) {
        Some(row) => match row.title {
            Some(title) => title.len() == 0,
            None => true,
        },
        None => true,
    }
}

/// The title that a session has until a better one is made up.
pub open spec fn fallback_title(message: Seq<char>) -> Seq<char> {
    trimmed(taken(message, 60))
}

/// The tables once a session has been marked as active and, where it has none, been
/// given a title.
pub open spec fn marked_active(
    t: TablesView,
    session_id: Seq<char>,
    message: Seq<char>,
    now: Seq<char>,
) -> TablesView {
    let u = t.after(
        WriteView::ChangeSession {
            id: session_id,
            change: SessionChangeView::Status("active"@),
            now,
        },
    );
    if needs_title(t, session_id) && fallback_title(message).len() > 0 {
        u.after(
            WriteView::ChangeSession {
                id: session_id,
                change: SessionChangeView::Title(fallback_title(message)),
                now,
            },
        )
    } else {
        u
    }
}

/// What the executor is asked to do in a fresh run.
pub open spec fn fresh_config(p: PipelineView, message: Seq<char>) -> ExecutorConfigView {
    ExecutorConfigView {
        task: message,
        auto_run_id: p.worker_ctx.run_id,
        session_id: p.worker_ctx.session_id,
        worker_pool: p.worker_pool,
        replan_budget: AUTO_REPLAN_BUDGET,
        resume_from: None,
        start_at_worker_id: None,
        initial_replan_reason: None,
    }
}

/// What starting a run does to the store and gives, or why it cannot be started.
pub open spec fn started_turn(
    settings: AutoSettingsView,
    t: TablesView,
    input: TurnInputView,
    message: Seq<char>,
    title_model: Option<ModelRefView>,
    now: Seq<char>,
    run_now: Seq<char>,
) -> (TablesView, Result<AutoTurnView, Seq<char>>) {
    if !settings.enabled {
        (t, Err("Auto mode is disabled in Settings. Re-enable it, or pick a regular model."@))
    } else {
        match pipeline_of(settings, input, false) {
            Err(e) => (t, Err(e)),
            Ok(p) => {
                let u = marked_active(t, input.session_id, message, now);
                let config = fresh_config(p, message);
                if u.has_run(input.run_id) {
                    (
                        u,
                        Err(
                            "Failed to insert auto_run: "@ + AgentDbErrorView::Sqlite(
                                "UNIQUE constraint failed: auto_runs.id"@,
                            ).text(),
                        ),
                    )
                } else {
                    let v = u.after(
                        WriteView::InsertRun(row_of_run(config.initial_run(), run_now)),
                    );
                    let a = anchored(
                        v,
                        input.session_id,
                        input.folder,
                        message,
                        input.run_id,
                        now,
                    );
                    match a.1 {
                        Err(e) => (a.0, Err(e)),
                        Ok(assistant_row_id) => (
                            a.0,
                            Ok(
                                AutoTurnView {
                                    exec_config: config,
                                    orchestrator_llm: p.orchestrator_llm,
                                    worker_ctx: p.worker_ctx,
                                    assistant_row_id,
                                    title_model: if needs_title(t, input.session_id) && trimmed(
                                        message,
                                    ).len() > 0 {
                                        match title_model {
                                            Some(m) => Some(m),
                                            None => Some(p.orchestrator),
                                        }
                                    } else {
                                        None
                                    },
                                },
                            ),
                        ),
                    }
                }
            },
        }
    }
}

/// What a turn came to.
pub open spec fn turn_result(r: Result<AutoTurn, String>) -> Result<AutoTurnView, Seq<char>> {
    match r {
        Ok(turn) => Ok(turn@),
        Err(e) => Err(e@),
    }
}

fn lacks_title(db: &AgentDb, session_id: &str) -> (r: Result<bool, AgentDbError>)
    requires
        db.wf(),
    ensures
        r matches Ok(b) && b == needs_title(db@, session_id@),
{
    match db.get_session(session_id) {
        Ok(Some(row)) => match row.title {
            Some(title) => Ok(title.as_str().unicode_len() == 0),
            None => Ok(true),
        },
        Ok(None) => Ok(true),
        Err(e) => Err(e),
    }
}

/// Starts a run in a session: checks the settings, marks the session as active, and
/// adds the run and the two messages that stand for it. `title_model` is the model
/// that the user has chosen for titles.
pub fn run_auto_turn(
    app_state: &AppState,
    db: &mut AgentDb,
    input: &TurnInput,
    message: &str,
    title_model: Option<ModelRef>,
    now: &str,
    run_now: &str,
) -> (r: Result<AutoTurn, String>)
    requires
        old(db).wf(),
    ensures
        final(db).wf(),
        final(db).saved() == old(db).saved(),
        ({
            let o = started_turn(
                settings_of(app_state@),
                old(db)@,
                input@,
                message@,
                opt(title_model),
                now@,
                run_now@,
            );
            final(db)@ == o.0 && turn_result(r) == o.1
        }),
        r matches Ok(turn) ==> {
            let run = turn@.exec_config.initial_run();
            &&& anchors_readable(message@, input@.run_id)
            &&& run_of_row(row_of_run(run, run_now@)) == Ok::<AutoRunView, AgentDbErrorView>(run)
        },
{
    let settings = read_auto_settings(app_state);
    if !settings.enabled {
        return Err(
            "Auto mode is disabled in Settings. Re-enable it, or pick a regular model.".to_owned(),
        );
    }
    let p = match build_pipeline(settings, input, false) {
        Ok(p) => p,
        Err(e) => {
            return Err(e);
        },
    };
    let ghost pv = p@;
    let untitled = match lacks_title(db, input.session_id.as_str()) {
        Ok(b) => b,
        Err(e) => {
            let mut msg = "failed to load session for title check: ".to_owned();
            msg.append(e.to_text().as_str());
            return Err(msg);
        },
    };
    let fallback = trim(take_chars(message, 60).as_str());
    let _ = db.set_session_status(input.session_id.as_str(), "active", now);
    if untitled && fallback.as_str().unicode_len() > 0 {
        let _ = db.set_session_title(input.session_id.as_str(), fallback.as_str(), now);
    }
    assert(db@ == marked_active(old(db)@, input@.session_id, message@, now@));
    let title = if untitled && trim(message).as_str().unicode_len() > 0 {
        match title_model {
            Some(m) => Some(m),
            None => Some(p.orchestrator.dup()),
        }
    } else {
        None
    };
    let exec_config = ExecutorConfig {
        task: message.to_owned(),
        auto_run_id: input.run_id.clone(),
        session_id: input.session_id.clone(),
        worker_pool: p.worker_pool,
        replan_budget: AUTO_REPLAN_BUDGET,
        resume_from: None,
        start_at_worker_id: None,
        initial_replan_reason: None,
    };
    let initial_run = AutoRun {
        id: input.run_id.clone(),
        session_id: input.session_id.clone(),
        status: AutoStatus::Planning,
        plan_versions: Vec::new(),
        worker_results: Vec::new(),
        cost_cents: 0,
        replans_used: 0,
        current_worker: None,
        pending_failure: None,
    };
    proof {
        assert(exec_config@ =~~= fresh_config(pv, message@));
        assert(initial_run@ =~~= fresh_config(pv, message@).initial_run());
    }
    if let Err(e) = db.insert_auto_run(&initial_run, run_now) {
        let mut msg = "Failed to insert auto_run: ".to_owned();
        msg.append(e.to_text().as_str());
        return Err(msg);
    }
    let anchors = persist_auto_anchor_rows(
        db,
        input.session_id.as_str(),
        input.folder.as_str(),
        message,
        input.run_id.as_str(),
        now,
    );
    match anchors {
        Ok(assistant_row_id) => Ok(
            AutoTurn {
                exec_config,
                orchestrator_llm: p.orchestrator_llm,
                worker_ctx: p.worker_ctx,
                assistant_row_id,
                title_model: title,
            },
        ),
        Err(e) => Err(e),
    }
}

// ── Folders ──

/// The folders in which a run is being executed.
pub struct RunningFolders {
    folders: Vec<String>,
}

impl View for RunningFolders {
    type V = Set<Seq<char>>;

    closed spec fn view(&self) -> Set<Seq<char>> {
        deep(self.folders@).to_set()
    }
}

impl RunningFolders {
    pub fn new() -> (r: RunningFolders)
        ensures
            r@ == Set::<Seq<char>>::empty(),
    {
        let folders: Vec<String> = Vec::new();
        assert(deep(folders@).to_set() =~= Set::<Seq<char>>::empty());
        RunningFolders { folders }
    }

    /// Takes a folder, unless it is taken.
    pub fn acquire(&mut self, folder: &str) -> (r: bool)
        ensures
            r == !old(self)@.contains(folder@),
            final(self)@ == old(self)@.insert(folder@),
    {
        if contains_text(&self.folders, folder) {
            assert(self@ =~= self@.insert(folder@));
            return false;
        }
        let ghost s = deep(self.folders@);
        self.folders.push(folder.to_owned());
        proof {
            assert forall|f: Seq<char>| s.push(folder@).to_set().contains(f)
                == s.to_set().insert(folder@).contains(f) by {
                if s.contains(f) {
                    let k = choose|k: int| 0 <= k < s.len() && s[k] == f;
                    assert(s.push(folder@)[k] == f);
                }
                if f == folder@ {
                    assert(s.push(folder@)[s.len() as int] == f);
                }
            }
            assert(self@ =~= old(self)@.insert(folder@));
        }
        true
    }

    /// Gives a folder back.
    pub fn release(&mut self, folder: &str)
        ensures
            final(self)@ == old(self)@.remove(folder@),
    {
        let ghost before = self@;
        let ghost all = deep(self.folders@);
        let mut kept: Vec<String> = Vec::new();
        let mut i: usize = 0;
        while i < self.folders.len()
            invariant
                i <= self.folders@.len(),
                all == deep(self.folders@),
                forall|f: Seq<char>| #[trigger]
                    deep(kept@).contains(f) <==> f != folder@ && all.take(i as int).contains(f),
            decreases self.folders@.len() - i,
        {
            let ghost k0 = deep(kept@);
            proof {
                assert(all[i as int] == self.folders@[i as int]@);
                lemma_take_next(all, i as int);
            }
            let ghost x = all[i as int];
            let ghost t0 = all.take(i as int);
            if !same_text(self.folders[i].as_str(), folder) {
                let name = self.folders[i].clone();
                kept.push(name);
                proof {
                    lemma_push_contains(k0, x);
                }
            }
            proof {
                lemma_push_contains(t0, x);
            }
            i += 1;
        }
        assert(all.take(i as int) =~= all);
        self.folders = kept;
        assert(self@ =~= before.remove(folder@)) by {
            assert forall|f: Seq<char>| self@.contains(f) == before.remove(folder@).contains(f) by {
                assert(deep(kept@).contains(f) <==> f != folder@ && all.contains(f));
            }
        }
    }
}

proof fn lemma_push_contains(s: Seq<Seq<char>>, x: Seq<char>)
    ensures
        forall|f: Seq<char>| #[trigger] s.push(x).contains(f) <==> s.contains(f) || f == x,
{
    assert forall|f: Seq<char>| #[trigger] s.push(x).contains(f) <==> s.contains(f) || f == x by {
        if s.contains(f) {
            let k = choose|k: int| 0 <= k < s.len() && s[k] == f;
            assert(s.push(x)[k] == f);
        }
        if f == x {
            assert(s.push(x)[s.len() as int] == f);
        }
        if s.push(x).contains(f) {
            let k = choose|k: int| 0 <= k < s.push(x).len() && s.push(x)[k] == f;
            if k < s.len() {
                assert(s[k] == f);
            }
        }
    }
}

/// A folder that was taken can be taken again once it was given back, and not
/// before.
pub proof fn law_folder_lock(s: Set<Seq<char>>, folder: Seq<char>)
    ensures
        s.insert(folder).contains(folder),
        !s.insert(folder).remove(folder).contains(folder),
        !s.contains(folder) ==> s.insert(folder).remove(folder) == s,
{
    if !s.contains(folder) {
        assert(s.insert(folder).remove(folder) =~= s);
    }
}

// ── Going on with a saved run ──

/// How to go on with a saved run.
#[derive(Clone, Debug, PartialEq)]
pub enum ResumeAction {
    /// Execute the saved plan.
    ApproveSavedPlan,
    /// Execute the saved plan from the worker that failed on.
    RetryWorker { worker_id: String },
    /// Ask the orchestrator for another plan.
    ReplanAfterFailure { reason: String },
}

/// What a [`ResumeAction`] stands for.
#[verifier::ext_equal]
pub enum ResumeActionView {
    ApproveSavedPlan,
    RetryWorker { worker_id: Seq<char> },
    ReplanAfterFailure { reason: Seq<char> },
}

impl View for ResumeAction {
    type V = ResumeActionView;

    open spec fn view(&self) -> ResumeActionView {
        match self {
            ResumeAction::ApproveSavedPlan => ResumeActionView::ApproveSavedPlan,
            ResumeAction::RetryWorker { worker_id } => ResumeActionView::RetryWorker {
                worker_id: worker_id@,
            },
            ResumeAction::ReplanAfterFailure { reason } => ResumeActionView::ReplanAfterFailure {
                reason: reason@,
            },
        }
    }
}

impl Dup for ResumeAction {
    fn dup(&self) -> (r: Self) {
        match self {
            ResumeAction::ApproveSavedPlan => ResumeAction::ApproveSavedPlan,
            ResumeAction::RetryWorker { worker_id } => ResumeAction::RetryWorker {
                worker_id: worker_id.clone(),
            },
            ResumeAction::ReplanAfterFailure { reason } => ResumeAction::ReplanAfterFailure {
                reason: reason.clone(),
            },
        }
    }
}

/// What the executor is asked to do when a saved run goes on.
pub open spec fn resumed_config(
    p: PipelineView,
    task: Seq<char>,
    snapshot: AutoRunView,
    action: ResumeActionView,
) -> ExecutorConfigView {
    ExecutorConfigView {
        task,
        auto_run_id: snapshot.id,
        session_id: snapshot.session_id,
        worker_pool: p.worker_pool,
        replan_budget: AUTO_REPLAN_BUDGET,
        resume_from: Some(snapshot),
        start_at_worker_id: match action {
            ResumeActionView::RetryWorker { worker_id } => Some(worker_id),
            _ => None,
        },
        initial_replan_reason: match action {
            ResumeActionView::ReplanAfterFailure { reason } => Some(reason),
            _ => None,
        },
    }
}

/// The message that stands for a run, or why it cannot be found.
pub open spec fn run_anchor(t: TablesView, run_id: Seq<char>) -> Result<i64, Seq<char>> {
    match anchor_of(t, "assistant"@, run_id) {
        Err(e) => Err("Failed to look up assistant row: "@ + e.text()),
        Ok(None) => Err("No assistant anchor row for run_id="@ + run_id),
        Ok(Some(m)) => Ok(m.id),
    }
}

/// The task of a run, or why it cannot be found.
pub open spec fn run_task(t: TablesView, run_id: Seq<char>) -> Result<Seq<char>, Seq<char>> {
    let found = match anchor_of(t, "user"@, run_id) {
        Err(e) => Err(e),
        Ok(None) => Ok(None),
        Ok(Some(m)) => prompt_in(json_parsed(m.llm_message)),
    };
    match found {
        Err(e) => Err("Failed to look up user prompt: "@ + e.text()),
        Ok(None) => Err("No user prompt found for run_id="@ + run_id),
        Ok(Some(task)) => Ok(task),
    }
}

/// What going on with a saved run gives, or why that cannot be done. It can where
/// the session, the two messages of the run and the settings are there, and the
/// folder is free.
pub open spec fn resumed_turn(
    settings: AutoSettingsView,
    t: TablesView,
    running: Set<Seq<char>>,
    snapshot: AutoRunView,
    action: ResumeActionView,
    models: Seq<ResolvedModelView>,
    context_engine_enabled: bool,
) -> Result<AutoTurnView, Seq<char>> {
    match session_with_id(t, snapshot.session_id) {
        None => Err("Session "@ + snapshot.session_id + " not found"@),
        Some(row) => match run_anchor(t, snapshot.id) {
            Err(e) => Err(e),
            Ok(assistant_row_id) => match run_task(t, snapshot.id) {
                Err(e) => Err(e),
                Ok(task) => match pipeline_of(
                    settings,
                    TurnInputView {
                        session_id: snapshot.session_id,
                        folder: row.folder,
                        run_id: snapshot.id,
                        models,
                        context_engine_enabled,
                    },
                    true,
                ) {
                    Err(e) => Err(e),
                    Ok(p) => if running.contains(row.folder) {
                        Err("A session is already running for "@ + row.folder)
                    } else {
                        Ok(
                            AutoTurnView {
                                exec_config: resumed_config(p, task, snapshot, action),
                                orchestrator_llm: p.orchestrator_llm,
                                worker_ctx: p.worker_ctx,
                                assistant_row_id,
                                title_model: None,
                            },
                        )
                    },
                },
            },
        },
    }
}

fn find_run_anchor(db: &AgentDb, run_id: &str) -> (r: Result<i64, String>)
    requires
        db.wf(),
    ensures
        match r {
            Ok(id) => run_anchor(db@, run_id@) == Ok::<i64, Seq<char>>(id),
            Err(e) => run_anchor(db@, run_id@) == Err::<i64, Seq<char>>(e@),
        },
{
    match db.find_auto_assistant_row_id(run_id) {
        Err(e) => {
            let mut msg = "Failed to look up assistant row: ".to_owned();
            msg.append(e.to_text().as_str());
            Err(msg)
        },
        Ok(None) => {
            let mut msg = "No assistant anchor row for run_id=".to_owned();
            msg.append(run_id);
            Err(msg)
        },
        Ok(Some(id)) => Ok(id),
    }
}

fn find_run_task(db: &AgentDb, run_id: &str) -> (r: Result<String, String>)
    requires
        db.wf(),
    ensures
        match r {
            Ok(task) => run_task(db@, run_id@) == Ok::<Seq<char>, Seq<char>>(task@),
            Err(e) => run_task(db@, run_id@) == Err::<Seq<char>, Seq<char>>(e@),
        },
{
    match db.find_auto_user_prompt(run_id) {
        Err(e) => {
            let mut msg = "Failed to look up user prompt: ".to_owned();
            msg.append(e.to_text().as_str());
            Err(msg)
        },
        Ok(None) => {
            let mut msg = "No user prompt found for run_id=".to_owned();
            msg.append(run_id);
            Err(msg)
        },
        Ok(Some(task)) => Ok(task),
    }
}

/// Goes on with a saved run: finds its session, its messages and its task, takes its
/// folder, and marks the session as active.
pub fn resume_auto_turn(
    app_state: &AppState,
    db: &mut AgentDb,
    running: &mut RunningFolders,
    snapshot: AutoRun,
    action: ResumeAction,
    models: Vec<ResolvedModel>,
    context_engine_enabled: bool,
    now: &str,
) -> (r: Result<AutoTurn, String>)
    requires
        old(db).wf(),
    ensures
        final(db).wf(),
        final(db).saved() == old(db).saved(),
        turn_result(r) == resumed_turn(
            settings_of(app_state@),
            old(db)@,
            old(running)@,
            snapshot@,
            action@,
            deep(models@),
            context_engine_enabled,
        ),
        match r {
            Ok(turn) => {
                &&& final(running)@ == old(running)@.insert(turn@.worker_ctx.working_dir)
                &&& final(db)@ == old(db)@.after(
                    WriteView::ChangeSession {
                        id: snapshot@.session_id,
                        change: SessionChangeView::Status("active"@),
                        now: now@,
                    },
                )
            },
            Err(_) => final(running)@ == old(running)@ && final(db)@ == old(db)@,
        },
{
    let row = match db.get_session(snapshot.session_id.as_str()) {
        Err(e) => {
            let mut msg = "Failed to load session: ".to_owned();
            msg.append(e.to_text().as_str());
            return Err(msg);
        },
        Ok(None) => {
            let mut msg = "Session ".to_owned();
            msg.append(snapshot.session_id.as_str());
            msg.append(" not found");
            return Err(msg);
        },
        Ok(Some(row)) => row,
    };
    let assistant_row_id: i64 = match find_run_anchor(db, snapshot.id.as_str()) {
        Ok(id) => id,
        Err(e) => {
            return Err(e);
        },
    };
    let task = match find_run_task(db, snapshot.id.as_str()) {
        Ok(task) => task,
        Err(e) => {
            return Err(e);
        },
    };
    let input = TurnInput {
        session_id: snapshot.session_id.clone(),
        folder: row.folder.clone(),
        run_id: snapshot.id.clone(),
        models,
        context_engine_enabled,
    };
    let p = match build_pipeline(read_auto_settings(app_state), &input, true) {
        Ok(p) => p,
        Err(e) => {
            return Err(e);
        },
    };
    let ghost pv = p@;
    let ghost sv = snapshot@;
    let ghost before = running@;
    if !running.acquire(row.folder.as_str()) {
        assert(running@ =~= before);
        let mut msg = "A session is already running for ".to_owned();
        msg.append(row.folder.as_str());
        return Err(msg);
    }
    let _ = db.set_session_status(snapshot.session_id.as_str(), "active", now);
    let (start_at_worker_id, initial_replan_reason) = match &action {
        ResumeAction::ApproveSavedPlan => (None, None),
        ResumeAction::RetryWorker { worker_id } => (Some(worker_id.clone()), None),
        ResumeAction::ReplanAfterFailure { reason } => (None, Some(reason.clone())),
    };
    let exec_config = ExecutorConfig {
        task,
        auto_run_id: snapshot.id.clone(),
        session_id: snapshot.session_id.clone(),
        worker_pool: p.worker_pool,
        replan_budget: AUTO_REPLAN_BUDGET,
        resume_from: Some(snapshot),
        start_at_worker_id,
        initial_replan_reason,
    };
    proof {
        assert(exec_config@ =~~= resumed_config(pv, task@, sv, action@));
    }
    Ok(
        AutoTurn {
            exec_config,
            orchestrator_llm: p.orchestrator_llm,
            worker_ctx: p.worker_ctx,
            assistant_row_id,
            title_model: None,
        },
    )
}

// ── The user's decisions ──

/// The name of a status in messages to the user.
pub open spec fn status_name(s: AutoStatus) -> Seq<char> {
    match s {
        AutoStatus::Planning => "Planning"@,
        AutoStatus::AwaitingApproval => "AwaitingApproval"@,
        AutoStatus::Running => "Running"@,
        AutoStatus::AwaitingFailureDecision => "AwaitingFailureDecision"@,
        AutoStatus::Done => "Done"@,
        AutoStatus::Failed => "Failed"@,
        AutoStatus::Cancelled => "Cancelled"@,
    }
}

fn name_of_status(s: AutoStatus) -> (r: &'static str)
    ensures
        r@ == status_name(s),
{
    match s {
        AutoStatus::Planning => "Planning",
        AutoStatus::AwaitingApproval => "AwaitingApproval",
        AutoStatus::Running => "Running",
        AutoStatus::AwaitingFailureDecision => "AwaitingFailureDecision",
        AutoStatus::Done => "Done",
        AutoStatus::Failed => "Failed",
        AutoStatus::Cancelled => "Cancelled",
    }
}

/// The saved run with an id, or why there is none.
pub open spec fn saved_run(t: TablesView, run_id: Seq<char>) -> Result<AutoRunView, Seq<char>> {
    match run_row(t, run_id) {
        None => Err("No saved Auto run with id="@ + run_id),
        Some(row) => match run_of_row(row) {
            Ok(run) => Ok(run),
            Err(e) => Err("Failed to load auto_run: "@ + e.text()),
        },
    }
}

/// The error of a decision on a run that does not wait for it.
pub open spec fn wrong_status(run_id: Seq<char>, s: AutoStatus, rule: Seq<char>) -> Seq<char> {
    "Auto run id="@ + run_id + " is in status "@ + status_name(s) + rule
}

fn load_saved_run(db: &AgentDb, run_id: &str) -> (r: Result<AutoRun, String>)
    requires
        db.wf(),
    ensures
        match r {
            Ok(run) => saved_run(db@, run_id@) == Ok::<AutoRunView, Seq<char>>(run@),
            Err(e) => saved_run(db@, run_id@) == Err::<AutoRunView, Seq<char>>(e@),
        },
{
    match db.get_auto_run(run_id) {
        Err(e) => {
            let mut msg = "Failed to load auto_run: ".to_owned();
            msg.append(e.to_text().as_str());
            Err(msg)
        },
        Ok(None) => {
            let mut msg = "No saved Auto run with id=".to_owned();
            msg.append(run_id);
            Err(msg)
        },
        Ok(Some(run)) => Ok(run),
    }
}

fn wrong_status_text(run_id: &str, s: AutoStatus, rule: &str) -> (r: String)
    ensures
        r@ == wrong_status(run_id@, s, rule@),
{
    let mut msg = "Auto run id=".to_owned();
    msg.append(run_id);
    msg.append(" is in status ");
    msg.append(name_of_status(s));
    msg.append(rule);
    msg
}

/// The saved run with an id; none is no error.
pub fn agent_get_auto_run(db: &AgentDb, run_id: &str) -> (r: Result<Option<AutoRun>, String>)
    requires
        db.wf(),
    ensures
        match run_row(db@, run_id@) {
            None => r matches Ok(o) && o is None,
            Some(row) => match run_of_row(row) {
                Ok(run) => r matches Ok(o) && opt(o) == Some(run),
                Err(e) => r matches Err(m) && m@ == "Failed to load auto_run: "@ + e.text(),
            },
        },
{
    match db.get_auto_run(run_id) {
        Ok(o) => Ok(o),
        Err(e) => {
            let mut msg = "Failed to load auto_run: ".to_owned();
            msg.append(e.to_text().as_str());
            Err(msg)
        },
    }
}

/// What follows from the user's answer to a plan.
#[derive(Debug, PartialEq)]
pub enum ApprovalStep {
    /// The executor is waiting: hand it the answer.
    Deliver(bool),
    /// Nothing more: the run has been given up.
    Closed,
    /// Go on with the saved run.
    Resume(AutoRun),
}

/// What an [`ApprovalStep`] stands for.
#[verifier::ext_equal]
pub enum ApprovalStepView {
    Deliver(bool),
    Closed,
    Resume(AutoRunView),
}

impl View for ApprovalStep {
    type V = ApprovalStepView;

    open spec fn view(&self) -> ApprovalStepView {
        match self {
            ApprovalStep::Deliver(x) => ApprovalStepView::Deliver(*x),
            ApprovalStep::Closed => ApprovalStepView::Closed,
            ApprovalStep::Resume(x) => ApprovalStepView::Resume(x@),
        }
    }
}

pub open spec fn approval_rule() -> Seq<char> {
    "; resume is only allowed from awaiting_approval"@
}

/// What follows from the user's answer to a plan. Where no executor waits for it,
/// the saved run must wait for approval.
pub open spec fn approval_step(t: TablesView, run_id: Seq<char>, approved: bool, waiting: bool) -> Result<
    ApprovalStepView,
    Seq<char>,
> {
    if waiting {
        Ok(ApprovalStepView::Deliver(approved))
    } else {
        match saved_run(t, run_id) {
            Err(e) => Err(e),
            Ok(run) => if run.status != AutoStatus::AwaitingApproval {
                Err(wrong_status(run_id, run.status, approval_rule()))
            } else if approved {
                Ok(ApprovalStepView::Resume(run))
            } else {
                Ok(ApprovalStepView::Closed)
            },
        }
    }
}

/// A saved run whose plan was turned down.
pub open spec fn closed_run(t: TablesView, run_id: Seq<char>) -> AutoRunView {
    AutoRunView { status: AutoStatus::Failed, ..saved_run(t, run_id)->Ok_0 }
}

/// Takes the user's answer to a plan; `waiting` says whether an executor waits for
/// it.
pub fn agent_approve_auto_plan(
    db: &mut AgentDb,
    run_id: &str,
    approved: bool,
    waiting: bool,
    run_now: &str,
) -> (r: Result<ApprovalStep, String>)
    requires
        old(db).wf(),
    ensures
        final(db).wf(),
        final(db).saved() == old(db).saved(),
        match approval_step(old(db)@, run_id@, approved, waiting) {
            Ok(s) => {
                &&& r matches Ok(step) && step@ == s
                &&& final(db)@ == if s is Closed {
                    old(db)@.after(
                        WriteView::UpdateRun(row_of_run(closed_run(old(db)@, run_id@), run_now@)),
                    )
                } else {
                    old(db)@
                }
                &&& s is Closed ==> run_of_row(
                    row_of_run(closed_run(old(db)@, run_id@), run_now@),
                ) == Ok::<AutoRunView, AgentDbErrorView>(closed_run(old(db)@, run_id@))
            },
            Err(e) => r matches Err(m) && m@ == e && final(db)@ == old(db)@,
        },
{
    if waiting {
        return Ok(ApprovalStep::Deliver(approved));
    }
    let mut snapshot = match load_saved_run(db, run_id) {
        Ok(run) => run,
        Err(e) => {
            return Err(e);
        },
    };
    if !matches!(snapshot.status, AutoStatus::AwaitingApproval) {
        return Err(
            wrong_status_text(
                run_id,
                snapshot.status,
                "; resume is only allowed from awaiting_approval",
            ),
        );
    }
    if !approved {
        snapshot.status = AutoStatus::Failed;
        let _ = db.update_auto_run(&snapshot, run_now);
        return Ok(ApprovalStep::Closed);
    }
    Ok(ApprovalStep::Resume(snapshot))
}

/// What follows from the user's decision on a failure.
#[derive(Debug, PartialEq)]
pub enum FailureStep {
    /// The run has been given up: say so.
    Cancelled { session_id: String, reason: String },
    /// Go on with the saved run.
    Resume { run: AutoRun, action: ResumeAction },
}

/// What a [`FailureStep`] stands for.
#[verifier::ext_equal]
pub enum FailureStepView {
    Cancelled { session_id: Seq<char>, reason: Seq<char> },
    Resume { run: AutoRunView, action: ResumeActionView },
}

impl View for FailureStep {
    type V = FailureStepView;

    open spec fn view(&self) -> FailureStepView {
        match self {
            FailureStep::Cancelled { session_id, reason } => FailureStepView::Cancelled {
                session_id: session_id@,
                reason: reason@,
            },
            FailureStep::Resume { run, action } => FailureStepView::Resume {
                run: run@,
                action: action@,
            },
        }
    }
}

pub open spec fn failure_rule() -> Seq<char> {
    "; failure-resolve is only allowed from awaiting_failure_decision"@
}

/// What is said of a run that was given up after a failure.
pub open spec fn cancelled_reason(f: WorkerFailureContextView) -> Seq<char> {
    "Cancelled by user after worker "@ + f.worker_id + " ("@ + f.worker_model + ") failed: "@
        + f.error_message
}

/// What follows from the user's decision on a failure: to retry the worker, to ask
/// for another plan, or to give up. The saved run must wait for that decision.
pub open spec fn failure_step(t: TablesView, run_id: Seq<char>, action: Seq<char>) -> Result<
    FailureStepView,
    Seq<char>,
> {
    match saved_run(t, run_id) {
        Err(e) => Err(e),
        Ok(run) => if run.status != AutoStatus::AwaitingFailureDecision {
            Err(wrong_status(run_id, run.status, failure_rule()))
        } else {
            match run.pending_failure {
                None => Err(
                    "Auto run id="@ + run_id
                        + " is awaiting_failure_decision but has no pending_failure context"@,
                ),
                Some(f) => if action == "cancel"@ {
                    Ok(
                        FailureStepView::Cancelled {
                            session_id: run.session_id,
                            reason: cancelled_reason(f),
                        },
                    )
                } else if action == "retry"@ {
                    Ok(
                        FailureStepView::Resume {
                            run,
                            action: ResumeActionView::RetryWorker { worker_id: f.worker_id },
                        },
                    )
                } else if action == "replan"@ {
                    Ok(
                        FailureStepView::Resume {
                            run,
                            action: ResumeActionView::ReplanAfterFailure { reason: f.error_message },
                        },
                    )
                } else {
                    Err(
                        "Unknown action `"@ + action
                            + "`; expected one of: retry, replan, cancel"@,
                    )
                },
            }
        },
    }
}

/// A saved run that was given up after a failure.
pub open spec fn given_up_run(t: TablesView, run_id: Seq<char>) -> AutoRunView {
    AutoRunView {
        status: AutoStatus::Failed,
        pending_failure: None,
        ..saved_run(t, run_id)->Ok_0
    }
}

/// Takes the user's decision on a failure.
pub fn agent_resolve_worker_failure(db: &mut AgentDb, run_id: &str, action: &str, run_now: &str) -> (r:
    Result<FailureStep, String>)
    requires
        old(db).wf(),
    ensures
        final(db).wf(),
        final(db).saved() == old(db).saved(),
        match failure_step(old(db)@, run_id@, action@) {
            Ok(s) => {
                &&& r matches Ok(step) && step@ == s
                &&& final(db)@ == if s is Cancelled {
                    old(db)@.after(
                        WriteView::UpdateRun(row_of_run(given_up_run(old(db)@, run_id@), run_now@)),
                    )
                } else {
                    old(db)@
                }
                &&& s is Cancelled ==> run_of_row(
                    row_of_run(given_up_run(old(db)@, run_id@), run_now@),
                ) == Ok::<AutoRunView, AgentDbErrorView>(given_up_run(old(db)@, run_id@))
            },
            Err(e) => r matches Err(m) && m@ == e && final(db)@ == old(db)@,
        },
{
    proof {
        reveal_strlit("cancel");
        reveal_strlit("retry");
        reveal_strlit("replan");
    }
    let mut snapshot = match load_saved_run(db, run_id) {
        Ok(run) => run,
        Err(e) => {
            return Err(e);
        },
    };
    if !matches!(snapshot.status, AutoStatus::AwaitingFailureDecision) {
        return Err(
            wrong_status_text(
                run_id,
                snapshot.status,
                "; failure-resolve is only allowed from awaiting_failure_decision",
            ),
        );
    }
    let failure = match &snapshot.pending_failure {
        Some(f) => f.dup(),
        None => {
            let mut msg = "Auto run id=".to_owned();
            msg.append(run_id);
            msg.append(" is awaiting_failure_decision but has no pending_failure context");
            return Err(msg);
        },
    };
    if same_text(action, "cancel") {
        let mut reason = "Cancelled by user after worker ".to_owned();
        reason.append(failure.worker_id.as_str());
        reason.append(" (");
        reason.append(failure.worker_model.as_str());
        reason.append(") failed: ");
        reason.append(failure.error_message.as_str());
        let session_id = snapshot.session_id.clone();
        snapshot.status = AutoStatus::Failed;
        snapshot.pending_failure = None;
        let _ = db.update_auto_run(&snapshot, run_now);
        return Ok(FailureStep::Cancelled { session_id, reason });
    }
    if same_text(action, "retry") {
        return Ok(
            FailureStep::Resume {
                run: snapshot,
                action: ResumeAction::RetryWorker { worker_id: failure.worker_id },
            },
        );
    }
    if same_text(action, "replan") {
        return Ok(
            FailureStep::Resume {
                run: snapshot,
                action: ResumeAction::ReplanAfterFailure { reason: failure.error_message },
            },
        );
    }
    let mut msg = "Unknown action `".to_owned();
    msg.append(action);
    msg.append("`; expected one of: retry, replan, cancel");
    Err(msg)
}

// ── The end of a run ──

/// The line of a worker in the report on a run that was stopped.
pub open spec fn completed_line(w: WorkerResultView) -> Seq<char> {
    "- **"@ + w.id + "** (`"@ + w.model + "`): "@ + truncated(w.summary, 240) + "\n"@
}

pub open spec fn completed_lines(ws: Seq<WorkerResultView>) -> Seq<char>
    decreases ws.len(),
{
    if ws.len() == 0 {
        Seq::empty()
    } else {
        completed_lines(ws.drop_last()) + completed_line(ws.last())
    }
}

/// The workers of a run that ended well.
pub open spec fn completed_workers(run: AutoRunView) -> Seq<WorkerResultView> {
    run.worker_results.filter(
        |w: WorkerResultView| w.status == WorkerStatusView::Completed,
    )
}

/// The report on a run that was stopped: during what, and what was done until then.
pub open spec fn cancelled_summary(run: AutoRunView, phase: Seq<char>) -> Seq<char> {
    let head = "**Auto run stopped during "@ + phase + ".**\n"@;
    let done = completed_workers(run);
    if done.len() == 0 {
        head
    } else {
        head + "\nCompleted workers ("@ + dec(done.len()) + "):\n"@ + completed_lines(done)
    }
}

pub fn build_cancelled_summary(run: &AutoRun, phase: &str) -> (r: String)
    ensures
        r@ == cancelled_summary(run@, phase@),
{
    let ghost all = deep(run.worker_results@);
    let ghost p = |w: WorkerResultView| w.status == WorkerStatusView::Completed;
    let mut lines = String::new();
    let mut n: usize = 0;
    let mut i: usize = 0;
    proof {
        reveal_strlit("");
        reveal(Seq::filter);
        assert(all.take(0).filter(p) =~= Seq::empty());
        assert(lines@ =~= completed_lines(all.take(0).filter(p)));
    }
    while i < run.worker_results.len()
        invariant
            n <= i <= run.worker_results@.len(),
            all == deep(run.worker_results@),
            p == (|w: WorkerResultView| w.status == WorkerStatusView::Completed),
            n == all.take(i as int).filter(p).len(),
            lines@ == completed_lines(all.take(i as int).filter(p)),
        decreases run.worker_results@.len() - i,
    {
        let w = &run.worker_results[i];
        let ghost before = all.take(i as int).filter(p);
        proof {
            assert(all[i as int] == w@);
            lemma_take_next(all, i as int);
            all.take(i as int).lemma_filter_push(all[i as int], p);
        }
        if matches!(w.status, WorkerStatus::Completed) {
            let mut line = "- **".to_owned();
            line.append(w.id.as_str());
            line.append("** (`");
            line.append(w.model.as_str());
            line.append("`): ");
            let excerpt = truncate(w.summary.as_str(), 240);
            line.append(excerpt.as_str());
            line.append("\n");
            lines.append(line.as_str());
            n += 1;
            proof {
                assert(before.push(w@).drop_last() =~= before);
            }
        }
        i += 1;
    }
    assert(all.take(i as int) =~= all);
    let mut out = "**Auto run stopped during ".to_owned();
    out.append(phase);
    out.append(".**\n");
    if n > 0 {
        out.append("\nCompleted workers (");
        out.append(decimal(n as u128).as_str());
        out.append("):\n");
        out.append(lines.as_str());
    }
    out
}

/// What the conversation says of a run that has ended.
pub open spec fn summary_text(result: AutoResultView) -> Seq<char> {
    match result {
        AutoResultView::Done { summary, .. } => summary,
        AutoResultView::Failed { reason, .. } => "Auto run failed: "@ + reason,
        AutoResultView::Cancelled { run, phase } => cancelled_summary(run, phase),
    }
}

/// The tables once the end of a run has been recorded.
pub open spec fn finished_turn(
    t: TablesView,
    result: AutoResultView,
    assistant_row_id: i64,
    run_now: Seq<char>,
) -> TablesView {
    t.after(WriteView::UpdateRun(row_of_run(result.run(), run_now))).after(
        WriteView::SetMessageContent {
            row_id: assistant_row_id,
            llm_message: json_text(chat_json("assistant"@, summary_text(result))),
        },
    )
}

/// Replaces the text of the message that stands for a run.
pub fn update_auto_assistant_summary(db: &mut AgentDb, row_id: i64, summary: &str)
    requires
        old(db).wf(),
    ensures
        final(db).wf(),
        final(db).saved() == old(db).saved(),
        final(db)@ == old(db)@.after(
            WriteView::SetMessageContent {
                row_id,
                llm_message: json_text(chat_json("assistant"@, summary@)),
            },
        ),
        reads_as(
            json_text(chat_json("assistant"@, summary@)),
            chat_json("assistant"@, summary@),
        ),
{
    let llm = build_llm_message_json("assistant", summary);
    let _ = db.update_message_llm_content(row_id, llm.as_str());
}

/// The events that are still to be sent when a run has ended: the executor says
/// nothing of a run that was cancelled.
pub open spec fn events_after(
    result: AutoResultView,
    session_id: Seq<char>,
    auto_run_id: Seq<char>,
) -> Seq<AgentEventView> {
    if result is Cancelled {
        seq![
            AgentEventView::AutoFailed {
                session_id,
                run_id: auto_run_id,
                reason: "Interrupted by user"@,
                last_worker_output: None,
            },
        ]
    } else {
        Seq::empty()
    }
}

/// What is still to be said of a run that has ended.
pub fn last_events(result: &AutoResult, session_id: &str, auto_run_id: &str) -> (r: Vec<AgentEvent>)
    ensures
        deep(r@) == events_after(result@, session_id@, auto_run_id@),
{
    let mut events: Vec<AgentEvent> = Vec::new();
    assert(deep(events@) =~= Seq::<AgentEventView>::empty());
    if matches!(result, AutoResult::Cancelled { .. }) {
        events.push(
            AgentEvent::AutoFailed {
                session_id: session_id.to_owned(),
                run_id: auto_run_id.to_owned(),
                reason: "Interrupted by user".to_owned(),
                last_worker_output: None,
            },
        );
    }
    assert(deep(events@) =~= events_after(result@, session_id@, auto_run_id@));
    events
}

/// Records the end of a run, and gives the events that are still to be sent.
pub fn finish_auto_turn(
    db: &mut AgentDb,
    result: &AutoResult,
    assistant_row_id: i64,
    session_id: &str,
    auto_run_id: &str,
    run_now: &str,
) -> (r: Vec<AgentEvent>)
    requires
        old(db).wf(),
    ensures
        final(db).wf(),
        final(db).saved() == old(db).saved(),
        final(db)@ == finished_turn(old(db)@, result@, assistant_row_id, run_now@),
        run_of_row(row_of_run(result@.run(), run_now@)) == Ok::<AutoRunView, AgentDbErrorView>(
            result@.run(),
        ),
        reads_as(
            json_text(chat_json("assistant"@, summary_text(result@))),
            chat_json("assistant"@, summary_text(result@)),
        ),
        deep(r@) == events_after(result@, session_id@, auto_run_id@),
{
    let (run, summary) = match result {
        AutoResult::Done { summary, run } => (run, summary.clone()),
        AutoResult::Failed { reason, run } => {
            let mut s = "Auto run failed: ".to_owned();
            s.append(reason.as_str());
            (run, s)
        },
        AutoResult::Cancelled { run, phase } => (run, build_cancelled_summary(run, phase.as_str())),
    };
    let _ = db.update_auto_run(run, run_now);
    update_auto_assistant_summary(db, assistant_row_id, summary.as_str());
    last_events(result, session_id, auto_run_id)
}

/// Marks a session as idle and gives its folder back.
pub fn close_auto_turn(
    db: &mut AgentDb,
    running: &mut RunningFolders,
    session_id: &str,
    folder: &str,
    now: &str,
)
    requires
        old(db).wf(),
    ensures
        final(db).wf(),
        final(db).saved() == old(db).saved(),
        final(db)@ == old(db)@.after(
            WriteView::ChangeSession {
                id: session_id@,
                change: SessionChangeView::Status("idle"@),
                now: now@,
            },
        ),
        final(running)@ == old(running)@.remove(folder@),
{
    let _ = db.set_session_status(session_id, "idle", now);
    running.release(folder);
}

// ── Laws ──

/// A message that gets in the way of finding the messages of a run: one that carries
/// the run's id, or of which that cannot be said.
pub open spec fn obstructs(m: StoredMessageView, run_id: Seq<char>) -> bool {
    tags_run(m, run_id) != Ok::<bool, Seq<char>>(false)
}

/// A run that was started can be gone on with: its task and the message that stands
/// for it are found again. That its texts can be read is what [`run_auto_turn`] hands
/// on; what is found in the metadata of a message is what
/// [`AgentDb::find_auto_assistant_row_id`] and [`AgentDb::find_auto_user_prompt`] hand
/// on, as far as they look.
pub proof fn law_started_run_is_found(
    t: TablesView,
    session_id: Seq<char>,
    folder: Seq<char>,
    prompt: Seq<char>,
    run_id: Seq<char>,
    now: Seq<char>,
)
    requires
        t.wf(),
        forall|i: int| 0 <= i < t.messages.len() ==> !obstructs(#[trigger] t.messages[i], run_id),
        anchored(t, session_id, folder, prompt, run_id, now).1 is Ok,
        anchors_readable(prompt, run_id),
        short_enough(run_id),
        short_enough(json_text(auto_metadata(run_id))),
        ({
            let v = anchored(t, session_id, folder, prompt, run_id, now).0;
            looked_at(v, "assistant"@, run_id) && looked_at(v, "user"@, run_id)
        }),
    ensures
        ({
            let a = anchored(t, session_id, folder, prompt, run_id, now);
            &&& run_anchor(a.0, run_id) == a.1
            &&& run_task(a.0, run_id) == Ok::<Seq<char>, Seq<char>>(prompt)
        }),
{
    reveal_strlit("auto_run_id");
    reveal_strlit("kind");
    reveal_strlit("user");
    reveal_strlit("assistant");
    assert("auto_run_id"@.len() != "kind"@.len());
    assert("user"@.len() != "assistant"@.len());
    lemma_chat_json("user"@, prompt);
    let u = t.after(
        WriteView::InsertMessage(user_anchor(t, session_id, folder, prompt, run_id, now)),
    );
    let v = anchored(t, session_id, folder, prompt, run_id, now).0;
    let n = t.messages.len() as int;
    let um = user_anchor(t, session_id, folder, prompt, run_id, now);
    let am = assistant_anchor(u, session_id, folder, run_id, now);
    assert(v.messages =~= t.messages.push(um).push(am));
    assert(v.messages[n] == um && v.messages[n + 1] == am);
    assert forall|i: int| 0 <= i < n implies !obstructs(#[trigger] v.messages[i], run_id) by {
        assert(v.messages[i] == t.messages[i]);
    }
    lemma_anchor_at(v, "user"@, run_id, n);
    lemma_anchor_at(v, "assistant"@, run_id, n + 1);
}

proof fn lemma_anchor_at(t: TablesView, role: Seq<char>, run_id: Seq<char>, n: int)
    requires
        0 <= n < t.messages.len(),
        t.messages[n].role == role,
        t.messages[n].rewound_at is None,
        t.messages[n].metadata == json_text(auto_metadata(run_id)),
        short_enough(run_id),
        short_enough(json_text(auto_metadata(run_id))),
        looked_at(t, role, run_id),
        forall|i: int|
            0 <= i < n ==> (#[trigger] t.messages[i]).role != role || !obstructs(
                t.messages[i],
                run_id,
            ),
    ensures
        anchor_of(t, role, run_id) == Ok::<_, AgentDbErrorView>(Some(t.messages[n])),
{
    let j = auto_metadata(run_id);
    let fits = |m: StoredMessageView| ends_search(m, role, run_id);
    let hit = |i: int| fits(t.messages[i]);
    assert forall|k: int| 0 <= k < n implies !ends_search(
        #[trigger] t.messages[k],
        role,
        run_id,
    ) by {
        assert(t.messages[k].role != role || !obstructs(t.messages[k], run_id));
    }
    lemma_auto_metadata(run_id);
    reveal_strlit("auto_run_id");
    reveal_strlit("$.auto_run_id");
    reveal_strlit("$.");
    assert(RUN_ID_PATH@ =~= member_path("auto_run_id"@));
    assert(plain_key("auto_run_id"@));
    lemma_depth_grows(j, 1, 127);
    assert(written_as(json_text(j), j));
    assert(tags_run(t.messages[n], run_id) == Ok::<bool, Seq<char>>(true));
    assert(hit(n));
    assert forall|k: int| 0 <= k < n implies !#[trigger] hit(k) by {
        assert(!ends_search(t.messages[k], role, run_id));
    }
    assert(is_first(t.messages.len() as int, hit, n));
    lemma_first(t.messages.len() as int, hit, n);
}

/// The end of a run that was recorded is what is read of it, and what the message
/// that stands for it says. The readable texts are what [`finish_auto_turn`] hands on.
pub proof fn law_finished_run_is_read(
    t: TablesView,
    result: AutoResultView,
    assistant_row_id: i64,
    run_now: Seq<char>,
    i: int,
)
    requires
        run_row(t, result.run().id) matches Some(row) && row.session_id
            == result.run().session_id,
        run_of_row(row_of_run(result.run(), run_now)) == Ok::<AutoRunView, AgentDbErrorView>(
            result.run(),
        ),
        reads_as(
            json_text(chat_json("assistant"@, summary_text(result))),
            chat_json("assistant"@, summary_text(result)),
        ),
        0 <= i < t.messages.len(),
        t.messages[i].id == assistant_row_id,
    ensures
        saved_run(
            finished_turn(t, result, assistant_row_id, run_now),
            result.run().id,
        ) == Ok::<AutoRunView, Seq<char>>(result.run()),
        prompt_in(
            json_parsed(
                finished_turn(t, result, assistant_row_id, run_now).messages[i].llm_message,
            ),
        ) == Ok::<_, AgentDbErrorView>(Some(summary_text(result))),
{
    law_read_after_update(t, result.run(), run_now);
    lemma_chat_json("assistant"@, summary_text(result));
    let u = t.after(WriteView::UpdateRun(row_of_run(result.run(), run_now)));
    let v = finished_turn(t, result, assistant_row_id, run_now);
    assert(v.runs == u.runs);
    let id = result.run().id;
    assert((|k: int| v.runs[k].id == id) =~= (|k: int| u.runs[k].id == id));
}

/// A fresh run can count its plans.
pub proof fn law_fresh_versions_fit(p: PipelineView, message: Seq<char>)
    ensures
        fresh_config(p, message).versions_fit(),
{
}

/// Retrying goes on with the worker that failed, replanning tells the orchestrator
/// why, and neither does what the other does.
pub proof fn law_decision_carries_failure(t: TablesView, run_id: Seq<char>)
    requires
        saved_run(t, run_id) matches Ok(run) && run.status == AutoStatus::AwaitingFailureDecision
            && run.pending_failure is Some,
    ensures
        ({
            let run = saved_run(t, run_id)->Ok_0;
            let f = run.pending_failure->0;
            &&& failure_step(t, run_id, "retry"@) == Ok::<_, Seq<char>>(
                FailureStepView::Resume {
                    run,
                    action: ResumeActionView::RetryWorker { worker_id: f.worker_id },
                },
            )
            &&& failure_step(t, run_id, "replan"@) == Ok::<_, Seq<char>>(
                FailureStepView::Resume {
                    run,
                    action: ResumeActionView::ReplanAfterFailure { reason: f.error_message },
                },
            )
            &&& failure_step(t, run_id, "cancel"@) is Ok
        }),
{
    reveal_strlit("cancel");
    reveal_strlit("retry");
    reveal_strlit("replan");
    assert("cancel"@[0] != "replan"@[0]);
    assert("retry"@.len() == 5 && "cancel"@.len() == 6 && "replan"@.len() == 6);
}

} // verus!
