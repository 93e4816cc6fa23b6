//! Under which names the parts of plans, results and settings are written and read.

use vstd::prelude::*;
use crate::auto::codec::{
    failure_from, failure_json, list_json, model_ref_json, model_ref_of, plan_json, plan_of,
    pool_entry_json, pool_entry_of, see_prior_json, see_prior_of, worker_result_json,
    worker_result_of, worker_spec_json, worker_spec_of, worker_status_json, ModelRefView,
};
use crate::auto::types::{
    PlanView, SeePriorKeyword, SeePriorView, WorkerFailureContextView, WorkerPoolEntryView,
    WorkerResultView, WorkerSpec, WorkerSpecView, WorkerStatusView,
};
use crate::json::{texts_view, JsonV};

verus! {

/// What a worker may see is written as a word, or as the list of the ids.
pub proof fn law_see_prior_written(ids: Seq<Seq<char>>)
    ensures
        see_prior_json(SeePriorView::Keyword(SeePriorKeyword::Nothing)) == JsonV::Str("none"@),
        see_prior_json(SeePriorView::Keyword(SeePriorKeyword::All)) == JsonV::Str("all"@),
        see_prior_json(SeePriorView::Specific(ids)) == JsonV::Array(
            Seq::new(ids.len(), |i: int| JsonV::Str(ids[i])),
        ),
{
    assert(texts_view(ids) =~= Seq::new(ids.len(), |i: int| JsonV::Str(ids[i])));
}

/// A worker is written with its id, its model, its prompt and what it may see.
pub proof fn law_worker_written(w: WorkerSpecView)
    ensures
        worker_spec_json(w).get("id"@) == Some(JsonV::Str(w.id)),
        worker_spec_json(w).get("model"@) == Some(JsonV::Str(w.model)),
        worker_spec_json(w).get("prompt"@) == Some(JsonV::Str(w.prompt)),
        worker_spec_json(w).get("see_prior"@) == Some(see_prior_json(w.see_prior)),
{
    reveal_strlit("id");
    reveal_strlit("model");
    reveal_strlit("prompt");
    reveal_strlit("see_prior");
    assert("id"@.len() == 2 && "model"@.len() == 5 && "prompt"@.len() == 6 && "see_prior"@.len()
        == 9);
}

/// A worker that an object gives is the one whose id, model and prompt stand there; one
/// that does not say what it may see may see everything.
pub proof fn law_worker_read(m: Map<Seq<char>, JsonV>)
    ensures
        worker_spec_of(JsonV::Object(m)) matches Ok(w) ==> {
            let j = JsonV::Object(m);
            &&& j.get("id"@) == Some(JsonV::Str(w.id))
            &&& j.get("model"@) == Some(JsonV::Str(w.model))
            &&& j.get("prompt"@) == Some(JsonV::Str(w.prompt))
            &&& j.get("see_prior"@) is None ==> w.see_prior == SeePriorView::Keyword(
                SeePriorKeyword::All,
            )
            &&& j.get("see_prior"@) matches Some(v) ==> see_prior_of(v) == Some(w.see_prior)
        },
        ({
            let j = JsonV::Object(m);
            &&& j.get("id"@) matches Some(JsonV::Str(_))
            &&& j.get("model"@) matches Some(JsonV::Str(_))
            &&& j.get("prompt"@) matches Some(JsonV::Str(_))
            &&& j.get("see_prior"@) matches Some(v) ==> see_prior_of(v) is Some
        }) ==> worker_spec_of(JsonV::Object(m)) is Ok,
{
}

/// What is missing from a worker is named, the id first.
pub proof fn law_worker_faults(m: Map<Seq<char>, JsonV>)
    requires
        !m.dom().contains("see_prior"@),
        forall|k: Seq<char>| #[trigger] m.dom().contains(k) ==> m[k] is Str,
    ensures
        !m.dom().contains("id"@) ==> worker_spec_of(JsonV::Object(m)) == Err::<WorkerSpecView, _>(
            "missing field `"@ + "id"@ + "`"@,
        ),
        m.dom().contains("id"@) && !m.dom().contains("model"@) ==> worker_spec_of(
            JsonV::Object(m),
        ) == Err::<WorkerSpecView, _>("missing field `"@ + "model"@ + "`"@),
        m.dom().contains("id"@) && m.dom().contains("model"@) && !m.dom().contains("prompt"@)
            ==> worker_spec_of(JsonV::Object(m)) == Err::<WorkerSpecView, _>(
            "missing field `"@ + "prompt"@ + "`"@,
        ),
{
}

/// A plan is written with its version, its reasoning and its workers, in order.
pub proof fn law_plan_written(p: PlanView)
    ensures
        plan_json(p).get("version"@) == Some(JsonV::Int(p.version as int)),
        plan_json(p).get("reasoning"@) == Some(JsonV::Str(p.reasoning)),
        plan_json(p).get("workers"@) == Some(
            JsonV::Array(Seq::new(p.workers.len(), |i: int| worker_spec_json(p.workers[i]))),
        ),
{
    reveal_strlit("version");
    reveal_strlit("reasoning");
    reveal_strlit("workers");
    assert("version"@.len() == 7 && "reasoning"@.len() == 9 && "workers"@.len() == 7);
    assert("version"@[0] != "workers"@[0]);
    assert("version"@ != "workers"@);
    assert(list_json::<WorkerSpec>(p.workers) =~= Seq::new(
        p.workers.len(),
        |i: int| worker_spec_json(p.workers[i]),
    ));
}

/// How a worker ended is written by its name, and what was wrong beside it.
pub proof fn law_status_written(s: WorkerStatusView)
    ensures
        s is Completed ==> worker_status_json(s).get("kind"@) == Some(JsonV::Str("ok"@)),
        s is MaxIterations ==> worker_status_json(s).get("kind"@) == Some(
            JsonV::Str("max_iterations"@),
        ),
        s is Cancelled ==> worker_status_json(s).get("kind"@) == Some(JsonV::Str("cancelled"@)),
        s matches WorkerStatusView::ToolError { message } ==> worker_status_json(s).get("kind"@)
            == Some(JsonV::Str("tool_error"@)) && worker_status_json(s).get("message"@) == Some(
            JsonV::Str(message),
        ),
        s matches WorkerStatusView::LlmError { message } ==> worker_status_json(s).get("kind"@)
            == Some(JsonV::Str("llm_error"@)) && worker_status_json(s).get("message"@) == Some(
            JsonV::Str(message),
        ),
{
    reveal_strlit("kind");
    reveal_strlit("message");
    assert("kind"@.len() == 4 && "message"@.len() == 7);
}

/// A result is written with all its parts.
pub proof fn law_result_written(w: WorkerResultView)
    ensures
        worker_result_json(w).get("id"@) == Some(JsonV::Str(w.id)),
        worker_result_json(w).get("model"@) == Some(JsonV::Str(w.model)),
        worker_result_json(w).get("prompt"@) == Some(JsonV::Str(w.prompt)),
        worker_result_json(w).get("summary"@) == Some(JsonV::Str(w.summary)),
        worker_result_json(w).get("tool_count"@) == Some(JsonV::Int(w.tool_count as int)),
        worker_result_json(w).get("cost_cents"@) == Some(JsonV::Int(w.cost_cents as int)),
        worker_result_json(w).get("status"@) == Some(worker_status_json(w.status)),
{
    reveal_strlit("id");
    reveal_strlit("model");
    reveal_strlit("prompt");
    reveal_strlit("summary");
    reveal_strlit("tool_count");
    reveal_strlit("cost_cents");
    reveal_strlit("status");
    assert("prompt"@[0] != "status"@[0]);
    assert("tool_count"@[0] != "cost_cents"@[0]);
    assert("prompt"@ != "status"@);
    assert("tool_count"@ != "cost_cents"@);
    assert("id"@.len() == 2 && "model"@.len() == 5 && "summary"@.len() == 7);
    assert("prompt"@.len() == 6 && "tool_count"@.len() == 10);
}

/// A failure, an entry of the pool and a model are written with all their parts.
pub proof fn law_others_written(
    f: WorkerFailureContextView,
    e: WorkerPoolEntryView,
    m: ModelRefView,
)
    ensures
        failure_json(f).get("worker_id"@) == Some(JsonV::Str(f.worker_id)),
        failure_json(f).get("worker_model"@) == Some(JsonV::Str(f.worker_model)),
        failure_json(f).get("worker_prompt"@) == Some(JsonV::Str(f.worker_prompt)),
        failure_json(f).get("error_message"@) == Some(JsonV::Str(f.error_message)),
        pool_entry_json(e).get("providerId"@) == Some(JsonV::Str(e.provider_id)),
        pool_entry_json(e).get("model"@) == Some(JsonV::Str(e.model)),
        pool_entry_json(e).get("description"@) == Some(JsonV::Str(e.description)),
        model_ref_json(m).get("providerId"@) == Some(JsonV::Str(m.provider_id)),
        model_ref_json(m).get("model"@) == Some(JsonV::Str(m.model)),
{
    reveal_strlit("worker_id");
    reveal_strlit("worker_model");
    reveal_strlit("worker_prompt");
    reveal_strlit("error_message");
    reveal_strlit("providerId");
    reveal_strlit("model");
    reveal_strlit("description");
    assert("worker_prompt"@[0] != "error_message"@[0]);
    assert("worker_prompt"@ != "error_message"@);
    assert("worker_id"@.len() == 9 && "worker_model"@.len() == 12 && "worker_prompt"@.len() == 13);
    assert("providerId"@.len() == 10 && "model"@.len() == 5 && "description"@.len() == 11);
}

/// What an object gives is what stands in it under those names.
pub proof fn law_objects_read(m: Map<Seq<char>, JsonV>)
    ensures
        ({
            let j = JsonV::Object(m);
            &&& plan_of(j) matches Some(p) ==> j.get("version"@) == Some(
                JsonV::Int(p.version as int),
            ) && j.get("reasoning"@) == Some(JsonV::Str(p.reasoning))
            &&& worker_result_of(j) matches Some(r) ==> {
                &&& j.get("id"@) == Some(JsonV::Str(r.id))
                &&& j.get("model"@) == Some(JsonV::Str(r.model))
                &&& j.get("prompt"@) == Some(JsonV::Str(r.prompt))
                &&& j.get("summary"@) == Some(JsonV::Str(r.summary))
                &&& j.get("tool_count"@) == Some(JsonV::Int(r.tool_count as int))
                &&& j.get("cost_cents"@) == Some(JsonV::Int(r.cost_cents as int))
            }
            &&& failure_from(j) matches Some(f) ==> {
                &&& j.get("worker_id"@) == Some(JsonV::Str(f.worker_id))
                &&& j.get("worker_model"@) == Some(JsonV::Str(f.worker_model))
                &&& j.get("worker_prompt"@) == Some(JsonV::Str(f.worker_prompt))
                &&& j.get("error_message"@) == Some(JsonV::Str(f.error_message))
            }
            &&& pool_entry_of(j) matches Some(e) ==> {
                &&& j.get("providerId"@) == Some(JsonV::Str(e.provider_id))
                &&& j.get("model"@) == Some(JsonV::Str(e.model))
                &&& j.get("description"@) == Some(JsonV::Str(e.description))
            }
            &&& model_ref_of(j) matches Some(r) ==> {
                &&& j.get("providerId"@) == Some(JsonV::Str(r.provider_id))
                &&& j.get("model"@) == Some(JsonV::Str(r.model))
            }
        }),
{
}

} // verus!
