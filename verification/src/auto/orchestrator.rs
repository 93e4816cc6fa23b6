//! The orchestrator: the prompt it is given, the reply it is asked for and how
//! a reply becomes a plan.

use vstd::prelude::*;
use vstd::string::*;
use crate::auto::codec::{worker_spec_from_json, worker_spec_of};
use crate::auto::executor::{reply_view, status_label, status_label_of, PlanGenerator};
use crate::auto::schema::{
    is_submit_tool, submit_plan_tool, submit_plan_tool_strict, ToolDefinition, SUBMIT_PLAN_TOOL_NAME,
};
use crate::auto::line::{ExchangeView, Line};
use crate::auto::types::{
    Plan, PlanView, WorkerPoolEntry, WorkerPoolEntryView, WorkerResult, WorkerResultView,
    WorkerSpec, WorkerSpecView, WorkerStatus,
};
use crate::json::{
    items_view, json_parsed, lemma_items, parse_json, parsed_view, put, text_json, Json, JsonV,
};
use crate::llm::{Header, HeaderView, LlmClientConfig, LlmClientConfigView, Provider};
use crate::text::{
    chars_of, dec, decimal, deep, first_where, join, joined, lemma_deep_push, lemma_first,
    lemma_has_first, lemma_no_first, lemma_take_next, opt, replace_all, replaced, same_text, take_bytes, trim_slashes, within_bytes,
    without_slashes, Dup,
};

verus! {

broadcast use lemma_deep_push;

/// Everything the orchestrator is told.
pub struct OrchestratorRequest<'a> {
    /// The user's task, word for word.
    pub task: &'a str,
    /// The models that workers may run on.
    pub worker_pool: &'a [WorkerPoolEntry],
    /// What the workers so far left behind; empty on the initial call.
    pub prior_results: &'a [WorkerResult],
    /// Why the orchestrator is asked again; `None` on the initial call.
    pub replan_reason: Option<&'a str>,
    /// The version that the plan will carry.
    pub plan_version: u32,
}

/// What an [`OrchestratorRequest`] stands for.
#[verifier::ext_equal]
pub struct OrchestratorRequestView {
    pub task: Seq<char>,
    pub worker_pool: Seq<WorkerPoolEntryView>,
    pub prior_results: Seq<WorkerResultView>,
    pub replan_reason: Option<Seq<char>>,
    pub plan_version: u32,
}

impl<'a> View for OrchestratorRequest<'a> {
    type V = OrchestratorRequestView;

    open spec fn view(&self) -> OrchestratorRequestView {
        OrchestratorRequestView {
            task: self.task@,
            worker_pool: deep(self.worker_pool@),
            prior_results: deep(self.prior_results@),
            replan_reason: opt(self.replan_reason),
            plan_version: self.plan_version,
        }
    }
}

/// Why there is no plan.
#[derive(Clone, Debug, PartialEq)]
pub enum OrchestratorError {
    EmptyWorkerPool,
    /// No reply could be read as a plan.
    Parse { attempts: u32, message: String },
    Http(String),
    Cancelled,
    /// The reply does not call the plan tool.
    NoToolUse(String),
}

/// What an [`OrchestratorError`] stands for.
#[verifier::ext_equal]
pub enum OrchestratorErrorView {
    EmptyWorkerPool,
    Parse { attempts: u32, message: Seq<char> },
    Http(Seq<char>),
    Cancelled,
    NoToolUse(Seq<char>),
}

impl View for OrchestratorError {
    type V = OrchestratorErrorView;

    open spec fn view(&self) -> OrchestratorErrorView {
        match self {
            OrchestratorError::EmptyWorkerPool => OrchestratorErrorView::EmptyWorkerPool,
            OrchestratorError::Parse { attempts, message } => OrchestratorErrorView::Parse {
                attempts: *attempts,
                message: message@,
            },
            OrchestratorError::Http(x) => OrchestratorErrorView::Http(x@),
            OrchestratorError::Cancelled => OrchestratorErrorView::Cancelled,
            OrchestratorError::NoToolUse(x) => OrchestratorErrorView::NoToolUse(x@),
        }
    }
}

impl Dup for OrchestratorError {
    fn dup(&self) -> (r: Self) {
        match self {
            OrchestratorError::EmptyWorkerPool => OrchestratorError::EmptyWorkerPool,
            OrchestratorError::Parse { attempts, message } => OrchestratorError::Parse {
                attempts: *attempts,
                message: message.clone(),
            },
            OrchestratorError::Http(x) => OrchestratorError::Http(x.clone()),
            OrchestratorError::Cancelled => OrchestratorError::Cancelled,
            OrchestratorError::NoToolUse(x) => OrchestratorError::NoToolUse(x.clone()),
        }
    }
}

impl OrchestratorErrorView {
    /// The error as a sentence.
    pub open spec fn text(self) -> Seq<char> {
        match self {
            OrchestratorErrorView::EmptyWorkerPool =>
                "worker pool is empty — orchestrator cannot pick from zero models"@,
            OrchestratorErrorView::Parse { attempts, message } =>
                "orchestrator returned an unparseable plan after "@ + dec(attempts as nat)
                    + " attempt(s); last error: "@ + message,
            OrchestratorErrorView::Http(m) => "orchestrator HTTP error: "@ + m,
            OrchestratorErrorView::Cancelled => "orchestrator call cancelled"@,
            OrchestratorErrorView::NoToolUse(m) =>
                "provider returned no submit_plan tool_use: "@ + m,
        }
    }
}

impl OrchestratorError {
    /// The error as a sentence.
    pub fn to_text(&self) -> (r: String)
        ensures
            r@ == self@.text(),
    {
        match self {
            OrchestratorError::EmptyWorkerPool =>
                "worker pool is empty — orchestrator cannot pick from zero models".to_owned(),
            OrchestratorError::Parse { attempts, message } => {
                let mut s = "orchestrator returned an unparseable plan after ".to_owned();
                s.append(decimal(*attempts as u128).as_str());
                s.append(" attempt(s); last error: ");
                s.append(message.as_str());
                s
            },
            OrchestratorError::Http(m) => {
                let mut s = "orchestrator HTTP error: ".to_owned();
                s.append(m.as_str());
                s
            },
            OrchestratorError::Cancelled => "orchestrator call cancelled".to_owned(),
            OrchestratorError::NoToolUse(m) => {
                let mut s = "provider returned no submit_plan tool_use: ".to_owned();
                s.append(m.as_str());
                s
            },
        }
    }
}

// ── The prompt ──

/// One line of the pool listing.
pub open spec fn pool_line(e: WorkerPoolEntryView) -> Seq<char> {
    "- `"@ + e.model + "` ("@ + e.provider_id + ") — "@ + e.description
}

/// The models to choose from, one to a line.
pub open spec fn pool_listing(pool: Seq<WorkerPoolEntryView>) -> Seq<char> {
    if pool.len() == 0 {
        "(empty — caller must reject before this point)"@
    } else {
        joined(pool.map_values(|e: WorkerPoolEntryView| pool_line(e)), "\n"@)
    }
}

/// The instructions: the template with the listing in its place.
pub open spec fn system_prompt(template: Seq<char>, pool: Seq<WorkerPoolEntryView>) -> Seq<char> {
    replaced(template, "{{worker_pool_listing}}"@, pool_listing(pool))
}

/// How an earlier worker is reported.
pub open spec fn prior_section(r: WorkerResultView) -> Seq<char> {
    "## `"@ + r.id + "` (model: `"@ + r.model + "`) — status: "@ + status_label_of(r.status)
        + "\n\n"@ + r.summary + "\n\n"@
}

pub open spec fn prior_sections(rs: Seq<WorkerResultView>) -> Seq<char>
    decreases rs.len(),
{
    if rs.len() == 0 {
        Seq::empty()
    } else {
        prior_sections(rs.drop_last()) + prior_section(rs.last())
    }
}

/// What the orchestrator is told when it is asked again.
pub open spec fn replan_note() -> Seq<char> {
    "\n\nRevise the REMAINING plan. Workers already completed (status ok) will not re-execute. Add new workers (`w<next>+`) or reissue the failed worker with a corrected prompt. Reuse a failed worker's id if you want it to replace the failed attempt.\n"@
}

/// The task; on a replan also what the workers so far left behind, and the reason.
pub open spec fn user_message(req: OrchestratorRequestView) -> Seq<char> {
    if req.prior_results.len() == 0 && req.replan_reason is None {
        "# Task\n\n"@ + req.task + "\n"@
    } else {
        let head = "# Task\n\n"@ + req.task + "\n\n"@;
        let body = if req.prior_results.len() == 0 {
            head
        } else {
            head + "# Prior worker outputs\n\n"@ + prior_sections(req.prior_results)
        };
        match req.replan_reason {
            Some(reason) => body + "# Replan reason\n\n"@ + reason + replan_note(),
            None => body,
        }
    }
}

/// The instructions and the message for a request.
pub fn build_orchestrator_messages(template: &str, req: &OrchestratorRequest<'_>) -> (r: (
    String,
    String,
))
    ensures
        r.0@ == system_prompt(template@, req@.worker_pool),
        r.1@ == user_message(req@),
{
    let system = format_system_prompt(template, req.worker_pool);
    let user = format_user_message(req);
    (system, user)
}

pub fn format_system_prompt(template: &str, pool: &[WorkerPoolEntry]) -> (r: String)
    ensures
        r@ == system_prompt(template@, deep(pool@)),
{
    let ghost lines = deep(pool@).map_values(|e: WorkerPoolEntryView| pool_line(e));
    let listing = if pool.len() == 0 {
        "(empty — caller must reject before this point)".to_owned()
    } else {
        let mut out: Vec<String> = Vec::new();
        let mut i: usize = 0;
        while i < pool.len()
            invariant
                i <= pool@.len(),
                lines == deep(pool@).map_values(|e: WorkerPoolEntryView| pool_line(e)),
                deep(out@) == lines.take(i as int),
            decreases pool@.len() - i,
        {
            let mut line = "- `".to_owned();
            line.append(pool[i].model.as_str());
            line.append("` (");
            line.append(pool[i].provider_id.as_str());
            line.append(") — ");
            line.append(pool[i].description.as_str());
            proof {
                assert(deep(pool@)[i as int] == pool@[i as int]@);
                assert(line@ == lines[i as int]);
                lemma_take_next(lines, i as int);
            }
            out.push(line);
            i += 1;
        }
        assert(lines.take(i as int) =~= lines);
        join(&out, "\n")
    };
    proof {
        reveal_strlit("{{worker_pool_listing}}");
    }
    replace_all(template, "{{worker_pool_listing}}", listing.as_str())
}

pub fn format_user_message(req: &OrchestratorRequest<'_>) -> (r: String)
    ensures
        r@ == user_message(req@),
{
    let mut s = "# Task\n\n".to_owned();
    s.append(req.task);
    if req.prior_results.len() == 0 && req.replan_reason.is_none() {
        s.append("\n");
        return s;
    }
    s.append("\n\n");
    if req.prior_results.len() > 0 {
        s.append("# Prior worker outputs\n\n");
        let ghost head = s@;
        let ghost rs = deep(req.prior_results@);
        let mut i: usize = 0;
        assert(head + prior_sections(rs.take(0)) =~= head);
        while i < req.prior_results.len()
            invariant
                i <= req.prior_results@.len(),
                rs == deep(req.prior_results@),
                s@ == head + prior_sections(rs.take(i as int)),
            decreases req.prior_results@.len() - i,
        {
            let p = &req.prior_results[i];
            let ghost before = s@;
            let mut part = "## `".to_owned();
            part.append(p.id.as_str());
            part.append("` (model: `");
            part.append(p.model.as_str());
            part.append("`) — status: ");
            part.append(worker_status_short(&p.status));
            part.append("\n\n");
            part.append(p.summary.as_str());
            part.append("\n\n");
            assert(rs[i as int] == p@);
            assert(part@ == prior_section(rs[i as int]));
            s.append(part.as_str());
            i += 1;
            assert(rs.take(i as int).drop_last() =~= rs.take(i - 1));
            assert(s@ =~= head + prior_sections(rs.take(i as int)));
        }
        assert(rs.take(i as int) =~= rs);
    }
    if let Some(reason) = req.replan_reason {
        s.append("# Replan reason\n\n");
        s.append(reason);
        s.append(
            "\n\nRevise the REMAINING plan. Workers already completed (status ok) will not re-execute. Add new workers (`w<next>+`) or reissue the failed worker with a corrected prompt. Reuse a failed worker's id if you want it to replace the failed attempt.\n",
        );
    }
    s
}

/// The label of a status in the report on earlier workers.
pub fn worker_status_short(status: &WorkerStatus) -> (r: &'static str)
    ensures
        r@ == status_label_of(status@),
{
    status_label(status)
}

// ── From a submission to a plan ──

/// What kind of value this is.
pub open spec fn kind_name(j: JsonV) -> Seq<char> {
    match j {
        JsonV::Null => "null"@,
        JsonV::Bool(_) => "boolean"@,
        JsonV::Int(_) => "number"@,
        JsonV::Float(_) => "number"@,
        JsonV::Str(_) => "string"@,
        JsonV::Array(_) => "array"@,
        JsonV::Object(_) => "object"@,
    }
}

pub fn value_type_name(j: &Json) -> (r: &'static str)
    ensures
        r@ == kind_name(j.view()),
{
    match j {
        Json::Null => "null",
        Json::Bool(_) => "boolean",
        Json::PosInt(_) => "number",
        Json::NegInt(_) => "number",
        Json::Float(_) => "number",
        Json::Str(_) => "string",
        Json::Array(_) => "array",
        Json::Object(_) => "object",
    }
}

/// The id of a worker in a submission: `w` and at least one digit.
pub open spec fn is_worker_id(id: Seq<char>) -> bool {
    &&& id.len() >= 2
    &&& id[0] == 'w'
    &&& forall|i: int| 1 <= i < id.len() ==> '0' <= #[trigger] id[i] <= '9'
}

/// The worker that an element of a submission describes, or why it describes none.
/// Beyond its shape, the id and the prompt are held to what the schema asks of them.
pub open spec fn submitted_worker(j: JsonV) -> Result<WorkerSpecView, Seq<char>> {
    match worker_spec_of(j) {
        Err(e) => Err("shape invalid: "@ + e),
        Ok(w) => if !is_worker_id(w.id) {
            Err("`id` must be `w` followed by digits"@)
        } else if w.prompt.len() == 0 {
            Err("`prompt` must not be empty"@)
        } else {
            Ok(w)
        },
    }
}

/// The first element that describes no worker.
pub open spec fn first_bad(a: Seq<JsonV>) -> Option<int> {
    first_where(a.len() as int, |i: int| submitted_worker(a[i]) is Err)
}

/// The plan that a list of workers makes, or why it makes none: it is empty, or an
/// element, the first of its kind, describes no worker.
pub open spec fn plan_of_list(
    a: Seq<JsonV>,
    reasoning: Seq<char>,
    version: u32,
) -> Result<PlanView, Seq<char>> {
    if a.len() == 0 {
        Err("`plan` array is empty; orchestrator must return at least one worker"@)
    } else {
        match first_bad(a) {
            Some(i) => Err("worker["@ + dec(i as nat) + "] "@ + submitted_worker(a[i])->Err_0),
            None => Ok(
                PlanView {
                    version,
                    reasoning,
                    workers: Seq::new(a.len(), |i: int| submitted_worker(a[i])->Ok_0),
                },
            ),
        }
    }
}

/// The plan of a list that came as a text, given what the text was read as.
pub open spec fn plan_of_text(
    parsed: Result<JsonV, Seq<char>>,
    reasoning: Seq<char>,
    version: u32,
) -> Result<PlanView, Seq<char>> {
    match parsed {
        Err(e) => Err("`plan` field was a string that failed to re-parse as JSON: "@ + e),
        Ok(JsonV::Array(a)) => plan_of_list(a, reasoning, version),
        Ok(_) => Err("`plan` was a string but didn't contain a JSON array"@),
    }
}

/// The plan of a submission, or why there is none.
pub open spec fn plan_of_input(input: JsonV, version: u32) -> Result<PlanView, Seq<char>> {
    match input.get("reasoning"@) {
        Some(JsonV::Str(reasoning)) => match input.get("plan"@) {
            None => Err("missing `plan` field"@),
            Some(JsonV::Array(a)) => plan_of_list(a, reasoning, version),
            Some(JsonV::Str(text)) => plan_of_text(json_parsed(text), reasoning, version),
            Some(other) => Err(
                "`plan` field must be an array (or stringified array); got "@ + kind_name(other),
            ),
        },
        _ => Err("missing `reasoning` field (must be string)"@),
    }
}

/// What an attempt to read a plan came to.
pub open spec fn parse_view(r: Result<Plan, String>) -> Result<PlanView, Seq<char>> {
    match r {
        Ok(p) => Ok(p@),
        Err(e) => Err(e@),
    }
}

fn has_worker_id(id: &str) -> (r: bool)
    ensures
        r == is_worker_id(id@),
{
    let v = chars_of(id);
    if v.len() < 2 || v[0] != 'w' {
        return false;
    }
    let mut i: usize = 1;
    while i < v.len()
        invariant
            v@ == id@,
            1 <= i <= v@.len(),
            forall|k: int| 1 <= k < i ==> '0' <= #[trigger] id@[k] <= '9',
        decreases v@.len() - i,
    {
        let c: char = v[i];
        if c < '0' || c > '9' {
            assert(!('0' <= id@[i as int] <= '9'));
            return false;
        }
        i += 1;
    }
    true
}

fn read_submitted_worker(j: &Json) -> (r: Result<WorkerSpec, String>)
    ensures
        match r {
            Ok(w) => submitted_worker(j.view()) == Ok::<WorkerSpecView, Seq<char>>(w@),
            Err(e) => submitted_worker(j.view()) == Err::<WorkerSpecView, Seq<char>>(e@),
        },
{
    match worker_spec_from_json(j) {
        Err(e) => {
            let mut msg = "shape invalid: ".to_owned();
            msg.append(e.as_str());
            Err(msg)
        },
        Ok(w) => if !has_worker_id(w.id.as_str()) {
            Err("`id` must be `w` followed by digits".to_owned())
        } else if w.prompt.as_str().unicode_len() == 0 {
            Err("`prompt` must not be empty".to_owned())
        } else {
            Ok(w)
        },
    }
}

/// Makes a plan of a list of workers.
pub fn plan_from_list(a: &Vec<Json>, reasoning: &str, version: u32) -> (r: Result<Plan, String>)
    ensures
        parse_view(r) == plan_of_list(items_view(a@), reasoning@, version),
{
    proof {
        lemma_items(a@);
    }
    let ghost vs = items_view(a@);
    let ghost bad = |i: int| submitted_worker(vs[i]) is Err;
    if a.len() == 0 {
        return Err("`plan` array is empty; orchestrator must return at least one worker".to_owned());
    }
    let mut workers: Vec<WorkerSpec> = Vec::new();
    let mut i: usize = 0;
    while i < a.len()
        invariant
            vs == items_view(a@),
            vs.len() == a@.len(),
            vs.len() > 0,
            forall|k: int| 0 <= k < a@.len() ==> #[trigger] vs[k] == a@[k].view(),
            bad == (|i: int| submitted_worker(vs[i]) is Err),
            i <= a@.len(),
            deep(workers@).len() == i,
            forall|k: int| 0 <= k < i ==> !#[trigger] bad(k),
            forall|k: int| 0 <= k < i ==> submitted_worker(#[trigger] vs[k])
                == Ok::<WorkerSpecView, Seq<char>>(deep(workers@)[k]),
        decreases a@.len() - i,
    {
        match read_submitted_worker(&a[i]) {
            Ok(w) => {
                assert(submitted_worker(vs[i as int]) == Ok::<WorkerSpecView, Seq<char>>(w@));
                workers.push(w);
            },
            Err(e) => {
                proof {
                    assert(submitted_worker(vs[i as int]) is Err);
                    assert(bad(i as int));
                    lemma_first(vs.len() as int, bad, i as int);
                }
                let mut msg = "worker[".to_owned();
                msg.append(decimal(i as u128).as_str());
                msg.append("] ");
                msg.append(e.as_str());
                return Err(msg);
            },
        }
        i += 1;
    }
    proof {
        lemma_no_first(vs.len() as int, bad);
        assert(Seq::new(vs.len(), |i: int| submitted_worker(vs[i])->Ok_0) =~= deep(workers@));
    }
    Ok(Plan { version, reasoning: reasoning.to_owned(), workers })
}

/// Makes a plan of what a text was read as.
pub fn plan_from_text(parsed: Result<Json, String>, reasoning: &str, version: u32) -> (r: Result<
    Plan,
    String,
>)
    ensures
        parse_view(r) == plan_of_text(parsed_view(parsed), reasoning@, version),
{
    match parsed {
        Err(e) => {
            let mut msg = "`plan` field was a string that failed to re-parse as JSON: ".to_owned();
            msg.append(e.as_str());
            Err(msg)
        },
        Ok(j) => match j.as_array() {
            Some(a) => plan_from_list(a, reasoning, version),
            None => Err("`plan` was a string but didn't contain a JSON array".to_owned()),
        },
    }
}

/// Makes a plan of a submission. The version is the caller's.
pub fn parse_plan_from_tool_input(input: &Json, version: u32) -> (r: Result<Plan, String>)
    ensures
        parse_view(r) == plan_of_input(input.view(), version),
{
    let reasoning = match input.get_str("reasoning") {
        Some(s) => s,
        None => {
            return Err("missing `reasoning` field (must be string)".to_owned());
        },
    };
    match input.get("plan") {
        None => Err("missing `plan` field".to_owned()),
        Some(j) => match j {
            Json::Array(a) => plan_from_list(a, reasoning, version),
            Json::Str(text) => plan_from_text(parse_json(text.as_str()), reasoning, version),
            _ => {
                let mut msg = "`plan` field must be an array (or stringified array); got ".to_owned();
                msg.append(value_type_name(j));
                Err(msg)
            },
        },
    }
}

/// A plan that was read is never empty, and carries the caller's version and the
/// submission's reasoning. Each of its workers has a proper id and something to do.
pub proof fn law_parsed_plan(input: JsonV, version: u32)
    ensures
        plan_of_input(input, version) matches Ok(p) ==> {
            &&& p.workers.len() > 0
            &&& p.version == version
            &&& input.get("reasoning"@) == Some(JsonV::Str(p.reasoning))
            &&& forall|i: int|
                0 <= i < p.workers.len() ==> is_worker_id((#[trigger] p.workers[i]).id)
                    && p.workers[i].prompt.len() > 0
        },
{
    if let Some(JsonV::Array(a)) = input.get("plan"@) {
        lemma_listed_workers(a, version);
    }
    if let Some(JsonV::Str(text)) = input.get("plan"@) {
        if let Ok(JsonV::Array(a)) = json_parsed(text) {
            lemma_listed_workers(a, version);
        }
    }
}

proof fn lemma_listed_workers(a: Seq<JsonV>, version: u32)
    ensures
        forall|reasoning: Seq<char>|
            (#[trigger] plan_of_list(a, reasoning, version)) matches Ok(p) ==> forall|i: int|
                0 <= i < p.workers.len() ==> is_worker_id((#[trigger] p.workers[i]).id)
                    && p.workers[i].prompt.len() > 0,
{
    let bad = |i: int| submitted_worker(a[i]) is Err;
    if first_bad(a) is None {
        assert forall|i: int| 0 <= i < a.len() implies submitted_worker(#[trigger] a[i]) is Ok by {
            if bad(i) {
                lemma_has_first(a.len() as int, bad, i);
            }
        }
    }
}

/// A list is the same whether it comes as such or as a text that reads as it.
pub proof fn law_stringified_plan(a: Seq<JsonV>, text: Seq<char>, reasoning: Seq<char>, version: u32)
    requires
        json_parsed(text) == Ok::<JsonV, Seq<char>>(JsonV::Array(a)),
    ensures
        plan_of_input(
            JsonV::Object(
                map!["reasoning"@ => JsonV::Str(reasoning), "plan"@ => JsonV::Str(text)],
            ),
            version,
        ) == plan_of_input(
            JsonV::Object(map!["reasoning"@ => JsonV::Str(reasoning), "plan"@ => JsonV::Array(a)]),
            version,
        ),
{
    reveal_strlit("reasoning");
    reveal_strlit("plan");
    assert("reasoning"@.len() != "plan"@.len());
}

// ── From a reply to a submission ──

/// What an extraction came to.
pub open spec fn input_view(r: Result<Json, OrchestratorError>) -> Result<JsonV, OrchestratorErrorView> {
    match r {
        Ok(j) => Ok(j.view()),
        Err(e) => Err(e@),
    }
}

/// A block that calls the submission tool.
pub open spec fn is_submission(block: JsonV) -> bool {
    &&& block.get("type"@) == Some(JsonV::Str("tool_use"@))
    &&& block.get("name"@) == Some(JsonV::Str(SUBMIT_PLAN_TOOL_NAME@))
}

/// The submission in an Anthropic reply: the input of the first block that calls
/// the tool.
pub open spec fn anthropic_input(resp: JsonV) -> Result<JsonV, OrchestratorErrorView> {
    match resp.get("content"@) {
        Some(JsonV::Array(blocks)) => match first_where(
            blocks.len() as int,
            |i: int| is_submission(blocks[i]),
        ) {
            Some(i) => match blocks[i].get("input"@) {
                Some(j) => Ok(j),
                None => Err(OrchestratorErrorView::NoToolUse("tool_use block has no `input`"@)),
            },
            None => Err(
                OrchestratorErrorView::NoToolUse(
                    "no submit_plan tool_use in response (model may have refused / replied as text)"@,
                ),
            ),
        },
        _ => Err(OrchestratorErrorView::NoToolUse("response missing `content` array"@)),
    }
}

fn member_is(j: &Json, key: &str, text: &str) -> (r: bool)
    ensures
        r == (j.view().get(key@) == Some(JsonV::Str(text@))),
{
    match j.get_str(key) {
        Some(s) => same_text(s, text),
        None => false,
    }
}

pub fn extract_anthropic_tool_input(resp: &Json) -> (r: Result<Json, OrchestratorError>)
    ensures
        input_view(r) == anthropic_input(resp.view()),
{
    let content = match resp.get("content") {
        Some(j) => match j.as_array() {
            Some(a) => a,
            None => {
                return Err(
                    OrchestratorError::NoToolUse("response missing `content` array".to_owned()),
                );
            },
        },
        None => {
            return Err(OrchestratorError::NoToolUse("response missing `content` array".to_owned()));
        },
    };
    proof {
        lemma_items(content@);
    }
    let ghost blocks = items_view(content@);
    let ghost hit = |i: int| is_submission(blocks[i]);
    let mut i: usize = 0;
    while i < content.len()
        invariant
            i <= content@.len(),
            blocks == items_view(content@),
            blocks.len() == content@.len(),
            forall|k: int| 0 <= k < content@.len() ==> #[trigger] blocks[k] == content@[k].view(),
            hit == (|i: int| is_submission(blocks[i])),
            resp.view().get("content"@) == Some(JsonV::Array(blocks)),
            forall|k: int| 0 <= k < i ==> !#[trigger] hit(k),
        decreases content@.len() - i,
    {
        let block = &content[i];
        assert(blocks[i as int] == block.view());
        if member_is(block, "type", "tool_use") && member_is(block, "name", SUBMIT_PLAN_TOOL_NAME) {
            proof {
                assert(hit(i as int));
                lemma_first(blocks.len() as int, hit, i as int);
            }
            return match block.get("input") {
                Some(j) => Ok(j.dup()),
                None => Err(
                    OrchestratorError::NoToolUse("tool_use block has no `input`".to_owned()),
                ),
            };
        }
        assert(!hit(i as int));
        i += 1;
    }
    proof {
        lemma_no_first(blocks.len() as int, hit);
    }
    Err(
        OrchestratorError::NoToolUse(
            "no submit_plan tool_use in response (model may have refused / replied as text)".to_owned(),
        ),
    )
}

/// One step of a path: the member of an object, or the element of an array whose
/// number the step is.
pub open spec fn step_to(j: JsonV, key: Seq<char>, i: int) -> Option<JsonV> {
    match j {
        JsonV::Object(_) => j.get(key),
        JsonV::Array(_) => j.at(i),
        _ => None,
    }
}

/// The calls in an OpenAI reply, under `choices`, 0, `message`, `tool_calls`.
pub open spec fn tool_calls(resp: JsonV) -> Option<Seq<JsonV>> {
    match resp.get("choices"@) {
        Some(choices) => match step_to(choices, "0"@, 0) {
            Some(choice) => match choice.get("message"@) {
                Some(message) => match message.get("tool_calls"@) {
                    Some(calls) => calls.as_array(),
                    None => None,
                },
                None => None,
            },
            None => None,
        },
        None => None,
    }
}

/// The member `key` of the member `function`.
pub open spec fn function_member(call: JsonV, key: Seq<char>) -> Option<JsonV> {
    match call.get("function"@) {
        Some(f) => f.get(key),
        None => None,
    }
}

pub open spec fn calls_submission(call: JsonV) -> bool {
    function_member(call, "name"@) == Some(JsonV::Str(SUBMIT_PLAN_TOOL_NAME@))
}

/// What the arguments of a call were read as, as a submission.
pub open spec fn openai_arguments(parsed: Result<JsonV, Seq<char>>) -> Result<
    JsonV,
    OrchestratorErrorView,
> {
    match parsed {
        Ok(j) => Ok(j),
        Err(e) => Err(
            OrchestratorErrorView::NoToolUse("submit_plan arguments are not valid JSON: "@ + e),
        ),
    }
}

/// The submission in an OpenAI reply: the arguments, read as JSON, of the first
/// call of the tool.
pub open spec fn openai_input(resp: JsonV) -> Result<JsonV, OrchestratorErrorView> {
    match tool_calls(resp) {
        Some(calls) => match first_where(calls.len() as int, |i: int| calls_submission(calls[i])) {
            Some(i) => match function_member(calls[i], "arguments"@) {
                Some(JsonV::Str(text)) => openai_arguments(json_parsed(text)),
                _ => Err(
                    OrchestratorErrorView::NoToolUse(
                        "submit_plan tool_call has no string `function.arguments`"@,
                    ),
                ),
            },
            None => Err(
                OrchestratorErrorView::NoToolUse(
                    "no submit_plan in tool_calls (model may have refused)"@,
                ),
            ),
        },
        None => Err(
            OrchestratorErrorView::NoToolUse("response missing /choices/0/message/tool_calls"@),
        ),
    }
}

fn find_tool_calls(resp: &Json) -> (r: Option<&Vec<Json>>)
    ensures
        match r {
            Some(a) => tool_calls(resp.view()) == Some(items_view(a@)),
            None => tool_calls(resp.view()) is None,
        },
{
    let choices = match resp.get("choices") {
        Some(j) => j,
        None => {
            return None;
        },
    };
    let choice = match choices {
        Json::Array(_) => choices.at(0),
        _ => choices.get("0"),
    };
    match choice {
        Some(c) => match c.get("message") {
            Some(m) => match m.get("tool_calls") {
                Some(calls) => calls.as_array(),
                None => None,
            },
            None => None,
        },
        None => None,
    }
}

fn function_text<'a>(call: &'a Json, key: &str) -> (r: Option<&'a str>)
    ensures
        match r {
            Some(s) => function_member(call.view(), key@) == Some(JsonV::Str(s@)),
            None => !(function_member(call.view(), key@) matches Some(JsonV::Str(_))),
        },
{
    match call.get("function") {
        Some(f) => f.get_str(key),
        None => None,
    }
}

/// Takes what the arguments of a call were read as for a submission.
pub fn arguments_from(parsed: Result<Json, String>) -> (r: Result<Json, OrchestratorError>)
    ensures
        input_view(r) == openai_arguments(parsed_view(parsed)),
{
    match parsed {
        Ok(j) => Ok(j),
        Err(e) => {
            let mut msg = "submit_plan arguments are not valid JSON: ".to_owned();
            msg.append(e.as_str());
            Err(OrchestratorError::NoToolUse(msg))
        },
    }
}

pub fn extract_openai_tool_input(resp: &Json) -> (r: Result<Json, OrchestratorError>)
    ensures
        input_view(r) == openai_input(resp.view()),
{
    let list = match find_tool_calls(resp) {
        Some(a) => a,
        None => {
            return Err(
                OrchestratorError::NoToolUse(
                    "response missing /choices/0/message/tool_calls".to_owned(),
                ),
            );
        },
    };
    proof {
        lemma_items(list@);
    }
    let ghost calls = items_view(list@);
    let ghost hit = |i: int| calls_submission(calls[i]);
    let mut i: usize = 0;
    while i < list.len()
        invariant
            i <= list@.len(),
            calls == items_view(list@),
            calls.len() == list@.len(),
            forall|k: int| 0 <= k < list@.len() ==> #[trigger] calls[k] == list@[k].view(),
            hit == (|i: int| calls_submission(calls[i])),
            tool_calls(resp.view()) == Some(calls),
            forall|k: int| 0 <= k < i ==> !#[trigger] hit(k),
        decreases list@.len() - i,
    {
        let call = &list[i];
        assert(calls[i as int] == call.view());
        let named = match function_text(call, "name") {
            Some(s) => same_text(s, SUBMIT_PLAN_TOOL_NAME),
            None => false,
        };
        if named {
            proof {
                assert(hit(i as int));
                lemma_first(calls.len() as int, hit, i as int);
            }
            return match function_text(call, "arguments") {
                Some(text) => arguments_from(parse_json(text)),
                None => Err(
                    OrchestratorError::NoToolUse(
                        "submit_plan tool_call has no string `function.arguments`".to_owned(),
                    ),
                ),
            };
        }
        assert(!hit(i as int));
        i += 1;
    }
    proof {
        lemma_no_first(calls.len() as int, hit);
    }
    Err(
        OrchestratorError::NoToolUse(
            "no submit_plan in tool_calls (model may have refused)".to_owned(),
        ),
    )
}

// ── The call ──

/// The cap on the length of a reply where the model's settings name none.
pub const DEFAULT_MAX_TOKENS: u32 = 4096;

/// How often a reply that cannot be read may be asked for again.
pub const PARSE_RETRY_BUDGET: u32 = 2;

/// How long one call may take, in seconds.
pub const REQUEST_TIMEOUT_SECS: u64 = 60;

/// A request to be sent with POST.
pub struct HttpRequest {
    pub url: String,
    pub headers: Vec<Header>,
    pub body: Json,
}

/// What came of a request.
pub enum HttpReply {
    /// The user cancelled while it was under way.
    Cancelled,
    /// It could not be sent; the text says why.
    Failed(String),
    /// It was answered, but the body could not be read.
    Unreadable(String),
    Response {
        status: u16,
        /// The status as text, such as "404 Not Found".
        status_text: String,
        body: String,
    },
}

pub open spec fn header(name: Seq<char>, value: Seq<char>) -> HeaderView {
    HeaderView { name, value }
}

/// The headers of every request, those of the provider, the key where there is
/// one, and then the configured ones.
pub open spec fn request_headers(llm: LlmClientConfigView, version: Seq<char>) -> Seq<HeaderView> {
    let json = seq![header("content-type"@, "application/json"@)];
    let base = match llm.provider {
        Provider::Anthropic => json.push(header("anthropic-version"@, version)),
        Provider::OpenAI => json,
    };
    let keyed = if llm.api_key.len() == 0 {
        base
    } else {
        match llm.provider {
            Provider::Anthropic => base.push(header("x-api-key"@, llm.api_key)),
            Provider::OpenAI => base.push(header("authorization"@, "Bearer "@ + llm.api_key)),
        }
    };
    keyed + llm.extra_headers
}

pub open spec fn request_url(llm: LlmClientConfigView) -> Seq<char> {
    without_slashes(llm.base_url) + match llm.provider {
        Provider::Anthropic => "/v1/messages"@,
        Provider::OpenAI => "/chat/completions"@,
    }
}

pub open spec fn chat_message(role: Seq<char>, content: Seq<char>) -> JsonV {
    JsonV::Object(map!["role"@ => JsonV::Str(role), "content"@ => JsonV::Str(content)])
}

/// The submission tool the way Anthropic takes it.
pub open spec fn anthropic_tool(t: ToolDefinition) -> JsonV {
    JsonV::Object(
        map![
            "name"@ => JsonV::Str(t.function.name@),
            "description"@ => match t.function.description {
                Some(d) => JsonV::Str(d@),
                None => JsonV::Null,
            },
            "input_schema"@ => match t.function.parameters {
                Some(p) => p.view(),
                None => JsonV::Null,
            },
        ],
    )
}

/// The body of a request: the two messages, the submission tool, and the demand to
/// call it.
pub open spec fn request_body(
    llm: LlmClientConfigView,
    tool: ToolDefinition,
    system: Seq<char>,
    user: Seq<char>,
) -> JsonV {
    match llm.provider {
        Provider::Anthropic => JsonV::Object(
            map![
                "model"@ => JsonV::Str(llm.model),
                "max_tokens"@ => JsonV::Int(match llm.max_completion_tokens {
                    Some(n) => n as int,
                    None => DEFAULT_MAX_TOKENS as int,
                }),
                "system"@ => JsonV::Str(system),
                "messages"@ => JsonV::Array(seq![chat_message("user"@, user)]),
                "tools"@ => JsonV::Array(seq![anthropic_tool(tool)]),
                "tool_choice"@ => JsonV::Object(
                    map![
                        "type"@ => JsonV::Str("tool"@),
                        "name"@ => JsonV::Str(SUBMIT_PLAN_TOOL_NAME@),
                    ],
                ),
                "stream"@ => JsonV::Bool(false),
            ],
        ),
        Provider::OpenAI => JsonV::Object(
            map![
                "model"@ => JsonV::Str(llm.model),
                "messages"@ => JsonV::Array(
                    seq![chat_message("system"@, system), chat_message("user"@, user)],
                ),
                "tools"@ => JsonV::Array(seq![tool.wire()]),
                "tool_choice"@ => JsonV::Object(
                    map![
                        "type"@ => JsonV::Str("function"@),
                        "function"@ => JsonV::Object(
                            map!["name"@ => JsonV::Str(SUBMIT_PLAN_TOOL_NAME@)],
                        ),
                    ],
                ),
                "stream"@ => JsonV::Bool(false),
            ],
        ),
    }
}

/// Whether `r` asks `llm` for a submission on these messages.
pub open spec fn asks_for_plan(
    r: HttpRequest,
    llm: LlmClientConfigView,
    version: Seq<char>,
    system: Seq<char>,
    user: Seq<char>,
) -> bool {
    &&& r.url@ == request_url(llm)
    &&& deep(r.headers@) == request_headers(llm, version)
    &&& exists|tool: ToolDefinition|
        is_submit_tool(tool, llm.provider == Provider::OpenAI) && r.body.view() == request_body(
            llm,
            tool,
            system,
            user,
        )
}

fn one_item(j: Json) -> (r: Json)
    ensures
        r.view() == JsonV::Array(seq![j.view()]),
{
    let out = vec![j];
    proof {
        lemma_items(out@);
    }
    assert(items_view(out@) =~= seq![j.view()]);
    Json::Array(out)
}

fn chat_message_json(role: &str, content: &str) -> (r: Json)
    ensures
        r.view() == chat_message(role@, content@),
{
    let mut m: Vec<(String, Json)> = Vec::new();
    put(&mut m, "role", text_json(role));
    put(&mut m, "content", text_json(content));
    Json::Object(m)
}

fn anthropic_body(llm: &LlmClientConfig, tool: &ToolDefinition, system: &str, user: &str) -> (r: Json)
    requires
        llm.provider == Provider::Anthropic,
    ensures
        r.view() == request_body(llm@, *tool, system@, user@),
{
    let mut t: Vec<(String, Json)> = Vec::new();
    put(&mut t, "name", text_json(tool.function.name.as_str()));
    put(
        &mut t,
        "description",
        match &tool.function.description {
            Some(d) => text_json(d.as_str()),
            None => Json::Null,
        },
    );
    put(
        &mut t,
        "input_schema",
        match &tool.function.parameters {
            Some(p) => p.dup(),
            None => Json::Null,
        },
    );
    let mut choice: Vec<(String, Json)> = Vec::new();
    put(&mut choice, "type", text_json("tool"));
    put(&mut choice, "name", text_json(SUBMIT_PLAN_TOOL_NAME));
    let max_tokens: u32 = match llm.max_completion_tokens {
        Some(n) => n,
        None => DEFAULT_MAX_TOKENS,
    };
    let mut m: Vec<(String, Json)> = Vec::new();
    put(&mut m, "model", text_json(llm.model.as_str()));
    put(&mut m, "max_tokens", Json::PosInt(max_tokens as u64));
    put(&mut m, "system", text_json(system));
    put(&mut m, "messages", one_item(chat_message_json("user", user)));
    put(&mut m, "tools", one_item(Json::Object(t)));
    put(&mut m, "tool_choice", Json::Object(choice));
    put(&mut m, "stream", Json::Bool(false));
    Json::Object(m)
}

fn openai_body(llm: &LlmClientConfig, tool: &ToolDefinition, system: &str, user: &str) -> (r: Json)
    requires
        llm.provider == Provider::OpenAI,
    ensures
        r.view() == request_body(llm@, *tool, system@, user@),
{
    let messages = vec![chat_message_json("system", system), chat_message_json("user", user)];
    proof {
        lemma_items(messages@);
    }
    assert(items_view(messages@) =~= seq![
        chat_message("system"@, system@),
        chat_message("user"@, user@),
    ]);
    let mut function: Vec<(String, Json)> = Vec::new();
    put(&mut function, "name", text_json(SUBMIT_PLAN_TOOL_NAME));
    let mut choice: Vec<(String, Json)> = Vec::new();
    put(&mut choice, "type", text_json("function"));
    put(&mut choice, "function", Json::Object(function));
    let mut m: Vec<(String, Json)> = Vec::new();
    put(&mut m, "model", text_json(llm.model.as_str()));
    put(&mut m, "messages", Json::Array(messages));
    put(&mut m, "tools", one_item(tool.to_json()));
    put(&mut m, "tool_choice", Json::Object(choice));
    put(&mut m, "stream", Json::Bool(false));
    Json::Object(m)
}

fn request_header_list(llm: &LlmClientConfig, version: &str) -> (r: Vec<Header>)
    ensures
        deep(r@) == request_headers(llm@, version@),
{
    let mut out: Vec<Header> = Vec::new();
    out.push(
        Header { name: "content-type".to_owned(), value: "application/json".to_owned() },
    );
    assert(deep(out@) =~= seq![header("content-type"@, "application/json"@)]);
    match llm.provider {
        Provider::Anthropic => {
            out.push(Header { name: "anthropic-version".to_owned(), value: version.to_owned() });
        },
        Provider::OpenAI => {},
    }
    if llm.api_key.as_str().unicode_len() > 0 {
        match llm.provider {
            Provider::Anthropic => {
                out.push(Header { name: "x-api-key".to_owned(), value: llm.api_key.clone() });
            },
            Provider::OpenAI => {
                let mut value = "Bearer ".to_owned();
                value.append(llm.api_key.as_str());
                out.push(Header { name: "authorization".to_owned(), value });
            },
        }
    }
    let ghost base = deep(out@);
    let ghost extra = deep(llm.extra_headers@);
    let mut i: usize = 0;
    assert(base + extra.take(0) =~= base);
    while i < llm.extra_headers.len()
        invariant
            i <= llm.extra_headers@.len(),
            extra == deep(llm.extra_headers@),
            deep(out@) == base + extra.take(i as int),
        decreases llm.extra_headers@.len() - i,
    {
        let h = llm.extra_headers[i].dup();
        assert(h@ == extra[i as int]);
        proof {
            lemma_take_next(extra, i as int);
        }
        out.push(h);
        i += 1;
        assert(deep(out@) =~= base + extra.take(i as int));
    }
    assert(extra.take(i as int) =~= extra);
    out
}

/// The request for a plan. `version` is the version of the Anthropic interface.
pub fn plan_http_request(llm: &LlmClientConfig, version: &str, system: &str, user: &str) -> (r:
    HttpRequest)
    ensures
        asks_for_plan(r, llm@, version@, system@, user@),
{
    let mut url = trim_slashes(llm.base_url.as_str());
    let headers = request_header_list(llm, version);
    match llm.provider {
        Provider::Anthropic => {
            url.append("/v1/messages");
            let tool = submit_plan_tool();
            let body = anthropic_body(llm, &tool, system, user);
            HttpRequest { url, headers, body }
        },
        Provider::OpenAI => {
            url.append("/chat/completions");
            let tool = submit_plan_tool_strict();
            let body = openai_body(llm, &tool, system, user);
            HttpRequest { url, headers, body }
        },
    }
}

/// The JSON of an answer, given what its body was read as. An answer that reports
/// an error is passed on with the first 500 bytes of its body, at most up to the
/// last whole character.
pub open spec fn reply_json(
    status: u16,
    status_text: Seq<char>,
    body: Seq<char>,
    parsed: Result<JsonV, Seq<char>>,
) -> Result<JsonV, OrchestratorErrorView> {
    if !(200 <= status < 300) {
        Err(
            OrchestratorErrorView::Http(
                "HTTP "@ + status_text + ": "@ + within_bytes(body, 500),
            ),
        )
    } else {
        match parsed {
            Ok(j) => Ok(j),
            Err(e) => Err(OrchestratorErrorView::Http("parse response JSON: "@ + e)),
        }
    }
}

pub fn parse_http_response(
    status: u16,
    status_text: &str,
    body: &str,
    parsed: Result<Json, String>,
) -> (r: Result<Json, OrchestratorError>)
    ensures
        input_view(r) == reply_json(status, status_text@, body@, parsed_view(parsed)),
{
    if !(200 <= status && status < 300) {
        let mut msg = "HTTP ".to_owned();
        msg.append(status_text);
        msg.append(": ");
        let head = take_bytes(body, 500);
        msg.append(head.as_str());
        return Err(OrchestratorError::Http(msg));
    }
    match parsed {
        Ok(j) => Ok(j),
        Err(e) => {
            let mut msg = "parse response JSON: ".to_owned();
            msg.append(e.as_str());
            Err(OrchestratorError::Http(msg))
        },
    }
}

/// The submission that a reply holds.
pub open spec fn submission(provider: Provider, reply: HttpReply) -> Result<
    JsonV,
    OrchestratorErrorView,
> {
    match reply {
        HttpReply::Cancelled => Err(OrchestratorErrorView::Cancelled),
        HttpReply::Failed(e) => Err(OrchestratorErrorView::Http(e@)),
        HttpReply::Unreadable(e) => Err(OrchestratorErrorView::Http("read response body: "@ + e@)),
        HttpReply::Response { status, status_text, body } => match reply_json(
            status,
            status_text@,
            body@,
            json_parsed(body@),
        ) {
            Err(e) => Err(e),
            Ok(j) => match provider {
                Provider::Anthropic => anthropic_input(j),
                Provider::OpenAI => openai_input(j),
            },
        },
    }
}

/// Takes the submission out of a reply.
pub fn read_reply(provider: Provider, reply: HttpReply) -> (r: Result<Json, OrchestratorError>)
    ensures
        input_view(r) == submission(provider, reply),
{
    match reply {
        HttpReply::Cancelled => Err(OrchestratorError::Cancelled),
        HttpReply::Failed(e) => Err(OrchestratorError::Http(e)),
        HttpReply::Unreadable(e) => {
            let mut msg = "read response body: ".to_owned();
            msg.append(e.as_str());
            Err(OrchestratorError::Http(msg))
        },
        HttpReply::Response { status, status_text, body } => {
            let parsed = parse_json(body.as_str());
            match parse_http_response(status, status_text.as_str(), body.as_str(), parsed) {
                Err(e) => Err(e),
                Ok(j) => match provider {
                    Provider::Anthropic => extract_anthropic_tool_input(&j),
                    Provider::OpenAI => extract_openai_tool_input(&j),
                },
            }
        },
    }
}

/// What follows from a reply after `failed` replies that could not be read: a plan,
/// an error, or (`None`) another call.
pub open spec fn verdict(
    failed: u32,
    input: Result<JsonV, OrchestratorErrorView>,
    version: u32,
) -> Option<Result<PlanView, OrchestratorErrorView>> {
    match input {
        Err(e) => Some(Err(e)),
        Ok(j) => match plan_of_input(j, version) {
            Ok(p) => Some(Ok(p)),
            Err(message) => if failed >= PARSE_RETRY_BUDGET {
                Some(Err(OrchestratorErrorView::Parse { attempts: (failed + 1) as u32, message }))
            } else {
                None
            },
        },
    }
}

/// Decides on a reply.
pub fn judge_reply(failed: u32, input: Result<Json, OrchestratorError>, version: u32) -> (r: Option<
    Result<Plan, OrchestratorError>,
>)
    requires
        failed <= PARSE_RETRY_BUDGET,
    ensures
        match r {
            Some(x) => verdict(failed, input_view(input), version) == Some(reply_view(x)),
            None => verdict(failed, input_view(input), version) is None,
        },
{
    match input {
        Err(e) => Some(Err(e)),
        Ok(j) => match parse_plan_from_tool_input(&j, version) {
            Ok(p) => Some(Ok(p)),
            Err(message) => if failed >= PARSE_RETRY_BUDGET {
                Some(Err(OrchestratorError::Parse { attempts: failed + 1, message }))
            } else {
                None
            },
        },
    }
}

/// Sends requests.
pub trait HttpTransport {
    fn send(&self, request: &HttpRequest) -> HttpReply;
}

/// How asking for a plan may end, whatever the provider answers: an empty pool is
/// refused, and only that; a plan is not empty and carries the version that was
/// asked for; a reply that cannot be read is asked for again twice.
pub open spec fn may_come_to(
    req: OrchestratorRequestView,
    r: Result<PlanView, OrchestratorErrorView>,
) -> bool {
    &&& r == Err::<PlanView, _>(OrchestratorErrorView::EmptyWorkerPool)
        <==> req.worker_pool.len() == 0
    &&& r matches Ok(p) ==> p.workers.len() > 0 && p.version == req.plan_version
    &&& r matches Err(OrchestratorErrorView::Parse { attempts, .. }) ==> attempts
        == PARSE_RETRY_BUDGET + 1
}

/// A request for the plan was sent, and the transport gave this reply to it.
pub open spec fn asked_for_plan<T: HttpTransport>(
    transport: &T,
    llm: LlmClientConfigView,
    version: Seq<char>,
    template: Seq<char>,
    req: OrchestratorRequestView,
    exchange: ExchangeView,
) -> bool {
    &&& asks_for_plan(
        exchange.request,
        llm,
        version,
        system_prompt(template, req.worker_pool),
        user_message(req),
    )
    &&& call_ensures(T::send, (transport, &exchange.request), exchange.reply)
}

/// The result follows from these exchanges, in each of which the plan was asked for.
pub open spec fn comes_of<T: HttpTransport>(
    transport: &T,
    llm: LlmClientConfigView,
    version: Seq<char>,
    template: Seq<char>,
    req: OrchestratorRequestView,
    exchanges: Seq<ExchangeView>,
    r: Result<PlanView, OrchestratorErrorView>,
) -> bool {
    &&& follows_from(
        llm.provider,
        req.plan_version,
        exchanges.map_values(|e: ExchangeView| e.reply),
        r,
    )
    &&& forall|i: int|
        0 <= i < exchanges.len() ==> asked_for_plan(
            transport,
            llm,
            version,
            template,
            req,
            #[trigger] exchanges[i],
        )
}

/// The result follows from the replies: all but the last could not be read and were
/// followed by another call, and the last decides.
pub open spec fn follows_from(
    provider: Provider,
    version: u32,
    replies: Seq<HttpReply>,
    r: Result<PlanView, OrchestratorErrorView>,
) -> bool {
    &&& 1 <= replies.len() <= PARSE_RETRY_BUDGET + 1
    &&& unread(provider, version, replies.drop_last())
    &&& verdict(
        (replies.len() - 1) as u32,
        submission(provider, replies.last()),
        version,
    ) == Some(r)
}

/// None of these replies, each the next after so many, decides anything.
pub open spec fn unread(provider: Provider, version: u32, replies: Seq<HttpReply>) -> bool {
    forall|i: int| 0 <= i < replies.len() ==> verdict(
        i as u32,
        submission(provider, #[trigger] replies[i]),
        version,
    ) is None
}

/// Asks the orchestrator for a plan. What was sent over the line is what the result
/// follows from, and nothing else; for an empty pool nothing is sent.
pub fn generate_plan<'a, T: HttpTransport>(
    template: &str,
    llm: &LlmClientConfig,
    version: &str,
    req: &OrchestratorRequest<'_>,
    line: &mut Line<'a, T>,
) -> (r: Result<Plan, OrchestratorError>)
    ensures
        may_come_to(req@, reply_view(r)),
        final(line).transport() == old(line).transport(),
        old(line).exchanges().is_prefix_of(final(line).exchanges()),
        req@.worker_pool.len() == 0 ==> final(line).exchanges() == old(line).exchanges(),
        req@.worker_pool.len() > 0 ==> comes_of(
            old(line).transport(),
            llm@,
            version@,
            template@,
            req@,
            final(line).exchanges().skip(old(line).exchanges().len() as int),
            reply_view(r),
        ),
{
    if req.worker_pool.len() == 0 {
        return Err(OrchestratorError::EmptyWorkerPool);
    }
    let (system, user) = build_orchestrator_messages(template, req);
    let request = plan_http_request(llm, version, system.as_str(), user.as_str());
    let mut failed: u32 = 0;
    let ghost transport = line.transport();
    let ghost earlier = line.exchanges();
    let ghost mut ours: Seq<ExchangeView> = Seq::empty();
    assert(earlier + ours =~= earlier);
    loop
        invariant
            failed <= PARSE_RETRY_BUDGET,
            ours.len() == failed,
            transport == line.transport(),
            transport == old(line).transport(),
            earlier == old(line).exchanges(),
            line.exchanges() == earlier + ours,
            unread(
                llm.provider,
                req.plan_version,
                ours.map_values(|e: ExchangeView| e.reply),
            ),
            forall|i: int|
                0 <= i < ours.len() ==> asked_for_plan(
                    transport,
                    llm@,
                    version@,
                    template@,
                    req@,
                    #[trigger] ours[i],
                ),
            req@.worker_pool.len() > 0,
            asks_for_plan(
                request,
                llm@,
                version@,
                system_prompt(template@, req@.worker_pool),
                user_message(req@),
            ),
        decreases PARSE_RETRY_BUDGET - failed,
    {
        let reply = line.send(&request);
        let ghost before = ours.map_values(|e: ExchangeView| e.reply);
        proof {
            let exchange = ExchangeView { request, reply };
            assert(asked_for_plan(transport, llm@, version@, template@, req@, exchange));
            ours = ours.push(exchange);
            assert(line.exchanges() =~= earlier + ours);
            assert(ours.map_values(|e: ExchangeView| e.reply).drop_last() =~= before);
            assert(ours.map_values(|e: ExchangeView| e.reply).last() == reply);
        }
        let ghost heard = ours.map_values(|e: ExchangeView| e.reply);
        let input = read_reply(llm.provider, reply);
        proof {
            law_submission_error(llm.provider, reply);
            if input_view(input) is Ok {
                law_parsed_plan(input_view(input)->Ok_0, req.plan_version);
            }
        }
        match judge_reply(failed, input, req.plan_version) {
            Some(r) => {
                assert(follows_from(llm@.provider, req@.plan_version, heard, reply_view(r)));
                assert(line.exchanges().skip(earlier.len() as int) =~= ours);
                return r;
            },
            None => {
                proof {
                    assert forall|i: int| 0 <= i < heard.len() implies verdict(
                        i as u32,
                        submission(llm.provider, #[trigger] heard[i]),
                        req.plan_version,
                    ) is None by {
                        if i < before.len() {
                            assert(heard[i] == before[i]);
                        }
                    }
                }
                failed += 1;
            },
        }
    }
}

/// Taking a submission out of a reply never fails for the pool or for the form of
/// the plan.
pub proof fn law_submission_error(provider: Provider, reply: HttpReply)
    ensures
        submission(provider, reply) matches Err(e) ==> !(e is EmptyWorkerPool) && !(e is Parse),
{
}

/// Asks an orchestrator for plans over HTTP.
pub struct LlmPlanGenerator<T: HttpTransport> {
    pub llm: LlmClientConfig,
    /// The instructions, with `{{worker_pool_listing}}` where the pool goes.
    pub template: String,
    /// The version of the Anthropic interface.
    pub anthropic_version: String,
    pub transport: T,
}

impl<T: HttpTransport> PlanGenerator for LlmPlanGenerator<T> {
    fn generate(&self, req: &OrchestratorRequest<'_>) -> (r: Result<Plan, OrchestratorError>)
        ensures
            may_come_to(req@, reply_view(r)),
            req@.worker_pool.len() > 0 ==> exists|exchanges: Seq<ExchangeView>|
                comes_of(
                    &self.transport,
                    self.llm@,
                    self.anthropic_version@,
                    self.template@,
                    req@,
                    exchanges,
                    reply_view(r),
                ),
    {
        let mut line = Line::new(&self.transport);
        generate_plan(
            self.template.as_str(),
            &self.llm,
            self.anthropic_version.as_str(),
            req,
            &mut line,
        )
    }
}

} // verus!
