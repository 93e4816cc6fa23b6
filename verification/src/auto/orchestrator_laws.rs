//! What holds of every call of the orchestrator: what it is told, how it is asked and
//! what is made of what it says.

use vstd::prelude::*;
use crate::auto::executor::status_label_of;
use crate::auto::orchestrator::{
    anthropic_input, asks_for_plan, comes_of, follows_from, openai_input, plan_of_input, pool_line,
    pool_listing, prior_section, prior_sections, request_body, request_headers, request_url,
    submission, submitted_worker, system_prompt, user_message, verdict, HttpReply, HttpTransport,
    OrchestratorErrorView, OrchestratorRequestView,
};
use crate::auto::schema::{is_submit_tool, plan_schema, worker_schema, ToolDefinition};
use crate::auto::line::ExchangeView;
use crate::auto::types::{WorkerSpecView, PlanView, WorkerPoolEntryView, WorkerResultView, WorkerStatusView};
use crate::json::{json_parsed, JsonV};
use crate::llm::{HeaderView, LlmClientConfigView, Provider};
use crate::text::{
    dec, deep, first_where, has_prefix, holds_text, is_first, lemma_first, lemma_has_first,
    lemma_holds_more, lemma_holds_text, lemma_no_first, replaced, within_bytes, without_slashes,
};

verus! {

// ── What the orchestrator is told ──

/// How the end of a worker is called.
pub proof fn law_status_labels(s: WorkerStatusView)
    ensures
        s is Completed ==> status_label_of(s) == "ok"@,
        s is MaxIterations ==> status_label_of(s) == "max_iterations"@,
        s is ToolError ==> status_label_of(s) == "tool_error"@,
        s is LlmError ==> status_label_of(s) == "llm_error"@,
        s is Cancelled ==> status_label_of(s) == "cancelled"@,
{
}

/// Every message begins with the task, word for word.
pub proof fn law_message_begins_with_task(req: OrchestratorRequestView)
    ensures
        exists|rest: Seq<char>|
            user_message(req) == #[trigger] ("# Task\n\n"@ + req.task + "\n"@ + rest),
        req.prior_results.len() == 0 && req.replan_reason is None ==> user_message(req)
            == "# Task\n\n"@ + req.task + "\n"@,
{
    reveal_strlit("\n");
    reveal_strlit("\n\n");
    let head = "# Task\n\n"@ + req.task + "\n"@;
    let m = user_message(req);
    assert("\n\n"@ =~= "\n"@ + "\n"@);
    assert(m.take(head.len() as int) =~= head);
    assert(m =~= head + m.skip(head.len() as int));
}

/// Whether or not there are prior results, the reason to plan anew stands in the
/// message, under its heading and in front of the note on what to do about it, and is
/// the last thing said; without a reason nothing is said of it. Apart from that the
/// reason changes nothing in the message, once there are results.
pub proof fn law_message_gives_reason(req: OrchestratorRequestView, reason: Seq<char>)
    requires
        req.replan_reason == Some(reason),
    ensures
        ({
            let without = (OrchestratorRequestView { replan_reason: None, ..req });
            let said = "# Replan reason\n\n"@ + reason
                + "\n\nRevise the REMAINING plan. Workers already completed (status ok) will not re-execute. Add new workers (`w<next>+`) or reissue the failed worker with a corrected prompt. Reuse a failed worker's id if you want it to replace the failed attempt.\n"@;
            &&& req.prior_results.len() > 0 ==> user_message(req) == user_message(without) + said
            &&& req.prior_results.len() == 0 ==> user_message(req) == user_message(without) + "\n"@
                + said
        }),
        holds_text(user_message(req), reason),
{
    reveal_strlit("\n");
    reveal_strlit("\n\n");
    let without = (OrchestratorRequestView { replan_reason: None, ..req });
    let note =
        "\n\nRevise the REMAINING plan. Workers already completed (status ok) will not re-execute. Add new workers (`w<next>+`) or reissue the failed worker with a corrected prompt. Reuse a failed worker's id if you want it to replace the failed attempt.\n"@;
    let said = "# Replan reason\n\n"@ + reason + note;
    let m = user_message(req);
    if req.prior_results.len() > 0 {
        assert(m =~= user_message(without) + said);
        assert(m =~= (user_message(without) + "# Replan reason\n\n"@) + reason + note);
        lemma_holds_text(user_message(without) + "# Replan reason\n\n"@, reason, note);
    } else {
        assert("\n\n"@ =~= "\n"@ + "\n"@);
        assert(m =~= user_message(without) + "\n"@ + said);
        assert(m =~= (user_message(without) + "\n"@ + "# Replan reason\n\n"@) + reason + note);
        lemma_holds_text(user_message(without) + "\n"@ + "# Replan reason\n\n"@, reason, note);
    }
}

/// One more prior result: its id, its model, how it ended and its summary are put in
/// behind the results before it, under the heading of the prior outputs, and nothing
/// else changes.
pub proof fn law_message_adds_result(req: OrchestratorRequestView, r: WorkerResultView)
    requires
        req.replan_reason is None,
    ensures
        ({
            let more = (OrchestratorRequestView { prior_results: req.prior_results.push(r), ..req });
            let section = "## `"@ + r.id + "` (model: `"@ + r.model + "`) — status: "@
                + status_label_of(r.status) + "\n\n"@ + r.summary + "\n\n"@;
            if req.prior_results.len() == 0 {
                user_message(more) == user_message(req) + "\n# Prior worker outputs\n\n"@ + section
            } else {
                user_message(more) == user_message(req) + section
            }
        }),
{
    let more = (OrchestratorRequestView { prior_results: req.prior_results.push(r), ..req });
    assert(req.prior_results.push(r).drop_last() =~= req.prior_results);
    let section = prior_section(r);
    if req.prior_results.len() == 0 {
        reveal_strlit("\n");
        reveal_strlit("\n\n");
        reveal_strlit("# Prior worker outputs\n\n");
        reveal_strlit("\n# Prior worker outputs\n\n");
        assert("\n\n"@ =~= "\n"@ + "\n"@);
        assert("\n# Prior worker outputs\n\n"@ =~= "\n"@ + "# Prior worker outputs\n\n"@);
        assert(prior_sections(req.prior_results) =~= Seq::<char>::empty());
        assert(user_message(more) =~= user_message(req) + "\n# Prior worker outputs\n\n"@ + section);
    } else {
        assert(user_message(more) =~= user_message(req) + section);
    }
}

/// Every prior result is in the message, with its id, its model, how it ended and its
/// summary.
pub proof fn law_message_shows_results(req: OrchestratorRequestView, i: int)
    requires
        0 <= i < req.prior_results.len(),
    ensures
        ({
            let r = req.prior_results[i];
            holds_text(
                user_message(req),
                "## `"@ + r.id + "` (model: `"@ + r.model + "`) — status: "@ + status_label_of(
                    r.status,
                ) + "\n\n"@ + r.summary + "\n\n"@,
            )
        }),
{
    let s = prior_sections(req.prior_results);
    let p = prior_section(req.prior_results[i]);
    lemma_sections_hold(req.prior_results, i);
    let head = "# Task\n\n"@ + req.task + "\n\n"@ + "# Prior worker outputs\n\n"@;
    match req.replan_reason {
        Some(reason) => {
            let tail = "# Replan reason\n\n"@ + reason
                + "\n\nRevise the REMAINING plan. Workers already completed (status ok) will not re-execute. Add new workers (`w<next>+`) or reissue the failed worker with a corrected prompt. Reuse a failed worker's id if you want it to replace the failed attempt.\n"@;
            assert(user_message(req) =~= head + s + tail);
            lemma_holds_more(head, s, tail, p);
        },
        None => {
            assert(user_message(req) =~= head + s + Seq::<char>::empty());
            lemma_holds_more(head, s, Seq::empty(), p);
        },
    }
}

proof fn lemma_sections_hold(rs: Seq<WorkerResultView>, i: int)
    requires
        0 <= i < rs.len(),
    ensures
        holds_text(prior_sections(rs), prior_section(rs[i])),
    decreases rs.len(),
{
    let before = prior_sections(rs.drop_last());
    let last = prior_section(rs.last());
    let none = Seq::<char>::empty();
    if i == rs.len() - 1 {
        lemma_holds_text(before, last, none);
        assert(before + last + none =~= before + last);
    } else {
        lemma_sections_hold(rs.drop_last(), i);
        lemma_holds_more(none, before, last, prior_section(rs[i]));
        assert(none + before + last =~= before + last);
    }
}

/// The pool is listed an entry to a line, in order, each with its model, its provider
/// and its description.
pub proof fn law_pool_is_listed(pool: Seq<WorkerPoolEntryView>, e: WorkerPoolEntryView)
    ensures
        ({
            let line = "- `"@ + e.model + "` ("@ + e.provider_id + ") — "@ + e.description;
            pool_listing(pool.push(e)) == if pool.len() == 0 {
                line
            } else {
                pool_listing(pool) + "\n"@ + line
            }
        }),
{
    let f = |e: WorkerPoolEntryView| pool_line(e);
    let lines = pool.push(e).map_values(f);
    assert(lines.drop_last() =~= pool.map_values(f));
    assert(lines.last() == pool_line(e));
    if pool.len() == 0 {
        assert(lines[0] == pool_line(e));
    }
}

/// The listing takes the place of the hole in the instructions, and what stands round
/// the hole stays. Instructions without a hole stay as they are.
pub proof fn law_listing_fills_hole(
    before: Seq<char>,
    after: Seq<char>,
    pool: Seq<WorkerPoolEntryView>,
)
    requires
        !holds_text(after, "{{worker_pool_listing}}"@),
        forall|i: int|
            0 <= i < before.len() ==> !has_prefix(
                #[trigger] (before + "{{worker_pool_listing}}"@ + after).skip(i),
                "{{worker_pool_listing}}"@,
            ),
    ensures
        system_prompt(before + "{{worker_pool_listing}}"@ + after, pool) == before + pool_listing(
            pool,
        ) + after,
        system_prompt(after, pool) == after,
{
    let pat = "{{worker_pool_listing}}"@;
    reveal_strlit("{{worker_pool_listing}}");
    lemma_nothing_to_replace(after, pat, pool_listing(pool));
    lemma_replaced_once(before, after, pat, pool_listing(pool));
}

proof fn lemma_nothing_to_replace(s: Seq<char>, pat: Seq<char>, with: Seq<char>)
    requires
        pat.len() > 0,
        !holds_text(s, pat),
    ensures
        replaced(s, pat, with) == s,
    decreases s.len(),
{
    if s.len() >= pat.len() {
        if has_prefix(s, pat) {
            assert(s.subrange(0int, 0int + pat.len()) =~= pat);
        }
        let t = s.skip(1);
        if holds_text(t, pat) {
            let i = choose|i: int|
                0 <= i && i + pat.len() <= t.len() && #[trigger] t.subrange(i, i + pat.len()) == pat;
            assert(s.subrange(i + 1, i + 1 + pat.len()) =~= pat);
        }
        lemma_nothing_to_replace(t, pat, with);
        assert(seq![s[0]] + t =~= s);
    }
}

proof fn lemma_replaced_once(
    before: Seq<char>,
    after: Seq<char>,
    pat: Seq<char>,
    with: Seq<char>,
)
    requires
        pat.len() > 0,
        !holds_text(after, pat),
        forall|i: int|
            0 <= i < before.len() ==> !has_prefix(#[trigger] (before + pat + after).skip(i), pat),
    ensures
        replaced(before + pat + after, pat, with) == before + with + after,
    decreases before.len(),
{
    let s = before + pat + after;
    if before.len() == 0 {
        assert(s.take(pat.len() as int) =~= pat);
        assert(s.skip(pat.len() as int) =~= after);
        lemma_nothing_to_replace(after, pat, with);
        assert(before + with + after =~= with + after);
    } else {
        assert(s.skip(0) =~= s);
        let b = before.skip(1);
        assert(s.skip(1) =~= b + pat + after);
        assert forall|i: int| 0 <= i < b.len() implies !has_prefix(
            #[trigger] (b + pat + after).skip(i),
            pat,
        ) by {
            assert((b + pat + after).skip(i) =~= s.skip(i + 1));
        }
        lemma_replaced_once(b, after, pat, with);
        assert(seq![before[0]] + (b + with + after) =~= before + with + after);
    }
}

// ── How it is asked ──

/// A request goes to the address of its provider below the base address that was set,
/// of which slashes at the end do not count.
pub proof fn law_request_address(llm: LlmClientConfigView)
    ensures
        llm.provider == Provider::Anthropic ==> request_url(llm) == without_slashes(llm.base_url)
            + "/v1/messages"@,
        llm.provider == Provider::OpenAI ==> request_url(llm) == without_slashes(llm.base_url)
            + "/chat/completions"@,
        llm.base_url.len() > 0 && llm.base_url.last() != '/' ==> without_slashes(llm.base_url)
            == llm.base_url,
        ({
            let slashed = (LlmClientConfigView { base_url: llm.base_url.push('/'), ..llm });
            request_url(slashed) == request_url(llm)
        }),
{
    assert(llm.base_url.push('/').drop_last() =~= llm.base_url);
}

/// A request carries the headers of its provider, the key where there is one, in the
/// form that the provider wants, and behind them the headers that were set.
pub proof fn law_request_headers(llm: LlmClientConfigView, version: Seq<char>)
    ensures
        ({
            let hs = request_headers(llm, version);
            let own = hs.len() - llm.extra_headers.len();
            &&& own >= 1
            &&& hs.skip(own) == llm.extra_headers
            &&& hs[0] == (HeaderView { name: "content-type"@, value: "application/json"@ })
            &&& llm.provider == Provider::Anthropic ==> hs[1] == (HeaderView {
                name: "anthropic-version"@,
                value: version,
            }) && (if llm.api_key.len() == 0 {
                own == 2
            } else {
                own == 3 && hs[2] == (HeaderView { name: "x-api-key"@, value: llm.api_key })
            })
            &&& llm.provider == Provider::OpenAI ==> (if llm.api_key.len() == 0 {
                own == 1
            } else {
                own == 2 && hs[1] == (HeaderView {
                    name: "authorization"@,
                    value: "Bearer "@ + llm.api_key,
                })
            })
        }),
{
    let hs = request_headers(llm, version);
    let own = hs.len() - llm.extra_headers.len();
    assert(hs.skip(own) =~= llm.extra_headers);
}

/// A request names the model that was set, hands on the instructions and the message
/// as they are, offers one tool and asks that it be used, and wants no stream.
pub proof fn law_request_body(
    llm: LlmClientConfigView,
    tool: ToolDefinition,
    system: Seq<char>,
    user: Seq<char>,
)
    ensures
        ({
            let b = request_body(llm, tool, system, user);
            let said = JsonV::Object(
                map!["role"@ => JsonV::Str("user"@), "content"@ => JsonV::Str(user)],
            );
            let told = JsonV::Object(
                map!["role"@ => JsonV::Str("system"@), "content"@ => JsonV::Str(system)],
            );
            &&& b.get("model"@) == Some(JsonV::Str(llm.model))
            &&& b.get("stream"@) == Some(JsonV::Bool(false))
            &&& llm.provider == Provider::Anthropic ==> {
                &&& b.get("max_tokens"@) == Some(
                    JsonV::Int(match llm.max_completion_tokens {
                        Some(n) => n as int,
                        None => 4096,
                    }),
                )
                &&& b.get("system"@) == Some(JsonV::Str(system))
                &&& b.get("messages"@) == Some(JsonV::Array(seq![said]))
                &&& b.get("tool_choice"@) == Some(
                    JsonV::Object(
                        map!["type"@ => JsonV::Str("tool"@), "name"@ => JsonV::Str("submit_plan"@)],
                    ),
                )
                &&& b.get("tools"@) matches Some(JsonV::Array(ts)) && ts.len() == 1
            }
            &&& llm.provider == Provider::OpenAI ==> {
                &&& b.get("messages"@) == Some(JsonV::Array(seq![told, said]))
                &&& b.get("tool_choice"@) == Some(
                    JsonV::Object(
                        map![
                            "type"@ => JsonV::Str("function"@),
                            "function"@ => JsonV::Object(
                                map!["name"@ => JsonV::Str("submit_plan"@)],
                            ),
                        ],
                    ),
                )
                &&& b.get("tools"@) matches Some(JsonV::Array(ts)) && ts.len() == 1 && ts[0]
                    == tool.wire()
            }
        }),
{
    reveal_strlit("model");
    reveal_strlit("max_tokens");
    reveal_strlit("system");
    reveal_strlit("messages");
    reveal_strlit("tools");
    reveal_strlit("tool_choice");
    reveal_strlit("stream");
    assert("model"@[0] != "tools"@[0]);
    assert("system"@[1] != "stream"@[1]);
    assert("model"@ != "tools"@);
    assert("system"@ != "stream"@);
    assert("model"@.len() == 5 && "max_tokens"@.len() == 10 && "system"@.len() == 6);
    assert("messages"@.len() == 8 && "tool_choice"@.len() == 11);
}

/// The tool that is offered to Anthropic has the name, the description and the form of
/// the one that hands in a plan.
pub proof fn law_offered_tool(
    llm: LlmClientConfigView,
    tool: ToolDefinition,
    system: Seq<char>,
    user: Seq<char>,
)
    requires
        is_submit_tool(tool, llm.provider == Provider::OpenAI),
        llm.provider == Provider::Anthropic,
    ensures
        request_body(llm, tool, system, user).get("tools"@) matches Some(JsonV::Array(ts))
            && ts.len() == 1 && ts[0].get("name"@) == Some(JsonV::Str("submit_plan"@))
            && ts[0].get("description"@) == Some(JsonV::Str(tool.function.description->Some_0@))
            && ts[0].get("input_schema"@) == Some(tool.function.parameters->Some_0.view()),
{
    law_request_body(llm, tool, system, user);
    reveal_strlit("tools");
    reveal_strlit("tool_choice");
    reveal_strlit("stream");
    reveal_strlit("name");
    reveal_strlit("description");
    reveal_strlit("input_schema");
    assert(tool.function.description is Some);
    assert(tool.function.parameters is Some);
    let t = crate::auto::orchestrator::anthropic_tool(tool);
    assert("name"@.len() == 4 && "description"@.len() == 11 && "input_schema"@.len() == 12);
    assert("tools"@.len() == 5 && "tool_choice"@.len() == 11 && "stream"@.len() == 6);
    assert(request_body(llm, tool, system, user).get("tools"@) == Some(JsonV::Array(seq![t])));
}

/// Every request of a call holds the instructions with the pool in them and the message
/// of the request that it is made for, and so its task and, where there is one, the
/// reason to plan anew.
pub proof fn law_call_hands_on<T: HttpTransport>(
    transport: &T,
    llm: LlmClientConfigView,
    version: Seq<char>,
    template: Seq<char>,
    req: OrchestratorRequestView,
    exchanges: Seq<ExchangeView>,
    r: Result<PlanView, OrchestratorErrorView>,
    i: int,
)
    requires
        comes_of(transport, llm, version, template, req, exchanges, r),
        0 <= i < exchanges.len(),
    ensures
        ({
            let b = exchanges[i].request.body.view();
            let said = JsonV::Object(
                map!["role"@ => JsonV::Str("user"@), "content"@ => JsonV::Str(user_message(req))],
            );
            let system = system_prompt(template, req.worker_pool);
            let told = JsonV::Object(
                map!["role"@ => JsonV::Str("system"@), "content"@ => JsonV::Str(system)],
            );
            &&& b.get("messages"@) matches Some(JsonV::Array(ms)) && ms.last() == said && (
            llm.provider == Provider::OpenAI ==> ms[0] == told)
            &&& llm.provider == Provider::Anthropic ==> b.get("system"@) == Some(
                JsonV::Str(system),
            )
            &&& b.get("model"@) == Some(JsonV::Str(llm.model))
            &&& exchanges[i].request.url@ == request_url(llm)
            &&& deep(exchanges[i].request.headers@) == request_headers(llm, version)
        }),
        call_ensures(T::send, (transport, &exchanges[i].request), exchanges[i].reply),
{
    let request = exchanges[i].request;
    let system = system_prompt(template, req.worker_pool);
    assert(asks_for_plan(request, llm, version, system, user_message(req)));
    let tool = choose|tool: ToolDefinition|
        is_submit_tool(tool, llm.provider == Provider::OpenAI) && request.body.view()
            == request_body(llm, tool, system, user_message(req));
    law_request_body(llm, tool, system, user_message(req));
}

// ── What is made of what it says ──

/// What the errors say.
pub proof fn law_error_texts(e: OrchestratorErrorView)
    ensures
        e is EmptyWorkerPool ==> e.text()
            == "worker pool is empty — orchestrator cannot pick from zero models"@,
        e matches OrchestratorErrorView::Parse { attempts, message } ==> e.text()
            == "orchestrator returned an unparseable plan after "@ + dec(attempts as nat)
            + " attempt(s); last error: "@ + message,
        e matches OrchestratorErrorView::Http(m) ==> e.text() == "orchestrator HTTP error: "@ + m,
        e is Cancelled ==> e.text() == "orchestrator call cancelled"@,
        e matches OrchestratorErrorView::NoToolUse(m) ==> e.text()
            == "provider returned no submit_plan tool_use: "@ + m,
{
}

/// A request that did not come to a good answer is an error: a cancellation where the
/// user stopped it, and otherwise an HTTP error that says what was wrong.
pub proof fn law_bad_replies(provider: Provider, reply: HttpReply)
    ensures
        reply is Cancelled <==> submission(provider, reply) == Err::<JsonV, _>(
            OrchestratorErrorView::Cancelled,
        ),
        reply matches HttpReply::Failed(e) ==> submission(provider, reply) == Err::<JsonV, _>(
            OrchestratorErrorView::Http(e@),
        ),
        reply matches HttpReply::Unreadable(e) ==> submission(provider, reply) == Err::<JsonV, _>(
            OrchestratorErrorView::Http("read response body: "@ + e@),
        ),
        reply matches HttpReply::Response { status, status_text, body } ==> {
            &&& !(200 <= status < 300) ==> submission(provider, reply) == Err::<JsonV, _>(
                OrchestratorErrorView::Http(
                    "HTTP "@ + status_text@ + ": "@ + within_bytes(body@, 500),
                ),
            )
            &&& 200 <= status < 300 ==> (json_parsed(body@) matches Err(e) ==> submission(
                provider,
                reply,
            ) == Err::<JsonV, _>(OrchestratorErrorView::Http("parse response JSON: "@ + e)))
        },
{
    if let HttpReply::Response { status, status_text, body } = reply {
        if 200 <= status < 300 {
            if let Ok(j) = json_parsed(body@) {
                lemma_input_errors(j);
            }
        }
    }
}

proof fn lemma_input_errors(j: JsonV)
    ensures
        anthropic_input(j) != Err::<JsonV, _>(OrchestratorErrorView::Cancelled),
        openai_input(j) != Err::<JsonV, _>(OrchestratorErrorView::Cancelled),
{
}

/// A block of a reply that uses the tool for handing in a plan.
pub open spec fn hands_in(block: JsonV) -> bool {
    block.get("type"@) == Some(JsonV::Str("tool_use"@)) && block.get("name"@) == Some(
        JsonV::Str("submit_plan"@),
    )
}

/// Of an Anthropic reply the first block that hands in a plan counts, whatever stands
/// before it or behind it; a reply without one is an error.
pub proof fn law_anthropic_submission(
    status_text: String,
    body: String,
    status: u16,
    resp: JsonV,
    blocks: Seq<JsonV>,
)
    requires
        200 <= status < 300,
        json_parsed(body@) == Ok::<JsonV, Seq<char>>(resp),
        resp.get("content"@) == Some(JsonV::Array(blocks)),
    ensures
        ({
            let got = submission(
                Provider::Anthropic,
                HttpReply::Response { status, status_text, body },
            );
            &&& forall|i: int|
                {
                    &&& 0 <= i < blocks.len()
                    &&& hands_in(#[trigger] blocks[i])
                    &&& forall|k: int| 0 <= k < i ==> !hands_in(#[trigger] blocks[k])
                } ==> match blocks[i].get("input"@) {
                    Some(j) => got == Ok::<JsonV, OrchestratorErrorView>(j),
                    None => got is Err && got->Err_0 is NoToolUse,
                }
            &&& (forall|i: int| 0 <= i < blocks.len() ==> !hands_in(#[trigger] blocks[i]))
                ==> got is Err && got->Err_0 is NoToolUse
        }),
{
    let p = |i: int| crate::auto::orchestrator::is_submission(blocks[i]);
    let n = blocks.len() as int;
    let got = submission(Provider::Anthropic, HttpReply::Response { status, status_text, body });
    assert forall|i: int|
        {
            &&& 0 <= i < blocks.len()
            &&& hands_in(#[trigger] blocks[i])
            &&& forall|k: int| 0 <= k < i ==> !hands_in(#[trigger] blocks[k])
        } implies match blocks[i].get("input"@) {
        Some(j) => got == Ok::<JsonV, OrchestratorErrorView>(j),
        None => got is Err && got->Err_0 is NoToolUse,
    } by {
        assert(p(i));
        assert forall|k: int| 0 <= k < i implies !#[trigger] p(k) by {
            assert(!hands_in(blocks[k]));
        }
        assert(is_first(n, p, i));
        lemma_first(n, p, i);
    }
    if forall|i: int| 0 <= i < blocks.len() ==> !hands_in(#[trigger] blocks[i]) {
        assert forall|k: int| 0 <= k < n implies !#[trigger] p(k) by {
            assert(!hands_in(blocks[k]));
        }
        lemma_no_first(n, p);
    }
}

/// A tool call of an OpenAI reply that hands in a plan.
pub open spec fn calls_in(call: JsonV) -> bool {
    call.get("function"@) matches Some(f) && f.get("name"@) == Some(JsonV::Str("submit_plan"@))
}

/// Of an OpenAI reply the first call that hands in a plan counts, and of it the text of
/// its arguments, read as JSON; a reply without one is an error.
pub proof fn law_openai_submission(
    status_text: String,
    body: String,
    status: u16,
    resp: JsonV,
    choices: Seq<JsonV>,
    message: JsonV,
    calls: Seq<JsonV>,
)
    requires
        200 <= status < 300,
        json_parsed(body@) == Ok::<JsonV, Seq<char>>(resp),
        resp.get("choices"@) == Some(JsonV::Array(choices)),
        choices.len() > 0,
        choices[0].get("message"@) == Some(message),
        message.get("tool_calls"@) == Some(JsonV::Array(calls)),
    ensures
        ({
            let got = submission(Provider::OpenAI, HttpReply::Response { status, status_text, body });
            &&& forall|i: int|
                {
                    &&& 0 <= i < calls.len()
                    &&& calls_in(#[trigger] calls[i])
                    &&& forall|k: int| 0 <= k < i ==> !calls_in(#[trigger] calls[k])
                } ==> match calls[i].get("function"@)->Some_0.get("arguments"@) {
                    Some(JsonV::Str(text)) => match json_parsed(text) {
                        Ok(j) => got == Ok::<JsonV, OrchestratorErrorView>(j),
                        Err(e) => got is Err && got->Err_0 is NoToolUse,
                    },
                    _ => got is Err && got->Err_0 is NoToolUse,
                }
            &&& (forall|i: int| 0 <= i < calls.len() ==> !calls_in(#[trigger] calls[i])) ==> got is Err
                && got->Err_0 is NoToolUse
        }),
{
    let p = |i: int| crate::auto::orchestrator::calls_submission(calls[i]);
    let n = calls.len() as int;
    let got = submission(Provider::OpenAI, HttpReply::Response { status, status_text, body });
    assert(crate::auto::orchestrator::tool_calls(resp) == Some(calls));
    assert forall|i: int|
        {
            &&& 0 <= i < calls.len()
            &&& calls_in(#[trigger] calls[i])
            &&& forall|k: int| 0 <= k < i ==> !calls_in(#[trigger] calls[k])
        } implies match calls[i].get("function"@)->Some_0.get("arguments"@) {
        Some(JsonV::Str(text)) => match json_parsed(text) {
            Ok(j) => got == Ok::<JsonV, OrchestratorErrorView>(j),
            Err(e) => got is Err && got->Err_0 is NoToolUse,
        },
        _ => got is Err && got->Err_0 is NoToolUse,
    } by {
        assert(p(i));
        assert forall|k: int| 0 <= k < i implies !#[trigger] p(k) by {
            assert(!calls_in(calls[k]));
        }
        assert(is_first(n, p, i));
        lemma_first(n, p, i);
    }
    if forall|i: int| 0 <= i < calls.len() ==> !calls_in(#[trigger] calls[i]) {
        assert forall|k: int| 0 <= k < n implies !#[trigger] p(k) by {
            assert(!calls_in(calls[k]));
        }
        lemma_no_first(n, p);
    }
}

/// A submission is a plan exactly where it has a reasoning and a list of workers that
/// is not empty and each of which can be read, has a good id and has a prompt; the plan
/// then has these workers, in their order, that reasoning and the version asked for.
#[verifier::rlimit(40)]
pub proof fn law_submission_is_the_plan(
    input: JsonV,
    reasoning: Seq<char>,
    a: Seq<JsonV>,
    version: u32,
)
    requires
        input.get("reasoning"@) == Some(JsonV::Str(reasoning)),
        input.get("plan"@) == Some(JsonV::Array(a)),
    ensures
        plan_of_input(input, version) is Ok <==> a.len() > 0 && forall|i: int|
            0 <= i < a.len() ==> submitted_worker(#[trigger] a[i]) is Ok,
        plan_of_input(input, version) matches Ok(p) ==> {
            &&& p.version == version
            &&& p.reasoning == reasoning
            &&& p.workers.len() == a.len()
            &&& forall|i: int|
                0 <= i < a.len() ==> submitted_worker(a[i]) == Ok::<_, Seq<char>>(
                    #[trigger] p.workers[i],
                )
        },
        forall|i: int|
            {
                &&& 0 <= i < a.len()
                &&& submitted_worker(#[trigger] a[i]) is Err
                &&& forall|k: int| 0 <= k < i ==> submitted_worker(#[trigger] a[k]) is Ok
            } ==> plan_of_input(input, version) == Err::<PlanView, _>(
                "worker["@ + dec(i as nat) + "] "@ + submitted_worker(a[i])->Err_0,
            ),
{
    let bad = |i: int| submitted_worker(a[i]) is Err;
    let n = a.len() as int;
    assert forall|i: int|
        {
            &&& 0 <= i < a.len()
            &&& submitted_worker(#[trigger] a[i]) is Err
            &&& forall|k: int| 0 <= k < i ==> submitted_worker(#[trigger] a[k]) is Ok
        } implies plan_of_input(input, version) == Err::<PlanView, _>(
        "worker["@ + dec(i as nat) + "] "@ + submitted_worker(a[i])->Err_0,
    ) by {
        assert(bad(i));
        assert forall|k: int| 0 <= k < i implies !#[trigger] bad(k) by {
            assert(submitted_worker(a[k]) is Ok);
        }
        assert(is_first(n, bad, i));
        lemma_first(n, bad, i);
    }
    if forall|i: int| 0 <= i < a.len() ==> submitted_worker(#[trigger] a[i]) is Ok {
        assert forall|k: int| 0 <= k < n implies !#[trigger] bad(k) by {
            assert(submitted_worker(a[k]) is Ok);
        }
        lemma_no_first(n, bad);
    } else {
        let i = choose|i: int| 0 <= i < a.len() && !(submitted_worker(#[trigger] a[i]) is Ok);
        assert(bad(i));
        lemma_has_first(n, bad, i);
    }
    if first_where(n, bad) is None {
        assert forall|i: int| 0 <= i < a.len() implies submitted_worker(#[trigger] a[i]) is Ok by {
            if bad(i) {
                lemma_has_first(n, bad, i);
            }
        }
    }
}

/// A worker of a submission is one whose id is a `w` and digits and whose prompt is not
/// empty.
pub proof fn law_submitted_worker(j: JsonV)
    ensures
        submitted_worker(j) matches Ok(w) ==> {
            &&& crate::auto::codec::worker_spec_of(j) == Ok::<_, Seq<char>>(w)
            &&& w.prompt.len() > 0
            &&& w.id.len() >= 2 && w.id[0] == 'w'
            &&& forall|i: int| 1 <= i < w.id.len() ==> '0' <= #[trigger] w.id[i] <= '9'
        },
        crate::auto::codec::worker_spec_of(j) matches Err(e) ==> submitted_worker(j) == Err::<
            WorkerSpecView,
            _,
        >("shape invalid: "@ + e),
        crate::auto::codec::worker_spec_of(j) matches Ok(w) ==> {
            let named = w.id.len() >= 2 && w.id[0] == 'w' && forall|i: int|
                1 <= i < w.id.len() ==> '0' <= #[trigger] w.id[i] <= '9';
            &&& !named ==> submitted_worker(j) == Err::<WorkerSpecView, _>(
                "`id` must be `w` followed by digits"@,
            )
            &&& named && w.prompt.len() == 0 ==> submitted_worker(j) == Err::<WorkerSpecView, _>(
                "`prompt` must not be empty"@,
            )
            &&& named && w.prompt.len() > 0 ==> submitted_worker(j) is Ok
        },
{
}

/// A submission without a reasoning, or without a plan, is none; one whose plan is
/// neither a list nor a text is none either.
pub proof fn law_submission_needs_both(input: JsonV, version: u32)
    ensures
        !(input.get("reasoning"@) matches Some(JsonV::Str(_))) ==> plan_of_input(input, version)
            == Err::<PlanView, _>("missing `reasoning` field (must be string)"@),
        input.get("reasoning"@) matches Some(JsonV::Str(_)) ==> (input.get("plan"@) is None
            ==> plan_of_input(input, version) == Err::<PlanView, _>("missing `plan` field"@)),
        plan_of_input(input, version) is Ok ==> (input.get("plan"@) matches Some(JsonV::Array(_)))
            || (input.get("plan"@) matches Some(JsonV::Str(_))),
{
}

/// A plan is asked for at most three times. All answers but the last were submissions
/// that did not read as plans. The last one decides: a plan that it reads as is the
/// result, its own error is the result, and where it did not read as a plan either it
/// was the third.
pub proof fn law_last_reply_decides(
    provider: Provider,
    version: u32,
    replies: Seq<HttpReply>,
    r: Result<PlanView, OrchestratorErrorView>,
)
    requires
        follows_from(provider, version, replies, r),
    ensures
        1 <= replies.len() <= 3,
        forall|i: int|
            0 <= i < replies.len() - 1 ==> (submission(provider, #[trigger] replies[i]) matches Ok(j)
                && plan_of_input(j, version) is Err),
        match submission(provider, replies.last()) {
            Err(e) => r == Err::<PlanView, _>(e),
            Ok(j) => match plan_of_input(j, version) {
                Ok(p) => r == Ok::<_, OrchestratorErrorView>(p),
                Err(message) => replies.len() == 3 && r == Err::<PlanView, _>(
                    OrchestratorErrorView::Parse { attempts: 3, message },
                ),
            },
        },
{
    assert forall|i: int| 0 <= i < replies.len() - 1 implies (submission(
        provider,
        #[trigger] replies[i],
    ) matches Ok(j) && plan_of_input(j, version) is Err) by {
        let before = replies.drop_last();
        assert(before[i] == replies[i]);
        assert(verdict(i as u32, submission(provider, before[i]), version) is None);
    }
}

/// What a plan that is not a list is answered with: a text is read as JSON first, and
/// must be a list; anything else is called by its kind. An empty list is no plan.
pub proof fn law_plan_must_be_a_list(input: JsonV, version: u32)
    requires
        input.get("reasoning"@) matches Some(JsonV::Str(_)),
    ensures
        ({
            let r = plan_of_input(input, version);
            let kind = "`plan` field must be an array (or stringified array); got "@;
            match input.get("plan"@) {
                Some(JsonV::Null) => r == Err::<PlanView, _>(kind + "null"@),
                Some(JsonV::Bool(_)) => r == Err::<PlanView, _>(kind + "boolean"@),
                Some(JsonV::Int(_)) => r == Err::<PlanView, _>(kind + "number"@),
                Some(JsonV::Float(_)) => r == Err::<PlanView, _>(kind + "number"@),
                Some(JsonV::Object(_)) => r == Err::<PlanView, _>(kind + "object"@),
                Some(JsonV::Str(text)) => match json_parsed(text) {
                    Err(e) => r == Err::<PlanView, _>(
                        "`plan` field was a string that failed to re-parse as JSON: "@ + e,
                    ),
                    Ok(JsonV::Array(_)) => true,
                    Ok(_) => r == Err::<PlanView, _>(
                        "`plan` was a string but didn't contain a JSON array"@,
                    ),
                },
                Some(JsonV::Array(a)) => a.len() == 0 ==> r == Err::<PlanView, _>(
                    "`plan` array is empty; orchestrator must return at least one worker"@,
                ),
                None => r == Err::<PlanView, _>("missing `plan` field"@),
            }
        }),
{
}

/// A list that came as a text gives the plan that the list itself gives.
pub proof fn law_text_is_read_as_the_list(
    input: JsonV,
    other: JsonV,
    text: Seq<char>,
    a: Seq<JsonV>,
    version: u32,
)
    requires
        input.get("plan"@) == Some(JsonV::Str(text)),
        json_parsed(text) == Ok::<JsonV, Seq<char>>(JsonV::Array(a)),
        other.get("plan"@) == Some(JsonV::Array(a)),
        other.get("reasoning"@) == input.get("reasoning"@),
    ensures
        plan_of_input(input, version) == plan_of_input(other, version),
{
}

/// What is said of a reply that holds no submission.
pub proof fn law_no_submission(resp: JsonV)
    ensures
        !(resp.get("content"@) matches Some(JsonV::Array(_))) ==> anthropic_input(resp) == Err::<
            JsonV,
            _,
        >(OrchestratorErrorView::NoToolUse("response missing `content` array"@)),
        resp.get("choices"@) is None ==> openai_input(resp) == Err::<JsonV, _>(
            OrchestratorErrorView::NoToolUse("response missing /choices/0/message/tool_calls"@),
        ),
        anthropic_input(resp) matches Err(e) ==> e is NoToolUse,
        openai_input(resp) matches Err(e) ==> e is NoToolUse,
{
}

/// A call for a plan says that the pool is empty exactly where it is; a plan that it
/// gives has workers and the version asked for; and where the plan could not be read,
/// three times were tried.
pub proof fn law_what_a_call_may_come_to(
    req: OrchestratorRequestView,
    r: Result<PlanView, OrchestratorErrorView>,
)
    requires
        crate::auto::orchestrator::may_come_to(req, r),
    ensures
        r == Err::<PlanView, _>(OrchestratorErrorView::EmptyWorkerPool) <==> req.worker_pool.len()
            == 0,
        r matches Ok(p) ==> p.workers.len() > 0 && p.version == req.plan_version,
        r matches Err(OrchestratorErrorView::Parse { attempts, .. }) ==> attempts == 3,
{
}

// ── The form of a submission ──

/// The form that a submission must have: an object with a reasoning and a plan, both
/// required and nothing beside them; the plan is a list of workers.
pub proof fn law_form_of_a_plan(strict: bool)
    ensures
        ({
            let s = plan_schema(strict);
            let reasoning = s.get("properties"@)->Some_0.get("reasoning"@)->Some_0;
            let plan = s.get("properties"@)->Some_0.get("plan"@)->Some_0;
            &&& s.get("type"@) == Some(JsonV::Str("object"@))
            &&& s.get("required"@) == Some(
                JsonV::Array(seq![JsonV::Str("reasoning"@), JsonV::Str("plan"@)]),
            )
            &&& s.get("additionalProperties"@) == Some(JsonV::Bool(false))
            &&& reasoning.get("type"@) == Some(JsonV::Str("string"@))
            &&& plan.get("type"@) == Some(JsonV::Str("array"@))
            &&& plan.get("items"@) == Some(worker_schema(strict))
            &&& plan.get("minItems"@) == if strict { None } else { Some(JsonV::Int(1)) }
        }),
{
    reveal_strlit("type");
    reveal_strlit("required");
    reveal_strlit("additionalProperties");
    reveal_strlit("properties");
    reveal_strlit("reasoning");
    reveal_strlit("plan");
    reveal_strlit("items");
    reveal_strlit("minItems");
    reveal_strlit("description");
    assert("type"@.len() == 4 && "required"@.len() == 8 && "additionalProperties"@.len() == 20
        && "properties"@.len() == 10);
    assert("reasoning"@.len() == 9 && "plan"@.len() == 4 && "items"@.len() == 5
        && "minItems"@.len() == 8 && "description"@.len() == 11);
}

/// The form of a worker: an id, a model, a prompt and what it may see, all required and
/// nothing beside them; the last is one of two words or a list of ids.
pub proof fn law_form_of_a_worker(strict: bool)
    ensures
        ({
            let s = worker_schema(strict);
            let ps = s.get("properties"@)->Some_0;
            let see = ps.get("see_prior"@)->Some_0;
            let either = if strict { see.get("anyOf"@) } else { see.get("oneOf"@) };
            &&& s.get("type"@) == Some(JsonV::Str("object"@))
            &&& s.get("required"@) == Some(
                JsonV::Array(
                    seq![
                        JsonV::Str("id"@),
                        JsonV::Str("model"@),
                        JsonV::Str("prompt"@),
                        JsonV::Str("see_prior"@),
                    ],
                ),
            )
            &&& s.get("additionalProperties"@) == Some(JsonV::Bool(false))
            &&& ps.get("id"@)->Some_0.get("type"@) == Some(JsonV::Str("string"@))
            &&& ps.get("id"@)->Some_0.get("pattern"@) == if strict {
                None
            } else {
                Some(JsonV::Str("^w[0-9]+$"@))
            }
            &&& ps.get("model"@)->Some_0.get("type"@) == Some(JsonV::Str("string"@))
            &&& ps.get("prompt"@)->Some_0.get("type"@) == Some(JsonV::Str("string"@))
            &&& ps.get("prompt"@)->Some_0.get("minLength"@) == if strict {
                None
            } else {
                Some(JsonV::Int(1))
            }
            &&& either matches Some(JsonV::Array(cs)) && cs.len() == 2 && cs[0].get("enum"@) == Some(
                JsonV::Array(seq![JsonV::Str("none"@), JsonV::Str("all"@)]),
            ) && cs[1].get("type"@) == Some(JsonV::Str("array"@))
        }),
{
    reveal_strlit("type");
    reveal_strlit("required");
    reveal_strlit("additionalProperties");
    reveal_strlit("properties");
    reveal_strlit("id");
    reveal_strlit("model");
    reveal_strlit("prompt");
    reveal_strlit("see_prior");
    reveal_strlit("pattern");
    reveal_strlit("minLength");
    reveal_strlit("description");
    reveal_strlit("enum");
    reveal_strlit("items");
    reveal_strlit("anyOf");
    reveal_strlit("oneOf");
    assert("type"@.len() == 4 && "required"@.len() == 8 && "additionalProperties"@.len() == 20
        && "properties"@.len() == 10);
    assert("id"@.len() == 2 && "model"@.len() == 5 && "prompt"@.len() == 6 && "see_prior"@.len()
        == 9);
    assert("pattern"@.len() == 7 && "minLength"@.len() == 9 && "description"@.len() == 11
        && "items"@.len() == 5);
    assert("enum"@[0] != "type"@[0]);
    assert("enum"@ != "type"@);
}

} // verus!
