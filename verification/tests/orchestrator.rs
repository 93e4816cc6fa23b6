use std::cell::RefCell;

use auto_agent::auto::executor::PlanGenerator;
use auto_agent::auto::line::Line;
use auto_agent::auto::orchestrator::{
    build_orchestrator_messages, extract_anthropic_tool_input, extract_openai_tool_input,
    format_system_prompt, format_user_message, generate_plan, judge_reply,
    parse_plan_from_tool_input, plan_http_request, read_reply, value_type_name,
    worker_status_short, HttpReply, HttpRequest, HttpTransport, LlmPlanGenerator,
    OrchestratorError, OrchestratorRequest,
};
use auto_agent::auto::types::{
    SeePrior, SeePriorKeyword, WorkerPoolEntry, WorkerResult, WorkerStatus,
};
use auto_agent::json::{parse_json, write_json, Json};
use auto_agent::llm::{Header, LlmClientConfig, Provider};

const TEMPLATE: &str = "You plan.\n\nModels:\n{{worker_pool_listing}}\n\nGo.";

fn json(text: &str) -> Json {
    parse_json(text).unwrap()
}

fn pool_one() -> Vec<WorkerPoolEntry> {
    vec![
        WorkerPoolEntry {
            provider_id: "anthropic".into(),
            model: "haiku-4-5".into(),
            description: "fast + cheap, best for reads and verification".into(),
        },
        WorkerPoolEntry {
            provider_id: "anthropic".into(),
            model: "sonnet-4-6".into(),
            description: "strong reasoning, best for synthesis and edits".into(),
        },
    ]
}

fn wr(id: &str, summary: &str, status: WorkerStatus) -> WorkerResult {
    WorkerResult {
        id: id.into(),
        model: "sonnet-4-6".into(),
        prompt: "p".into(),
        summary: summary.into(),
        tool_count: 1,
        cost_cents: 0,
        status,
    }
}

#[test]
fn system_prompt_lists_pool_with_descriptions() {
    let s = format_system_prompt(TEMPLATE, &pool_one());
    assert!(s.contains("haiku-4-5"));
    assert!(s.contains("fast + cheap"));
    assert!(s.contains("sonnet-4-6"));
    assert!(s.contains("strong reasoning"));
    assert!(!s.contains("{{worker_pool_listing}}"), "template placeholder must be substituted");
    assert_eq!(
        s,
        "You plan.\n\nModels:\n- `haiku-4-5` (anthropic) — fast + cheap, best for reads and verification\n- `sonnet-4-6` (anthropic) — strong reasoning, best for synthesis and edits\n\nGo."
    );
}

#[test]
fn system_prompt_handles_empty_pool_with_fallback_string() {
    let s = format_system_prompt(TEMPLATE, &[]);
    assert!(s.contains("(empty"));
    assert!(!s.contains("{{worker_pool_listing}}"));
}

#[test]
fn user_message_initial_call_is_just_the_task() {
    let pool = pool_one();
    let req = OrchestratorRequest {
        task: "refactor auth",
        worker_pool: &pool,
        prior_results: &[],
        replan_reason: None,
        plan_version: 1,
    };
    let msg = format_user_message(&req);
    assert!(msg.starts_with("# Task"));
    assert!(msg.contains("refactor auth"));
    assert!(!msg.contains("Prior worker outputs"));
    assert!(!msg.contains("Replan reason"));
    assert_eq!(msg, "# Task\n\nrefactor auth\n");
}

#[test]
fn user_message_replan_includes_prior_outputs_and_reason() {
    let pool = pool_one();
    let priors = vec![
        wr("w1", "found 12 files", WorkerStatus::Completed),
        wr("w2", "tool failed: nosuch", WorkerStatus::ToolError { message: "x".into() }),
    ];
    let req = OrchestratorRequest {
        task: "refactor auth",
        worker_pool: &pool,
        prior_results: &priors,
        replan_reason: Some("worker w2 failed: tool_error"),
        plan_version: 2,
    };
    let msg = format_user_message(&req);
    assert!(msg.contains("# Prior worker outputs"));
    assert!(msg.contains("`w1`"));
    assert!(msg.contains("status: ok"));
    assert!(msg.contains("`w2`"));
    assert!(msg.contains("status: tool_error"));
    assert!(msg.contains("# Replan reason"));
    assert!(msg.contains("w2 failed"));
    assert_eq!(
        msg,
        "# Task\n\nrefactor auth\n\n# Prior worker outputs\n\n## `w1` (model: `sonnet-4-6`) — status: ok\n\nfound 12 files\n\n## `w2` (model: `sonnet-4-6`) — status: tool_error\n\ntool failed: nosuch\n\n# Replan reason\n\nworker w2 failed: tool_error\n\nRevise the REMAINING plan. Workers already completed (status ok) will not re-execute. Add new workers (`w<next>+`) or reissue the failed worker with a corrected prompt. Reuse a failed worker's id if you want it to replace the failed attempt.\n"
    );
    let (system, user) = build_orchestrator_messages(TEMPLATE, &req);
    assert_eq!(user, msg);
    assert_eq!(system, format_system_prompt(TEMPLATE, &pool));
}

#[test]
fn parse_accepts_well_formed_plan() {
    let raw = json(
        r#"{
        "reasoning": "two-stage decomposition",
        "plan": [
            {"id": "w1", "model": "haiku-4-5", "prompt": "explore",  "see_prior": "none"},
            {"id": "w2", "model": "sonnet-4-6", "prompt": "design",  "see_prior": ["w1"]}
        ]
    }"#,
    );
    let plan = parse_plan_from_tool_input(&raw, 1).expect("plan should parse");
    assert_eq!(plan.version, 1);
    assert_eq!(plan.reasoning, "two-stage decomposition");
    assert_eq!(plan.workers.len(), 2);
    assert_eq!(plan.workers[0].id, "w1");
    assert!(matches!(
        plan.workers[0].see_prior,
        SeePrior::Keyword(SeePriorKeyword::Nothing)
    ));
    assert!(matches!(
        &plan.workers[1].see_prior,
        SeePrior::Specific(ids) if ids == &["w1"]
    ));
}

#[test]
fn parse_rejects_missing_reasoning() {
    let raw = json(r#"{"plan": [{"id":"w1","model":"m","prompt":"p","see_prior":"none"}]}"#);
    let err = parse_plan_from_tool_input(&raw, 1).unwrap_err();
    assert!(err.contains("reasoning"), "got: {err}");
}

#[test]
fn parse_rejects_empty_plan_array() {
    let raw = json(r#"{"reasoning": "r", "plan": []}"#);
    let err = parse_plan_from_tool_input(&raw, 1).unwrap_err();
    assert!(err.contains("empty"), "got: {err}");
}

#[test]
fn parse_coerces_stringified_plan_array() {
    let raw = json(
        r#"{
        "reasoning": "stringified-plan workaround",
        "plan": "[{\"id\":\"w1\",\"model\":\"haiku\",\"prompt\":\"explore\",\"see_prior\":\"none\"}]"
    }"#,
    );
    let plan = parse_plan_from_tool_input(&raw, 1).expect("stringified plan must parse");
    assert_eq!(plan.workers.len(), 1);
    assert_eq!(plan.workers[0].id, "w1");
}

#[test]
fn parse_rejects_plan_string_with_invalid_json() {
    let raw = json(r#"{"reasoning": "r", "plan": "not-actually-json"}"#);
    let err = parse_plan_from_tool_input(&raw, 1).unwrap_err();
    assert!(err.contains("failed to re-parse"), "got: {err}");
}

#[test]
fn parse_rejects_plan_of_unsupported_type() {
    let raw = json(r#"{"reasoning": "r", "plan": 42}"#);
    let err = parse_plan_from_tool_input(&raw, 1).unwrap_err();
    assert!(err.contains("must be an array"), "got: {err}");
    assert!(err.contains("number"), "should name the bad type, got: {err}");
}

#[test]
fn parse_defaults_missing_see_prior_to_all() {
    let raw = json(r#"{"reasoning": "r", "plan": [{"id": "w1", "model": "m", "prompt": "p"}]}"#);
    let plan = parse_plan_from_tool_input(&raw, 1).expect("must parse with default");
    assert!(matches!(
        plan.workers[0].see_prior,
        SeePrior::Keyword(SeePriorKeyword::All)
    ));
}

#[test]
fn parse_still_rejects_worker_missing_truly_required_field() {
    let raw = json(r#"{"reasoning": "r", "plan": [{"id": "w1", "model": "m"}]}"#);
    let err = parse_plan_from_tool_input(&raw, 1).unwrap_err();
    assert!(err.contains("worker[0]"), "got: {err}");
    assert_eq!(err, "worker[0] shape invalid: missing field `prompt`");
}

#[test]
fn parse_stamps_caller_provided_version() {
    let raw = json(
        r#"{"reasoning": "r", "plan": [{"id":"w1","model":"m","prompt":"p","see_prior":"all"}]}"#,
    );
    let plan = parse_plan_from_tool_input(&raw, 7).unwrap();
    assert_eq!(plan.version, 7, "version must come from caller, not from input");
}

#[test]
fn parse_errors_name_what_was_found() {
    let cases = [
        (r#"{"reasoning":"r"}"#, "missing `plan` field"),
        (r#"{"reasoning":5,"plan":[]}"#, "missing `reasoning` field (must be string)"),
        (
            r#"{"reasoning":"r","plan":"{}"}"#,
            "`plan` was a string but didn't contain a JSON array",
        ),
        (
            r#"{"reasoning":"r","plan":[{"id":7,"model":"m","prompt":"p"}]}"#,
            "worker[0] shape invalid: invalid type: integer `7`, expected a string",
        ),
        (
            r#"{"reasoning":"r","plan":["x\"y"]}"#,
            "worker[0] shape invalid: invalid type: string \"x\\\"y\", expected struct WorkerSpec",
        ),
        (
            r#"{"reasoning":"r","plan":[{"id":"w1","model":"m","prompt":"p"},null]}"#,
            "worker[1] shape invalid: invalid type: null, expected struct WorkerSpec",
        ),
        (
            r#"{"reasoning":"r","plan":[{"id":"w1","model":"m","prompt":"p","see_prior":"some"}]}"#,
            "worker[0] shape invalid: data did not match any variant of untagged enum SeePrior",
        ),
        (
            r#"{"reasoning":"r","plan":[["w1","m"]]}"#,
            "worker[0] shape invalid: invalid length 2, expected struct WorkerSpec with 4 elements",
        ),
        (
            r#"{"reasoning":"r","plan":[["w1","m","p","all","x"]]}"#,
            "worker[0] shape invalid: invalid length 5, expected fewer elements in array",
        ),
        (
            r#"{"reasoning":"r","plan":[{"id":true,"model":"m","prompt":"p"}]}"#,
            "worker[0] shape invalid: invalid type: boolean `true`, expected a string",
        ),
        (
            r#"{"reasoning":"r","plan":[{"id":-3,"model":"m","prompt":"p"}]}"#,
            "worker[0] shape invalid: invalid type: integer `-3`, expected a string",
        ),
        (
            r#"{"reasoning":"r","plan":[{"id":1.5,"model":"m","prompt":"p"}]}"#,
            "worker[0] shape invalid: invalid type: floating point `1.5`, expected a string",
        ),
        (
            r#"{"reasoning":"r","plan":[{"id":[],"model":"m","prompt":"p"}]}"#,
            "worker[0] shape invalid: invalid type: sequence, expected a string",
        ),
        (
            r#"{"reasoning":"r","plan":[{"id":{},"model":"m","prompt":"p"}]}"#,
            "worker[0] shape invalid: invalid type: map, expected a string",
        ),
    ];
    for (raw, want) in cases {
        assert_eq!(parse_plan_from_tool_input(&json(raw), 1).unwrap_err(), want, "for {raw}");
    }
}

#[test]
fn parse_refuses_what_the_strict_schema_does_not_say() {
    let cases = [
        (
            r#"{"reasoning":"r","plan":[{"id":"w1","model":"m","prompt":"","see_prior":"none"}]}"#,
            "worker[0] `prompt` must not be empty",
        ),
        (
            r#"{"reasoning":"r","plan":[{"id":"w1","model":"m","prompt":"p"},{"id":"x2","model":"m","prompt":"p"}]}"#,
            "worker[1] `id` must be `w` followed by digits",
        ),
        (
            r#"{"reasoning":"r","plan":[{"id":"w","model":"m","prompt":"p"}]}"#,
            "worker[0] `id` must be `w` followed by digits",
        ),
        (
            r#"{"reasoning":"r","plan":[{"id":"w1a","model":"m","prompt":""}]}"#,
            "worker[0] `id` must be `w` followed by digits",
        ),
        (
            r#"{"reasoning":"r","plan":[["w1","m",""]]}"#,
            "worker[0] `prompt` must not be empty",
        ),
    ];
    for (raw, want) in cases {
        assert_eq!(parse_plan_from_tool_input(&json(raw), 1).unwrap_err(), want, "for {raw}");
    }
    let raw = json(r#"{"reasoning":"r","plan":[{"id":"w10","model":"","prompt":" "}]}"#);
    let plan = parse_plan_from_tool_input(&raw, 1).unwrap();
    assert_eq!(plan.workers[0].id, "w10");
    assert_eq!(plan.workers[0].prompt, " ");
}

#[test]
fn parse_takes_a_worker_as_a_list_of_fields() {
    let raw = json(r#"{"reasoning":"r","plan":[["w1","m","p"],["w2","m","p",{"none":null}]]}"#);
    let plan = parse_plan_from_tool_input(&raw, 1).unwrap();
    assert_eq!(plan.workers[0].see_prior, SeePrior::Keyword(SeePriorKeyword::All));
    assert_eq!(plan.workers[1].see_prior, SeePrior::Keyword(SeePriorKeyword::Nothing));
}

#[test]
fn anthropic_extracts_input_from_tool_use_block() {
    let resp = json(
        r#"{"content": [
            {"type": "text", "text": "ignored"},
            {"type": "tool_use", "id": "tu1", "name": "submit_plan", "input": {"reasoning": "r", "plan": []}}
        ]}"#,
    );
    let v = extract_anthropic_tool_input(&resp).unwrap();
    assert_eq!(v.get_str("reasoning"), Some("r"));
}

#[test]
fn anthropic_errors_when_no_tool_use() {
    let resp = json(r#"{"content": [{"type": "text", "text": "I refuse"}]}"#);
    let err = extract_anthropic_tool_input(&resp).unwrap_err();
    assert!(matches!(err, OrchestratorError::NoToolUse(_)));
}

#[test]
fn anthropic_errors_when_wrong_tool_name() {
    let resp = json(r#"{"content": [{"type": "tool_use", "name": "other_tool", "input": {}}]}"#);
    let err = extract_anthropic_tool_input(&resp).unwrap_err();
    assert!(matches!(err, OrchestratorError::NoToolUse(_)));
}

#[test]
fn anthropic_errors_name_what_is_missing() {
    let err = extract_anthropic_tool_input(&json("{}")).unwrap_err();
    assert_eq!(
        err.to_text(),
        "provider returned no submit_plan tool_use: response missing `content` array"
    );
    let resp = json(r#"{"content": [{"type": "tool_use", "name": "submit_plan"}]}"#);
    let err = extract_anthropic_tool_input(&resp).unwrap_err();
    assert_eq!(err, OrchestratorError::NoToolUse("tool_use block has no `input`".into()));
}

#[test]
fn openai_extracts_arguments_from_tool_call() {
    let resp = json(
        r#"{"choices": [{"message": {"tool_calls": [
            {"id": "c1", "function": {"name": "submit_plan", "arguments": "{\"reasoning\":\"r\",\"plan\":[]}"}}
        ]}}]}"#,
    );
    let v = extract_openai_tool_input(&resp).unwrap();
    assert_eq!(v.get_str("reasoning"), Some("r"));
}

#[test]
fn openai_errors_when_arguments_is_invalid_json() {
    let resp = json(
        r#"{"choices": [{"message": {"tool_calls": [
            {"id": "c1", "function": {"name": "submit_plan", "arguments": "not json"}}
        ]}}]}"#,
    );
    let err = extract_openai_tool_input(&resp).unwrap_err();
    assert!(matches!(err, OrchestratorError::NoToolUse(_)));
}

#[test]
fn openai_errors_when_no_tool_calls() {
    let resp = json(r#"{"choices": [{"message": {"content": "plain text"}}]}"#);
    let err = extract_openai_tool_input(&resp).unwrap_err();
    assert!(matches!(err, OrchestratorError::NoToolUse(_)));
}

#[test]
fn openai_errors_name_what_is_missing() {
    let other = json(
        r#"{"choices":[{"message":{"tool_calls":[{"function":{"name":"x","arguments":"{}"}}]}}]}"#,
    );
    assert_eq!(
        extract_openai_tool_input(&other).unwrap_err(),
        OrchestratorError::NoToolUse(
            "no submit_plan in tool_calls (model may have refused)".into()
        )
    );
    let bare =
        json(r#"{"choices":[{"message":{"tool_calls":[{"function":{"name":"submit_plan"}}]}}]}"#);
    assert_eq!(
        extract_openai_tool_input(&bare).unwrap_err(),
        OrchestratorError::NoToolUse(
            "submit_plan tool_call has no string `function.arguments`".into()
        )
    );
}

fn llm(provider: Provider) -> LlmClientConfig {
    LlmClientConfig {
        provider,
        base_url: "http://localhost//".into(),
        model: "x".into(),
        api_key: "k".into(),
        max_completion_tokens: None,
        extra_headers: vec![Header { name: "a".into(), value: "b".into() }],
        disable_cache_control: true,
    }
}

/// Gives the queued replies in order.
struct Replies {
    queue: RefCell<Vec<HttpReply>>,
    sent: RefCell<Vec<String>>,
    bodies: RefCell<Vec<String>>,
}

impl Replies {
    fn new(queue: Vec<HttpReply>) -> Self {
        Replies {
            queue: RefCell::new(queue),
            sent: RefCell::new(Vec::new()),
            bodies: RefCell::new(Vec::new()),
        }
    }
}

impl HttpTransport for Replies {
    fn send(&self, request: &HttpRequest) -> HttpReply {
        self.sent.borrow_mut().push(request.url.clone());
        self.bodies.borrow_mut().push(write_json(&request.body));
        self.queue.borrow_mut().remove(0)
    }
}

fn ok_reply(body: &str) -> HttpReply {
    HttpReply::Response { status: 200, status_text: "200 OK".into(), body: body.into() }
}

#[test]
fn generate_plan_rejects_empty_worker_pool() {
    let req = OrchestratorRequest {
        task: "anything",
        worker_pool: &[],
        prior_results: &[],
        replan_reason: None,
        plan_version: 1,
    };
    let replies = Replies::new(vec![]);
    let err = generate_plan(TEMPLATE, &llm(Provider::Anthropic), "v", &req, &mut Line::new(&replies)).unwrap_err();
    assert!(matches!(err, OrchestratorError::EmptyWorkerPool));
    assert!(replies.sent.borrow().is_empty());
}

const GOOD: &str = r#"{"content":[{"type":"tool_use","name":"submit_plan","input":{"reasoning":"r","plan":[{"id":"w1","model":"m","prompt":"p"}]}}]}"#;
const BAD: &str =
    r#"{"content":[{"type":"tool_use","name":"submit_plan","input":{"reasoning":"r","plan":[]}}]}"#;

#[test]
fn unreadable_plan_is_asked_for_again() {
    let pool = pool_one();
    let req = OrchestratorRequest {
        task: "t",
        worker_pool: &pool,
        prior_results: &[],
        replan_reason: None,
        plan_version: 4,
    };
    let gen = LlmPlanGenerator {
        llm: llm(Provider::Anthropic),
        template: TEMPLATE.into(),
        anthropic_version: "2023-06-01".into(),
        transport: Replies::new(vec![ok_reply(BAD), ok_reply(GOOD)]),
    };
    let plan = gen.generate(&req).unwrap();
    assert_eq!(plan.version, 4);
    assert_eq!(*gen.transport.sent.borrow(), vec!["http://localhost/v1/messages"; 2]);
    let user = write_json(&Json::Str(format_user_message(&req)));
    let system = write_json(&Json::Str(format_system_prompt(TEMPLATE, &pool)));
    for body in gen.transport.bodies.borrow().iter() {
        assert!(body.contains(&user), "{body}");
        assert!(body.contains(&system), "{body}");
    }

    let gen = LlmPlanGenerator {
        transport: Replies::new(vec![ok_reply(BAD), ok_reply(BAD), ok_reply(BAD), ok_reply(GOOD)]),
        ..gen
    };
    let err = gen.generate(&req).unwrap_err();
    assert_eq!(
        err,
        OrchestratorError::Parse {
            attempts: 3,
            message: "`plan` array is empty; orchestrator must return at least one worker".into()
        }
    );
    assert_eq!(gen.transport.sent.borrow().len(), 3);
}

#[test]
fn transport_errors_end_the_call() {
    let p = Provider::Anthropic;
    assert_eq!(read_reply(p, HttpReply::Cancelled), Err(OrchestratorError::Cancelled));
    assert_eq!(
        read_reply(p, HttpReply::Failed("refused".into())).unwrap_err().to_text(),
        "orchestrator HTTP error: refused"
    );
    assert_eq!(
        read_reply(p, HttpReply::Unreadable("cut".into())).unwrap_err().to_text(),
        "orchestrator HTTP error: read response body: cut"
    );
    let long = "é".repeat(400);
    let reply = HttpReply::Response {
        status: 500,
        status_text: "500 Internal Server Error".into(),
        body: long,
    };
    assert_eq!(
        read_reply(p, reply).unwrap_err(),
        OrchestratorError::Http(format!("HTTP 500 Internal Server Error: {}", "é".repeat(250)))
    );
    match read_reply(p, ok_reply("nope")).unwrap_err() {
        OrchestratorError::Http(m) => assert!(m.starts_with("parse response JSON: "), "{m}"),
        other => panic!("got {other:?}"),
    }
    assert_eq!(
        OrchestratorError::EmptyWorkerPool.to_text(),
        "worker pool is empty — orchestrator cannot pick from zero models"
    );
    assert_eq!(OrchestratorError::Cancelled.to_text(), "orchestrator call cancelled");
    assert!(judge_reply(2, Ok(json("{}")), 1).is_some());
    assert!(judge_reply(1, Ok(json("{}")), 1).is_none());
}

#[test]
fn requests_are_built_for_each_provider() {
    let r = plan_http_request(&llm(Provider::Anthropic), "2023-06-01", "SYS", "USR");
    assert_eq!(r.url, "http://localhost/v1/messages");
    let names: Vec<(&str, &str)> =
        r.headers.iter().map(|h| (h.name.as_str(), h.value.as_str())).collect();
    assert_eq!(
        names,
        vec![
            ("content-type", "application/json"),
            ("anthropic-version", "2023-06-01"),
            ("x-api-key", "k"),
            ("a", "b"),
        ]
    );
    assert_eq!(r.body.get("max_tokens"), Some(&Json::PosInt(4096)));
    assert_eq!(r.body.get_str("system"), Some("SYS"));
    assert_eq!(
        write_json(r.body.get("tool_choice").unwrap()),
        r#"{"name":"submit_plan","type":"tool"}"#
    );
    let tool = r.body.get("tools").unwrap().at(0).unwrap();
    assert!(tool.get("input_schema").unwrap().get("properties").is_some());

    let mut cfg = llm(Provider::OpenAI);
    cfg.max_completion_tokens = Some(9);
    let r = plan_http_request(&cfg, "unused", "SYS", "USR");
    assert_eq!(r.url, "http://localhost/chat/completions");
    assert_eq!(r.headers[1].name, "authorization");
    assert_eq!(r.headers[1].value, "Bearer k");
    assert_eq!(
        write_json(r.body.get("messages").unwrap()),
        r#"[{"content":"SYS","role":"system"},{"content":"USR","role":"user"}]"#
    );
    assert_eq!(
        write_json(r.body.get("tool_choice").unwrap()),
        r#"{"function":{"name":"submit_plan"},"type":"function"}"#
    );
    cfg.api_key = String::new();
    assert_eq!(plan_http_request(&cfg, "unused", "S", "U").headers.len(), 2);
}

#[test]
fn names_of_kinds_and_statuses() {
    for (text, want) in [
        ("null", "null"),
        ("true", "boolean"),
        ("1", "number"),
        ("1.5", "number"),
        ("\"a\"", "string"),
        ("[]", "array"),
        ("{}", "object"),
    ] {
        assert_eq!(value_type_name(&json(text)), want);
    }
    assert_eq!(worker_status_short(&WorkerStatus::MaxIterations), "max_iterations");
}
