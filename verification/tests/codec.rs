use auto_agent::auto::codec::{
    auto_status_from_text, auto_status_to_text, list_from_json, list_to_json, see_prior_from_json,
    see_prior_to_json, worker_spec_from_json, Coded, ModelRef,
};
use auto_agent::auto::schema::{
    submit_plan_input_schema, submit_plan_input_schema_strict, submit_plan_tool,
    submit_plan_tool_strict, SUBMIT_PLAN_TOOL_NAME,
};
use auto_agent::auto::types::{
    AutoStatus, Plan, SeePrior, SeePriorKeyword, WorkerFailureContext, WorkerPoolEntry,
    WorkerResult, WorkerStatus,
};
use auto_agent::json::{parse_json, write_json, Json};
use auto_agent::text::{decimal, decimal_int, join, replace_all, take_bytes, trim, trim_slashes, Dup};

fn json(text: &str) -> Json {
    parse_json(text).unwrap()
}

#[test]
fn see_prior_keyword_serializes_as_string() {
    let none = see_prior_to_json(&SeePrior::Keyword(SeePriorKeyword::Nothing));
    assert_eq!(none, json("\"none\""));
    let all = see_prior_to_json(&SeePrior::Keyword(SeePriorKeyword::All));
    assert_eq!(all, json("\"all\""));
}

#[test]
fn see_prior_specific_serializes_as_array() {
    let s = SeePrior::Specific(vec!["w1".into(), "w3".into()]);
    let v = see_prior_to_json(&s);
    assert_eq!(v, json(r#"["w1", "w3"]"#));
}

#[test]
fn see_prior_roundtrips_all_forms() {
    for form in [
        json("\"none\""),
        json("\"all\""),
        json("[]"),
        json(r#"["w1"]"#),
        json(r#"["w1", "w2"]"#),
    ] {
        let parsed = see_prior_from_json(&form).unwrap();
        let back = see_prior_to_json(&parsed);
        assert_eq!(back, form, "round-trip mismatch for {form:?}");
    }
}

#[test]
fn see_prior_takes_nothing_else() {
    for form in ["null", "\"some\"", "[1]", "{}", r#"{"all":1}"#, r#"{"all":null,"x":null}"#, "3"] {
        assert!(see_prior_from_json(&json(form)).is_none(), "{form}");
    }
    assert_eq!(
        see_prior_from_json(&json(r#"{"all":null}"#)),
        Some(SeePrior::Keyword(SeePriorKeyword::All))
    );
    assert_eq!(SeePrior::default(), SeePrior::Keyword(SeePriorKeyword::All));
}

#[test]
fn worker_status_serializes_with_kind_tag() {
    assert_eq!(write_json(&WorkerStatus::Completed.to_json()), r#"{"kind":"ok"}"#);
    assert_eq!(write_json(&WorkerStatus::MaxIterations.to_json()), r#"{"kind":"max_iterations"}"#);
    assert_eq!(
        write_json(&WorkerStatus::ToolError { message: "boom".into() }.to_json()),
        r#"{"kind":"tool_error","message":"boom"}"#
    );
}

#[test]
fn worker_status_reads_back() {
    for s in [
        WorkerStatus::Completed,
        WorkerStatus::MaxIterations,
        WorkerStatus::ToolError { message: "a".into() },
        WorkerStatus::LlmError { message: "b".into() },
        WorkerStatus::Cancelled,
    ] {
        assert_eq!(WorkerStatus::from_json(&s.to_json()), Some(s));
    }
    assert_eq!(
        WorkerStatus::from_json(&json(r#"["llm_error","b"]"#)),
        Some(WorkerStatus::LlmError { message: "b".into() })
    );
    for bad in [r#"{"kind":"tool_error"}"#, r#"{"kind":"?"}"#, "{}", r#"["ok","x"]"#, "\"ok\""] {
        assert_eq!(WorkerStatus::from_json(&json(bad)), None, "{bad}");
    }
}

#[test]
fn is_hard_failure_classifies_correctly() {
    assert!(!WorkerStatus::Completed.is_hard_failure());
    assert!(!WorkerStatus::Cancelled.is_hard_failure());
    assert!(WorkerStatus::MaxIterations.is_hard_failure());
    assert!(WorkerStatus::ToolError { message: "x".into() }.is_hard_failure());
    assert!(WorkerStatus::LlmError { message: "x".into() }.is_hard_failure());
    assert!(WorkerStatus::Cancelled.is_cancelled());
    assert!(!WorkerStatus::Completed.is_cancelled());
}

#[test]
fn plan_full_roundtrip_matches_orchestrator_schema() {
    let raw = json(
        r#"{
        "version": 1,
        "reasoning": "Two-stage: cheap exploration first, then expensive synthesis.",
        "workers": [
            {
                "id": "w1",
                "model": "haiku-4-5",
                "prompt": "Read all files matching src/auth/**.ts and summarize the auth flow.",
                "see_prior": "none"
            },
            {
                "id": "w2",
                "model": "sonnet-4-6",
                "prompt": "Given the prior summary, design a JWT-based replacement.",
                "see_prior": ["w1"]
            }
        ]
    }"#,
    );
    let plan = Plan::from_json(&raw).unwrap();
    assert_eq!(plan.workers.len(), 2);
    assert_eq!(plan.workers[0].id, "w1");
    assert!(matches!(plan.workers[0].see_prior, SeePrior::Keyword(SeePriorKeyword::Nothing)));
    assert!(matches!(&plan.workers[1].see_prior, SeePrior::Specific(ids) if ids == &["w1"]));
    assert_eq!(write_json(&plan.to_json()), write_json(&raw));
    assert_eq!(Plan::from_json(&plan.dup().to_json()), Some(plan));
}

#[test]
fn plans_of_another_shape_are_refused() {
    for bad in [
        r#"{"version":1,"reasoning":"r"}"#,
        r#"{"version":-1,"reasoning":"r","workers":[]}"#,
        r#"{"version":4294967296,"reasoning":"r","workers":[]}"#,
        r#"{"version":1,"reasoning":"r","workers":[{}]}"#,
        r#"[1,"r",[],0]"#,
        "7",
    ] {
        assert!(Plan::from_json(&json(bad)).is_none(), "{bad}");
    }
    assert!(Plan::from_json(&json(r#"[1,"r",[]]"#)).is_some());
}

#[test]
fn auto_status_serializes_snake_case() {
    assert_eq!(auto_status_to_text(AutoStatus::AwaitingApproval), "awaiting_approval");
    assert_eq!(auto_status_to_text(AutoStatus::Failed), "failed");
    assert_eq!(auto_status_from_text("awaiting_failure_decision"), Some(AutoStatus::AwaitingFailureDecision));
    assert_eq!(auto_status_from_text("Failed"), None);
}

#[test]
fn results_and_failures_read_back() {
    let r = WorkerResult {
        id: "w".into(),
        model: "m".into(),
        prompt: "p".into(),
        summary: "s\n\"q\"".into(),
        tool_count: 3,
        cost_cents: u32::MAX,
        status: WorkerStatus::LlmError { message: "x".into() },
    };
    let text = write_json(&list_to_json(&vec![r.dup(), r.dup()]));
    assert_eq!(list_from_json::<WorkerResult>(&json(&text)), Some(vec![r.dup(), r]));
    let f = WorkerFailureContext {
        worker_id: "a".into(),
        worker_model: "b".into(),
        worker_prompt: "c".into(),
        error_message: "d".into(),
    };
    assert_eq!(
        write_json(&f.to_json()),
        r#"{"error_message":"d","worker_id":"a","worker_model":"b","worker_prompt":"c"}"#
    );
    assert_eq!(WorkerFailureContext::from_json(&f.to_json()), Some(f));
}

#[test]
fn pool_entries_use_camel_case() {
    let e = WorkerPoolEntry {
        provider_id: "p".into(),
        model: "m".into(),
        description: "d".into(),
    };
    assert_eq!(
        write_json(&e.to_json()),
        r#"{"description":"d","model":"m","providerId":"p"}"#
    );
    assert_eq!(WorkerPoolEntry::from_json(&e.to_json()), Some(e));
    let m = ModelRef { provider_id: "p".into(), model: "m".into() };
    assert_eq!(ModelRef::from_json(&m.to_json()), Some(m));
}

// ── Schema ──

#[test]
fn submit_plan_tool_has_correct_name_and_schema() {
    let tool = submit_plan_tool();
    assert_eq!(tool.type_, "function");
    assert_eq!(tool.function.name, SUBMIT_PLAN_TOOL_NAME);
    let description = tool.function.description.expect("description present");
    assert!(description.starts_with("Submit the worker plan for"));
    assert!(description.ends_with("task. The plan is an ordered list of workers; each worker has a model id, a natural-language prompt, and a see_prior field declaring which prior worker outputs it may consume."));
    let params = tool.function.parameters.expect("schema present");
    let required = params.get("required").unwrap().as_array().expect("required array");
    let names: Vec<&str> = required.iter().filter_map(|v| v.as_str()).collect();
    assert!(names.contains(&"reasoning"));
    assert!(names.contains(&"plan"));
}

#[test]
fn submit_plan_tool_serializes_as_provider_function_shape() {
    let v = submit_plan_tool().to_json();
    assert_eq!(v.get_str("type"), Some("function"));
    let f = v.get("function").unwrap();
    assert_eq!(f.get_str("name"), Some(SUBMIT_PLAN_TOOL_NAME));
    let plan = f.get("parameters").unwrap().get("properties").unwrap().get("plan").unwrap();
    assert!(matches!(plan, Json::Object(_)));
    assert!(v.get("cache_control").is_none(), "cache_control must be omitted when None");
}

#[test]
fn strict_tool_emits_strict_true_and_drops_unsupported_constraints() {
    let v = submit_plan_tool_strict().to_json();
    assert_eq!(v.get_str("type"), Some("function"));
    let f = v.get("function").unwrap();
    assert_eq!(f.get_str("name"), Some(SUBMIT_PLAN_TOOL_NAME));
    assert_eq!(
        f.get("strict"),
        Some(&Json::Bool(true)),
        "OpenAI structured-outputs requires strict: true"
    );
    let plan = f.get("parameters").unwrap().get("properties").unwrap().get("plan").unwrap();
    assert!(plan.get("minItems").is_none(), "minItems unsupported by OpenAI strict mode");
    let item_props = plan.get("items").unwrap().get("properties").unwrap();
    assert!(
        item_props.get("id").unwrap().get("pattern").is_none(),
        "pattern unsupported by OpenAI strict mode"
    );
    assert!(
        item_props.get("prompt").unwrap().get("minLength").is_none(),
        "minLength unsupported by OpenAI strict mode"
    );
    assert!(
        item_props.get("see_prior").unwrap().get("oneOf").is_none(),
        "oneOf at property level unsupported; swap to anyOf"
    );
    assert!(
        item_props.get("see_prior").unwrap().get("anyOf").unwrap().as_array().is_some(),
        "see_prior must use anyOf in strict mode"
    );
}

#[test]
fn non_strict_tool_omits_strict_field_on_wire() {
    let v = submit_plan_tool().to_json();
    assert!(
        v.get("function").unwrap().get("strict").is_none(),
        "non-strict tool must omit `strict` on the wire so Anthropic doesn't choke"
    );
}

#[test]
fn submit_plan_schema_accepts_valid_example_payload() {
    let payload = json(
        r#"{
        "reasoning": "Two-stage decomposition.",
        "plan": [
            {"id": "w1", "model": "haiku", "prompt": "explore",  "see_prior": "none"},
            {"id": "w2", "model": "sonnet", "prompt": "design",  "see_prior": ["w1"]},
            {"id": "w3", "model": "sonnet", "prompt": "synthesize", "see_prior": "all"}
        ]
    }"#,
    );
    let workers = payload.get("plan").unwrap().as_array().unwrap();
    for w in workers {
        worker_spec_from_json(w).unwrap();
    }
}

#[test]
fn schemas_are_written_in_full() {
    assert_eq!(
        write_json(&submit_plan_input_schema()),
        r#"{"additionalProperties":false,"properties":{"plan":{"items":{"additionalProperties":false,"properties":{"id":{"pattern":"^w[0-9]+$","type":"string"},"model":{"type":"string"},"prompt":{"minLength":1,"type":"string"},"see_prior":{"oneOf":[{"enum":["none","all"],"type":"string"},{"items":{"type":"string"},"type":"array"}]}},"required":["id","model","prompt","see_prior"],"type":"object"},"minItems":1,"type":"array"},"reasoning":{"description":"Brief why-this-plan rationale (1-3 sentences).","type":"string"}},"required":["reasoning","plan"],"type":"object"}"#
    );
    assert_eq!(
        write_json(&submit_plan_input_schema_strict()),
        r#"{"additionalProperties":false,"properties":{"plan":{"items":{"additionalProperties":false,"properties":{"id":{"description":"Stable id like 'w1', 'w2', sequential starting at w1.","type":"string"},"model":{"type":"string"},"prompt":{"type":"string"},"see_prior":{"anyOf":[{"enum":["none","all"],"type":"string"},{"items":{"type":"string"},"type":"array"}]}},"required":["id","model","prompt","see_prior"],"type":"object"},"type":"array"},"reasoning":{"description":"Brief why-this-plan rationale (1-3 sentences).","type":"string"}},"required":["reasoning","plan"],"type":"object"}"#
    );
}

// ── JSON and text ──

#[test]
fn json_reads_and_writes() {
    let text = r#"{"a":[1,-2,1.5,true,null,"x\ny"],"b":{}}"#;
    assert_eq!(write_json(&json(text)), text);
    assert_eq!(json("18446744073709551615"), Json::PosInt(u64::MAX));
    assert_eq!(json("-9223372036854775808"), Json::NegInt(i64::MIN));
    assert_eq!(json("1e2"), Json::Float("100.0".into()));
    assert_eq!(json(r#"{"a":1,"a":2}"#).get("a"), Some(&Json::PosInt(2)));
    let twice = Json::Object(vec![
        ("k".into(), Json::PosInt(1)),
        ("k".into(), Json::PosInt(2)),
    ]);
    assert_eq!(twice.get("k"), Some(&Json::PosInt(2)));
    assert_eq!(write_json(&twice), r#"{"k":2}"#);
    assert_eq!(write_json(&json(text).dup()), text);
    assert!(parse_json("{").unwrap_err().contains("EOF"));
    let deep = format!("{}{}", "[".repeat(127), "]".repeat(127));
    assert_eq!(write_json(&json(&deep)), deep);
    let deeper = format!("{}{}", "[".repeat(128), "]".repeat(128));
    assert!(parse_json(&deeper).is_err());
}

#[test]
fn json_accessors_look_only_where_they_should() {
    let j = json(r#"{"s":"x","n":3,"m":-3,"a":[10,20]}"#);
    assert_eq!(j.get_str("s"), Some("x"));
    assert_eq!(j.get_str("n"), None);
    assert_eq!(j.get("n").unwrap().as_u64(), Some(3));
    assert_eq!(j.get("m").unwrap().as_u64(), None);
    assert_eq!(j.get("a").unwrap().at(1), Some(&Json::PosInt(20)));
    assert_eq!(j.get("a").unwrap().at(2), None);
    assert_eq!(j.get("missing"), None);
    assert_eq!(j.at(0), None);
}

#[test]
fn text_helpers_do_what_they_say() {
    assert_eq!(replace_all("a{{x}}b{{x}}", "{{x}}", "1"), "a1b1");
    assert_eq!(replace_all("aaa", "aa", "b"), "ba");
    assert_eq!(replace_all("abc", "x", "y"), "abc");
    assert_eq!(trim_slashes("http://x//"), "http://x");
    assert_eq!(trim_slashes("//"), "");
    assert_eq!(decimal(0), "0");
    assert_eq!(decimal(120), "120");
    assert_eq!(decimal_int(-45), "-45");
    assert_eq!(join(&vec!["a".into(), "b".into()], ", "), "a, b");
    assert_eq!(join(&vec![], ", "), "");
    assert_eq!(trim("\t a b\u{3000}\n"), "a b");
    assert_eq!(trim(" \n"), "");
    assert_eq!(take_bytes("aéx", 2), "a");
    assert_eq!(take_bytes("aéx", 3), "aé");
    assert_eq!(take_bytes("😀x", 3), "");
    assert_eq!(take_bytes("😀x", 5), "😀x");
}
