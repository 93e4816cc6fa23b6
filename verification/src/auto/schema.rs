//! The tool that the orchestrator must call to submit its plan, and the schema of
//! that tool's input.

use vstd::prelude::*;
use vstd::string::*;
use crate::json::{lemma_items_push, items_view, put, text_json, Json, JsonV};
use crate::text::opt;

verus! {

pub const SUBMIT_PLAN_TOOL_NAME: &'static str = "submit_plan";

/// What the tool is for, and what its input looks like.
pub const SUBMIT_PLAN_PURPOSE: &'static str = "Submit the worker plan for this";

pub const SUBMIT_PLAN_FORM: &'static str =
    " task. The plan is an ordered list of workers; each worker has a model id, a natural-language prompt, and a see_prior field declaring which prior worker outputs it may consume.";

/// A function that a model may call.
#[derive(Debug, PartialEq)]
pub struct FunctionDefinition {
    pub name: String,
    pub description: Option<String>,
    /// The schema of the arguments.
    pub parameters: Option<Json>,
    /// Whether the provider is to hold the arguments to the schema.
    pub strict: Option<bool>,
}

/// A tool as it is offered to a model.
#[derive(Debug, PartialEq)]
pub struct ToolDefinition {
    pub type_: String,
    pub function: FunctionDefinition,
    pub cache_control: Option<Json>,
}

pub open spec fn json_view(o: Option<Json>) -> Option<JsonV> {
    match o {
        Some(j) => Some(j.view()),
        None => None,
    }
}

/// What the submission tool looks like, with or without strict mode.
pub open spec fn is_submit_tool(t: ToolDefinition, strict: bool) -> bool {
    &&& t.type_@ == "function"@
    &&& t.function.name@ == SUBMIT_PLAN_TOOL_NAME@
    &&& opt(t.function.description) == Some(submit_plan_description())
    &&& json_view(t.function.parameters) == Some(plan_schema(strict))
    &&& t.function.strict == (if strict { Some(true) } else { None })
    &&& t.cache_control is None
}

pub open spec fn submit_plan_description() -> Seq<char> {
    SUBMIT_PLAN_PURPOSE@ + SUBMIT_PLAN_FORM@
}

fn describe_submit_plan() -> (r: String)
    ensures
        r@ == submit_plan_description(),
{
    let mut s = SUBMIT_PLAN_PURPOSE.to_owned();
    s.append(SUBMIT_PLAN_FORM);
    s
}

// ── The schema ──

pub open spec fn typed(name: Seq<char>) -> Map<Seq<char>, JsonV> {
    map!["type"@ => JsonV::Str(name)]
}

pub open spec fn see_prior_choices() -> JsonV {
    JsonV::Array(
        seq![
            JsonV::Object(
                typed("string"@).insert(
                    "enum"@,
                    JsonV::Array(seq![JsonV::Str("none"@), JsonV::Str("all"@)]),
                ),
            ),
            JsonV::Object(typed("array"@).insert("items"@, JsonV::Object(typed("string"@)))),
        ],
    )
}

pub open spec fn worker_properties(strict: bool) -> Map<Seq<char>, JsonV> {
    map![
        "id"@ => JsonV::Object(if strict {
            typed("string"@).insert(
                "description"@,
                JsonV::Str("Stable id like 'w1', 'w2', sequential starting at w1."@),
            )
        } else {
            typed("string"@).insert("pattern"@, JsonV::Str("^w[0-9]+$"@))
        }),
        "model"@ => JsonV::Object(typed("string"@)),
        "prompt"@ => JsonV::Object(if strict {
            typed("string"@)
        } else {
            typed("string"@).insert("minLength"@, JsonV::Int(1))
        }),
        "see_prior"@ => JsonV::Object(
            map![(if strict { "anyOf"@ } else { "oneOf"@ }) => see_prior_choices()],
        ),
    ]
}

/// An object with exactly these properties, all of them required.
pub open spec fn closed_object(required: Seq<JsonV>, properties: Map<Seq<char>, JsonV>) -> JsonV {
    JsonV::Object(
        typed("object"@).insert("additionalProperties"@, JsonV::Bool(false)).insert(
            "required"@,
            JsonV::Array(required),
        ).insert("properties"@, JsonV::Object(properties)),
    )
}

pub open spec fn worker_required() -> Seq<JsonV> {
    seq![
        JsonV::Str("id"@),
        JsonV::Str("model"@),
        JsonV::Str("prompt"@),
        JsonV::Str("see_prior"@),
    ]
}

pub open spec fn worker_schema(strict: bool) -> JsonV {
    closed_object(worker_required(), worker_properties(strict))
}

pub open spec fn plan_properties(strict: bool) -> Map<Seq<char>, JsonV> {
    let workers = typed("array"@).insert("items"@, worker_schema(strict));
    map![
        "reasoning"@ => JsonV::Object(
            typed("string"@).insert(
                "description"@,
                JsonV::Str("Brief why-this-plan rationale (1-3 sentences)."@),
            ),
        ),
        "plan"@ => JsonV::Object(
            if strict { workers } else { workers.insert("minItems"@, JsonV::Int(1)) },
        ),
    ]
}

/// The schema of a submission. The strict form leaves out what a provider that
/// enforces schemas does not take: patterns, minimum lengths, and `oneOf`.
pub open spec fn plan_schema(strict: bool) -> JsonV {
    closed_object(plan_required(), plan_properties(strict))
}

pub open spec fn plan_required() -> Seq<JsonV> {
    seq![JsonV::Str("reasoning"@), JsonV::Str("plan"@)]
}

fn typed_members(name: &str) -> (r: Vec<(String, Json)>)
    ensures
        crate::json::members_view(r@) == typed(name@),
{
    let mut m: Vec<(String, Json)> = Vec::new();
    put(&mut m, "type", text_json(name));
    m
}

fn array_of_texts(v: Vec<&str>) -> (r: Json)
    ensures
        r.view() == JsonV::Array(Seq::new(v@.len(), |i: int| JsonV::Str(v@[i]@))),
{
    let ghost want = Seq::new(v@.len(), |i: int| JsonV::Str(v@[i]@));
    let mut out: Vec<Json> = Vec::new();
    let mut i: usize = 0;
    assert(items_view(out@) =~= want.take(0));
    while i < v.len()
        invariant
            want == Seq::new(v@.len(), |i: int| JsonV::Str(v@[i]@)),
            i <= v@.len(),
            items_view(out@) == want.take(i as int),
        decreases v@.len() - i,
    {
        let x = text_json(v[i]);
        proof {
            lemma_items_push(out@, x);
            assert(want.take(i + 1) =~= want.take(i as int).push(x.view()));
        }
        out.push(x);
        i += 1;
    }
    assert(want.take(i as int) =~= want);
    Json::Array(out)
}

fn see_prior_choices_json() -> (r: Json)
    ensures
        r.view() == see_prior_choices(),
{
    let mut keyword = typed_members("string");
    let words = array_of_texts(vec!["none", "all"]);
    assert(words.view()->Array_0 =~= seq![JsonV::Str("none"@), JsonV::Str("all"@)]);
    put(&mut keyword, "enum", words);
    let mut list = typed_members("array");
    put(&mut list, "items", Json::Object(typed_members("string")));
    let out = vec![Json::Object(keyword), Json::Object(list)];
    proof {
        crate::json::lemma_items(out@);
    }
    assert(items_view(out@) =~= see_prior_choices()->Array_0);
    Json::Array(out)
}

fn closed_object_json(required: Json, properties: Vec<(String, Json)>) -> (r: Json)
    requires
        required is Array,
    ensures
        r.view() == closed_object(
            required.view()->Array_0,
            crate::json::members_view(properties@),
        ),
{
    let mut m = typed_members("object");
    put(&mut m, "additionalProperties", Json::Bool(false));
    put(&mut m, "required", required);
    put(&mut m, "properties", Json::Object(properties));
    Json::Object(m)
}

fn worker_schema_json(strict: bool) -> (r: Json)
    ensures
        r.view() == worker_schema(strict),
{
    let mut id = typed_members("string");
    let mut prompt = typed_members("string");
    let mut see_prior: Vec<(String, Json)> = Vec::new();
    if strict {
        put(
            &mut id,
            "description",
            text_json("Stable id like 'w1', 'w2', sequential starting at w1."),
        );
        put(&mut see_prior, "anyOf", see_prior_choices_json());
    } else {
        put(&mut id, "pattern", text_json("^w[0-9]+$"));
        put(&mut prompt, "minLength", Json::PosInt(1));
        put(&mut see_prior, "oneOf", see_prior_choices_json());
    }
    let mut properties: Vec<(String, Json)> = Vec::new();
    put(&mut properties, "id", Json::Object(id));
    put(&mut properties, "model", Json::Object(typed_members("string")));
    put(&mut properties, "prompt", Json::Object(prompt));
    put(&mut properties, "see_prior", Json::Object(see_prior));
    let required = array_of_texts(vec!["id", "model", "prompt", "see_prior"]);
    assert(required.view()->Array_0 =~= worker_required());
    closed_object_json(required, properties)
}

fn plan_schema_json(strict: bool) -> (r: Json)
    ensures
        r.view() == plan_schema(strict),
{
    let mut reasoning = typed_members("string");
    put(
        &mut reasoning,
        "description",
        text_json("Brief why-this-plan rationale (1-3 sentences)."),
    );
    let mut plan = typed_members("array");
    put(&mut plan, "items", worker_schema_json(strict));
    if !strict {
        put(&mut plan, "minItems", Json::PosInt(1));
    }
    let mut properties: Vec<(String, Json)> = Vec::new();
    put(&mut properties, "reasoning", Json::Object(reasoning));
    put(&mut properties, "plan", Json::Object(plan));
    let required = array_of_texts(vec!["reasoning", "plan"]);
    assert(required.view()->Array_0 =~= plan_required());
    closed_object_json(required, properties)
}

/// The schema with every hint that helps a model get the form right.
pub fn submit_plan_input_schema() -> (r: Json)
    ensures
        r.view() == plan_schema(false),
{
    plan_schema_json(false)
}

/// The schema for a provider that enforces it.
pub fn submit_plan_input_schema_strict() -> (r: Json)
    ensures
        r.view() == plan_schema(true),
{
    plan_schema_json(true)
}

/// The tool for a provider that takes the schema as a hint.
pub fn submit_plan_tool() -> (r: ToolDefinition)
    ensures
        is_submit_tool(r, false),
{
    ToolDefinition {
        type_: "function".to_owned(),
        function: FunctionDefinition {
            name: SUBMIT_PLAN_TOOL_NAME.to_owned(),
            description: Some(describe_submit_plan()),
            parameters: Some(submit_plan_input_schema()),
            strict: None,
        },
        cache_control: None,
    }
}

/// The tool for a provider that enforces the schema.
pub fn submit_plan_tool_strict() -> (r: ToolDefinition)
    ensures
        is_submit_tool(r, true),
{
    ToolDefinition {
        type_: "function".to_owned(),
        function: FunctionDefinition {
            name: SUBMIT_PLAN_TOOL_NAME.to_owned(),
            description: Some(describe_submit_plan()),
            parameters: Some(submit_plan_input_schema_strict()),
            strict: Some(true),
        },
        cache_control: None,
    }
}

impl FunctionDefinition {
    /// The form on the wire; what is not set is left out.
    pub open spec fn wire(self) -> JsonV {
        let m = map!["name"@ => JsonV::Str(self.name@)];
        let m = match self.description {
            Some(d) => m.insert("description"@, JsonV::Str(d@)),
            None => m,
        };
        let m = match self.parameters {
            Some(p) => m.insert("parameters"@, p.view()),
            None => m,
        };
        JsonV::Object(match self.strict {
            Some(b) => m.insert("strict"@, JsonV::Bool(b)),
            None => m,
        })
    }

    pub fn to_json(&self) -> (r: Json)
        ensures
            r.view() == self.wire(),
    {
        let mut m: Vec<(String, Json)> = Vec::new();
        put(&mut m, "name", text_json(self.name.as_str()));
        if let Some(d) = &self.description {
            put(&mut m, "description", text_json(d.as_str()));
        }
        if let Some(p) = &self.parameters {
            put(&mut m, "parameters", p.dup());
        }
        if let Some(b) = self.strict {
            put(&mut m, "strict", Json::Bool(b));
        }
        Json::Object(m)
    }
}

impl ToolDefinition {
    /// The form on the wire; what is not set is left out.
    pub open spec fn wire(self) -> JsonV {
        let m = map![
            "type"@ => JsonV::Str(self.type_@),
            "function"@ => self.function.wire(),
        ];
        JsonV::Object(match self.cache_control {
            Some(c) => m.insert("cache_control"@, c.view()),
            None => m,
        })
    }

    pub fn to_json(&self) -> (r: Json)
        ensures
            r.view() == self.wire(),
    {
        let mut m: Vec<(String, Json)> = Vec::new();
        put(&mut m, "type", text_json(self.type_.as_str()));
        put(&mut m, "function", self.function.to_json());
        if let Some(c) = &self.cache_control {
            put(&mut m, "cache_control", c.dup());
        }
        Json::Object(m)
    }
}

// ── Laws ──

/// No object in `j`, at any depth, has a member `key`.
pub open spec fn lacks(j: JsonV, key: Seq<char>) -> bool
    decreases j,
{
    match j {
        JsonV::Array(a) => forall|i: int| 0 <= i < a.len() ==> lacks(#[trigger] a[i], key),
        JsonV::Object(m) => !m.dom().contains(key) && forall|k: Seq<char>| #[trigger]
            m.dom().contains(k) ==> lacks(m[k], key),
        _ => true,
    }
}

proof fn lemma_lacks_member(j: JsonV, k: Seq<char>, key: Seq<char>)
    requires
        j is Object,
        lacks(j, key),
        j->Object_0.dom().contains(k),
    ensures
        lacks(j->Object_0[k], key),
{
}

proof fn lemma_lacks_insert(m: Map<Seq<char>, JsonV>, k: Seq<char>, x: JsonV, key: Seq<char>)
    requires
        lacks(JsonV::Object(m), key),
        lacks(x, key),
        k != key,
    ensures
        lacks(JsonV::Object(m.insert(k, x)), key),
{
    let j = JsonV::Object(m.insert(k, x));
    assert(!JsonV::Object(m)->Object_0.dom().contains(key));
    assert forall|n: Seq<char>| #[trigger] j->Object_0.dom().contains(n) implies lacks(
        j->Object_0[n],
        key,
    ) by {
        if n != k {
            lemma_lacks_member(JsonV::Object(m), n, key);
        }
    }
}

proof fn lemma_lacks_typed(name: Seq<char>, key: Seq<char>)
    requires
        key != "type"@,
    ensures
        lacks(JsonV::Object(typed(name)), key),
{
    let e = JsonV::Object(Map::empty());
    assert(e->Object_0 == Map::<Seq<char>, JsonV>::empty());
    assert(lacks(e, key));
    lemma_lacks_insert(Map::empty(), "type"@, JsonV::Str(name), key);
}

proof fn lemma_lacks_texts(a: Seq<JsonV>, key: Seq<char>)
    requires
        forall|i: int| 0 <= i < a.len() ==> (#[trigger] a[i]) is Str,
    ensures
        lacks(JsonV::Array(a), key),
{
    let j = JsonV::Array(a);
    assert forall|i: int| 0 <= i < j->Array_0.len() implies lacks(#[trigger] j->Array_0[i], key) by {
        assert(a[i] is Str);
    }
}

proof fn lemma_lacks_closed(required: Seq<JsonV>, properties: Map<Seq<char>, JsonV>, key: Seq<char>)
    requires
        forall|i: int| 0 <= i < required.len() ==> (#[trigger] required[i]) is Str,
        lacks(JsonV::Object(properties), key),
        key != "type"@,
        key != "additionalProperties"@,
        key != "required"@,
        key != "properties"@,
    ensures
        lacks(closed_object(required, properties), key),
{
    lemma_lacks_typed("object"@, key);
    lemma_lacks_texts(required, key);
    let m = typed("object"@);
    lemma_lacks_insert(m, "additionalProperties"@, JsonV::Bool(false), key);
    let m = m.insert("additionalProperties"@, JsonV::Bool(false));
    lemma_lacks_insert(m, "required"@, JsonV::Array(required), key);
    let m = m.insert("required"@, JsonV::Array(required));
    lemma_lacks_insert(m, "properties"@, JsonV::Object(properties), key);
}

/// A constraint that a provider in strict mode does not take.
pub open spec fn unsupported(key: Seq<char>) -> bool {
    key == "pattern"@ || key == "minLength"@ || key == "minItems"@ || key == "oneOf"@
}

proof fn lemma_keys(key: Seq<char>)
    requires
        unsupported(key),
    ensures
        key != "type"@,
        key != "enum"@,
        key != "items"@,
        key != "additionalProperties"@,
        key != "required"@,
        key != "properties"@,
        key != "reasoning"@,
        key != "description"@,
        key != "plan"@,
        key != "id"@,
        key != "model"@,
        key != "prompt"@,
        key != "see_prior"@,
        key != "anyOf"@,
{
    reveal_strlit("pattern");
    reveal_strlit("minLength");
    reveal_strlit("minItems");
    reveal_strlit("oneOf");
    reveal_strlit("type");
    reveal_strlit("enum");
    reveal_strlit("items");
    reveal_strlit("additionalProperties");
    reveal_strlit("required");
    reveal_strlit("properties");
    reveal_strlit("reasoning");
    reveal_strlit("description");
    reveal_strlit("plan");
    reveal_strlit("id");
    reveal_strlit("model");
    reveal_strlit("prompt");
    reveal_strlit("see_prior");
    reveal_strlit("anyOf");
    assert(key.len() == 7 || key[0] == 'm' || key[0] == 'o');
    assert("items"@[0] == 'i' && "required"@[0] == 'r' && "reasoning"@[0] == 'r' && "model"@[0]
        == 'm' && "model"@.len() == 5 && "see_prior"@[0] == 's' && "anyOf"@[0] == 'a');
}

/// The strict schema holds none of the constraints that strict mode does not take.
pub proof fn law_strict_schema_supported(key: Seq<char>)
    requires
        unsupported(key),
    ensures
        lacks(plan_schema(true), key),
{
    lemma_keys(key);
    lemma_lacks_typed("string"@, key);
    lemma_lacks_typed("array"@, key);
    let words = seq![JsonV::Str("none"@), JsonV::Str("all"@)];
    lemma_lacks_texts(words, key);
    lemma_lacks_insert(typed("string"@), "enum"@, JsonV::Array(words), key);
    lemma_lacks_insert(typed("array"@), "items"@, JsonV::Object(typed("string"@)), key);
    let choices = see_prior_choices();
    assert forall|i: int| 0 <= i < choices->Array_0.len() implies lacks(
        #[trigger] choices->Array_0[i],
        key,
    ) by {
        assert(i == 0 || i == 1);
    }
    assert(lacks(choices, key));
    let e = Map::<Seq<char>, JsonV>::empty();
    assert(JsonV::Object(e)->Object_0 == e);
    assert(lacks(JsonV::Object(e), key));
    lemma_lacks_insert(e, "anyOf"@, choices, key);
    let hint = JsonV::Str("Stable id like 'w1', 'w2', sequential starting at w1."@);
    lemma_lacks_insert(typed("string"@), "description"@, hint, key);
    let id = JsonV::Object(typed("string"@).insert("description"@, hint));
    let see = JsonV::Object(e.insert("anyOf"@, choices));
    let text = JsonV::Object(typed("string"@));
    lemma_lacks_insert(e, "id"@, id, key);
    lemma_lacks_insert(e.insert("id"@, id), "model"@, text, key);
    lemma_lacks_insert(e.insert("id"@, id).insert("model"@, text), "prompt"@, text, key);
    lemma_lacks_insert(
        e.insert("id"@, id).insert("model"@, text).insert("prompt"@, text),
        "see_prior"@,
        see,
        key,
    );
    assert(lacks(JsonV::Object(worker_properties(true)), key));
    lemma_lacks_closed(worker_required(), worker_properties(true), key);
    lemma_lacks_insert(typed("array"@), "items"@, worker_schema(true), key);
    let why = JsonV::Str("Brief why-this-plan rationale (1-3 sentences)."@);
    lemma_lacks_insert(typed("string"@), "description"@, why, key);
    let reasoning = JsonV::Object(typed("string"@).insert("description"@, why));
    let plan = JsonV::Object(typed("array"@).insert("items"@, worker_schema(true)));
    lemma_lacks_insert(e, "reasoning"@, reasoning, key);
    lemma_lacks_insert(e.insert("reasoning"@, reasoning), "plan"@, plan, key);
    assert(lacks(JsonV::Object(plan_properties(true)), key));
    lemma_lacks_closed(plan_required(), plan_properties(true), key);
}

/// Every property of a worker and of a submission is required.
pub proof fn law_schema_requires_everything(strict: bool, name: Seq<char>)
    ensures
        worker_properties(strict).dom().contains(name)
            <==> worker_required().contains(JsonV::Str(name)),
        plan_properties(strict).dom().contains(name)
            <==> plan_required().contains(JsonV::Str(name)),
{
    let w = worker_required();
    assert(w[0] == JsonV::Str("id"@) && w[1] == JsonV::Str("model"@) && w[2] == JsonV::Str(
        "prompt"@,
    ) && w[3] == JsonV::Str("see_prior"@));
    let p = plan_required();
    assert(p[0] == JsonV::Str("reasoning"@) && p[1] == JsonV::Str("plan"@));
}

/// Neither a worker nor a submission may hold anything beyond its properties.
pub proof fn law_schema_is_closed(strict: bool)
    ensures
        worker_schema(strict).get("additionalProperties"@) == Some(JsonV::Bool(false)),
        plan_schema(strict).get("additionalProperties"@) == Some(JsonV::Bool(false)),
        worker_schema(strict).get("required"@) == Some(JsonV::Array(worker_required())),
        plan_schema(strict).get("required"@) == Some(JsonV::Array(plan_required())),
{
    reveal_strlit("additionalProperties");
    reveal_strlit("required");
    reveal_strlit("properties");
    assert("additionalProperties"@.len() == 20 && "required"@.len() == 8 && "properties"@.len()
        == 10);
}

} // verus!
