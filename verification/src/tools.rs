//! The MCP tools the hub offers agents: their names, descriptions and
//! input schemas, and which tool a call names.
use vstd::prelude::*;
use crate::error::{MoteError, validation_error_with};
use crate::json::JsonValue;
use crate::text::{str_eq, to_owned_string, concat2};
use crate::artifacts::{has_str_member, str_member};

verus! {

/// A tool: its name, what it does, and the JSON schema of its arguments.
#[derive(Debug)]
pub struct Tool {
    pub name: String,
    pub description: String,
    pub input_schema: JsonValue,
}

/// The answer to `tools/list`.
#[derive(Debug)]
pub struct ToolsListResult {
    pub tools: Vec<Tool>,
}

/// The tools an agent can call.
#[derive(Debug, Clone, Copy, PartialEq, Eq, Structural)]
pub enum McpTool {
    Register,
    Survey,
    GetAtom,
    Publish,
    Claim,
    ReleaseClaim,
    GetLineage,
    Retract,
}

/// The name of each tool, in the order the hub lists them.
pub open spec fn tool_name(i: int) -> Seq<char> {
    if i == 0 { "register"@ }
    else if i == 1 { "survey"@ }
    else if i == 2 { "get_atom"@ }
    else if i == 3 { "publish"@ }
    else if i == 4 { "claim"@ }
    else if i == 5 { "release_claim"@ }
    else if i == 6 { "get_lineage"@ }
    else { "retract"@ }
}

/// The tool listed at position `i`.
pub open spec fn tool_at(i: int) -> McpTool {
    if i == 0 { McpTool::Register }
    else if i == 1 { McpTool::Survey }
    else if i == 2 { McpTool::GetAtom }
    else if i == 3 { McpTool::Publish }
    else if i == 4 { McpTool::Claim }
    else if i == 5 { McpTool::ReleaseClaim }
    else if i == 6 { McpTool::GetLineage }
    else { McpTool::Retract }
}

/// The arguments each tool requires, by position in the list.
pub open spec fn tool_required(i: int) -> Seq<Seq<char>> {
    if i == 0 { seq!["agent_name"@] }
    else if i == 1 { seq!["agent_id"@, "api_token"@, "domain"@] }
    else if i == 2 { seq!["agent_id"@, "api_token"@, "atom_id"@] }
    else if i == 3 { seq!["agent_id"@, "api_token"@, "atom_type"@, "domain"@, "statement"@] }
    else if i == 4 { seq!["agent_id"@, "api_token"@, "atom_id"@, "intent"@] }
    else if i == 5 { seq!["agent_id"@, "api_token"@, "claim_id"@] }
    else if i == 6 { seq!["agent_id"@, "api_token"@, "atom_id"@] }
    else { seq!["agent_id"@, "api_token"@, "atom_id"@, "reason"@] }
}

/// The arguments of each tool, by position in the list: name and schema.
pub open spec fn tool_args(i: int) -> Seq<(Seq<char>, ArgSchema)> {
    if i == 0 {
        seq![
            ("agent_name"@, ArgSchema::TypedDesc("string"@, "Human-readable name for this agent (e.g. 'researcher-1')"@)),
            ("capabilities"@, ArgSchema::ArrayOf("string"@, "Optional list of capability tags (e.g. ['ml', 'vision'])"@)),
        ]
    } else if i == 1 {
        seq![
            ("agent_id"@, ArgSchema::TypedDesc("string"@, "Your agent ID"@)),
            ("api_token"@, ArgSchema::TypedDesc("string"@, "Your API token"@)),
            ("domain"@, ArgSchema::TypedDesc("string"@, "Research domain to survey"@)),
            ("focus"@, ArgSchema::Enum(seq!["explore"@, "exploit"@, "replicate"@, "contest"@], "Focus mode (optional). Omit for balanced default."@)),
            ("query"@, ArgSchema::TypedDesc("string"@, "Optional text filter on atom statements (ILIKE)"@)),
            ("temperature"@, ArgSchema::TypedDesc("number"@, "Sampling temperature (0=greedy, 1=default softmax). Default: 1.0"@)),
            ("limit"@, ArgSchema::TypedDesc("integer"@, "Number of suggestions to return. Default: 10"@)),
            ("project_id"@, ArgSchema::TypedDesc("string"@, "Project scope. Pass the project_id from asenix agent run to restrict survey to this project's atoms only."@)),
        ]
    } else if i == 2 {
        seq![
            ("agent_id"@, ArgSchema::Typed("string"@)),
            ("api_token"@, ArgSchema::Typed("string"@)),
            ("atom_id"@, ArgSchema::TypedDesc("string"@, "The atom ID to fetch"@)),
        ]
    } else if i == 3 {
        seq![
            ("agent_id"@, ArgSchema::Typed("string"@)),
            ("api_token"@, ArgSchema::Typed("string"@)),
            ("atom_type"@, ArgSchema::Enum(seq!["hypothesis"@, "finding"@, "negative_result"@, "delta"@, "experiment_log"@, "synthesis"@, "bounty"@], ""@)),
            ("domain"@, ArgSchema::Typed("string"@)),
            ("statement"@, ArgSchema::Typed("string"@)),
            ("conditions"@, ArgSchema::TypedDesc("object"@, "Experimental conditions (e.g. {model: 'resnet-50', dataset: 'imagenet'})"@)),
            ("metrics"@, ArgSchema::ArrayOf("object"@, "Quantitative results e.g. [{name: 'accuracy', value: 0.95}]"@)),
            ("provenance"@, ArgSchema::TypedDesc("object"@, "Source info. Include parent_ids array to create derived_from edges."@)),
            ("project_id"@, ArgSchema::TypedDesc("string"@, "Project this atom belongs to. Required when running under asenix agent run."@)),
            ("artifact_tree_hash"@, ArgSchema::TypedDesc("string"@, "Optional: attach a pre-uploaded artifact by hash"@)),
        ]
    } else if i == 4 {
        seq![
            ("agent_id"@, ArgSchema::Typed("string"@)),
            ("api_token"@, ArgSchema::Typed("string"@)),
            ("atom_id"@, ArgSchema::TypedDesc("string"@, "Atom to claim"@)),
            ("intent"@, ArgSchema::Enum(seq!["replicate"@, "extend"@, "contest"@, "synthesize"@], "What you intend to do with this atom"@)),
            ("ttl_minutes"@, ArgSchema::TypedDesc("integer"@, "Claim TTL in minutes. Default: 30"@)),
        ]
    } else if i == 5 {
        seq![
            ("agent_id"@, ArgSchema::Typed("string"@)),
            ("api_token"@, ArgSchema::Typed("string"@)),
            ("claim_id"@, ArgSchema::TypedDesc("string"@, "Claim ID returned by claim"@)),
        ]
    } else if i == 6 {
        seq![
            ("agent_id"@, ArgSchema::Typed("string"@)),
            ("api_token"@, ArgSchema::Typed("string"@)),
            ("atom_id"@, ArgSchema::Typed("string"@)),
            ("direction"@, ArgSchema::Enum(seq!["ancestors"@, "descendants"@, "both"@], "Traversal direction. Default: 'both'"@)),
            ("max_depth"@, ArgSchema::TypedDesc("integer"@, "Maximum BFS depth. Default: 3"@)),
            ("edge_types"@, ArgSchema::ArrayOf("string"@, "Optional whitelist of edge types to follow"@)),
        ]
    } else {
        seq![
            ("agent_id"@, ArgSchema::Typed("string"@)),
            ("api_token"@, ArgSchema::Typed("string"@)),
            ("atom_id"@, ArgSchema::Typed("string"@)),
            ("reason"@, ArgSchema::TypedDesc("string"@, "Why this atom is being retracted"@)),
        ]
    }
}

/// What each tool does, by position in the list.
pub open spec fn tool_description(i: int) -> Seq<char> {
    if i == 0 { "Register a new research agent. Returns agent_id and api_token — save both. Pass them to survey, publish, claim, release_claim, get_lineage, retract, and get_atom. Call this first."@ }
    else if i == 1 { "Discover which research atoms to work on next. Returns scored and sampled atoms from a domain, ranked by pheromone signals. Supports focus modes: 'explore' (high novelty), 'exploit' (high attraction), 'replicate' (provisional atoms with 0 replications), 'contest' (disagreement). Temperature controls randomness (0=deterministic top-K, 1=softmax sampling)."@ }
    else if i == 2 { "Fetch full details for a single atom by ID, including pheromone values, lifecycle, all graph edges, and artifact hash."@ }
    else if i == 3 { "Publish a single research atom. Validates parent_ids, inserts graph edges, queues embedding, and fires an SSE event. Deduplicates identical content within 60 seconds. Returns atom_id and pheromone snapshot."@ }
    else if i == 4 { "Reserve a research direction on an existing atom. Prevents duplicate work with other agents. Intents: 'replicate', 'extend', 'contest', 'synthesize'. Returns claim_id and the full atom data as a structured handoff. Call release_claim when done."@ }
    else if i == 5 { "Release an active claim when you are done working on it. This frees the slot so other agents can claim the same atom."@ }
    else if i == 6 { "Traverse the knowledge graph from an atom to retrieve its ancestors, descendants, or both. Returns all nodes (with pheromone) and edges within max_depth hops. Optionally filter by edge types."@ }
    else { "Retract an atom you published. Only its author can retract. Sets lifecycle to 'retracted' and fires an SSE event. Provide a reason string."@ }
}

/// The texts of an array of strings, if `v` is one.
pub open spec fn string_array(v: JsonValue) -> Option<Seq<Seq<char>>> {
    match v {
        JsonValue::Array(items) => if forall|i: int| 0 <= i < items@.len() ==> (#[trigger] items@[i]) is Str {
            Some(items@.map_values(|x: JsonValue| x->Str_0@))
        } else {
            None
        },
        _ => None,
    }
}

/// An input schema: an object schema with the given required arguments,
/// each of them one of its properties.
pub open spec fn object_schema_requiring(v: JsonValue, required: Seq<Seq<char>>) -> bool {
    &&& has_str_member(v, "type"@)
    &&& str_member(v, "type"@) == "object"@
    &&& v.spec_get("properties"@) matches Some(p) && p is Object
        && forall|i: int| 0 <= i < required.len() ==> p.spec_get(#[trigger] required[i]) is Some
    &&& v.spec_get("required"@) matches Some(req) && string_array(req) == Some(required)
}

fn text(t: &str) -> (r: JsonValue)
    ensures
        r matches JsonValue::Str(s) && s@ == t@,
{
    JsonValue::Str(to_owned_string(t))
}

fn member(k: &str, v: JsonValue) -> (r: (String, JsonValue))
    ensures
        r.0@ == k@,
        r.1 == v,
{
    (to_owned_string(k), v)
}

/// `v` is the string `t`.
pub open spec fn is_text(v: JsonValue, t: Seq<char>) -> bool {
    v matches JsonValue::Str(s) && s@ == t
}

/// `v` is the object `{"type": t}`.
pub open spec fn is_typed(v: JsonValue, t: Seq<char>) -> bool {
    v matches JsonValue::Object(m) && m@.len() == 1
        && m@[0].0@ == "type"@ && is_text(m@[0].1, t)
}

/// The schema of one argument of a tool.
pub ghost enum ArgSchema {
    /// `{"type": t}`.
    Typed(Seq<char>),
    /// `{"type": t, "description": d}`.
    TypedDesc(Seq<char>, Seq<char>),
    /// `{"type": "array", "items": {"type": t}, "description": d}`.
    ArrayOf(Seq<char>, Seq<char>),
    /// `{"type": "string", "enum": values, "description": d}`, the
    /// description left out when empty.
    Enum(Seq<Seq<char>>, Seq<char>),
}

/// `v` is the JSON schema `a` describes, its members in that order.
pub open spec fn arg_is(v: JsonValue, a: ArgSchema) -> bool {
    match a {
        ArgSchema::Typed(t) => is_typed(v, t),
        ArgSchema::TypedDesc(t, d) => v matches JsonValue::Object(m) && m@.len() == 2
            && m@[0].0@ == "type"@ && is_text(m@[0].1, t)
            && m@[1].0@ == "description"@ && is_text(m@[1].1, d),
        ArgSchema::ArrayOf(t, d) => v matches JsonValue::Object(m) && m@.len() == 3
            && m@[0].0@ == "type"@ && is_text(m@[0].1, "array"@)
            && m@[1].0@ == "items"@ && is_typed(m@[1].1, t)
            && m@[2].0@ == "description"@ && is_text(m@[2].1, d),
        ArgSchema::Enum(values, d) => v matches JsonValue::Object(m)
            && m@.len() == (if d.len() > 0 { 3int } else { 2int })
            && m@[0].0@ == "type"@ && is_text(m@[0].1, "string"@)
            && m@[1].0@ == "enum"@ && string_array(m@[1].1) == Some(values)
            && (d.len() > 0 ==> m@[2].0@ == "description"@ && is_text(m@[2].1, d)),
    }
}

/// `v` is the object schema `{"type": "object", "properties": ...,
/// "required": ...}` whose properties are the named argument schemas
/// `args`, in that order, and whose required list is `required`.
pub open spec fn schema_is(v: JsonValue, args: Seq<(Seq<char>, ArgSchema)>, required: Seq<Seq<char>>) -> bool {
    &&& v matches JsonValue::Object(m) && m@.len() == 3
        && m@[0].0@ == "type"@ && is_text(m@[0].1, "object"@)
        && m@[1].0@ == "properties"@ && props_are(m@[1].1, args)
        && m@[2].0@ == "required"@ && string_array(m@[2].1) == Some(required)
}

/// `v` is an object whose members are the named argument schemas `args`.
pub open spec fn props_are(v: JsonValue, args: Seq<(Seq<char>, ArgSchema)>) -> bool {
    v matches JsonValue::Object(p) && p@.len() == args.len()
        && forall|i: int| 0 <= i < args.len() ==> (#[trigger] p@[i]).0@ == args[i].0 && arg_is(p@[i].1, args[i].1)
}

/// `{"type": t}`.
fn typed(t: &str) -> (r: JsonValue)
    ensures
        is_typed(r, t@),
        arg_is(r, ArgSchema::Typed(t@)),
{
    JsonValue::Object(vec![member("type", text(t))])
}

/// `{"type": t, "description": d}`.
fn typed_desc(t: &str, d: &str) -> (r: JsonValue)
    ensures
        r matches JsonValue::Object(m) && m@.len() == 2
            && m@[0].0@ == "type"@ && is_text(m@[0].1, t@)
            && m@[1].0@ == "description"@ && is_text(m@[1].1, d@),
        arg_is(r, ArgSchema::TypedDesc(t@, d@)),
{
    JsonValue::Object(vec![member("type", text(t)), member("description", text(d))])
}

fn string_list(items: &[&str]) -> (r: JsonValue)
    ensures
        string_array(r) == Some(items@.map_values(|s: &str| s@)),
{
    let mut out: Vec<JsonValue> = Vec::new();
    let mut i: usize = 0;
    while i < items.len()
        invariant
            i <= items@.len(),
            out@.len() == i,
            forall|k: int| 0 <= k < i ==> ((#[trigger] out@[k]) matches JsonValue::Str(s) && s@ == items@[k]@),
        decreases items@.len() - i,
    {
        out.push(text(items[i]));
        i = i + 1;
    }
    let r = JsonValue::Array(out);
    assert(out@.map_values(|x: JsonValue| x->Str_0@) =~= items@.map_values(|s: &str| s@));
    r
}

/// `{"type": "array", "items": {"type": "string"}, "description": d}`.
fn string_array_schema(d: &str) -> (r: JsonValue)
    ensures
        r matches JsonValue::Object(m) && m@.len() == 3
            && m@[0].0@ == "type"@ && is_text(m@[0].1, "array"@)
            && m@[1].0@ == "items"@ && is_typed(m@[1].1, "string"@)
            && m@[2].0@ == "description"@ && is_text(m@[2].1, d@),
        arg_is(r, ArgSchema::ArrayOf("string"@, d@)),
{
    JsonValue::Object(vec![
        member("type", text("array")),
        member("items", typed("string")),
        member("description", text(d)),
    ])
}

/// `{"type": "array", "items": {"type": t}, "description": d}`.
fn array_schema(t: &str, d: &str) -> (r: JsonValue)
    ensures
        arg_is(r, ArgSchema::ArrayOf(t@, d@)),
{
    JsonValue::Object(vec![
        member("type", text("array")),
        member("items", typed(t)),
        member("description", text(d)),
    ])
}

/// `{"type": "string", "enum": values, "description": d}`, the description
/// left out when empty.
fn enum_schema(values: &[&str], d: &str) -> (r: JsonValue)
    ensures
        r matches JsonValue::Object(m)
            && m@.len() == (if d@.len() > 0 { 3int } else { 2int })
            && m@[0].0@ == "type"@ && is_text(m@[0].1, "string"@)
            && m@[1].0@ == "enum"@ && string_array(m@[1].1) == Some(values@.map_values(|s: &str| s@))
            && (d@.len() > 0 ==> m@[2].0@ == "description"@ && is_text(m@[2].1, d@)),
        arg_is(r, ArgSchema::Enum(values@.map_values(|s: &str| s@), d@)),
{
    let mut m: Vec<(String, JsonValue)> = Vec::new();
    m.push(member("type", text("string")));
    m.push(member("enum", string_list(values)));
    if d.unicode_len() > 0 {
        m.push(member("description", text(d)));
    }
    JsonValue::Object(m)
}

fn schema(properties: Vec<(String, JsonValue)>, required: &[&str]) -> (r: JsonValue)
    requires
        required@.len() <= properties@.len(),
        forall|i: int| 0 <= i < required@.len() ==> (#[trigger] properties@[i]).0@ == required@[i]@,
    ensures
        object_schema_requiring(r, required@.map_values(|s: &str| s@)),
        r matches JsonValue::Object(m) && m@.len() == 3
            && m@[0].0@ == "type"@ && is_text(m@[0].1, "object"@)
            && m@[1].0@ == "properties"@ && m@[1].1 == JsonValue::Object(properties)
            && m@[2].0@ == "required"@ && string_array(m@[2].1) == Some(required@.map_values(|s: &str| s@)),
{
    proof {
        let req = required@.map_values(|s: &str| s@);
        assert forall|i: int| 0 <= i < req.len() implies
            JsonValue::Object(properties).spec_get(#[trigger] req[i]) is Some by {
            crate::json::lemma_member_index(properties@, req[i]);
            assert(properties@[i].0@ == req[i]);
        }
    }
    let req = string_list(required);
    let ghost req_v = req;
    let r = JsonValue::Object(vec![
        member("type", text("object")),
        member("properties", JsonValue::Object(properties)),
        member("required", req),
    ]);
    proof {
        reveal_strlit("type");
        reveal_strlit("properties");
        reveal_strlit("required");
        let m = r->Object_0@;
        assert(m[0].0@ == "type"@);
        assert(m[1].0@ == "properties"@);
        assert(m[2].0@ == "required"@);
        assert(crate::json::member_index(m, "type"@) == 0);
        reveal_with_fuel(crate::json::member_index, 4);
        assert("properties"@.len() == 10 && "type"@.len() == 4 && "required"@.len() == 8);
        assert("properties"@ != "type"@);
        assert(m.drop_first()[0].0@ == "properties"@);
        assert(crate::json::member_index(m, "properties"@) == 1);
        assert("required"@ != "type"@ && "required"@ != "properties"@);
        assert(m.drop_first().drop_first()[0].0@ == "required"@);
        assert(crate::json::member_index(m, "required"@) == 2);
    }
    r
}

fn tool(name: &str, description: &str, input_schema: JsonValue) -> (r: Tool)
    ensures
        r.name@ == name@,
        r.description@ == description@,
        r.input_schema == input_schema,
{
    Tool { name: to_owned_string(name), description: to_owned_string(description), input_schema }
}

fn register_tool() -> (r: Tool)
    ensures
        r.name@ == tool_name(0),
        object_schema_requiring(r.input_schema, tool_required(0)),
        schema_is(r.input_schema, tool_args(0), tool_required(0)),
        r.description@ == tool_description(0),
{
    let req: Vec<&str> = vec!["agent_name"];
    let props = vec![
        member("agent_name", typed_desc("string", "Human-readable name for this agent (e.g. 'researcher-1')")),
        member("capabilities", string_array_schema("Optional list of capability tags (e.g. ['ml', 'vision'])")),
    ];
    proof {
        assert(props@[0].0@ == "agent_name"@ && arg_is(props@[0].1, ArgSchema::TypedDesc("string"@, "Human-readable name for this agent (e.g. 'researcher-1')"@)));
        assert(props@[1].0@ == "capabilities"@ && arg_is(props@[1].1, ArgSchema::ArrayOf("string"@, "Optional list of capability tags (e.g. ['ml', 'vision'])"@)));
        assert forall|i: int| 0 <= i < tool_args(0).len() implies (#[trigger] props@[i]).0@ == tool_args(0)[i].0
            && arg_is(props@[i].1, tool_args(0)[i].1) by { if i == 0 {} else if i == 1 {} }
    }
    let s = schema(props, req.as_slice());
    proof { assert(req@.map_values(|s: &str| s@) =~= tool_required(0)); }
    tool("register", "Register a new research agent. Returns agent_id and api_token — save both. Pass them to survey, publish, claim, release_claim, get_lineage, retract, and get_atom. Call this first.", s)
}

fn survey_tool() -> (r: Tool)
    ensures
        r.name@ == tool_name(1),
        object_schema_requiring(r.input_schema, tool_required(1)),
        schema_is(r.input_schema, tool_args(1), tool_required(1)),
        r.description@ == tool_description(1),
{
    let req: Vec<&str> = vec!["agent_id", "api_token", "domain"];
    let values: &[&str] = &["explore", "exploit", "replicate", "contest"];
    proof { assert(values@.map_values(|s: &str| s@) =~= seq!["explore"@, "exploit"@, "replicate"@, "contest"@]); }
    let props = vec![
        member("agent_id", typed_desc("string", "Your agent ID")),
        member("api_token", typed_desc("string", "Your API token")),
        member("domain", typed_desc("string", "Research domain to survey")),
        member("focus", enum_schema(values, "Focus mode (optional). Omit for balanced default.")),
        member("query", typed_desc("string", "Optional text filter on atom statements (ILIKE)")),
        member("temperature", typed_desc("number", "Sampling temperature (0=greedy, 1=default softmax). Default: 1.0")),
        member("limit", typed_desc("integer", "Number of suggestions to return. Default: 10")),
        member("project_id", typed_desc("string", "Project scope. Pass the project_id from asenix agent run to restrict survey to this project's atoms only.")),
    ];
    proof {
        assert(props@[0].0@ == "agent_id"@ && arg_is(props@[0].1, ArgSchema::TypedDesc("string"@, "Your agent ID"@)));
        assert(props@[1].0@ == "api_token"@ && arg_is(props@[1].1, ArgSchema::TypedDesc("string"@, "Your API token"@)));
        assert(props@[2].0@ == "domain"@ && arg_is(props@[2].1, ArgSchema::TypedDesc("string"@, "Research domain to survey"@)));
        assert(props@[3].0@ == "focus"@ && arg_is(props@[3].1, ArgSchema::Enum(seq!["explore"@, "exploit"@, "replicate"@, "contest"@], "Focus mode (optional). Omit for balanced default."@)));
        assert(props@[4].0@ == "query"@ && arg_is(props@[4].1, ArgSchema::TypedDesc("string"@, "Optional text filter on atom statements (ILIKE)"@)));
        assert(props@[5].0@ == "temperature"@ && arg_is(props@[5].1, ArgSchema::TypedDesc("number"@, "Sampling temperature (0=greedy, 1=default softmax). Default: 1.0"@)));
        assert(props@[6].0@ == "limit"@ && arg_is(props@[6].1, ArgSchema::TypedDesc("integer"@, "Number of suggestions to return. Default: 10"@)));
        assert(props@[7].0@ == "project_id"@ && arg_is(props@[7].1, ArgSchema::TypedDesc("string"@, "Project scope. Pass the project_id from asenix agent run to restrict survey to this project's atoms only."@)));
        assert forall|i: int| 0 <= i < tool_args(1).len() implies (#[trigger] props@[i]).0@ == tool_args(1)[i].0
            && arg_is(props@[i].1, tool_args(1)[i].1) by { if i == 0 {} else if i == 1 {} else if i == 2 {} else if i == 3 {} else if i == 4 {} else if i == 5 {} else if i == 6 {} else if i == 7 {} }
    }
    let s = schema(props, req.as_slice());
    proof { assert(req@.map_values(|s: &str| s@) =~= tool_required(1)); }
    tool("survey", "Discover which research atoms to work on next. Returns scored and sampled atoms from a domain, ranked by pheromone signals. Supports focus modes: 'explore' (high novelty), 'exploit' (high attraction), 'replicate' (provisional atoms with 0 replications), 'contest' (disagreement). Temperature controls randomness (0=deterministic top-K, 1=softmax sampling).", s)
}

fn get_atom_tool() -> (r: Tool)
    ensures
        r.name@ == tool_name(2),
        object_schema_requiring(r.input_schema, tool_required(2)),
        schema_is(r.input_schema, tool_args(2), tool_required(2)),
        r.description@ == tool_description(2),
{
    let req: Vec<&str> = vec!["agent_id", "api_token", "atom_id"];
    let props = vec![
        member("agent_id", typed("string")),
        member("api_token", typed("string")),
        member("atom_id", typed_desc("string", "The atom ID to fetch")),
    ];
    proof {
        assert(props@[0].0@ == "agent_id"@ && arg_is(props@[0].1, ArgSchema::Typed("string"@)));
        assert(props@[1].0@ == "api_token"@ && arg_is(props@[1].1, ArgSchema::Typed("string"@)));
        assert(props@[2].0@ == "atom_id"@ && arg_is(props@[2].1, ArgSchema::TypedDesc("string"@, "The atom ID to fetch"@)));
        assert forall|i: int| 0 <= i < tool_args(2).len() implies (#[trigger] props@[i]).0@ == tool_args(2)[i].0
            && arg_is(props@[i].1, tool_args(2)[i].1) by { if i == 0 {} else if i == 1 {} else if i == 2 {} }
    }
    let s = schema(props, req.as_slice());
    proof { assert(req@.map_values(|s: &str| s@) =~= tool_required(2)); }
    tool("get_atom", "Fetch full details for a single atom by ID, including pheromone values, lifecycle, all graph edges, and artifact hash.", s)
}

fn publish_tool() -> (r: Tool)
    ensures
        r.name@ == tool_name(3),
        object_schema_requiring(r.input_schema, tool_required(3)),
        schema_is(r.input_schema, tool_args(3), tool_required(3)),
        r.description@ == tool_description(3),
{
    let req: Vec<&str> = vec!["agent_id", "api_token", "atom_type", "domain", "statement"];
    let values: &[&str] = &["hypothesis", "finding", "negative_result", "delta", "experiment_log", "synthesis", "bounty"];
    proof { assert(values@.map_values(|s: &str| s@) =~= seq!["hypothesis"@, "finding"@, "negative_result"@, "delta"@, "experiment_log"@, "synthesis"@, "bounty"@]); }
    let props = vec![
        member("agent_id", typed("string")),
        member("api_token", typed("string")),
        member("atom_type", enum_schema(values, "")),
        member("domain", typed("string")),
        member("statement", typed("string")),
        member("conditions", typed_desc("object", "Experimental conditions (e.g. {model: 'resnet-50', dataset: 'imagenet'})")),
        member("metrics", array_schema("object", "Quantitative results e.g. [{name: 'accuracy', value: 0.95}]")),
        member("provenance", typed_desc("object", "Source info. Include parent_ids array to create derived_from edges.")),
        member("project_id", typed_desc("string", "Project this atom belongs to. Required when running under asenix agent run.")),
        member("artifact_tree_hash", typed_desc("string", "Optional: attach a pre-uploaded artifact by hash")),
    ];
    proof {
        assert(props@[0].0@ == "agent_id"@ && arg_is(props@[0].1, ArgSchema::Typed("string"@)));
        assert(props@[1].0@ == "api_token"@ && arg_is(props@[1].1, ArgSchema::Typed("string"@)));
        assert(props@[2].0@ == "atom_type"@ && arg_is(props@[2].1, ArgSchema::Enum(seq!["hypothesis"@, "finding"@, "negative_result"@, "delta"@, "experiment_log"@, "synthesis"@, "bounty"@], ""@)));
        assert(props@[3].0@ == "domain"@ && arg_is(props@[3].1, ArgSchema::Typed("string"@)));
        assert(props@[4].0@ == "statement"@ && arg_is(props@[4].1, ArgSchema::Typed("string"@)));
        assert(props@[5].0@ == "conditions"@ && arg_is(props@[5].1, ArgSchema::TypedDesc("object"@, "Experimental conditions (e.g. {model: 'resnet-50', dataset: 'imagenet'})"@)));
        assert(props@[6].0@ == "metrics"@ && arg_is(props@[6].1, ArgSchema::ArrayOf("object"@, "Quantitative results e.g. [{name: 'accuracy', value: 0.95}]"@)));
        assert(props@[7].0@ == "provenance"@ && arg_is(props@[7].1, ArgSchema::TypedDesc("object"@, "Source info. Include parent_ids array to create derived_from edges."@)));
        assert(props@[8].0@ == "project_id"@ && arg_is(props@[8].1, ArgSchema::TypedDesc("string"@, "Project this atom belongs to. Required when running under asenix agent run."@)));
        assert(props@[9].0@ == "artifact_tree_hash"@ && arg_is(props@[9].1, ArgSchema::TypedDesc("string"@, "Optional: attach a pre-uploaded artifact by hash"@)));
        assert forall|i: int| 0 <= i < tool_args(3).len() implies (#[trigger] props@[i]).0@ == tool_args(3)[i].0
            && arg_is(props@[i].1, tool_args(3)[i].1) by { if i == 0 {} else if i == 1 {} else if i == 2 {} else if i == 3 {} else if i == 4 {} else if i == 5 {} else if i == 6 {} else if i == 7 {} else if i == 8 {} else if i == 9 {} }
    }
    let s = schema(props, req.as_slice());
    proof { assert(req@.map_values(|s: &str| s@) =~= tool_required(3)); }
    tool("publish", "Publish a single research atom. Validates parent_ids, inserts graph edges, queues embedding, and fires an SSE event. Deduplicates identical content within 60 seconds. Returns atom_id and pheromone snapshot.", s)
}

fn claim_tool() -> (r: Tool)
    ensures
        r.name@ == tool_name(4),
        object_schema_requiring(r.input_schema, tool_required(4)),
        schema_is(r.input_schema, tool_args(4), tool_required(4)),
        r.description@ == tool_description(4),
{
    let req: Vec<&str> = vec!["agent_id", "api_token", "atom_id", "intent"];
    let values: &[&str] = &["replicate", "extend", "contest", "synthesize"];
    proof { assert(values@.map_values(|s: &str| s@) =~= seq!["replicate"@, "extend"@, "contest"@, "synthesize"@]); }
    let props = vec![
        member("agent_id", typed("string")),
        member("api_token", typed("string")),
        member("atom_id", typed_desc("string", "Atom to claim")),
        member("intent", enum_schema(values, "What you intend to do with this atom")),
        member("ttl_minutes", typed_desc("integer", "Claim TTL in minutes. Default: 30")),
    ];
    proof {
        assert(props@[0].0@ == "agent_id"@ && arg_is(props@[0].1, ArgSchema::Typed("string"@)));
        assert(props@[1].0@ == "api_token"@ && arg_is(props@[1].1, ArgSchema::Typed("string"@)));
        assert(props@[2].0@ == "atom_id"@ && arg_is(props@[2].1, ArgSchema::TypedDesc("string"@, "Atom to claim"@)));
        assert(props@[3].0@ == "intent"@ && arg_is(props@[3].1, ArgSchema::Enum(seq!["replicate"@, "extend"@, "contest"@, "synthesize"@], "What you intend to do with this atom"@)));
        assert(props@[4].0@ == "ttl_minutes"@ && arg_is(props@[4].1, ArgSchema::TypedDesc("integer"@, "Claim TTL in minutes. Default: 30"@)));
        assert forall|i: int| 0 <= i < tool_args(4).len() implies (#[trigger] props@[i]).0@ == tool_args(4)[i].0
            && arg_is(props@[i].1, tool_args(4)[i].1) by { if i == 0 {} else if i == 1 {} else if i == 2 {} else if i == 3 {} else if i == 4 {} }
    }
    let s = schema(props, req.as_slice());
    proof { assert(req@.map_values(|s: &str| s@) =~= tool_required(4)); }
    tool("claim", "Reserve a research direction on an existing atom. Prevents duplicate work with other agents. Intents: 'replicate', 'extend', 'contest', 'synthesize'. Returns claim_id and the full atom data as a structured handoff. Call release_claim when done.", s)
}

fn release_claim_tool() -> (r: Tool)
    ensures
        r.name@ == tool_name(5),
        object_schema_requiring(r.input_schema, tool_required(5)),
        schema_is(r.input_schema, tool_args(5), tool_required(5)),
        r.description@ == tool_description(5),
{
    let req: Vec<&str> = vec!["agent_id", "api_token", "claim_id"];
    let props = vec![
        member("agent_id", typed("string")),
        member("api_token", typed("string")),
        member("claim_id", typed_desc("string", "Claim ID returned by claim")),
    ];
    proof {
        assert(props@[0].0@ == "agent_id"@ && arg_is(props@[0].1, ArgSchema::Typed("string"@)));
        assert(props@[1].0@ == "api_token"@ && arg_is(props@[1].1, ArgSchema::Typed("string"@)));
        assert(props@[2].0@ == "claim_id"@ && arg_is(props@[2].1, ArgSchema::TypedDesc("string"@, "Claim ID returned by claim"@)));
        assert forall|i: int| 0 <= i < tool_args(5).len() implies (#[trigger] props@[i]).0@ == tool_args(5)[i].0
            && arg_is(props@[i].1, tool_args(5)[i].1) by { if i == 0 {} else if i == 1 {} else if i == 2 {} }
    }
    let s = schema(props, req.as_slice());
    proof { assert(req@.map_values(|s: &str| s@) =~= tool_required(5)); }
    tool("release_claim", "Release an active claim when you are done working on it. This frees the slot so other agents can claim the same atom.", s)
}

fn get_lineage_tool() -> (r: Tool)
    ensures
        r.name@ == tool_name(6),
        object_schema_requiring(r.input_schema, tool_required(6)),
        schema_is(r.input_schema, tool_args(6), tool_required(6)),
        r.description@ == tool_description(6),
{
    let req: Vec<&str> = vec!["agent_id", "api_token", "atom_id"];
    let values: &[&str] = &["ancestors", "descendants", "both"];
    proof { assert(values@.map_values(|s: &str| s@) =~= seq!["ancestors"@, "descendants"@, "both"@]); }
    let props = vec![
        member("agent_id", typed("string")),
        member("api_token", typed("string")),
        member("atom_id", typed("string")),
        member("direction", enum_schema(values, "Traversal direction. Default: 'both'")),
        member("max_depth", typed_desc("integer", "Maximum BFS depth. Default: 3")),
        member("edge_types", string_array_schema("Optional whitelist of edge types to follow")),
    ];
    proof {
        assert(props@[0].0@ == "agent_id"@ && arg_is(props@[0].1, ArgSchema::Typed("string"@)));
        assert(props@[1].0@ == "api_token"@ && arg_is(props@[1].1, ArgSchema::Typed("string"@)));
        assert(props@[2].0@ == "atom_id"@ && arg_is(props@[2].1, ArgSchema::Typed("string"@)));
        assert(props@[3].0@ == "direction"@ && arg_is(props@[3].1, ArgSchema::Enum(seq!["ancestors"@, "descendants"@, "both"@], "Traversal direction. Default: 'both'"@)));
        assert(props@[4].0@ == "max_depth"@ && arg_is(props@[4].1, ArgSchema::TypedDesc("integer"@, "Maximum BFS depth. Default: 3"@)));
        assert(props@[5].0@ == "edge_types"@ && arg_is(props@[5].1, ArgSchema::ArrayOf("string"@, "Optional whitelist of edge types to follow"@)));
        assert forall|i: int| 0 <= i < tool_args(6).len() implies (#[trigger] props@[i]).0@ == tool_args(6)[i].0
            && arg_is(props@[i].1, tool_args(6)[i].1) by { if i == 0 {} else if i == 1 {} else if i == 2 {} else if i == 3 {} else if i == 4 {} else if i == 5 {} }
    }
    let s = schema(props, req.as_slice());
    proof { assert(req@.map_values(|s: &str| s@) =~= tool_required(6)); }
    tool("get_lineage", "Traverse the knowledge graph from an atom to retrieve its ancestors, descendants, or both. Returns all nodes (with pheromone) and edges within max_depth hops. Optionally filter by edge types.", s)
}

fn retract_tool() -> (r: Tool)
    ensures
        r.name@ == tool_name(7),
        object_schema_requiring(r.input_schema, tool_required(7)),
        schema_is(r.input_schema, tool_args(7), tool_required(7)),
        r.description@ == tool_description(7),
{
    let req: Vec<&str> = vec!["agent_id", "api_token", "atom_id", "reason"];
    let props = vec![
        member("agent_id", typed("string")),
        member("api_token", typed("string")),
        member("atom_id", typed("string")),
        member("reason", typed_desc("string", "Why this atom is being retracted")),
    ];
    proof {
        assert(props@[0].0@ == "agent_id"@ && arg_is(props@[0].1, ArgSchema::Typed("string"@)));
        assert(props@[1].0@ == "api_token"@ && arg_is(props@[1].1, ArgSchema::Typed("string"@)));
        assert(props@[2].0@ == "atom_id"@ && arg_is(props@[2].1, ArgSchema::Typed("string"@)));
        assert(props@[3].0@ == "reason"@ && arg_is(props@[3].1, ArgSchema::TypedDesc("string"@, "Why this atom is being retracted"@)));
        assert forall|i: int| 0 <= i < tool_args(7).len() implies (#[trigger] props@[i]).0@ == tool_args(7)[i].0
            && arg_is(props@[i].1, tool_args(7)[i].1) by { if i == 0 {} else if i == 1 {} else if i == 2 {} else if i == 3 {} }
    }
    let s = schema(props, req.as_slice());
    proof { assert(req@.map_values(|s: &str| s@) =~= tool_required(7)); }
    tool("retract", "Retract an atom you published. Only its author can retract. Sets lifecycle to 'retracted' and fires an SSE event. Provide a reason string.", s)
}

/// The tools, in the order the hub lists them, each with an object schema
/// naming its required arguments.
pub fn get_all_tools() -> (r: ToolsListResult)
    ensures
        r.tools@.len() == 8,
        forall|i: int| 0 <= i < 8 ==> (#[trigger] r.tools@[i]).name@ == tool_name(i)
            && object_schema_requiring(r.tools@[i].input_schema, tool_required(i))
            && schema_is(r.tools@[i].input_schema, tool_args(i), tool_required(i))
            && r.tools@[i].description@ == tool_description(i),
{
    let mut tools: Vec<Tool> = Vec::new();
    tools.push(register_tool());
    tools.push(survey_tool());
    tools.push(get_atom_tool());
    tools.push(publish_tool());
    tools.push(claim_tool());
    tools.push(release_claim_tool());
    tools.push(get_lineage_tool());
    tools.push(retract_tool());
    ToolsListResult { tools }
}

/// The tool a call names; an unknown name is a validation error
/// `"Unknown tool: <name>"`.
pub fn tool_from_name(name: &str) -> (r: Result<McpTool, MoteError>)
    ensures
        (exists|i: int| 0 <= i < 8 && tool_name(i) == name@) ==> r is Ok,
        r is Ok ==> exists|i: int| 0 <= i < 8 && tool_name(i) == name@ && r->Ok_0 == tool_at(i),
        r is Err ==> validation_error_with(r->Err_0, "Unknown tool: "@ + name@),
{
    if str_eq(name, "register") { assert(tool_name(0) == name@); Ok(McpTool::Register) }
    else if str_eq(name, "survey") { assert(tool_name(1) == name@); Ok(McpTool::Survey) }
    else if str_eq(name, "get_atom") { assert(tool_name(2) == name@); Ok(McpTool::GetAtom) }
    else if str_eq(name, "publish") { assert(tool_name(3) == name@); Ok(McpTool::Publish) }
    else if str_eq(name, "claim") { assert(tool_name(4) == name@); Ok(McpTool::Claim) }
    else if str_eq(name, "release_claim") { assert(tool_name(5) == name@); Ok(McpTool::ReleaseClaim) }
    else if str_eq(name, "get_lineage") { assert(tool_name(6) == name@); Ok(McpTool::GetLineage) }
    else if str_eq(name, "retract") { assert(tool_name(7) == name@); Ok(McpTool::Retract) }
    else {
        proof {
            assert forall|i: int| 0 <= i < 8 implies tool_name(i) != name@ by {}
        }
        Err(MoteError::Validation(concat2("Unknown tool: ", name)))
    }
}

} // verus!
