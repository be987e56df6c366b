//! JSON-RPC requests to the hub: how a request body is classified, which
//! method it names, and how errors are reported; and the same for the MCP
//! endpoint's requests.
use vstd::prelude::*;
use crate::api::JsonRpcError;
use crate::error::{MoteError, error_text, error_kind_name, spec_json_rpc_code, validation_error_with};
use crate::json::JsonValue;
use crate::mcp::{HeaderText, header_error, validate_protocol_version_header, is_supported_version,
    fallback_protocol_version};
use crate::session::{Session, SessionStore, find_session};
use crate::text::{str_eq, to_owned_string, concat2};
use crate::artifacts::{has_str_member, str_member};

verus! {

/// The member `k` of `v` unless it is absent or `null`, as an optional
/// field of a request reads it.
pub open spec fn present_member(v: JsonValue, k: Seq<char>) -> Option<JsonValue> {
    match v.spec_get(k) {
        Some(JsonValue::Null) => None,
        other => other,
    }
}

/// `r` refers to the value `o` holds, or is `None` with it.
pub open spec fn refers_to(r: Option<&JsonValue>, o: Option<JsonValue>) -> bool {
    match o {
        Some(x) => r is Some && *r->0 == x,
        None => r is None,
    }
}

/// A well-formed call: its method, and its parameters and id when given.
pub struct RpcCall<'a> {
    pub method: &'a str,
    pub params: Option<&'a JsonValue>,
    pub id: Option<&'a JsonValue>,
}

/// What a parsed request body is: a batch (not supported), not a request,
/// a request of another JSON-RPC version (with its id), or a call.
pub enum RpcEnvelope<'a> {
    Batch,
    InvalidRequest,
    WrongVersion(Option<&'a JsonValue>),
    Call(RpcCall<'a>),
}

fn get_present<'a>(v: &'a JsonValue, k: &str) -> (r: Option<&'a JsonValue>)
    ensures
        refers_to(r, present_member(*v, k@)),
{
    match v.get(k) {
        Some(JsonValue::Null) => None,
        other => other,
    }
}

fn get_str<'a>(v: &'a JsonValue, k: &str) -> (r: Option<&'a str>)
    ensures
        r is Some <==> has_str_member(*v, k@),
        r is Some ==> r->0@ == str_member(*v, k@),
{
    match v.get(k) {
        Some(m) => m.as_str(),
        None => None,
    }
}

/// Classifies a request body: an array is a batch; an object with string
/// members `jsonrpc` and `method` is a request, a call when `jsonrpc` is
/// `"2.0"`; anything else is not a request.
pub fn classify_rpc_request<'a>(request: &'a JsonValue) -> (r: RpcEnvelope<'a>)
    ensures
        request is Array ==> r is Batch,
        !(request is Array) && !(has_str_member(*request, "jsonrpc"@) && has_str_member(*request, "method"@))
            ==> r is InvalidRequest,
        !(request is Array) && has_str_member(*request, "jsonrpc"@) && has_str_member(*request, "method"@) ==> {
            if str_member(*request, "jsonrpc"@) == "2.0"@ {
                &&& r is Call
                &&& r->Call_0.method@ == str_member(*request, "method"@)
                &&& refers_to(r->Call_0.params, present_member(*request, "params"@))
                &&& refers_to(r->Call_0.id, present_member(*request, "id"@))
            } else {
                r is WrongVersion && refers_to(r->WrongVersion_0, present_member(*request, "id"@))
            }
        },
{
    if let JsonValue::Array(_) = request {
        return RpcEnvelope::Batch;
    }
    let version = match get_str(request, "jsonrpc") {
        Some(v) => v,
        None => { return RpcEnvelope::InvalidRequest; },
    };
    let method = match get_str(request, "method") {
        Some(m) => m,
        None => { return RpcEnvelope::InvalidRequest; },
    };
    let id = get_present(request, "id");
    if !str_eq(version, "2.0") {
        return RpcEnvelope::WrongVersion(id);
    }
    let params = get_present(request, "params");
    RpcEnvelope::Call(RpcCall { method, params, id })
}

/// The methods of the JSON-RPC endpoint.
#[derive(Debug, Clone, Copy, PartialEq, Eq, Structural)]
pub enum RpcMethod {
    RegisterAgent,
    RegisterAgentSimple,
    ConfirmAgent,
    SearchAtoms,
    QueryCluster,
    ClaimDirection,
    PublishAtoms,
    RetractAtom,
    GetSuggestions,
    GetFieldMap,
}

/// The name under which a method is called.
pub open spec fn rpc_method_name(m: RpcMethod) -> Seq<char> {
    match m {
        RpcMethod::RegisterAgent => "register_agent"@,
        RpcMethod::RegisterAgentSimple => "register_agent_simple"@,
        RpcMethod::ConfirmAgent => "confirm_agent"@,
        RpcMethod::SearchAtoms => "search_atoms"@,
        RpcMethod::QueryCluster => "query_cluster"@,
        RpcMethod::ClaimDirection => "claim_direction"@,
        RpcMethod::PublishAtoms => "publish_atoms"@,
        RpcMethod::RetractAtom => "retract_atom"@,
        RpcMethod::GetSuggestions => "get_suggestions"@,
        RpcMethod::GetFieldMap => "get_field_map"@,
    }
}

/// Some method is called `name`.
pub open spec fn is_rpc_method(name: Seq<char>) -> bool {
    exists|m: RpcMethod| rpc_method_name(m) == name
}

/// The method a call names; an unknown name is a validation error
/// `"Method not found: <name>"`.
pub fn rpc_method_from_name(name: &str) -> (r: Result<RpcMethod, MoteError>)
    ensures
        r is Ok ==> rpc_method_name(r->Ok_0) == name@,
        r is Err ==> !is_rpc_method(name@),
        r is Err ==> validation_error_with(r->Err_0, "Method not found: "@ + name@),
{
    if str_eq(name, "register_agent") { Ok(RpcMethod::RegisterAgent) }
    else if str_eq(name, "register_agent_simple") { Ok(RpcMethod::RegisterAgentSimple) }
    else if str_eq(name, "confirm_agent") { Ok(RpcMethod::ConfirmAgent) }
    else if str_eq(name, "search_atoms") { Ok(RpcMethod::SearchAtoms) }
    else if str_eq(name, "query_cluster") { Ok(RpcMethod::QueryCluster) }
    else if str_eq(name, "claim_direction") { Ok(RpcMethod::ClaimDirection) }
    else if str_eq(name, "publish_atoms") { Ok(RpcMethod::PublishAtoms) }
    else if str_eq(name, "retract_atom") { Ok(RpcMethod::RetractAtom) }
    else if str_eq(name, "get_suggestions") { Ok(RpcMethod::GetSuggestions) }
    else if str_eq(name, "get_field_map") { Ok(RpcMethod::GetFieldMap) }
    else {
        proof {
            assert forall|m: RpcMethod| rpc_method_name(m) != name@ by {}
        }
        Err(MoteError::Validation(concat2("Method not found: ", name)))
    }
}

/// The `data` of an error reply: the request's id and time and the kind of
/// the error.
pub open spec fn error_data_members(request_id: Seq<char>, timestamp: Seq<char>, e: MoteError)
    -> Seq<(Seq<char>, Seq<char>)>
{
    seq![("request_id"@, request_id), ("timestamp"@, timestamp), ("error_type"@, error_kind_name(e))]
}

/// The members of an object whose values are all strings, as text pairs.
pub open spec fn string_members(v: JsonValue) -> Option<Seq<(Seq<char>, Seq<char>)>> {
    match v {
        JsonValue::Object(m) => if forall|i: int| 0 <= i < m@.len() ==> (#[trigger] m@[i]).1 is Str {
            Some(m@.map_values(|p: (String, JsonValue)| (p.0@, p.1->Str_0@)))
        } else {
            None
        },
        _ => None,
    }
}

/// The error object a JSON-RPC reply carries for `e`: its code, its text,
/// and the request's id, time and error kind.
pub fn rpc_error(e: &MoteError, request_id: &str, timestamp: &str) -> (r: JsonRpcError)
    ensures
        r.code == spec_json_rpc_code(*e),
        r.message@ == error_text(*e),
        r.data is Some && string_members(r.data->0) == Some(error_data_members(request_id@, timestamp@, *e)),
{
    let mut members: Vec<(String, JsonValue)> = Vec::new();
    members.push((to_owned_string("request_id"), JsonValue::Str(to_owned_string(request_id))));
    members.push((to_owned_string("timestamp"), JsonValue::Str(to_owned_string(timestamp))));
    members.push((to_owned_string("error_type"), JsonValue::Str(to_owned_string(e.kind_name()))));
    let data = JsonValue::Object(members);
    proof {
        let m = members@;
        assert(forall|i: int| 0 <= i < m.len() ==> (#[trigger] m[i]).1 is Str);
        assert(m.map_values(|p: (String, JsonValue)| (p.0@, p.1->Str_0@))
            =~= error_data_members(request_id@, timestamp@, *e));
    }
    JsonRpcError { code: e.json_rpc_code(), message: e.message(), data: Some(data) }
}

/// Why the JSON-RPC endpoint refuses a request body before any method
/// runs: it is not JSON, it is a batch, it is not a request object, or it
/// names another protocol version.
#[derive(Debug, Clone, Copy, PartialEq, Eq, Structural)]
pub enum EnvelopeProblem {
    ParseError,
    Batch,
    InvalidRequest,
    WrongVersion,
}

/// The HTTP status, JSON-RPC code and message each refusal is answered
/// with.
pub open spec fn envelope_answer(p: EnvelopeProblem) -> (u16, i32, Seq<char>) {
    match p {
        EnvelopeProblem::ParseError => (400u16, -32700i32, "Parse error"@),
        EnvelopeProblem::Batch => (200u16, -32700i32, "Batch requests not supported"@),
        EnvelopeProblem::InvalidRequest => (400u16, -32600i32, "Invalid Request"@),
        EnvelopeProblem::WrongVersion => (200u16, -32600i32, "Invalid JSON-RPC version"@),
    }
}

/// The answer to a refused request body: its HTTP status and the error,
/// whose data carries the request's id and time.
pub fn envelope_refusal(problem: EnvelopeProblem, request_id: &str, timestamp: &str) -> (r: (u16, JsonRpcError))
    ensures
        r.0 == envelope_answer(problem).0,
        r.1.code == envelope_answer(problem).1,
        r.1.message@ == envelope_answer(problem).2,
        r.1.data is Some && string_members(r.1.data->0)
            == Some(seq![("request_id"@, request_id@), ("timestamp"@, timestamp@)]),
{
    let (status, code, message): (u16, i32, &str) = match problem {
        EnvelopeProblem::ParseError => (400, -32700, "Parse error"),
        EnvelopeProblem::Batch => (200, -32700, "Batch requests not supported"),
        EnvelopeProblem::InvalidRequest => (400, -32600, "Invalid Request"),
        EnvelopeProblem::WrongVersion => (200, -32600, "Invalid JSON-RPC version"),
    };
    let mut members: Vec<(String, JsonValue)> = Vec::new();
    members.push((to_owned_string("request_id"), JsonValue::Str(to_owned_string(request_id))));
    members.push((to_owned_string("timestamp"), JsonValue::Str(to_owned_string(timestamp))));
    proof {
        let m = members@;
        assert(forall|i: int| 0 <= i < m.len() ==> (#[trigger] m[i]).1 is Str);
        assert(m.map_values(|p: (String, JsonValue)| (p.0@, p.1->Str_0@))
            =~= seq![("request_id"@, request_id@), ("timestamp"@, timestamp@)]);
    }
    (status, JsonRpcError { code, message: to_owned_string(message), data: Some(JsonValue::Object(members)) })
}

/// The reply to a JSON-RPC request: a result or an error, and the id.
pub struct JsonRpcResponse {
    pub jsonrpc: String,
    pub result: Option<JsonValue>,
    pub error: Option<JsonRpcError>,
    pub id: Option<JsonValue>,
}

impl JsonRpcResponse {
    /// A successful reply.
    pub fn success(result: JsonValue, id: Option<JsonValue>) -> (r: JsonRpcResponse)
        ensures
            r.jsonrpc@ == "2.0"@,
            r.result == Some(result),
            r.error is None,
            r.id == id,
    {
        JsonRpcResponse { jsonrpc: to_owned_string("2.0"), result: Some(result), error: None, id }
    }

    /// A failed reply.
    pub fn failure(error: JsonRpcError, id: Option<JsonValue>) -> (r: JsonRpcResponse)
        ensures
            r.jsonrpc@ == "2.0"@,
            r.result is None,
            r.error == Some(error),
            r.id == id,
    {
        JsonRpcResponse { jsonrpc: to_owned_string("2.0"), result: None, error: Some(error), id }
    }
}

/// What a request to the MCP endpoint is: a batch (refused), a client's
/// reply to the hub (accepted and ignored), not a request, or a call.
pub enum McpRequestKind<'a> {
    Batch,
    ClientResponse,
    InvalidRequest,
    Call { method: &'a str, id: Option<&'a JsonValue> },
}

/// Classifies a request to the MCP endpoint: an array is a batch; no
/// `method` but an `id` is a client's reply; a string `method` is a call
/// (a notification when it has no `id`); anything else is not a request.
pub fn classify_mcp_request<'a>(request: &'a JsonValue) -> (r: McpRequestKind<'a>)
    ensures
        request is Array ==> r is Batch,
        !(request is Array) && request.spec_get("method"@) is None && request.spec_get("id"@) is Some
            ==> r is ClientResponse,
        !(request is Array) && !(request.spec_get("method"@) is None && request.spec_get("id"@) is Some) ==> {
            if has_str_member(*request, "method"@) {
                &&& r is Call
                &&& r->method@ == str_member(*request, "method"@)
                &&& refers_to(r->id, request.spec_get("id"@))
            } else {
                r is InvalidRequest
            }
        },
{
    if let JsonValue::Array(_) = request {
        return McpRequestKind::Batch;
    }
    let id = request.get("id");
    if request.get("method").is_none() && id.is_some() {
        return McpRequestKind::ClientResponse;
    }
    match get_str(request, "method") {
        Some(method) => McpRequestKind::Call { method, id },
        None => McpRequestKind::InvalidRequest,
    }
}

/// The methods of the MCP endpoint.
#[derive(Debug, Clone, Copy, PartialEq, Eq, Structural)]
pub enum McpMethod {
    Initialize,
    NotificationsInitialized,
    ToolsList,
    ToolsCall,
    ResourcesList,
    ResourcesTemplatesList,
    ResourcesRead,
    Ping,
}

/// The name under which an MCP method is called.
pub open spec fn mcp_method_name(m: McpMethod) -> Seq<char> {
    match m {
        McpMethod::Initialize => "initialize"@,
        McpMethod::NotificationsInitialized => "notifications/initialized"@,
        McpMethod::ToolsList => "tools/list"@,
        McpMethod::ToolsCall => "tools/call"@,
        McpMethod::ResourcesList => "resources/list"@,
        McpMethod::ResourcesTemplatesList => "resources/templates/list"@,
        McpMethod::ResourcesRead => "resources/read"@,
        McpMethod::Ping => "ping"@,
    }
}

/// The MCP method called `name`, if any.
pub fn mcp_method_from_name(name: &str) -> (r: Option<McpMethod>)
    ensures
        r is Some ==> mcp_method_name(r->0) == name@,
        r is None ==> forall|m: McpMethod| mcp_method_name(m) != name@,
{
    if str_eq(name, "initialize") { Some(McpMethod::Initialize) }
    else if str_eq(name, "notifications/initialized") { Some(McpMethod::NotificationsInitialized) }
    else if str_eq(name, "tools/list") { Some(McpMethod::ToolsList) }
    else if str_eq(name, "tools/call") { Some(McpMethod::ToolsCall) }
    else if str_eq(name, "resources/list") { Some(McpMethod::ResourcesList) }
    else if str_eq(name, "resources/templates/list") { Some(McpMethod::ResourcesTemplatesList) }
    else if str_eq(name, "resources/read") { Some(McpMethod::ResourcesRead) }
    else if str_eq(name, "ping") { Some(McpMethod::Ping) }
    else { None }
}

/// The reply to an unknown MCP method: status 400 for a notification and
/// 200 otherwise, code -32601, `"Method not found: <method>"`.
pub fn unknown_mcp_method_reply(method: &str, is_notification: bool) -> (r: (u16, i32, String))
    ensures
        r.0 == (if is_notification { 400u16 } else { 200u16 }),
        r.1 == -32601,
        r.2@ == "Method not found: "@ + method@,
{
    let status: u16 = if is_notification { 400 } else { 200 };
    (status, -32601, concat2("Method not found: ", method))
}

/// Why the MCP endpoint refuses a call before running it: a bare HTTP
/// error, or a JSON-RPC error reply with its status and code.
pub enum McpReject {
    Http(u16, String),
    JsonRpc(u16, i32, String),
}

/// The session checks before a call other than `initialize`: with a
/// session header the session must exist (404, -32003 otherwise) and the
/// protocol-version header must match its version; without one the header
/// must match the older version the hub accepts.
pub fn check_session_headers(
    is_initialize: bool,
    session_id: Option<&str>,
    store: &SessionStore,
    version: HeaderText,
) -> (r: Result<(), McpReject>)
    ensures
        is_initialize ==> r is Ok,
        !is_initialize && session_id is Some && find_session(store.sessions@, session_id->0@) < 0 ==>
            (r matches Err(McpReject::JsonRpc(s, c, m)) && s == 404 && c == -32003 && m@ == "Session not found"@),
        !is_initialize && session_id is Some && find_session(store.sessions@, session_id->0@) >= 0 ==> {
            let expected = store.sessions@[find_session(store.sessions@, session_id->0@)].protocol_version@;
            version_check(version, expected, r)
        },
        !is_initialize && session_id is None ==> version_check(version, fallback_protocol_version(), r),
{
    if is_initialize {
        return Ok(());
    }
    match session_id {
        Some(sid) => {
            match store.get_session(sid) {
                Some(session) => {
                    match validate_protocol_version_header(version, Some(session.protocol_version.as_str())) {
                        Ok(()) => Ok(()),
                        Err((s, m)) => Err(McpReject::Http(s, m)),
                    }
                },
                None => Err(McpReject::JsonRpc(404, -32003, to_owned_string("Session not found"))),
            }
        },
        None => {
            match validate_protocol_version_header(version, Some("2025-03-26")) {
                Ok(()) => Ok(()),
                Err((s, m)) => Err(McpReject::Http(s, m)),
            }
        },
    }
}

/// The result of checking the protocol-version header against `expected`.
pub open spec fn version_check(version: HeaderText, expected: Seq<char>, r: Result<(), McpReject>) -> bool {
    match version {
        HeaderText::Absent => r is Ok,
        HeaderText::NotText => r matches Err(McpReject::Http(s, m)) && s == 400
            && m@ == "Invalid MCP-Protocol-Version header"@,
        HeaderText::Text(v) => {
            if !is_supported_version(v@) {
                r matches Err(McpReject::Http(s, m)) && s == 400 && m@ == "Unsupported MCP-Protocol-Version: "@ + v@
            } else if expected != v@ {
                r matches Err(McpReject::Http(s, m)) && s == 400
                    && m@ == "Protocol version mismatch: expected "@ + expected + ", got "@ + v@
            } else {
                r is Ok
            }
        },
    }
}


/// What every MCP method after `initialize` asks first: the `Mcp-Session-Id`
/// header must be present and text, name a known session, and that session
/// must be initialized; each failure is a `400` with its own message. A
/// call that passes records activity on the session and goes on with its
/// id.
pub fn require_initialized_session<'a>(store: &mut SessionStore, session_header: HeaderText<'a>) -> (r: Result<&'a str, (u16, String)>)
    requires
        old(store).wf(),
    ensures
        final(store).wf(),
        match session_header {
            HeaderText::Text(id) => {
                let k = find_session(old(store).sessions@, id@);
                if k < 0 {
                    r matches Err((s, m)) && s == 400 && m@ == "Session not found"@ && final(store).sessions@ == old(store).sessions@
                } else if !old(store).sessions@[k].initialized {
                    r matches Err((s, m)) && s == 400 && m@ == "Session not initialized"@
                        && final(store).sessions@ == old(store).sessions@
                } else {
                    r matches Ok(x) && x@ == id@
                        && final(store).sessions@.len() == old(store).sessions@.len()
                        && (forall|j: int| 0 <= j < old(store).sessions@.len() && j != k
                            ==> final(store).sessions@[j] == old(store).sessions@[j])
                        && final(store).sessions@[k] == Session {
                            last_active_at: final(store).sessions@[k].last_active_at, ..old(store).sessions@[k] }
                }
            },
            _ => r matches Err((s, m)) && s == 400 && m@ == "Missing Mcp-Session-Id header"@
                && final(store).sessions@ == old(store).sessions@,
        },
{
    let id = match session_header {
        HeaderText::Text(id) => id,
        _ => { return Err((400, to_owned_string("Missing Mcp-Session-Id header"))); },
    };
    match store.get_session(id) {
        None => Err((400, to_owned_string("Session not found"))),
        Some(session) => {
            if !session.initialized {
                Err((400, to_owned_string("Session not initialized")))
            } else {
                store.update_activity(id);
                Ok(id)
            }
        },
    }
}

/// The `notifications/initialized` notice of the streaming endpoint: the
/// `Mcp-Session-Id` header must be present and text and name a known
/// session that is not yet initialized; each failure is a `400` with its
/// own message and leaves the sessions as they were. Otherwise the session
/// is marked initialized.
pub fn confirm_session_initialized(store: &mut SessionStore, session_header: HeaderText) -> (r: Result<(), (u16, String)>)
    requires
        old(store).wf(),
    ensures
        final(store).wf(),
        match session_header {
            HeaderText::Text(id) => {
                let k = find_session(old(store).sessions@, id@);
                if k < 0 {
                    r matches Err((s, m)) && s == 400 && m@ == "Invalid session"@
                        && final(store).sessions@ == old(store).sessions@
                } else if old(store).sessions@[k].initialized {
                    r matches Err((s, m)) && s == 400 && m@ == "Session already initialized"@
                        && final(store).sessions@ == old(store).sessions@
                } else {
                    r is Ok && final(store).sessions@ == old(store).sessions@.update(k,
                        Session { initialized: true, ..old(store).sessions@[k] })
                }
            },
            _ => r matches Err((s, m)) && s == 400 && m@ == "Missing Mcp-Session-Id header"@
                && final(store).sessions@ == old(store).sessions@,
        },
{
    let id = match session_header {
        HeaderText::Text(id) => id,
        _ => { return Err((400, to_owned_string("Missing Mcp-Session-Id header"))); },
    };
    match store.get_session(id) {
        None => Err((400, to_owned_string("Invalid session"))),
        Some(session) => {
            if session.initialized {
                Err((400, to_owned_string("Session already initialized")))
            } else {
                store.mark_initialized(id);
                Ok(())
            }
        },
    }
}

/// Whether the per-address request limit (60 a minute) applies to a
/// request: not to `/rpc` or to paths under `/mcp`, whose agents are
/// limited by their credentials, nor to a request that sends both agent
/// headers `x-agent-id` and `x-api-token`.
pub fn address_limit_applies(path: &str, has_agent_id: bool, has_api_token: bool) -> (r: bool)
    ensures
        r == !(path@ == "/rpc"@ || crate::mcp::starts_with(path@, "/mcp"@) || (has_agent_id && has_api_token)),
{
    let skip = str_eq(path, "/rpc") || crate::stream::starts_with_str(path, "/mcp") || (has_agent_id && has_api_token);
    !skip
}

} // verus!
