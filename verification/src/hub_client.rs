//! What the command-line tool sends to the hub and reads back: the base
//! address, the JSON-RPC requests of an MCP tool call and of a plain RPC
//! call, and where in an answer the result (or the error) is found.
use vstd::prelude::*;
use vstd::string::StrSliceExecFns;
use crate::json::{JsonValue, members_get, str_is};
use crate::stream::str_of;
use crate::text::to_owned_string;

verus! {

/// `s` without its trailing slashes.
pub open spec fn without_trailing_slashes(s: Seq<char>) -> Seq<char>
    decreases s.len(),
{
    if s.len() > 0 && s.last() == '/' { without_trailing_slashes(s.drop_last()) } else { s }
}

/// The hub's base address: the address given without trailing slashes.
pub fn hub_base(hub: &str) -> (r: &str)
    ensures
        r@ == without_trailing_slashes(hub@),
{
    let mut j: usize = hub.unicode_len();
    assert(hub@.subrange(0, hub@.len() as int) =~= hub@);
    while j > 0 && hub.get_char(j - 1) == '/'
        invariant
            j <= hub@.len(),
            without_trailing_slashes(hub@) == without_trailing_slashes(hub@.subrange(0, j as int)),
        decreases j,
    {
        assert(hub@.subrange(0, j as int).drop_last() =~= hub@.subrange(0, j - 1));
        j = j - 1;
    }
    hub.substring_char(0, j)
}

pub(crate) fn member(k: &str, v: JsonValue) -> (r: (String, JsonValue))
    ensures
        r.0@ == k@,
        r.1 == v,
{
    (to_owned_string(k), v)
}

pub(crate) fn text(t: &str) -> (r: JsonValue)
    ensures
        r matches JsonValue::Str(s) && s@ == t@,
{
    JsonValue::Str(to_owned_string(t))
}

/// The `initialize` request that opens an MCP session: protocol
/// `2024-11-05`, no capabilities, and the tool named `asenix-cli` `0.1.0`.
pub fn mcp_initialize_request() -> (r: JsonValue)
    ensures
        str_is(r.spec_get("jsonrpc"@), "2.0"@),
        r.spec_get("id"@) == Some(JsonValue::PosInt(1)),
        str_is(r.spec_get("method"@), "initialize"@),
        r.spec_get("params"@) matches Some(p) && str_is(p.spec_get("protocolVersion"@), "2024-11-05"@)
            && (p.spec_get("capabilities"@) matches Some(JsonValue::Object(c)) && c@.len() == 0)
            && (p.spec_get("clientInfo"@) matches Some(ci) && str_is(ci.spec_get("name"@), "asenix-cli"@)
                && str_is(ci.spec_get("version"@), "0.1.0"@)),
{
    proof {
        reveal_strlit("jsonrpc");
        reveal_strlit("id");
        reveal_strlit("method");
        reveal_strlit("params");
        reveal_strlit("capabilities");
        reveal_strlit("clientInfo");
        reveal_strlit("protocolVersion");
        reveal_strlit("name");
        reveal_strlit("version");
        reveal_with_fuel(crate::json::member_index, 5);
        assert("id"@[0] != "jsonrpc"@[0]);
        assert("method"@[0] != "id"@[0]);
        assert("method"@[0] != "jsonrpc"@[0]);
        assert("params"@[0] != "id"@[0]);
        assert("params"@[0] != "jsonrpc"@[0]);
        assert("params"@[0] != "method"@[0]);
        assert("clientInfo"@[1] != "capabilities"@[1]);
        assert("protocolVersion"@[0] != "capabilities"@[0]);
        assert("protocolVersion"@[0] != "clientInfo"@[0]);
        assert("version"@[0] != "name"@[0]);
    }
    let client_info = JsonValue::Object(vec![member("name", text("asenix-cli")), member("version", text("0.1.0"))]);
    let params = JsonValue::Object(vec![
        member("capabilities", JsonValue::Object(Vec::new())),
        member("clientInfo", client_info),
        member("protocolVersion", text("2024-11-05")),
    ]);
    JsonValue::Object(vec![
        member("id", JsonValue::PosInt(1)),
        member("jsonrpc", text("2.0")),
        member("method", text("initialize")),
        member("params", params),
    ])
}

/// The `notifications/initialized` notice sent once a session is open.
pub fn mcp_initialized_notification() -> (r: JsonValue)
    ensures
        str_is(r.spec_get("jsonrpc"@), "2.0"@),
        str_is(r.spec_get("method"@), "notifications/initialized"@),
        r.spec_get("id"@) is None,
{
    proof {
        reveal_strlit("jsonrpc");
        reveal_strlit("method");
        reveal_strlit("id");
        reveal_with_fuel(crate::json::member_index, 3);
        assert("method"@[0] != "jsonrpc"@[0]);
        assert("id"@[0] != "jsonrpc"@[0]);
        assert("id"@[0] != "method"@[0]);
    }
    JsonValue::Object(vec![member("jsonrpc", text("2.0")), member("method", text("notifications/initialized"))])
}

/// The `tools/call` request (id 2) that calls `tool` with `arguments`.
pub fn mcp_tool_call_request(tool: &str, arguments: JsonValue) -> (r: JsonValue)
    ensures
        str_is(r.spec_get("jsonrpc"@), "2.0"@),
        r.spec_get("id"@) == Some(JsonValue::PosInt(2)),
        str_is(r.spec_get("method"@), "tools/call"@),
        r.spec_get("params"@) matches Some(p) && str_is(p.spec_get("name"@), tool@)
            && p.spec_get("arguments"@) == Some(arguments),
{
    proof {
        reveal_strlit("jsonrpc");
        reveal_strlit("id");
        reveal_strlit("method");
        reveal_strlit("params");
        reveal_strlit("arguments");
        reveal_strlit("name");
        reveal_with_fuel(crate::json::member_index, 5);
        assert("id"@[0] != "jsonrpc"@[0]);
        assert("method"@[0] != "id"@[0]);
        assert("method"@[0] != "jsonrpc"@[0]);
        assert("params"@[0] != "id"@[0]);
        assert("params"@[0] != "jsonrpc"@[0]);
        assert("params"@[0] != "method"@[0]);
        assert("name"@[0] != "arguments"@[0]);
    }
    let params = JsonValue::Object(vec![member("arguments", arguments), member("name", text(tool))]);
    JsonValue::Object(vec![
        member("id", JsonValue::PosInt(2)),
        member("jsonrpc", text("2.0")),
        member("method", text("tools/call")),
        member("params", params),
    ])
}

/// The request (id 1) of a plain JSON-RPC call of `method`.
pub fn rpc_call_request(method: &str, params: JsonValue) -> (r: JsonValue)
    ensures
        str_is(r.spec_get("jsonrpc"@), "2.0"@),
        r.spec_get("id"@) == Some(JsonValue::PosInt(1)),
        str_is(r.spec_get("method"@), method@),
        r.spec_get("params"@) == Some(params),
{
    proof {
        reveal_strlit("jsonrpc");
        reveal_strlit("id");
        reveal_strlit("method");
        reveal_strlit("params");
        reveal_with_fuel(crate::json::member_index, 5);
        assert("id"@[0] != "jsonrpc"@[0]);
        assert("method"@[0] != "id"@[0]);
        assert("method"@[0] != "jsonrpc"@[0]);
        assert("params"@[0] != "id"@[0]);
        assert("params"@[0] != "jsonrpc"@[0]);
        assert("params"@[0] != "method"@[0]);
    }
    JsonValue::Object(vec![
        member("id", JsonValue::PosInt(1)),
        member("jsonrpc", text("2.0")),
        member("method", text(method)),
        member("params", params),
    ])
}

/// What is wrong with an answer that carries no result.
#[derive(Debug)]
pub enum ReplyProblem<'a> {
    /// The answer has an `error` member.
    Error(&'a JsonValue),
    /// The answer has neither an error nor a result where one belongs.
    NoResult,
}

/// The text an MCP tool answers with: the string at
/// `/result/content/0/text`.
pub open spec fn tool_result_text(body: JsonValue) -> Option<Seq<char>> {
    match body.spec_get("result"@) {
        Some(res) => match res.spec_get("content"@) {
            Some(JsonValue::Array(items)) => if items@.len() > 0 { str_of(items@[0].spec_get("text"@)) } else { None },
            Some(JsonValue::Object(m)) => match members_get(m@, "0"@) {
                Some(first) => str_of(first.spec_get("text"@)),
                None => None,
            },
            _ => None,
        },
        None => None,
    }
}

/// The result text of an MCP tool call's answer, which the caller reads as
/// JSON; an answer with an `error` member is that error.
pub fn mcp_tool_result_text<'a>(body: &'a JsonValue) -> (r: Result<&'a str, ReplyProblem<'a>>)
    ensures
        match body.spec_get("error"@) {
            Some(e) => r matches Err(ReplyProblem::Error(x)) && *x == e,
            None => match tool_result_text(*body) {
                Some(t) => r matches Ok(s) && s@ == t,
                None => r matches Err(ReplyProblem::NoResult),
            },
        },
{
    if let Some(e) = body.get("error") {
        return Err(ReplyProblem::Error(e));
    }
    let result = match body.get("result") {
        Some(x) => x,
        None => return Err(ReplyProblem::NoResult),
    };
    let first: Option<&JsonValue> = match result.get("content") {
        Some(JsonValue::Array(items)) => if items.len() > 0 { Some(&items[0]) } else { None },
        Some(JsonValue::Object(m)) => {
            proof { crate::json::lemma_member_index(m@, "0"@); }
            match crate::json::find_member(m, "0") {
                Some(i) => Some(&m[i].1),
                None => None,
            }
        },
        _ => None,
    };
    match first {
        Some(f) => match f.get("text") {
            Some(JsonValue::Str(s)) => Ok(s.as_str()),
            _ => Err(ReplyProblem::NoResult),
        },
        None => Err(ReplyProblem::NoResult),
    }
}

/// The result of a plain JSON-RPC call's answer; an answer with an `error`
/// member is that error.
pub fn rpc_call_result<'a>(body: &'a JsonValue) -> (r: Result<&'a JsonValue, ReplyProblem<'a>>)
    ensures
        match body.spec_get("error"@) {
            Some(e) => r matches Err(ReplyProblem::Error(x)) && *x == e,
            None => match body.spec_get("result"@) {
                Some(v) => r matches Ok(x) && *x == v,
                None => r matches Err(ReplyProblem::NoResult),
            },
        },
{
    if let Some(e) = body.get("error") {
        return Err(ReplyProblem::Error(e));
    }
    match body.get("result") {
        Some(v) => Ok(v),
        None => Err(ReplyProblem::NoResult),
    }
}

/// The body of a review decision: the action, and the reason when there is
/// one.
pub fn review_request_body(action: &str, reason: Option<&str>) -> (r: JsonValue)
    ensures
        str_is(r.spec_get("action"@), action@),
        match reason {
            Some(t) => str_is(r.spec_get("reason"@), t@),
            None => r.spec_get("reason"@) is None,
        },
        r matches JsonValue::Object(m) && m@.len() == (if reason is Some { 2int } else { 1int }),
{
    proof {
        reveal_strlit("action");
        reveal_strlit("reason");
        reveal_with_fuel(crate::json::member_index, 3);
        assert("action"@[0] != "reason"@[0]);
    }
    match reason {
        Some(t) => JsonValue::Object(vec![member("action", text(action)), member("reason", text(t))]),
        None => JsonValue::Object(vec![member("action", text(action))]),
    }
}

} // verus!
