use asenix::hub_client::{
    hub_base, mcp_initialize_request, mcp_initialized_notification, mcp_tool_call_request, mcp_tool_result_text,
    review_request_body, rpc_call_request, rpc_call_result, ReplyProblem,
};
use asenix::json::JsonValue;

fn s(t: &str) -> JsonValue {
    JsonValue::Str(t.to_string())
}

fn obj(members: Vec<(&str, JsonValue)>) -> JsonValue {
    JsonValue::Object(members.into_iter().map(|(k, v)| (k.to_string(), v)).collect())
}

fn get<'a>(v: &'a JsonValue, k: &str) -> Option<&'a JsonValue> {
    match v {
        JsonValue::Object(m) => m.iter().find(|(key, _)| key == k).map(|(_, v)| v),
        _ => None,
    }
}

#[test]
fn base_address() {
    assert_eq!(hub_base("http://h:3000//"), "http://h:3000");
    assert_eq!(hub_base("http://h"), "http://h");
    assert_eq!(hub_base("///"), "");
}

#[test]
fn requests() {
    let i = mcp_initialize_request();
    assert!(matches!(get(&i, "method"), Some(JsonValue::Str(m)) if m == "initialize"));
    let p = get(&i, "params").unwrap();
    assert!(matches!(get(p, "protocolVersion"), Some(JsonValue::Str(v)) if v == "2024-11-05"));
    let n = mcp_initialized_notification();
    assert!(get(&n, "id").is_none());
    let c = mcp_tool_call_request("publish", obj(vec![("x", JsonValue::Bool(true))]));
    assert!(matches!(get(&c, "id"), Some(JsonValue::PosInt(2))));
    let cp = get(&c, "params").unwrap();
    assert!(matches!(get(cp, "name"), Some(JsonValue::Str(t)) if t == "publish"));
    let r = rpc_call_request("search_atoms", JsonValue::Null);
    assert!(matches!(get(&r, "params"), Some(JsonValue::Null)));
    let b = review_request_body("reject", Some("dup"));
    assert!(matches!(get(&b, "reason"), Some(JsonValue::Str(t)) if t == "dup"));
    assert!(get(&review_request_body("approve", None), "reason").is_none());
}

#[test]
fn answers() {
    let ok = obj(vec![("result", obj(vec![("content", JsonValue::Array(vec![obj(vec![("text", s("{\"a\":1}"))])]))]))]);
    assert_eq!(mcp_tool_result_text(&ok).unwrap(), "{\"a\":1}");
    let err = obj(vec![("error", s("boom")), ("result", JsonValue::Null)]);
    assert!(matches!(mcp_tool_result_text(&err), Err(ReplyProblem::Error(JsonValue::Str(e))) if e == "boom"));
    assert!(matches!(mcp_tool_result_text(&obj(vec![])), Err(ReplyProblem::NoResult)));
    assert!(matches!(rpc_call_result(&obj(vec![("result", JsonValue::PosInt(3))])), Ok(JsonValue::PosInt(3))));
    assert!(matches!(rpc_call_result(&obj(vec![("id", JsonValue::PosInt(1))])), Err(ReplyProblem::NoResult)));
}
