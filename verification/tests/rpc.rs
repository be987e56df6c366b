use asenix::atom::AtomType;
use asenix::error::MoteError;
use asenix::json::JsonValue;
use asenix::mcp::HeaderText;
use asenix::publish::{
    agent_name_param, auth_request, claim_params, confirm_params, is_evidence, parse_publish_atom, publish_atoms_list,
    register_params, retract_params, search_params, AuthRequest, unsigned_params, check_params_signature,
    check_token_owner, check_signer, cluster_params, suggestion_params, check_attached_artifact,
};
use asenix::rpc::{
    check_session_headers, classify_mcp_request, address_limit_applies, confirm_session_initialized, envelope_refusal, EnvelopeProblem, require_initialized_session, classify_rpc_request, mcp_method_from_name, rpc_error,
    rpc_method_from_name, unknown_mcp_method_reply, JsonRpcResponse, McpMethod, McpReject, McpRequestKind,
    RpcEnvelope, RpcMethod,
};
use asenix::session::{Capabilities, ClientInfo, SessionStore};

fn s(t: &str) -> JsonValue {
    JsonValue::Str(t.to_string())
}

fn obj(members: Vec<(&str, JsonValue)>) -> JsonValue {
    JsonValue::Object(members.into_iter().map(|(k, v)| (k.to_string(), v)).collect())
}

#[test]
fn rpc_envelopes() {
    assert!(matches!(classify_rpc_request(&JsonValue::Array(vec![])), RpcEnvelope::Batch));
    assert!(matches!(classify_rpc_request(&s("x")), RpcEnvelope::InvalidRequest));
    assert!(matches!(classify_rpc_request(&obj(vec![("jsonrpc", s("2.0"))])), RpcEnvelope::InvalidRequest));
    let wrong = obj(vec![("jsonrpc", s("1.0")), ("method", s("m")), ("id", JsonValue::PosInt(4))]);
    match classify_rpc_request(&wrong) {
        RpcEnvelope::WrongVersion(Some(JsonValue::PosInt(4))) => {}
        _ => panic!("expected a wrong version"),
    }
    let call = obj(vec![
        ("jsonrpc", s("2.0")),
        ("method", s("search_atoms")),
        ("params", JsonValue::Null),
        ("id", s("abc")),
    ]);
    match classify_rpc_request(&call) {
        RpcEnvelope::Call(c) => {
            assert_eq!(c.method, "search_atoms");
            assert!(c.params.is_none());
            assert!(matches!(c.id, Some(JsonValue::Str(t)) if t == "abc"));
        }
        _ => panic!("expected a call"),
    }
}

#[test]
fn rpc_methods_and_errors() {
    assert_eq!(rpc_method_from_name("publish_atoms"), Ok(RpcMethod::PublishAtoms));
    assert_eq!(rpc_method_from_name("register_agent_simple"), Ok(RpcMethod::RegisterAgentSimple));
    assert_eq!(rpc_method_from_name("nope"), Err(MoteError::Validation("Method not found: nope".to_string())));
    let e = rpc_error(&MoteError::NotFound("atom x".to_string()), "req-1", "2025-01-01T00:00:00Z");
    assert_eq!(e.code, -32003);
    assert_eq!(e.message, "Not found: atom x");
    match e.data {
        Some(JsonValue::Object(m)) => {
            assert_eq!(m.len(), 3);
            assert_eq!(m[2].0, "error_type");
            assert!(matches!(&m[2].1, JsonValue::Str(t) if t == "not_found"));
        }
        _ => panic!("expected data"),
    }
    let r = JsonRpcResponse::success(JsonValue::Bool(true), None);
    assert_eq!(r.jsonrpc, "2.0");
    assert!(r.error.is_none());
    assert_eq!(MoteError::RateLimit.message(), "Rate limit exceeded");
    assert_eq!(MoteError::Database("x".to_string()).message(), "Database error: encountered unexpected or invalid data");
}

#[test]
fn mcp_routing() {
    assert!(matches!(classify_mcp_request(&JsonValue::Array(vec![])), McpRequestKind::Batch));
    assert!(matches!(classify_mcp_request(&obj(vec![("id", JsonValue::PosInt(1))])), McpRequestKind::ClientResponse));
    assert!(matches!(classify_mcp_request(&obj(vec![("method", JsonValue::PosInt(1))])), McpRequestKind::InvalidRequest));
    match classify_mcp_request(&obj(vec![("method", s("ping"))])) {
        McpRequestKind::Call { method, id } => {
            assert_eq!(method, "ping");
            assert!(id.is_none());
        }
        _ => panic!("expected a call"),
    }
    assert_eq!(mcp_method_from_name("resources/templates/list"), Some(McpMethod::ResourcesTemplatesList));
    assert_eq!(mcp_method_from_name("tools/other"), None);
    assert_eq!(unknown_mcp_method_reply("x", true), (400, -32601, "Method not found: x".to_string()));
    assert_eq!(unknown_mcp_method_reply("x", false).0, 200);
}

#[test]
fn mcp_session_checks() {
    let mut store = SessionStore::new();
    store.create_session(
        "s1".to_string(),
        ClientInfo { name: "c".to_string(), version: "1".to_string() },
        Capabilities::default(),
        "2025-11-25".to_string(),
    );
    assert!(check_session_headers(true, None, &store, HeaderText::Text("bad")).is_ok());
    assert!(check_session_headers(false, Some("s1"), &store, HeaderText::Text("2025-11-25")).is_ok());
    match check_session_headers(false, Some("s1"), &store, HeaderText::Text("2025-03-26")) {
        Err(McpReject::Http(400, m)) => assert_eq!(m, "Protocol version mismatch: expected 2025-11-25, got 2025-03-26"),
        _ => panic!("expected a mismatch"),
    }
    match check_session_headers(false, Some("s2"), &store, HeaderText::Absent) {
        Err(McpReject::JsonRpc(404, -32003, m)) => assert_eq!(m, "Session not found"),
        _ => panic!("expected a missing session"),
    }
    assert!(check_session_headers(false, None, &store, HeaderText::Text("2025-03-26")).is_ok());
    assert!(check_session_headers(false, None, &store, HeaderText::Absent).is_ok());
}

#[test]
fn auth_parameters() {
    assert_eq!(auth_request(None).err(), Some(MoteError::Validation("Missing params".to_string())));
    let p = obj(vec![("api_token", s("t"))]);
    assert_eq!(auth_request(Some(&p)).err(), Some(MoteError::Validation("agent_id field required".to_string())));
    let p = obj(vec![("agent_id", s("a")), ("api_token", s("t"))]);
    assert!(matches!(auth_request(Some(&p)), Ok(AuthRequest::Token { agent_id: "a", api_token: "t" })));
    let p = obj(vec![("agent_id", s("a")), ("api_token", JsonValue::PosInt(1))]);
    assert_eq!(auth_request(Some(&p)).err(), Some(MoteError::Validation("api_token must be a string".to_string())));
    let p = obj(vec![("agent_id", s("a")), ("api_token", JsonValue::Null), ("signature", s("ab"))]);
    assert!(matches!(auth_request(Some(&p)), Ok(AuthRequest::Signature { agent_id: "a", signature: "ab" })));
    let p = obj(vec![("agent_id", s("a"))]);
    assert_eq!(
        auth_request(Some(&p)).err(),
        Some(MoteError::Validation("api_token or signature field required".to_string()))
    );
}

#[test]
fn publish_parameters() {
    assert_eq!(
        publish_atoms_list(Some(&obj(vec![]))).err(),
        Some(MoteError::Validation("atoms must be an array".to_string()))
    );
    let params = obj(vec![("atoms", JsonValue::Array(vec![]))]);
    assert_eq!(publish_atoms_list(Some(&params)).unwrap().len(), 0);

    let atom = obj(vec![
        ("atom_type", s("finding")),
        ("domain", s("bio")),
        ("statement", s("Cells grow faster at 37C")),
        ("metrics", obj(vec![("acc", JsonValue::PosInt(1))])),
        ("conditions", JsonValue::Null),
        ("artifact_tree_hash", JsonValue::PosInt(3)),
        ("signature", s("0aff")),
    ]);
    let f = parse_publish_atom(&atom).unwrap();
    assert_eq!(f.atom_type, AtomType::Finding);
    assert_eq!(f.domain, "bio");
    assert!(f.conditions.is_none());
    assert!(f.metrics.is_some());
    assert!(f.artifact_tree_hash.is_none());
    assert_eq!(f.signature, vec![0x0a, 0xff]);
    assert!(is_evidence(f.atom_type));

    let bytes_sig = obj(vec![
        ("atom_type", s("delta")),
        ("domain", s("d")),
        ("statement", s("x")),
        ("signature", JsonValue::Array(vec![JsonValue::PosInt(1), JsonValue::PosInt(255)])),
        ("artifact_tree_hash", s("h")),
    ]);
    let f = parse_publish_atom(&bytes_sig).unwrap();
    assert_eq!(f.signature, vec![1, 255]);
    assert_eq!(f.artifact_tree_hash, Some("h"));
    assert!(!is_evidence(f.atom_type));

    let bad_sig = obj(vec![
        ("atom_type", s("delta")),
        ("domain", s("d")),
        ("statement", s("x")),
        ("signature", s("zz")),
    ]);
    assert!(parse_publish_atom(&bad_sig).unwrap().signature.is_empty());

    let missing = obj(vec![("domain", s("d"))]);
    assert_eq!(parse_publish_atom(&missing).err(), Some(MoteError::Validation("atom_type field required".to_string())));
    let unknown = obj(vec![("atom_type", s("essay"))]);
    assert_eq!(parse_publish_atom(&unknown).err(), Some(MoteError::Validation("Unknown atom type: essay".to_string())));
    let no_domain = obj(vec![("atom_type", s("delta"))]);
    assert_eq!(parse_publish_atom(&no_domain).err(), Some(MoteError::Validation("domain field required".to_string())));
    let no_statement = obj(vec![("atom_type", s("delta")), ("domain", s("d"))]);
    assert_eq!(
        parse_publish_atom(&no_statement).err(),
        Some(MoteError::Validation("statement field required".to_string()))
    );
}

#[test]
fn other_call_parameters() {
    let p = obj(vec![("domain", s("bio")), ("type", JsonValue::PosInt(3)), ("limit", JsonValue::PosInt(7)), ("offset", JsonValue::Float(1.5f64.to_bits()))]);
    let sp = search_params(Some(&p));
    assert_eq!(sp.domain, Some("bio"));
    assert_eq!(sp.atom_type, None);
    assert_eq!(sp.limit, 7);
    assert_eq!(sp.offset, 0);
    let none = search_params(None);
    assert_eq!((none.limit, none.offset), (50, 0));

    assert_eq!(claim_params(None).err(), Some(MoteError::Validation("Missing params".to_string())));
    let c = obj(vec![("hypothesis", s("h")), ("domain", s("d")), ("conditions", JsonValue::Null)]);
    let cp = claim_params(Some(&c)).unwrap();
    assert_eq!((cp.hypothesis, cp.domain), ("h", "d"));
    assert!(cp.conditions.is_none());
    let c = obj(vec![("domain", s("d"))]);
    assert_eq!(claim_params(Some(&c)).err(), Some(MoteError::Validation("hypothesis field required".to_string())));

    let r = obj(vec![("atom_id", s("a1")), ("reason", s("dup"))]);
    assert_eq!(retract_params(Some(&r)).unwrap(), ("a1", Some("dup")));
    assert_eq!(retract_params(Some(&obj(vec![]))).err(), Some(MoteError::Validation("atom_id field required".to_string())));

    let c = obj(vec![("agent_id", s("a"))]);
    assert_eq!(confirm_params(Some(&c)).err(), Some(MoteError::Validation("signature field required".to_string())));
    let k = obj(vec![("public_key", s("00ff"))]);
    assert_eq!(register_params(Some(&k)).unwrap(), "00ff");
    assert_eq!(agent_name_param(None), "unnamed-agent");
    assert_eq!(agent_name_param(Some(&obj(vec![("agent_name", s("bot"))]))), "bot");
}

#[test]
fn initialized_session_required() {
    let mut store = SessionStore::new();
    store.create_session(
        "s1".to_string(),
        ClientInfo { name: "c".to_string(), version: "1".to_string() },
        Capabilities::default(),
        "2025-03-26".to_string(),
    );
    assert_eq!(
        require_initialized_session(&mut store, HeaderText::Absent),
        Err((400, "Missing Mcp-Session-Id header".to_string()))
    );
    assert_eq!(
        require_initialized_session(&mut store, HeaderText::Text("nope")),
        Err((400, "Session not found".to_string()))
    );
    assert_eq!(
        require_initialized_session(&mut store, HeaderText::Text("s1")),
        Err((400, "Session not initialized".to_string()))
    );
    assert!(store.mark_initialized("s1"));
    assert_eq!(require_initialized_session(&mut store, HeaderText::Text("s1")), Ok("s1"));
}

#[test]
fn signed_parameters() {
    let p = obj(vec![("agent_id", s("a")), ("signature", s("00")), ("x", JsonValue::PosInt(1))]);
    match unsigned_params(p) {
        JsonValue::Object(m) => {
            let keys: Vec<&str> = m.iter().map(|(k, _)| k.as_str()).collect();
            assert_eq!(keys, vec!["agent_id", "x"]);
        }
        other => panic!("unexpected {:?}", other),
    }
    assert!(matches!(unsigned_params(JsonValue::Bool(true)), JsonValue::Bool(true)));
    let sk = ed25519_dalek::SigningKey::from_bytes(&[3u8; 32]);
    let pk = sk.verifying_key().to_bytes();
    let canonical = "{\"agent_id\":\"a\"}";
    let sig = ed25519_dalek::Signer::sign(&sk, canonical.as_bytes()).to_bytes();
    let sig_hex: String = sig.iter().map(|b| format!("{:02x}", b)).collect();
    assert_eq!(check_params_signature(&pk, canonical, &sig_hex), Ok(()));
    match check_params_signature(&pk, "{}", &sig_hex) {
        Err(MoteError::Cryptography(m)) => assert!(m.starts_with("Signature verification failed: ")),
        other => panic!("unexpected {:?}", other),
    }
    match check_params_signature(&pk, canonical, "xyz") {
        Err(MoteError::Cryptography(m)) => assert!(m.starts_with("Invalid hex: ")),
        other => panic!("unexpected {:?}", other),
    }
    match check_params_signature(&pk, canonical, "abcd") {
        Err(MoteError::Cryptography(m)) => assert_eq!(m, "Invalid signature length"),
        other => panic!("unexpected {:?}", other),
    }
}

#[test]
fn token_and_signer_checks() {
    match check_token_owner("agent_1", None) {
        Err(MoteError::Authentication(m)) => assert_eq!(m, "Invalid api_token"),
        other => panic!("unexpected {:?}", other),
    }
    match check_token_owner("agent_1", Some("agent_2")) {
        Err(MoteError::Authentication(m)) => assert_eq!(m, "api_token does not match agent_id"),
        other => panic!("unexpected {:?}", other),
    }
    assert!(check_token_owner("agent_1", Some("agent_1")).is_ok());
    match check_signer(None) {
        Err(MoteError::Authentication(m)) => assert_eq!(m, "Agent not found"),
        other => panic!("unexpected {:?}", other),
    }
    match check_signer(Some(false)) {
        Err(MoteError::Authentication(m)) => assert_eq!(m, "Agent not confirmed"),
        other => panic!("unexpected {:?}", other),
    }
    assert!(check_signer(Some(true)).is_ok());
}

#[test]
fn address_limit_skips_agent_endpoints() {
    assert!(!address_limit_applies("/rpc", false, false));
    assert!(!address_limit_applies("/mcp", false, false));
    assert!(!address_limit_applies("/mcp/session", false, false));
    assert!(address_limit_applies("/rpc/other", false, false));
    assert!(address_limit_applies("/artifacts/abc", true, false));
    assert!(!address_limit_applies("/artifacts/abc", true, true));
    assert!(address_limit_applies("/health", false, false));
}

#[test]
fn cluster_params_checks_in_order() {
    fn msg(r: Result<asenix::publish::ClusterParams, MoteError>) -> String {
        match r {
            Err(MoteError::Validation(m)) => m,
            _ => panic!("expected a validation error"),
        }
    }
    assert_eq!(msg(cluster_params(None)), "Missing params");
    let p = obj(vec![("radius", JsonValue::PosInt(1))]);
    assert_eq!(msg(cluster_params(Some(&p))), "vector field required (array of numbers)");
    let p = obj(vec![("vector", JsonValue::Array(vec![JsonValue::PosInt(1), s("x")])), ("radius", JsonValue::PosInt(1))]);
    assert_eq!(msg(cluster_params(Some(&p))), "vector values must be numbers");
    let p = obj(vec![("vector", JsonValue::Array(vec![]))]);
    assert_eq!(msg(cluster_params(Some(&p))), "vector must not be empty");
    let p = obj(vec![("vector", JsonValue::Array(vec![JsonValue::Float(0.5f64.to_bits())])), ("radius", s("near"))]);
    assert_eq!(msg(cluster_params(Some(&p))), "radius field required (number)");
    let p = obj(vec![
        ("vector", JsonValue::Array(vec![JsonValue::Float(0.5f64.to_bits()), JsonValue::NegInt(-1)])),
        ("radius", JsonValue::Float(0.3f64.to_bits())),
    ]);
    let c = cluster_params(Some(&p)).unwrap();
    assert_eq!(c.vector.len(), 2);
    assert_eq!(c.limit, 20);
    let p = obj(vec![
        ("vector", JsonValue::Array(vec![JsonValue::PosInt(1)])),
        ("radius", JsonValue::PosInt(1)),
        ("limit", JsonValue::PosInt(5)),
    ]);
    assert_eq!(cluster_params(Some(&p)).unwrap().limit, 5);
}

#[test]
fn suggestion_params_defaults() {
    assert!(matches!(suggestion_params(None), Err(MoteError::Validation(m)) if m == "Missing params"));
    let p = obj(vec![]);
    assert_eq!(suggestion_params(Some(&p)).unwrap(), (None, 10));
    let p = obj(vec![("domain", s("ml")), ("limit", JsonValue::PosInt(3))]);
    assert_eq!(suggestion_params(Some(&p)).unwrap(), (Some("ml"), 3));
    let p = obj(vec![("domain", JsonValue::PosInt(1)), ("limit", s("many"))]);
    assert_eq!(suggestion_params(Some(&p)).unwrap(), (None, 10));
}

#[test]
fn attached_artifact_must_exist() {
    assert!(check_attached_artifact(None, false).is_ok());
    assert!(check_attached_artifact(Some("abc"), true).is_ok());
    assert_eq!(
        check_attached_artifact(Some("abc"), false),
        Err(MoteError::Validation("Artifact abc does not exist. Upload the artifact first.".to_string()))
    );
}

#[test]
fn initialized_notice_marks_the_session_once() {
    let mut store = SessionStore::new();
    store.create_session(
        "s1".to_string(),
        ClientInfo { name: "c".to_string(), version: "1".to_string() },
        Capabilities::default(),
        "2025-03-26".to_string(),
    );
    assert_eq!(
        confirm_session_initialized(&mut store, HeaderText::NotText),
        Err((400, "Missing Mcp-Session-Id header".to_string()))
    );
    assert_eq!(
        confirm_session_initialized(&mut store, HeaderText::Text("s2")),
        Err((400, "Invalid session".to_string()))
    );
    assert_eq!(confirm_session_initialized(&mut store, HeaderText::Text("s1")), Ok(()));
    assert!(store.get_session("s1").unwrap().initialized);
    assert_eq!(
        confirm_session_initialized(&mut store, HeaderText::Text("s1")),
        Err((400, "Session already initialized".to_string()))
    );
}

#[test]
fn refused_envelopes() {
    let (status, e) = envelope_refusal(EnvelopeProblem::ParseError, "req-1", "2025-01-01T00:00:00Z");
    assert_eq!((status, e.code, e.message.as_str()), (400, -32700, "Parse error"));
    match e.data {
        Some(JsonValue::Object(m)) => {
            assert_eq!(m.len(), 2);
            assert_eq!(m[0].0, "request_id");
            assert!(matches!(&m[0].1, JsonValue::Str(t) if t == "req-1"));
        }
        _ => panic!("expected data"),
    }
    let (status, e) = envelope_refusal(EnvelopeProblem::Batch, "r", "t");
    assert_eq!((status, e.code, e.message.as_str()), (200, -32700, "Batch requests not supported"));
    let (status, e) = envelope_refusal(EnvelopeProblem::InvalidRequest, "r", "t");
    assert_eq!((status, e.code, e.message.as_str()), (400, -32600, "Invalid Request"));
    let (status, e) = envelope_refusal(EnvelopeProblem::WrongVersion, "r", "t");
    assert_eq!((status, e.code, e.message.as_str()), (200, -32600, "Invalid JSON-RPC version"));
}
