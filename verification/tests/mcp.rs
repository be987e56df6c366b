use asenix::mcp::{
    resource_target, ResourceTarget,
    get_concrete_resources, get_resource_templates, has_accept_media_type, negotiate_protocol_version,
    parse_accept_header, validate_origin, validate_post_accept_header, validate_protocol_version_header, HeaderText,
    check_origin, check_accept,
};
use asenix::error::MoteError;

#[test]
fn protocol_negotiation() {
    assert_eq!(negotiate_protocol_version("2025-03-26"), "2025-03-26");
    assert_eq!(negotiate_protocol_version("2025-11-25"), "2025-11-25");
    assert_eq!(negotiate_protocol_version("2024-01-01"), "2025-11-25");
}

#[test]
fn accept_header_parsing() {
    assert_eq!(parse_accept_header(" application/json , ,text/event-stream"), vec!["application/json", "text/event-stream"]);
    assert!(parse_accept_header(" , ").is_empty());
    let parts = parse_accept_header("Application/JSON;q=1, TEXT/EVENT-STREAM");
    assert!(has_accept_media_type(&parts, "text/event-stream"));
    assert!(!has_accept_media_type(&parts, "application/json"));
}

#[test]
fn origin_check() {
    let allowed = ["http://localhost:3000", "https://app.example"];
    assert_eq!(validate_origin(HeaderText::Absent, &allowed), Ok(()));
    assert_eq!(validate_origin(HeaderText::Text("https://app.example"), &allowed), Ok(()));
    assert_eq!(
        validate_origin(HeaderText::Text("http://evil"), &allowed),
        Err((403, "Origin not allowed: http://evil".to_string()))
    );
    assert_eq!(validate_origin(HeaderText::NotText, &allowed), Err((400, "Invalid Origin header".to_string())));
}

#[test]
fn accept_check() {
    assert_eq!(validate_post_accept_header(HeaderText::Absent), Ok(()));
    assert_eq!(validate_post_accept_header(HeaderText::Text("*/*")), Ok(()));
    assert_eq!(validate_post_accept_header(HeaderText::Text("text/html, application/json")), Ok(()));
    assert_eq!(
        validate_post_accept_header(HeaderText::Text("text/html")),
        Err((400, "Accept header must include application/json or text/event-stream".to_string()))
    );
    assert_eq!(validate_post_accept_header(HeaderText::NotText), Err((400, "Invalid Accept header".to_string())));
}

#[test]
fn protocol_version_header_check() {
    assert_eq!(validate_protocol_version_header(HeaderText::Absent, Some("2025-03-26")), Ok(()));
    assert_eq!(validate_protocol_version_header(HeaderText::Text("2025-03-26"), Some("2025-03-26")), Ok(()));
    assert_eq!(validate_protocol_version_header(HeaderText::Text("2025-11-25"), None), Ok(()));
    assert_eq!(
        validate_protocol_version_header(HeaderText::Text("1999"), None),
        Err((400, "Unsupported MCP-Protocol-Version: 1999".to_string()))
    );
    assert_eq!(
        validate_protocol_version_header(HeaderText::Text("2025-11-25"), Some("2025-03-26")),
        Err((400, "Protocol version mismatch: expected 2025-03-26, got 2025-11-25".to_string()))
    );
}

#[test]
fn resources_listed() {
    let r = get_concrete_resources();
    assert_eq!(r.resources.len(), 1);
    assert_eq!(r.resources[0].uri, "fieldmap://all");
    let t = get_resource_templates();
    let uris: Vec<&str> = t.templates.iter().map(|x| x.uri_template.as_str()).collect();
    assert_eq!(uris, vec!["atom://{atom_id}", "artifact://{hash}/meta", "fieldmap://{domain}"]);
    assert!(t.templates.iter().all(|x| x.mime_type == "application/json"));
}

#[test]
fn resource_uris() {
    assert!(matches!(resource_target("atom://abc"), Ok(ResourceTarget::Atom("abc"))));
    assert!(matches!(resource_target("artifact://h1/meta"), Ok(ResourceTarget::ArtifactMeta("h1"))));
    assert!(matches!(resource_target("fieldmap://all"), Ok(ResourceTarget::FieldMap(None))));
    assert!(matches!(resource_target("fieldmap://bio"), Ok(ResourceTarget::FieldMap(Some("bio")))));
    assert!(matches!(
        resource_target("artifact://meta"),
        Err(asenix::error::MoteError::Validation(m)) if m == "Invalid artifact URI"
    ));
    assert!(matches!(
        resource_target("http://x"),
        Err(asenix::error::MoteError::Validation(m)) if m == "Unsupported resource URI: http://x"
    ));
}

#[test]
fn streaming_endpoint_origin_and_accept() {
    let allowed = ["http://localhost:3000", "https://app.example"];
    assert_eq!(check_origin(HeaderText::Absent, &allowed), Err(MoteError::Validation("Missing Origin header".to_string())));
    assert_eq!(check_origin(HeaderText::NotText, &allowed), Err(MoteError::Validation("Invalid Origin header".to_string())));
    assert_eq!(check_origin(HeaderText::Text("https://app.example"), &allowed), Ok(()));
    assert_eq!(
        check_origin(HeaderText::Text("http://evil"), &allowed),
        Err(MoteError::Validation(
            "Origin not allowed: http://evil. Allowed: [\"http://localhost:3000\", \"https://app.example\"]".to_string()
        ))
    );
    assert_eq!(check_accept(HeaderText::Absent), Err(MoteError::Validation("Missing Accept header".to_string())));
    assert_eq!(check_accept(HeaderText::NotText), Err(MoteError::Validation("Invalid Accept header".to_string())));
    assert_eq!(check_accept(HeaderText::Text("application/json")), Ok(()));
    assert_eq!(check_accept(HeaderText::Text("text/event-stream;q=0.9")), Ok(()));
    assert_eq!(
        check_accept(HeaderText::Text("text/html")),
        Err(MoteError::Validation(
            "Accept header must include both application/json and text/event-stream. Got: text/html".to_string()
        ))
    );
}
