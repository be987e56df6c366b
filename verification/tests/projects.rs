use asenix::error::{MoteError, error_status};
use asenix::json::JsonValue;
use asenix::projects::{validate_filename, protocol_text, project_refusal, protocol_reply, seed_bounty_reply};

#[test]
fn filename_length_limits() {
    let e = validate_filename("").unwrap_err();
    assert_eq!(e.status, 400);
    assert_eq!(e.error, "filename must be between 1 and 255 characters");
    assert!(validate_filename(&"a".repeat(255)).is_ok());
    let e = validate_filename(&"a".repeat(256)).unwrap_err();
    assert_eq!(e.error, "filename must be between 1 and 255 characters");
    // the limit counts characters, not bytes
    assert!(validate_filename(&"é".repeat(255)).is_ok());
    assert!(validate_filename(&"é".repeat(256)).is_err());
}

#[test]
fn filename_characters() {
    assert!(validate_filename("train_v2.py").is_ok());
    assert!(validate_filename("data-set.csv").is_ok());
    let e = validate_filename("../etc/passwd").unwrap_err();
    assert_eq!(e.status, 400);
    assert_eq!(e.error, "filename may only contain letters, digits, '.', '_', and '-'");
    assert!(validate_filename("a b").is_err());
}

#[test]
fn protocol_body_must_be_utf8() {
    assert_eq!(protocol_text("# Protocol\nrun it".as_bytes()).unwrap(), "# Protocol\nrun it");
    let e = protocol_text(&[0x66, 0xff, 0x66]).unwrap_err();
    assert_eq!(e.status, 400);
    assert_eq!(e.error, "protocol must be valid UTF-8");
}

#[test]
fn project_errors_become_refusals() {
    let r = project_refusal(&MoteError::NotFound("project 'p' not found".to_string()));
    assert_eq!(r.status, 404);
    assert_eq!(r.error, "Not found: project 'p' not found");
    let r = project_refusal(&MoteError::Conflict("x".to_string()));
    assert_eq!(r.status, 409);
    let r = project_refusal(&MoteError::RateLimit);
    assert_eq!(r.status, 500);
    assert_eq!(r.error, "Rate limit exceeded");
}

#[test]
fn missing_protocol_and_bounty_are_not_found() {
    assert_eq!(protocol_reply(Some("steps".to_string())).unwrap(), "steps");
    let e = protocol_reply(None).unwrap_err();
    assert_eq!((e.status, e.error.as_str()), (404, "no protocol set for this project"));
    assert!(matches!(seed_bounty_reply(Some(JsonValue::Bool(true))), Ok(JsonValue::Bool(true))));
    let e = seed_bounty_reply(None).unwrap_err();
    assert_eq!((e.status, e.error.as_str()), (404, "no seed bounty set for this project"));
}

#[test]
fn mcp_error_statuses() {
    assert_eq!(error_status(&MoteError::Authentication("x".to_string())), 401);
    assert_eq!(error_status(&MoteError::NotFound("x".to_string())), 404);
    assert_eq!(error_status(&MoteError::RateLimit), 429);
    assert_eq!(error_status(&MoteError::Validation("x".to_string())), 400);
    assert_eq!(error_status(&MoteError::Conflict("x".to_string())), 500);
}
