use asenix::error::MoteError;
use asenix::json::JsonValue;
use asenix::review::{review_status_after, check_review_request, review_page, review_reply};

#[test]
fn decisions_give_statuses() {
    assert_eq!(review_status_after("approve").unwrap(), "approved");
    assert_eq!(review_status_after("reject").unwrap(), "rejected");
    assert_eq!(review_status_after("auto_approve").unwrap(), "auto_approved");
    assert_eq!(review_status_after("maybe"), Err(MoteError::Validation("Invalid decision".to_string())));
}

#[test]
fn review_requests_are_checked() {
    assert_eq!(
        check_review_request("delete", true),
        Err((400, "Invalid action. Must be 'approve' or 'reject'".to_string()))
    );
    assert_eq!(check_review_request("approve", false), Err((404, "Atom not found".to_string())));
    assert_eq!(check_review_request("reject", true), Ok(()));
}

#[test]
fn review_page_defaults() {
    assert_eq!(review_page(None, None), (50, 0));
    assert_eq!(review_page(Some(5), Some(10)), (5, 10));
}

#[test]
fn review_reply_defaults_its_reason() {
    let r = review_reply("approve", "atom_1", "rev_9", None);
    assert!(matches!(r.get("reason"), Some(JsonValue::Str(s)) if s == "Reviewed by system"));
    assert!(matches!(r.get("status"), Some(JsonValue::Str(s)) if s == "approve"));
    assert!(matches!(r.get("review_id"), Some(JsonValue::Str(s)) if s == "rev_9"));
    let r = review_reply("reject", "atom_1", "rev_9", Some("duplicate".to_string()));
    assert!(matches!(r.get("reason"), Some(JsonValue::Str(s)) if s == "duplicate"));
    assert!(matches!(r.get("atom_id"), Some(JsonValue::Str(s)) if s == "atom_1"));
}
