use asenix::acceptance::{AcceptanceDecision, AcceptancePipeline};
use asenix::atom::{AtomInput, AtomType};
use asenix::json::JsonValue;

fn empty_object() -> JsonValue {
    JsonValue::Object(Vec::new())
}

fn atom(atom_type: AtomType, domain: &str, statement: &str, metrics: Option<JsonValue>, signature: Vec<u8>) -> AtomInput {
    AtomInput {
        atom_type,
        domain: domain.to_string(),
        statement: statement.to_string(),
        conditions: empty_object(),
        metrics,
        provenance: empty_object(),
        signature,
        artifact_tree_hash: None,
        artifact_inline: None,
    }
}

fn accuracy_metrics() -> JsonValue {
    // {"accuracy": 0.95}
    JsonValue::Object(vec![("accuracy".to_string(), JsonValue::Float(0.95f64.to_bits()))])
}

#[test]
fn test_statement_length_validation() {
    let pipeline = AcceptancePipeline::new();

    // Too short
    let short_atom = atom(AtomType::Finding, "test", "short", None, vec![1, 2, 3]);
    match pipeline.evaluate_atom(&short_atom) {
        AcceptanceDecision::Reject(_) => {}
        _ => panic!("Expected rejection for short statement"),
    }

    // Valid length
    let valid_atom = atom(
        AtomType::Finding,
        "test",
        "This is a valid statement length",
        Some(accuracy_metrics()),
        vec![1, 2, 3],
    );
    match pipeline.evaluate_atom(&valid_atom) {
        AcceptanceDecision::Accept => {}
        _ => panic!("Expected acceptance for valid statement"),
    }
}

#[test]
fn rejection_messages_follow_rule_priority() {
    let pipeline = AcceptancePipeline::new();
    // Both too short and without a domain: the length rule runs first.
    let a = atom(AtomType::Delta, "", "tiny", None, vec![]);
    match pipeline.evaluate_atom(&a) {
        AcceptanceDecision::Reject(m) => assert_eq!(m, "Statement too short (minimum 10 characters)"),
        other => panic!("unexpected {:?}", other),
    }
    let long = "x".repeat(10001);
    let a = atom(AtomType::Delta, "d", &long, None, vec![1]);
    match pipeline.evaluate_atom(&a) {
        AcceptanceDecision::Reject(m) => assert_eq!(m, "Statement too long (maximum 10000 characters)"),
        other => panic!("unexpected {:?}", other),
    }
    let a = atom(AtomType::Delta, "", "long enough statement", None, vec![1]);
    match pipeline.evaluate_atom(&a) {
        AcceptanceDecision::Reject(m) => assert_eq!(m, "Domain is required"),
        other => panic!("unexpected {:?}", other),
    }
    let a = atom(AtomType::Delta, "bio", "long enough statement", None, vec![]);
    match pipeline.evaluate_atom(&a) {
        AcceptanceDecision::Reject(m) => assert_eq!(m, "Signature is required"),
        other => panic!("unexpected {:?}", other),
    }
    let a = atom(AtomType::Delta, "bad domain!", "long enough statement", None, vec![1]);
    match pipeline.evaluate_atom(&a) {
        AcceptanceDecision::Reject(m) => assert_eq!(m, "Domain contains invalid characters"),
        other => panic!("unexpected {:?}", other),
    }
    let a = atom(AtomType::Delta, &"d".repeat(101), "long enough statement", None, vec![1]);
    match pipeline.evaluate_atom(&a) {
        AcceptanceDecision::Reject(m) => assert_eq!(m, "Domain too long (maximum 100 characters)"),
        other => panic!("unexpected {:?}", other),
    }
}

#[test]
fn hypotheses_and_findings_may_be_queued() {
    let pipeline = AcceptancePipeline::new();
    let h = atom(AtomType::Hypothesis, "ml-vision_2", "long enough statement", None, vec![1]);
    match pipeline.evaluate_atom(&h) {
        AcceptanceDecision::Queue(m) => assert_eq!(m, "Hypothesis without conditions queued for review"),
        other => panic!("unexpected {:?}", other),
    }
    let f = atom(AtomType::Finding, "ml", "long enough statement", None, vec![1]);
    match pipeline.evaluate_atom(&f) {
        AcceptanceDecision::Queue(m) => assert_eq!(m, "Finding without metrics queued for review"),
        other => panic!("unexpected {:?}", other),
    }
    let mut h2 = atom(AtomType::Hypothesis, "ml", "long enough statement", None, vec![1]);
    h2.conditions = JsonValue::Object(vec![("lr".to_string(), JsonValue::PosInt(3))]);
    assert!(matches!(pipeline.evaluate_atom(&h2), AcceptanceDecision::Accept));
}

#[test]
fn disabled_rules_are_skipped_and_unknown_rules_refused() {
    let mut pipeline = AcceptancePipeline::new();
    let short_atom = atom(AtomType::Delta, "test", "short", None, vec![1]);
    assert!(pipeline.disable_rule("statement_length").is_ok());
    assert!(matches!(pipeline.evaluate_atom(&short_atom), AcceptanceDecision::Accept));
    assert!(pipeline.enable_rule("statement_length").is_ok());
    assert!(matches!(pipeline.evaluate_atom(&short_atom), AcceptanceDecision::Reject(_)));
    match pipeline.enable_rule("no_such_rule") {
        Err(asenix::error::MoteError::Validation(m)) => assert_eq!(m, "Rule 'no_such_rule' not found"),
        other => panic!("unexpected {:?}", other),
    }
    let rules = pipeline.list_rules();
    let names: Vec<&str> = rules.iter().map(|r| r.name.as_str()).collect();
    assert_eq!(names, vec!["statement_length", "required_fields", "domain_validation", "atom_type_limits"]);
    let priorities: Vec<u32> = rules.iter().map(|r| r.priority).collect();
    assert_eq!(priorities, vec![300, 200, 150, 100]);
    assert!(rules.iter().all(|r| r.enabled));
}

#[test]
fn all_rules_disabled_accepts_anything() {
    let mut pipeline = AcceptancePipeline::default();
    for name in ["statement_length", "required_fields", "domain_validation", "atom_type_limits"] {
        pipeline.disable_rule(name).unwrap();
    }
    let a = atom(AtomType::Hypothesis, "", "", None, vec![]);
    assert!(matches!(pipeline.evaluate_atom(&a), AcceptanceDecision::Accept));
}

#[test]
fn length_limits_count_characters() {
    let pipeline = AcceptancePipeline::new();
    // five characters, ten bytes
    let short = atom(AtomType::Finding, "test", "ééééé", Some(accuracy_metrics()), vec![1, 2, 3]);
    match pipeline.evaluate_atom(&short) {
        AcceptanceDecision::Reject(m) => assert_eq!(m, "Statement too short (minimum 10 characters)"),
        _ => panic!("expected a rejection"),
    }
    // ten characters, twenty bytes
    let ok = atom(AtomType::Finding, "test", "éééééééééé", Some(accuracy_metrics()), vec![1, 2, 3]);
    assert!(matches!(pipeline.evaluate_atom(&ok), AcceptanceDecision::Accept));
    // a 100-character domain of two-byte letters is not too long
    let domain = "é".repeat(100);
    let d = atom(AtomType::Finding, &domain, "This is a valid statement", Some(accuracy_metrics()), vec![1, 2, 3]);
    assert!(matches!(pipeline.evaluate_atom(&d), AcceptanceDecision::Accept));
    let domain = "é".repeat(101);
    let d = atom(AtomType::Finding, &domain, "This is a valid statement", Some(accuracy_metrics()), vec![1, 2, 3]);
    match pipeline.evaluate_atom(&d) {
        AcceptanceDecision::Reject(m) => assert_eq!(m, "Domain too long (maximum 100 characters)"),
        _ => panic!("expected a rejection"),
    }
}
