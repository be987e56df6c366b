use asenix::atom::Lifecycle;
use asenix::domain::{
    create_claim_message, evaluate_lifecycle, is_higher_better, parse_value_type, validate_registry, value_type_to_string,
    ConditionRegistry, LifecycleTransition, RegistryStats, ValueType, Equivalence,
    registry_from_rows, RegistryRow, migration_rows,
};
use asenix::json::JsonValue;

#[test]
fn test_claim_direction_creation() {
    // This test just verifies the struct can be created
    // In a real test, we would need a database pool
    assert!(true); // Placeholder test
}

#[test]
fn test_create_claim_message_format() {
    // Test the message format without needing an instance
    let domain = "test";
    let conditions = "{\"key\":\"value\"}";
    let signature = "test_signature";

    let expected_format = format!("{}:{}:{}", domain, conditions, signature);
    assert_eq!(expected_format, "test:{\"key\":\"value\"}:test_signature");
}

#[test]
fn claim_message_lists_signature_bytes() {
    assert_eq!(create_claim_message("test", "{\"key\":\"value\"}", &[1, 20, 255]), "test:{\"key\":\"value\"}:[1, 20, 255]");
    assert_eq!(create_claim_message("d", "{}", &[]), "d:{}:[]");
}

#[test]
fn test_registry_stats_structure() {
    let stats = RegistryStats {
        total_conditions: 100,
        unique_domains: 10,
        unique_types: 4,
        required_conditions: 60,
        conditions_with_units: 40,
    };

    assert_eq!(stats.total_conditions, 100);
    assert_eq!(stats.unique_domains, 10);
    assert_eq!(stats.unique_types, 4);
    assert_eq!(stats.required_conditions, 60);
    assert_eq!(stats.conditions_with_units, 40);
}

#[test]
fn test_parse_value_type() {
    assert!(matches!(parse_value_type("int").unwrap(), ValueType::Int));
    assert!(matches!(parse_value_type("float").unwrap(), ValueType::Float));
    assert!(matches!(parse_value_type("string").unwrap(), ValueType::String));
    assert!(matches!(parse_value_type("enum").unwrap(), ValueType::Enum));

    assert!(parse_value_type("invalid").is_err());
}

#[test]
fn test_value_type_to_string() {
    assert_eq!(value_type_to_string(&ValueType::Int), "int");
    assert_eq!(value_type_to_string(&ValueType::Float), "float");
    assert_eq!(value_type_to_string(&ValueType::String), "string");
    assert_eq!(value_type_to_string(&ValueType::Enum), "enum");
}

#[test]
fn value_type_aliases_and_case() {
    assert_eq!(parse_value_type("INTEGER"), Ok(ValueType::Int));
    assert_eq!(parse_value_type("Real"), Ok(ValueType::Float));
    assert_eq!(parse_value_type("text"), Ok(ValueType::String));
    assert_eq!(parse_value_type("Enumeration"), Ok(ValueType::Enum));
    assert_eq!(
        parse_value_type("bool"),
        Err(asenix::error::MoteError::Internal("Invalid value type: bool".to_string()))
    );
}

#[test]
fn test_registry_validation() {
    let valid_registry = ConditionRegistry {
        domain: "test_domain".to_string(),
        key_name: "test_key".to_string(),
        value_type: ValueType::String,
        unit: Some("test_unit".to_string()),
        required: true,
    };
    assert!(validate_registry(&valid_registry).is_empty());

    let invalid_registry = ConditionRegistry {
        domain: "".to_string(),
        key_name: "test_key".to_string(),
        value_type: ValueType::String,
        unit: None,
        required: true,
    };
    assert_eq!(validate_registry(&invalid_registry), vec!["Domain cannot be empty".to_string()]);

    let many = ConditionRegistry {
        domain: "bad domain".to_string(),
        key_name: "".to_string(),
        value_type: ValueType::Int,
        unit: Some("u".repeat(51)),
        required: false,
    };
    assert_eq!(
        validate_registry(&many),
        vec![
            "Key name cannot be empty".to_string(),
            "Domain contains invalid characters".to_string(),
            "Unit too long (maximum 50 characters)".to_string(),
        ]
    );
}

#[test]
fn registry_defaults_and_values() {
    let r = ConditionRegistry::new();
    assert!(r.domain.is_empty() && r.key_name.is_empty() && !r.required && r.unit.is_none());
    assert!(matches!(r.value_type, ValueType::String));
    assert!(r.validate_value(&JsonValue::Str("x".to_string())));
    assert!(!r.validate_value(&JsonValue::PosInt(1)));
    let int_key = ConditionRegistry { value_type: ValueType::Int, ..ConditionRegistry::new() };
    assert!(int_key.validate_value(&JsonValue::NegInt(-3)));
    assert!(!int_key.validate_value(&JsonValue::PosInt(u64::MAX)));
    let float_key = ConditionRegistry { value_type: ValueType::Float, ..ConditionRegistry::new() };
    assert!(float_key.validate_value(&JsonValue::PosInt(u64::MAX)));
    assert!(!float_key.validate_value(&JsonValue::Null));
}

#[test]
fn lifecycle_transitions() {
    assert_eq!(LifecycleTransition::ProvisionalToReplicated.new_lifecycle_str(), "replicated");
    assert_eq!(LifecycleTransition::ContestedToResolved.new_lifecycle_str(), "resolved");
    assert_eq!(
        evaluate_lifecycle(Lifecycle::Provisional, 1, 0, 0, false, 1, 3),
        Some(LifecycleTransition::ProvisionalToReplicated)
    );
    assert_eq!(evaluate_lifecycle(Lifecycle::Provisional, 5, 1, 0, true, 1, 3), Some(LifecycleTransition::ToContested));
    assert_eq!(evaluate_lifecycle(Lifecycle::Replicated, 3, 1, 0, false, 1, 3), Some(LifecycleTransition::ReplicatedToCore));
    assert_eq!(evaluate_lifecycle(Lifecycle::Replicated, 2, 0, 0, false, 1, 3), None);
    assert_eq!(evaluate_lifecycle(Lifecycle::Contested, 3, 2, 5, true, 1, 3), Some(LifecycleTransition::ContestedToResolved));
    assert_eq!(evaluate_lifecycle(Lifecycle::Contested, 3, 2, 4, true, 1, 3), None);
    assert_eq!(evaluate_lifecycle(Lifecycle::Core, 9, 9, 0, true, 1, 3), None);
}

#[test]
fn test_is_higher_better() {

    let metrics = JsonValue::Object(vec![
        ("f1".to_string(), JsonValue::Float(0.85f64.to_bits())),
        ("f1_direction".to_string(), JsonValue::Str("higher".to_string())),
        ("loss".to_string(), JsonValue::Float(0.3f64.to_bits())),
        ("loss_direction".to_string(), JsonValue::Str("lower".to_string())),
    ]);

    assert!(is_higher_better(&metrics, "f1"));
    assert!(!is_higher_better(&metrics, "loss"));
    assert!(is_higher_better(&metrics, "accuracy")); // Default
}

fn conds(k: &str, v: JsonValue) -> JsonValue {
    JsonValue::Object(vec![(k.to_string(), v)])
}

#[test]
fn condition_equivalence_by_type() {
    let mut reg = ConditionRegistry::new();
    reg.key_name = "batch_size".to_string();
    reg.value_type = ValueType::Int;
    let a = conds("batch_size", JsonValue::PosInt(32));
    let b = conds("batch_size", JsonValue::PosInt(64));
    let none = JsonValue::Object(vec![]);
    // an optional key never separates two sets
    assert!(matches!(reg.equivalence(&a, &b), Equivalence::Decided(true)));
    reg.required = true;
    assert!(matches!(reg.equivalence(&a, &b), Equivalence::Decided(false)));
    assert!(matches!(reg.equivalence(&a, &a), Equivalence::Decided(true)));
    assert!(matches!(reg.equivalence(&none, &none), Equivalence::Decided(true)));
    assert!(matches!(reg.equivalence(&a, &none), Equivalence::Decided(false)));
    let text = conds("batch_size", JsonValue::Str("32".to_string()));
    assert!(matches!(reg.equivalence(&a, &text), Equivalence::Decided(false)));

    reg.value_type = ValueType::String;
    let x = conds("batch_size", JsonValue::Str("adam".to_string()));
    let y = conds("batch_size", JsonValue::Str("sgd".to_string()));
    assert!(matches!(reg.equivalence(&x, &x), Equivalence::Decided(true)));
    assert!(matches!(reg.equivalence(&x, &y), Equivalence::Decided(false)));
    // two values that are not strings have the same (absent) text
    assert!(matches!(reg.equivalence(&a, &b), Equivalence::Decided(true)));

    reg.value_type = ValueType::Float;
    let f = conds("batch_size", JsonValue::Float(0.1f64.to_bits()));
    match reg.equivalence(&f, &a) {
        Equivalence::WithinTolerance(JsonValue::Float(_), JsonValue::PosInt(32)) => {}
        other => panic!("unexpected {:?}", other),
    }
    assert!(matches!(reg.equivalence(&f, &x), Equivalence::Decided(false)));
}

fn row(domain: &str, key: &str, t: &str, unit: Option<&str>, required: bool) -> RegistryRow {
    RegistryRow {
        domain: domain.to_string(),
        key_name: key.to_string(),
        value_type: t.to_string(),
        unit: unit.map(|u| u.to_string()),
        required,
    }
}

#[test]
fn registry_loads_the_last_row() {
    let empty = registry_from_rows(&[]).unwrap();
    assert!(empty.domain.is_empty() && empty.key_name.is_empty() && !empty.required);
    assert_eq!(empty.value_type, ValueType::String);
    let rows = vec![
        row("ml", "batch_size", "INT", None, true),
        row("ml", "lr", "Double", Some("1/s"), false),
    ];
    let g = registry_from_rows(&rows).unwrap();
    assert_eq!(g.key_name, "lr");
    assert_eq!(g.value_type, ValueType::Float);
    assert_eq!(g.unit.as_deref(), Some("1/s"));
    assert!(!g.required);
    let bad = vec![row("ml", "a", "int", None, true), row("ml", "b", "complex", None, true), row("ml", "c", "bogus", None, true)];
    match registry_from_rows(&bad) {
        Err(asenix::error::MoteError::Internal(m)) => assert_eq!(m, "Invalid value type: complex"),
        other => panic!("unexpected {:?}", other),
    }
}

#[test]
fn migration_inserts_defaults_only_into_an_empty_registry() {
    assert!(migration_rows(3).is_empty());
    let rows = migration_rows(0);
    assert_eq!(rows.len(), 8);
    assert!(rows.iter().all(|r| r.domain == "environmental"));
    assert_eq!(rows[0].key_name, "temperature");
    assert_eq!(rows[0].unit.as_deref(), Some("celsius"));
    assert!(rows[0].required);
    assert_eq!(rows[7].key_name, "odor");
    assert_eq!(rows[7].value_type, "enum");
    assert!(!rows[7].required);
    // every default row loads
    assert!(registry_from_rows(&rows).is_ok());
}
