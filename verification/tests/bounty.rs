use asenix::bounty::{
    add_condition, bounty_publish_args, bounty_row_texts, bounty_search_args, bounty_statement, conditions_preview,
    no_bounties_message, parse_metric_line, published_atom_id, MetricLine,
};
use asenix::json::JsonValue;

fn s(t: &str) -> JsonValue {
    JsonValue::Str(t.to_string())
}

fn obj(members: Vec<(&str, JsonValue)>) -> JsonValue {
    JsonValue::Object(members.into_iter().map(|(k, v)| (k.to_string(), v)).collect())
}

fn get<'a>(v: &'a JsonValue, k: &str) -> Option<&'a JsonValue> {
    match v {
        JsonValue::Object(m) => m.iter().find(|(key, _)| key == k).map(|(_, v)| v),
        _ => None,
    }
}

#[test]
fn statements_join_their_lines() {
    assert_eq!(bounty_statement(&[]), None);
    assert_eq!(bounty_statement(&["a".to_string(), "b".to_string()]), Some("a\nb".to_string()));
}

#[test]
fn conditions_are_sorted_and_replaced() {
    let mut c: Vec<(String, JsonValue)> = Vec::new();
    assert!(add_condition(&mut c, " model = resnet "));
    assert!(add_condition(&mut c, "dataset=imagenet"));
    assert!(!add_condition(&mut c, "no equals sign"));
    assert!(add_condition(&mut c, "model=vit=b"));
    let keys: Vec<&str> = c.iter().map(|(k, _)| k.as_str()).collect();
    assert_eq!(keys, vec!["dataset", "model"]);
    assert_eq!(conditions_preview(&c), "dataset=imagenet, model=vit=b");
    assert_eq!(conditions_preview(&[]), "");
}

#[test]
fn metric_lines() {
    match parse_metric_line("loss=2.5:nats:lower_better") {
        MetricLine::Full { name, value, unit, direction } => {
            assert_eq!(name, "loss");
            assert_eq!(value, "2.5");
            assert_eq!(unit, Some("nats".to_string()));
            assert_eq!(direction, "lower_better");
        }
        other => panic!("unexpected {:?}", other),
    }
    match parse_metric_line("acc = 0.9 : ") {
        MetricLine::Full { unit, direction, .. } => {
            assert_eq!(unit, None);
            assert_eq!(direction, "neutral");
        }
        other => panic!("unexpected {:?}", other),
    }
    match parse_metric_line("acc=0.9") {
        MetricLine::Bare { name, value } => {
            assert_eq!(name, "acc");
            assert_eq!(value, "0.9");
        }
        other => panic!("unexpected {:?}", other),
    }
    assert!(matches!(parse_metric_line("acc:0.9"), MetricLine::Malformed));
    assert!(matches!(parse_metric_line("nothing"), MetricLine::Malformed));
}

#[test]
fn publish_args_hold_one_bounty() {
    let a = bounty_publish_args("A", "T", "ml", "stmt", obj(vec![]), vec![JsonValue::PosInt(1)]);
    assert!(matches!(get(&a, "agent_id"), Some(JsonValue::Str(t)) if t == "A"));
    let atoms = match get(&a, "atoms") {
        Some(JsonValue::Array(x)) => x,
        other => panic!("unexpected {:?}", other),
    };
    assert_eq!(atoms.len(), 1);
    assert!(matches!(get(&atoms[0], "atom_type"), Some(JsonValue::Str(t)) if t == "bounty"));
    assert!(matches!(get(&atoms[0], "statement"), Some(JsonValue::Str(t)) if t == "stmt"));
    assert!(matches!(get(&atoms[0], "metrics"), Some(JsonValue::Array(m)) if m.len() == 1));
}

#[test]
fn published_ids() {
    assert_eq!(published_atom_id(&obj(vec![("published_atoms", JsonValue::Array(vec![s("at-1"), s("at-2")]))])), "at-1");
    assert_eq!(published_atom_id(&obj(vec![("published_atoms", JsonValue::Array(vec![]))])), "unknown");
    assert_eq!(published_atom_id(&obj(vec![("published_atoms", obj(vec![("0", s("k"))]))])), "k");
    assert_eq!(published_atom_id(&JsonValue::Null), "unknown");
}

#[test]
fn bounty_search_and_rows() {
    let a = bounty_search_args(Some("ml"));
    match &a {
        JsonValue::Object(m) => {
            let keys: Vec<&str> = m.iter().map(|(k, _)| k.as_str()).collect();
            assert_eq!(keys, vec!["domain", "limit", "type"]);
        }
        other => panic!("unexpected {:?}", other),
    }
    assert!(matches!(get(&bounty_search_args(None), "limit"), Some(JsonValue::PosInt(50))));
    assert!(get(&bounty_search_args(None), "domain").is_none());
    let atom = obj(vec![
        ("atom_id", s("0123456789abcdefgh")),
        ("statement", s("short")),
        ("created_at", s("2025-01-02T03:04:05Z")),
    ]);
    assert_eq!(bounty_row_texts(&atom), vec!["0123456789a...", "short", "2025-01-02"]);
    assert_eq!(bounty_row_texts(&JsonValue::Null), vec!["", "", ""]);
    assert_eq!(no_bounties_message(Some("ml")), "No bounties found in domain 'ml'.");
    assert_eq!(no_bounties_message(None), "No bounties found.");
}
