use asenix::error::MoteError;
use asenix::json::JsonValue;
use asenix::tools::{get_all_tools, tool_from_name, McpTool};

fn member<'a>(v: &'a JsonValue, key: &str) -> Option<&'a JsonValue> {
    match v {
        JsonValue::Object(members) => members.iter().find(|(k, _)| k == key).map(|(_, v)| v),
        _ => None,
    }
}

fn required(v: &JsonValue) -> Vec<String> {
    match member(v, "required") {
        Some(JsonValue::Array(items)) => items
            .iter()
            .map(|x| match x {
                JsonValue::Str(s) => s.clone(),
                _ => panic!("required entry is not a string"),
            })
            .collect(),
        _ => panic!("schema has no required list"),
    }
}

#[test]
fn tools_are_listed_in_order() {
    let list = get_all_tools();
    let names: Vec<&str> = list.tools.iter().map(|t| t.name.as_str()).collect();
    assert_eq!(
        names,
        vec!["register", "survey", "get_atom", "publish", "claim", "release_claim", "get_lineage", "retract"]
    );
}

#[test]
fn tool_schemas_are_objects_with_required_arguments() {
    let list = get_all_tools();
    for t in &list.tools {
        assert!(matches!(member(&t.input_schema, "type"), Some(JsonValue::Str(s)) if s == "object"));
        assert!(matches!(member(&t.input_schema, "properties"), Some(JsonValue::Object(_))));
        assert!(!t.description.is_empty());
    }
    assert_eq!(required(&list.tools[0].input_schema), vec!["agent_name"]);
    assert_eq!(
        required(&list.tools[3].input_schema),
        vec!["agent_id", "api_token", "atom_type", "domain", "statement"]
    );
    assert_eq!(required(&list.tools[4].input_schema), vec!["agent_id", "api_token", "atom_id", "intent"]);
    assert_eq!(required(&list.tools[7].input_schema), vec!["agent_id", "api_token", "atom_id", "reason"]);
}

#[test]
fn tool_names_resolve() {
    assert_eq!(tool_from_name("register"), Ok(McpTool::Register));
    assert_eq!(tool_from_name("get_lineage"), Ok(McpTool::GetLineage));
    assert_eq!(tool_from_name("retract"), Ok(McpTool::Retract));
    match tool_from_name("delete_everything") {
        Err(MoteError::Validation(m)) => assert_eq!(m, "Unknown tool: delete_everything"),
        other => panic!("unexpected {:?}", other),
    }
}

#[test]
fn tool_descriptions_and_lineage_arguments() {
    let tools = get_all_tools().tools;
    assert!(tools[7].description.starts_with("Retract an atom you published."));
    match &tools[6].input_schema {
        JsonValue::Object(m) => match &m[1].1 {
            JsonValue::Object(props) => {
                let names: Vec<&str> = props.iter().map(|(k, _)| k.as_str()).collect();
                assert_eq!(names, vec!["agent_id", "api_token", "atom_id", "direction", "max_depth", "edge_types"]);
                assert!(matches!(props[4].1.get("type"), Some(JsonValue::Str(t)) if t == "integer"));
            }
            _ => panic!("expected properties"),
        },
        _ => panic!("expected an object schema"),
    }
}
