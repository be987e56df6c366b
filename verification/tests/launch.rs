use asenix::json::JsonValue;
use asenix::launch::{
    agent_config_file, agent_list_row, agent_prompt, agent_registration_name, agent_status_label, answer_is_yes,
    first_chars, is_publish_tool_use, launch_summary_row, mcp_client_config, run_outcome, seed_bounty_atoms,
    seed_publish_payload, string_items, RunOutcome,
};
use asenix::paths::AgentCred;

fn s(t: &str) -> JsonValue {
    JsonValue::Str(t.to_string())
}

fn obj(members: Vec<(&str, JsonValue)>) -> JsonValue {
    JsonValue::Object(members.into_iter().map(|(k, v)| (k.to_string(), v)).collect())
}

fn get<'a>(v: &'a JsonValue, k: &str) -> Option<&'a JsonValue> {
    match v {
        JsonValue::Object(m) => m.iter().find(|(key, _)| key == k).map(|(_, v)| v),
        _ => None,
    }
}

fn text<'a>(v: &'a JsonValue, k: &str) -> Option<&'a str> {
    match get(v, k) {
        Some(JsonValue::Str(t)) => Some(t.as_str()),
        _ => None,
    }
}

fn cred() -> AgentCred {
    AgentCred {
        agent_id: "agent-123".to_string(),
        api_token: "tok".to_string(),
        hub: "http://localhost:3000".to_string(),
        domain: "ml".to_string(),
        created_at: "2025-03-04T05:06:07Z".to_string(),
    }
}

#[test]
fn registration_name_and_config_file() {
    assert_eq!(agent_registration_name("host", "proj", 3), "host-proj-agent-3");
    assert_eq!(
        agent_config_file(&cred(), "http://h", "host", "proj", 2, "p-1"),
        "AGENT_ID=agent-123\nAPI_TOKEN=tok\nSERVER_URL=http://h\nAGENT_NAME=host-proj-2\nPROJECT_ID=p-1\n"
    );
}

#[test]
fn prompt_without_and_with_protocol() {
    let p = agent_prompt("a", "t", "p", "/w", "Proj", "");
    assert_eq!(
        p,
        "Your credentials: AGENT_ID=a API_TOKEN=t PROJECT_ID=p\nWorking directory: /w\nThe MCP server \"asenix\" is configured — use it for all hub calls.\nProject: Proj (id: p)\nIMPORTANT: Every atom you publish must include \"project_id\": \"p\".\nIMPORTANT: Every survey call must include \"project_id\": \"p\"."
    );
    let q = agent_prompt("a", "t", "p", "/w", "Proj", "DOC");
    assert!(q.ends_with("Follow all instructions in the document below exactly.\n\nDOC"));
    assert!(q.contains("\" — this is mandatory.\n"));
    assert!(!q.contains("Project: Proj"));
}

#[test]
fn seed_bounty_wrapped_in_atoms() {
    let bounty = obj(vec![(
        "atoms",
        JsonValue::Array(vec![
            obj(vec![("statement", s("one"))]),
            obj(vec![("statement", s("two")), ("atom_type", s("finding")), ("project_id", s("old"))]),
            s("not an object"),
        ]),
    )]);
    let atoms = seed_bounty_atoms(bounty, "P");
    assert_eq!(atoms.len(), 3);
    assert_eq!(text(&atoms[0], "atom_type"), Some("bounty"));
    assert_eq!(text(&atoms[0], "project_id"), Some("P"));
    assert_eq!(text(&atoms[0], "statement"), Some("one"));
    assert_eq!(text(&atoms[1], "atom_type"), Some("finding"));
    assert_eq!(text(&atoms[1], "project_id"), Some("P"));
    assert!(matches!(&atoms[2], JsonValue::Str(t) if t == "not an object"));
}

#[test]
fn seed_bounty_bare_object() {
    let atoms = seed_bounty_atoms(obj(vec![("statement", s("x")), ("atoms", s("not a list"))]), "P");
    assert_eq!(atoms.len(), 1);
    assert_eq!(text(&atoms[0], "statement"), Some("x"));
    assert_eq!(text(&atoms[0], "atom_type"), Some("bounty"));
    assert_eq!(text(&atoms[0], "atoms"), Some("not a list"));
}

#[test]
fn publish_payload_adds_credentials() {
    let atom = obj(vec![("statement", s("x")), ("project_id", s("keep")), ("api_token", s("stale"))]);
    let p = seed_publish_payload(atom, "A", "T", "P");
    assert_eq!(text(&p, "agent_id"), Some("A"));
    assert_eq!(text(&p, "api_token"), Some("T"));
    assert_eq!(text(&p, "project_id"), Some("keep"));
    assert!(matches!(get(&p, "provenance"), Some(JsonValue::Object(m)) if m.is_empty()));
    let q = seed_publish_payload(obj(vec![]), "A", "T", "P");
    assert_eq!(text(&q, "project_id"), Some("P"));
    assert!(matches!(seed_publish_payload(JsonValue::Null, "A", "T", "P"), JsonValue::Null));
}

#[test]
fn requirements_keep_strings() {
    let v = JsonValue::Array(vec![s("numpy"), JsonValue::PosInt(3), s("torch")]);
    assert_eq!(string_items(&v), vec!["numpy".to_string(), "torch".to_string()]);
    assert!(string_items(&s("numpy")).is_empty());
}

#[test]
fn publish_events_are_recognised() {
    assert!(is_publish_tool_use(&obj(vec![("type", s("tool_use")), ("name", s("mcp__asenix__publish"))])));
    assert!(!is_publish_tool_use(&obj(vec![("type", s("tool_use")), ("name", s("survey"))])));
    assert!(!is_publish_tool_use(&obj(vec![("type", s("assistant")), ("name", s("publish"))])));
}

#[test]
fn run_outcomes() {
    assert_eq!(run_outcome(3, 5, false), RunOutcome::NewAtoms(2));
    assert_eq!(run_outcome(5, 3, true), RunOutcome::PublishCalled);
    assert_eq!(run_outcome(5, 5, false), RunOutcome::NothingPublished);
}

#[test]
fn mcp_config_points_at_hub() {
    let c = mcp_client_config("http://h:1");
    let servers = get(&c, "mcpServers").unwrap();
    let a = get(servers, "asenix").unwrap();
    assert_eq!(text(a, "type"), Some("http"));
    assert_eq!(text(a, "url"), Some("http://h:1/mcp"));
}

#[test]
fn status_labels_and_answers() {
    assert_eq!(agent_status_label(None), "running");
    assert_eq!(agent_status_label(Some(-1)), "exited (-1)");
    assert_eq!(agent_status_label(Some(2)), "exited (2)");
    assert!(answer_is_yes(" Y \n"));
    assert!(answer_is_yes("y"));
    assert!(!answer_is_yes("yes"));
    assert!(!answer_is_yes(""));
}

#[test]
fn table_rows_of_agents() {
    assert_eq!(first_chars("2025-03-04T05:06:07Z", 10), "2025-03-04");
    assert_eq!(first_chars("abc", 10), "abc");
    let row = agent_list_row(7, &cred());
    assert_eq!(row, vec!["7", "agent-123", "http://localhost:3000", "ml", "2025-03-04"]);
    let mut long = cred();
    long.agent_id = "abcdefghijklmnopqrstuvwxyz".to_string();
    let agents = vec![(1usize, cred()), (4usize, long)];
    assert_eq!(launch_summary_row(&agents, 4, "running", "/l"), vec!["4", "abcdefghijklmnopq...", "running", "/l"]);
    assert_eq!(launch_summary_row(&agents, 9, "running", "/l"), vec!["9", "", "running", "/l"]);
}
