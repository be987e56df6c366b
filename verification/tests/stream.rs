use asenix::json::JsonValue;
use asenix::stream::{describe_stream_event, stream_event_cuts_ok, StreamEvent};

fn s(t: &str) -> JsonValue {
    JsonValue::Str(t.to_string())
}

fn obj(members: Vec<(&str, JsonValue)>) -> JsonValue {
    JsonValue::Object(members.into_iter().map(|(k, v)| (k.to_string(), v)).collect())
}

fn tool(name: &str, input: JsonValue) -> JsonValue {
    obj(vec![("type", s("tool_use")), ("name", s(name)), ("input", input)])
}

fn line(v: &JsonValue) -> String {
    assert!(stream_event_cuts_ok(v));
    match describe_stream_event(v) {
        StreamEvent::ToolUse(l) => l,
        other => panic!("unexpected {:?}", other),
    }
}

#[test]
fn assistant_texts_in_order() {
    let v = obj(vec![
        ("type", s("assistant")),
        (
            "message",
            obj(vec![(
                "content",
                JsonValue::Array(vec![
                    obj(vec![("type", s("text")), ("text", s("hello"))]),
                    obj(vec![("type", s("tool_use")), ("text", s("skip"))]),
                    obj(vec![("type", s("text")), ("text", s("world\n"))]),
                ]),
            )]),
        ),
    ]);
    match describe_stream_event(&v) {
        StreamEvent::Assistant(t) => assert_eq!(t, vec!["hello".to_string(), "world\n".to_string()]),
        other => panic!("unexpected {:?}", other),
    }
}

#[test]
fn shell_commands_show_their_first_line() {
    assert_eq!(line(&tool("Bash", obj(vec![("command", s("ls -la\r\necho hi"))]))), "$ ls -la");
    assert_eq!(line(&tool("mcp__x__bash", obj(vec![("command", s("pwd"))]))), "$ pwd");
    assert_eq!(line(&tool("bash", obj(vec![]))), "Bash");
    let long = "x".repeat(130);
    assert_eq!(line(&tool("Bash", obj(vec![("command", s(&long))]))), format!("$ {}…", "x".repeat(120)));
}

#[test]
fn file_tools_show_their_path() {
    assert_eq!(line(&tool("Read", obj(vec![("file_path", s("/a/b.rs"))]))), "Read /a/b.rs");
    assert_eq!(line(&tool("mcp__fs__Grep", obj(vec![("pattern", s("fn main"))]))), "Grep fn main");
    assert_eq!(line(&tool("Glob", obj(vec![]))), "Glob ?");
    assert_eq!(line(&tool("a___Edit", obj(vec![("path", s("p"))]))), "_Edit p");
}

#[test]
fn other_tools_show_a_detail() {
    assert_eq!(line(&tool("mcp__asenix__publish", obj(vec![("statement", s("loss drops"))]))), "publish: \"loss drops\"");
    assert_eq!(line(&tool("survey", obj(vec![("domain", s("ml"))]))), "survey [ml]");
    assert_eq!(line(&tool("survey", obj(vec![]))), "survey");
    let long = "y".repeat(90);
    assert_eq!(line(&tool("claim", obj(vec![("hypothesis", s(&long))]))), format!("claim: \"{}\"", "y".repeat(80)));
    assert_eq!(line(&obj(vec![("type", s("tool_use"))])), "?");
}

#[test]
fn cuts_inside_a_character_are_detected() {
    let mut text = "a".repeat(79);
    text.push('é');
    let v = tool("survey", obj(vec![("query", s(&text))]));
    assert!(!stream_event_cuts_ok(&v));
    assert!(stream_event_cuts_ok(&obj(vec![("type", s("result"))])));
}

#[test]
fn results_and_other_events() {
    assert!(matches!(describe_stream_event(&obj(vec![("type", s("result"))])), StreamEvent::Result));
    assert!(matches!(describe_stream_event(&obj(vec![("type", s("system"))])), StreamEvent::Other));
    assert!(matches!(describe_stream_event(&JsonValue::Null), StreamEvent::Other));
}
