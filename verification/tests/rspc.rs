use asenix::json::JsonValue;
use asenix::rspc::{
    owner_token, rspc_edges, rspc_method, rspc_project_filter, rspc_project_input, rspc_required_text,
    rspc_search_params, RspcMethod,
};

fn s(t: &str) -> JsonValue {
    JsonValue::Str(t.to_string())
}

fn obj(members: Vec<(&str, JsonValue)>) -> JsonValue {
    JsonValue::Object(members.into_iter().map(|(k, v)| (k.to_string(), v)).collect())
}

#[test]
fn procedures_by_name() {
    assert_eq!(rspc_method("searchAtoms"), Some(RspcMethod::SearchAtoms));
    assert_eq!(rspc_method("getGraphWithEmbeddings"), Some(RspcMethod::GetGraphWithEmbeddings));
    assert_eq!(rspc_method("unban_atom"), Some(RspcMethod::UnbanAtom));
    assert_eq!(rspc_method("search_atoms"), None);
}

#[test]
fn search_parameters() {
    let p = obj(vec![("domain", s("ml")), ("limit", JsonValue::PosInt(5)), ("project_id", s("p1")), ("type", JsonValue::Null)]);
    let (sp, pid) = rspc_search_params(Some(&p));
    assert_eq!(sp.domain, Some("ml"));
    assert_eq!(sp.atom_type, None);
    assert_eq!(sp.limit, 5);
    assert_eq!(sp.offset, 0);
    assert_eq!(pid, Some("p1"));
    let (sp, pid) = rspc_search_params(None);
    assert_eq!(sp.limit, 50);
    assert_eq!(pid, None);
    assert_eq!(rspc_project_filter(Some(&obj(vec![("project_id", JsonValue::PosInt(1))]))), None);
}

#[test]
fn required_fields() {
    let p = obj(vec![("name", s("N")), ("slug", s("n")), ("description", s("d")), ("atom_id", s("a"))]);
    assert_eq!(rspc_required_text(Some(&p), "atom_id"), Ok("a"));
    assert_eq!(rspc_required_text(Some(&p), "project_id"), Err(400));
    assert_eq!(rspc_required_text(None, "atom_id"), Err(400));
    let i = rspc_project_input(Some(&p)).unwrap();
    assert_eq!((i.name, i.slug, i.description), ("N", "n", Some("d")));
    assert!(matches!(rspc_project_input(Some(&obj(vec![("name", s("N"))]))), Err(400)));
}

#[test]
fn graph_edges_skip_incomplete_entries() {
    let full = obj(vec![
        ("source_id", s("a")),
        ("target_id", s("b")),
        ("edge_type", s("derived_from")),
        ("created_at", s("t")),
        ("repl_type", s("exact")),
    ]);
    let partial = obj(vec![("source_id", s("a")), ("target_id", s("b"))]);
    let no_repl = obj(vec![("source_id", s("c")), ("target_id", s("d")), ("edge_type", s("contradicts")), ("created_at", s("u"))]);
    let edges = rspc_edges(&obj(vec![("edges", JsonValue::Array(vec![full, partial, no_repl]))])).unwrap();
    assert_eq!(edges.len(), 2);
    assert_eq!(edges[0].repl_type, Some("exact".to_string()));
    assert_eq!(edges[1].source_id, "c");
    assert_eq!(edges[1].repl_type, None);
    assert!(rspc_edges(&obj(vec![])).is_none());
}

#[test]
fn owner_checks() {
    assert_eq!(owner_token(false, Some("Bearer x")), Err(500));
    assert_eq!(owner_token(true, None), Err(401));
    assert_eq!(owner_token(true, Some("Basic x")), Err(401));
    assert_eq!(owner_token(true, Some("Bearer abc.def")), Ok("abc.def"));
}
