use asenix::sql::{search_atoms_query, synthesis_atoms_query, edge_type_clause};

#[test]
fn search_query_without_filters() {
    let q = search_atoms_query(None, None, None, None, None, 20, 0);
    assert_eq!(
        q.text,
        "SELECT * FROM atoms WHERE NOT retracted AND NOT archived ORDER BY created_at DESC LIMIT 20 OFFSET 0"
    );
    assert!(q.binds.is_empty());
}

#[test]
fn search_query_numbers_present_filters_in_order() {
    let q = search_atoms_query(Some("ml"), None, Some("core"), Some("loss"), Some("proj_1"), 5, 10);
    assert_eq!(
        q.text,
        "SELECT * FROM atoms WHERE NOT retracted AND NOT archived AND domain = $1 AND lifecycle = $2 \
AND statement ILIKE $3 AND project_id = $4 ORDER BY created_at DESC LIMIT 5 OFFSET 10"
    );
    assert_eq!(q.binds, vec!["ml".to_string(), "core".to_string(), "%loss%".to_string(), "proj_1".to_string()]);
}

#[test]
fn search_query_negative_limit_is_written_as_given() {
    let q = search_atoms_query(None, Some("finding"), None, None, None, -1, -2);
    assert!(q.text.ends_with("AND type = $1 ORDER BY created_at DESC LIMIT -1 OFFSET -2"));
    assert_eq!(q.binds, vec!["finding".to_string()]);
}

#[test]
fn synthesis_query_with_and_without_domain() {
    let q = synthesis_atoms_query(None);
    assert_eq!(
        q.text,
        "SELECT * FROM atoms WHERE type = 'synthesis' AND NOT retracted AND NOT archived ORDER BY created_at DESC"
    );
    assert!(q.binds.is_empty());
    let q = synthesis_atoms_query(Some("vision"));
    assert_eq!(
        q.text,
        "SELECT * FROM atoms WHERE type = 'synthesis' AND NOT retracted AND NOT archived AND domain = $1 ORDER BY created_at DESC"
    );
    assert_eq!(q.binds, vec!["vision".to_string()]);
}

#[test]
fn edge_type_clause_has_one_placeholder_per_type() {
    assert_eq!(edge_type_clause(None), "");
    let none: Vec<String> = vec![];
    assert_eq!(edge_type_clause(Some(&none)), "AND e.type IN ()");
    let one = vec!["derived_from".to_string()];
    assert_eq!(edge_type_clause(Some(&one)), "AND e.type IN (?)");
    let three = vec!["a".to_string(), "b".to_string(), "c".to_string()];
    assert_eq!(edge_type_clause(Some(&three)), "AND e.type IN (?,?,?)");
}
