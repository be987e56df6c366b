use asenix::error::MoteError;
use asenix::graph::{EdgeType, GraphCache, TraversalDirection};
use asenix::json::JsonValue;

fn sample() -> GraphCache {
    // a -> b (derived_from), b -> c (replicates), d -> a (contradicts)
    let mut g = GraphCache::new();
    g.add_edge("a", "b", EdgeType::DerivedFrom).unwrap();
    g.add_edge("b", "c", EdgeType::Replicates).unwrap();
    g.add_edge("d", "a", EdgeType::Contradicts).unwrap();
    g
}

#[test]
fn edges_and_conflicts() {
    let mut g = sample();
    assert_eq!(g.node_count(), 4);
    assert_eq!(g.edge_count(), 3);
    assert_eq!(g.add_edge("a", "b", EdgeType::Supersedes), Err(MoteError::Conflict("Edge already exists".to_string())));
    assert_eq!(g.add_node("a".to_string()), 0);
    assert_eq!(g.add_node("e".to_string()), 4);
    assert_eq!(EdgeType::from_str("retracts"), Ok(EdgeType::Retracts));
    assert_eq!(EdgeType::Summarizes.as_str(), "summarizes");
    assert!(EdgeType::from_str("cites").is_err());
}

#[test]
fn bfs_by_type_and_direction() {
    let g = sample();
    let all = [
        EdgeType::DerivedFrom,
        EdgeType::Replicates,
        EdgeType::Contradicts,
    ];
    let mut out = g.traverse_bfs("a", &all, 5, TraversalDirection::Outgoing);
    out.sort();
    assert_eq!(out, vec!["b".to_string(), "c".to_string()]);
    let one = g.traverse_bfs("a", &all, 1, TraversalDirection::Outgoing);
    assert_eq!(one, vec!["b".to_string()]);
    let mut both = g.traverse_bfs("a", &all, 1, TraversalDirection::Both);
    both.sort();
    assert_eq!(both, vec!["b".to_string(), "d".to_string()]);
    let typed = g.traverse_bfs("a", &[EdgeType::Replicates], 5, TraversalDirection::Outgoing);
    assert!(typed.is_empty());
    assert!(g.traverse_bfs("zzz", &all, 5, TraversalDirection::Both).is_empty());
}

#[test]
fn lineage_walks() {
    let g = sample();
    let desc = g.traverse("a", "descendants", 5, None);
    assert_eq!(desc.nodes, vec!["a".to_string(), "b".to_string(), "c".to_string()]);
    assert_eq!(desc.edges.len(), 2);
    assert_eq!((desc.edges[0].source.as_str(), desc.edges[0].target.as_str(), desc.edges[0].edge_type.as_str()), ("a", "b", "derived_from"));
    let anc = g.traverse("a", "ancestors", 5, None);
    assert_eq!(anc.nodes, vec!["a".to_string(), "d".to_string()]);
    assert_eq!(anc.edges[0].edge_type, "contradicts");
    let filter = vec!["contradicts".to_string()];
    let both = g.traverse("a", "both", 5, Some(&filter));
    assert_eq!(both.nodes, vec!["a".to_string(), "d".to_string()]);
    // The edge d -> a is met from both of its ends.
    assert_eq!(both.edges.len(), 2);
    assert!(both.edges.iter().all(|e| e.source == "d" && e.target == "a"));
    let unknown = g.traverse("nope", "both", 3, None);
    assert_eq!(unknown.nodes, vec!["nope".to_string()]);
    assert!(unknown.edges.is_empty());
    let shallow = g.traverse("a", "descendants", 0, None);
    assert_eq!(shallow.nodes, vec!["a".to_string()]);
    assert!(shallow.edges.is_empty());
}

#[test]
fn edges_of_an_atom() {
    let g = sample();
    let es = g.get_edges("a");
    let triples: Vec<(String, String, String)> =
        es.into_iter().map(|e| (e.source, e.target, e.edge_type)).collect();
    assert_eq!(
        triples,
        vec![
            ("a".to_string(), "b".to_string(), "derived_from".to_string()),
            ("d".to_string(), "a".to_string(), "contradicts".to_string()),
        ]
    );
    assert!(g.get_edges("missing").is_empty());
}

#[test]
fn cluster_cache_evicts_oldest() {
    let mut g = GraphCache::new();
    assert!(g.get_cluster_result("k").is_none());
    for i in 0..100u64 {
        g.set_cluster_result(format!("k{i}"), JsonValue::PosInt(i));
    }
    assert!(matches!(g.get_cluster_result("k0"), Some(JsonValue::PosInt(0))));
    g.set_cluster_result("new".to_string(), JsonValue::Bool(true));
    assert!(g.get_cluster_result("k0").is_none());
    assert!(g.get_cluster_result("k9").is_none());
    assert!(matches!(g.get_cluster_result("k10"), Some(JsonValue::PosInt(10))));
    assert!(matches!(g.get_cluster_result("new"), Some(JsonValue::Bool(true))));
    g.set_cluster_result("new".to_string(), JsonValue::Bool(false));
    assert!(matches!(g.get_cluster_result("new"), Some(JsonValue::Bool(false))));
    g.clear_cluster_cache();
    assert!(g.get_cluster_result("new").is_none());
}

#[test]
fn subgraph_from_starts() {
    let g = sample();
    let starts = vec!["d".to_string(), "missing".to_string(), "b".to_string()];
    let sub = g.get_subgraph(&starts, 2, None);
    assert_eq!(sub.hops_explored, 2);
    // From d: a (1 hop), b (2 hops); from b: c (b itself already reached).
    assert_eq!(sub.connected_atoms, vec!["a".to_string(), "b".to_string(), "c".to_string()]);
    let mut types = sub.edge_types_found.clone();
    types.sort();
    assert_eq!(types, vec!["contradicts".to_string(), "derived_from".to_string(), "replicates".to_string()]);
    assert_eq!(
        sub.paths,
        vec![
            vec!["d".to_string(), "a".to_string()],
            vec!["d".to_string(), "a".to_string(), "b".to_string()],
            vec!["b".to_string(), "c".to_string()],
        ]
    );
    let filter = vec!["contradicts".to_string()];
    let only = g.get_subgraph(&["d".to_string()], 3, Some(filter.as_slice()));
    assert_eq!(only.connected_atoms, vec!["a".to_string()]);
    assert_eq!(only.edge_types_found, vec!["contradicts".to_string()]);
    let none = g.get_subgraph(&["a".to_string()], 0, None);
    assert!(none.connected_atoms.is_empty() && none.paths.is_empty());
}

#[test]
fn lineage_lists_every_crossed_edge() {
    let mut g = GraphCache::new();
    g.add_edge("a", "b", EdgeType::DerivedFrom).unwrap();
    let r = g.traverse("a", "descendants", 3, None);
    let names: Vec<&str> = r.nodes.iter().map(|n| n.as_str()).collect();
    assert_eq!(names, vec!["a", "b"]);
    assert_eq!(r.edges.len(), 1);
    assert_eq!((r.edges[0].source.as_str(), r.edges[0].target.as_str(), r.edges[0].edge_type.as_str()),
        ("a", "b", "derived_from"));
    let filter = vec!["contradicts".to_string()];
    let r = g.traverse("a", "descendants", 3, Some(&filter));
    assert_eq!(r.nodes, vec!["a".to_string()]);
    assert!(r.edges.is_empty());
    // walking both ways, the edge is met again from `b`, and listed each time it is met
    let r = g.traverse("a", "both", 2, None);
    assert_eq!(r.nodes, vec!["a".to_string(), "b".to_string()]);
    assert_eq!(r.edges.len(), 2);
    assert!(r.edges.iter().all(|e| e.source == "a" && e.target == "b"));
}

#[test]
fn breadth_first_order() {
    let mut g = GraphCache::new();
    g.add_edge("a", "b", EdgeType::DerivedFrom).unwrap();
    g.add_edge("b", "c", EdgeType::DerivedFrom).unwrap();
    g.add_edge("a", "d", EdgeType::Contradicts).unwrap();
    let t = [EdgeType::DerivedFrom];
    assert_eq!(g.traverse_bfs("a", &t, 1, TraversalDirection::Outgoing), vec!["b".to_string()]);
    assert_eq!(g.traverse_bfs("a", &t, 2, TraversalDirection::Outgoing), vec!["b".to_string(), "c".to_string()]);
    assert_eq!(g.traverse_bfs("c", &t, 5, TraversalDirection::Incoming), vec!["b".to_string(), "a".to_string()]);
    assert!(g.traverse_bfs("zzz", &t, 5, TraversalDirection::Both).is_empty());
}

#[test]
fn conflicting_edge_changes_nothing() {
    let mut g = GraphCache::new();
    g.add_edge("a", "b", EdgeType::DerivedFrom).unwrap();
    let (n, e) = (g.node_count(), g.edge_count());
    assert!(matches!(g.add_edge("a", "b", EdgeType::Replicates), Err(MoteError::Conflict(_))));
    assert_eq!((g.node_count(), g.edge_count()), (n, e));
}
