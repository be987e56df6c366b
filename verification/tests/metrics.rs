use asenix::metrics::Metrics;

#[test]
fn prometheus_exposition() {
    let m = Metrics {
        publish_requests_accepted: 3,
        publish_requests_rejected: 1,
        publish_requests_queued: 0,
        rate_limit_rejections: 2,
        embedding_jobs_completed: 10,
        embedding_jobs_failed: 0,
        contradictions_detected: 4,
    };
    let text = m.format_prometheus(
        &[("finding".to_string(), "core".to_string(), "bio".to_string(), 12)],
        &[("replicates".to_string(), 5)],
        &[(true, 2), (false, -1)],
        7,
        20,
        30,
    );
    assert!(text.starts_with("# HELP mote_publish_requests_total Total number of publish requests\n"));
    assert!(text.contains("mote_publish_requests_total{status=\"accepted\"} 3\n"));
    assert!(text.contains("mote_rate_limit_rejections_total 2\n"));
    assert!(text.contains("mote_atoms_total{type=\"finding\",lifecycle=\"core\",domain=\"bio\"} 12\n"));
    assert!(text.contains("mote_edges_total{type=\"replicates\"} 5\n"));
    assert!(text.contains("mote_agents_total{confirmed=\"true\"} 2\nmote_agents_total{confirmed=\"false\"} -1\n"));
    assert!(text.contains("mote_claims_active 7\n"));
    assert!(text.contains("mote_graph_cache_nodes 20\n"));
    assert!(text.contains("mote_graph_cache_edges 30\n"));
    assert!(text.ends_with("mote_embedding_queue_depth 0\n"));
    assert_eq!(Metrics::default().publish_requests_accepted, 0);
}
