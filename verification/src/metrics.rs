//! The hub's operational counters and their Prometheus text exposition.
use vstd::prelude::*;
use crate::text::{decimal, signed_decimal, u64_to_decimal, i64_to_decimal, usize_to_decimal, occurs_at};

verus! {

/// A reading of the hub's counters.
#[derive(Debug, Clone, Copy, Default)]
pub struct Metrics {
    pub publish_requests_accepted: u64,
    pub publish_requests_rejected: u64,
    pub publish_requests_queued: u64,
    pub rate_limit_rejections: u64,
    pub embedding_jobs_completed: u64,
    pub embedding_jobs_failed: u64,
    pub contradictions_detected: u64,
}

/// The counter section of the exposition.
pub open spec fn counters_text(m: Metrics) -> Seq<char> {
    publish_text(m) + rate_limit_text(m) + embedding_text(m) + contradiction_text(m)
}

/// The publish request counters.
pub open spec fn publish_text(m: Metrics) -> Seq<char> {
    "# HELP mote_publish_requests_total Total number of publish requests\n"@
    + "# TYPE mote_publish_requests_total counter\n"@
    + "mote_publish_requests_total{status=\"accepted\"} "@ + decimal(m.publish_requests_accepted as nat) + "\n"@
    + "mote_publish_requests_total{status=\"rejected\"} "@ + decimal(m.publish_requests_rejected as nat) + "\n"@
    + "mote_publish_requests_total{status=\"queued\"} "@ + decimal(m.publish_requests_queued as nat) + "\n"@
}

/// The rate-limit counter.
pub open spec fn rate_limit_text(m: Metrics) -> Seq<char> {
    "# HELP mote_rate_limit_rejections_total Total number of rate limit rejections\n"@
    + "# TYPE mote_rate_limit_rejections_total counter\n"@
    + "mote_rate_limit_rejections_total "@ + decimal(m.rate_limit_rejections as nat) + "\n"@
}

/// The embedding job counters.
pub open spec fn embedding_text(m: Metrics) -> Seq<char> {
    "# HELP mote_embedding_jobs_total Total number of embedding jobs\n"@
    + "# TYPE mote_embedding_jobs_total counter\n"@
    + "mote_embedding_jobs_total{status=\"completed\"} "@ + decimal(m.embedding_jobs_completed as nat) + "\n"@
    + "mote_embedding_jobs_total{status=\"failed\"} "@ + decimal(m.embedding_jobs_failed as nat) + "\n"@
}

/// The contradiction counter.
pub open spec fn contradiction_text(m: Metrics) -> Seq<char> {
    "# HELP mote_contradictions_detected_total Total number of contradictions detected\n"@
    + "# TYPE mote_contradictions_detected_total counter\n"@
    + "mote_contradictions_detected_total "@ + decimal(m.contradictions_detected as nat) + "\n"@
}

/// One line per (type, lifecycle, domain) count of atoms.
pub open spec fn atom_lines(rows: Seq<(String, String, String, i64)>) -> Seq<char>
    decreases rows.len(),
{
    if rows.len() == 0 {
        Seq::empty()
    } else {
        let r = rows.last();
        atom_lines(rows.drop_last()) + "mote_atoms_total{type=\""@ + r.0@ + "\",lifecycle=\""@ + r.1@
            + "\",domain=\""@ + r.2@ + "\"} "@ + signed_decimal(r.3 as int) + "\n"@
    }
}

/// One line per edge type count.
pub open spec fn edge_lines(rows: Seq<(String, i64)>) -> Seq<char>
    decreases rows.len(),
{
    if rows.len() == 0 {
        Seq::empty()
    } else {
        let r = rows.last();
        edge_lines(rows.drop_last()) + "mote_edges_total{type=\""@ + r.0@ + "\"} "@
            + signed_decimal(r.1 as int) + "\n"@
    }
}

/// `true` or `false`.
pub open spec fn bool_text(b: bool) -> Seq<char> {
    if b { "true"@ } else { "false"@ }
}

/// One line per confirmation status count of agents.
pub open spec fn agent_lines(rows: Seq<(bool, i64)>) -> Seq<char>
    decreases rows.len(),
{
    if rows.len() == 0 {
        Seq::empty()
    } else {
        let r = rows.last();
        agent_lines(rows.drop_last()) + "mote_agents_total{confirmed=\""@ + bool_text(r.0) + "\"} "@
            + signed_decimal(r.1 as int) + "\n"@
    }
}

/// The whole exposition: counters, then the gauges read from the store and
/// from memory. The embedding queue depth is not tracked and reads 0.
pub open spec fn prometheus_text(
    m: Metrics,
    atoms: Seq<(String, String, String, i64)>,
    edges: Seq<(String, i64)>,
    agents: Seq<(bool, i64)>,
    active_claims: i64,
    graph_nodes: usize,
    graph_edges: usize,
) -> Seq<char> {
    counters_text(m)
    + "# HELP mote_atoms_total Total number of atoms by type, lifecycle, and domain\n"@
    + "# TYPE mote_atoms_total gauge\n"@
    + atom_lines(atoms)
    + "# HELP mote_edges_total Total number of edges by type\n"@
    + "# TYPE mote_edges_total gauge\n"@
    + edge_lines(edges)
    + "# HELP mote_agents_total Total number of agents by confirmation status\n"@
    + "# TYPE mote_agents_total gauge\n"@
    + agent_lines(agents)
    + "# HELP mote_claims_active Number of active claims\n"@
    + "# TYPE mote_claims_active gauge\n"@
    + "mote_claims_active "@ + signed_decimal(active_claims as int) + "\n"@
    + "# HELP mote_graph_cache_nodes Number of nodes in graph cache\n"@
    + "# TYPE mote_graph_cache_nodes gauge\n"@
    + "mote_graph_cache_nodes "@ + decimal(graph_nodes as nat) + "\n"@
    + "# HELP mote_graph_cache_edges Number of edges in graph cache\n"@
    + "# TYPE mote_graph_cache_edges gauge\n"@
    + "mote_graph_cache_edges "@ + decimal(graph_edges as nat) + "\n"@
    + "# HELP mote_embedding_queue_depth Current embedding queue depth\n"@
    + "# TYPE mote_embedding_queue_depth gauge\n"@
    + "mote_embedding_queue_depth 0\n"@
}

proof fn lemma_occurs_in_middle(a: Seq<char>, b: Seq<char>, c: Seq<char>)
    ensures
        occurs_at(a + b + c, b, a.len() as int),
{
    assert((a + b + c).subrange(a.len() as int, (a.len() + b.len()) as int) =~= b);
}

/// The publish counter's line for `status` with count `n`, on a line of
/// its own.
pub open spec fn publish_count_line(status: Seq<char>, n: u64) -> Seq<char> {
    "\n"@ + "mote_publish_requests_total{status=\""@ + status + "\"} "@ + decimal(n as nat) + "\n"@
}

proof fn lemma_publish_section_lines(m: Metrics)
    ensures
        exists|i: int| occurs_at(publish_text(m), publish_count_line("accepted"@, m.publish_requests_accepted), i),
        exists|i: int| occurs_at(publish_text(m), publish_count_line("rejected"@, m.publish_requests_rejected), i),
        exists|i: int| occurs_at(publish_text(m), publish_count_line("queued"@, m.publish_requests_queued), i),
{
    reveal_strlit("mote_publish_requests_total{status=\"accepted\"} ");
    reveal_strlit("mote_publish_requests_total{status=\"rejected\"} ");
    reveal_strlit("mote_publish_requests_total{status=\"queued\"} ");
    reveal_strlit("mote_publish_requests_total{status=\"");
    reveal_strlit("accepted");
    reveal_strlit("rejected");
    reveal_strlit("queued");
    reveal_strlit("\"} ");
    reveal_strlit("\n");
    reveal_strlit("# HELP mote_publish_requests_total Total number of publish requests\n");
    reveal_strlit("# TYPE mote_publish_requests_total counter\n");
    let nl = "\n"@;
    let la = "mote_publish_requests_total{status=\"accepted\"} "@ + decimal(m.publish_requests_accepted as nat);
    let lr = "mote_publish_requests_total{status=\"rejected\"} "@ + decimal(m.publish_requests_rejected as nat);
    let lq = "mote_publish_requests_total{status=\"queued\"} "@ + decimal(m.publish_requests_queued as nat);
    let h = "# HELP mote_publish_requests_total Total number of publish requests\n"@
        + "# TYPE mote_publish_requests_total counter\n"@;
    let a0 = h.drop_last();
    assert(h =~= a0 + nl);
    let pt = publish_text(m);
    assert(publish_count_line("accepted"@, m.publish_requests_accepted) =~= nl + la + nl);
    assert(publish_count_line("rejected"@, m.publish_requests_rejected) =~= nl + lr + nl);
    assert(publish_count_line("queued"@, m.publish_requests_queued) =~= nl + lq + nl);
    assert(pt =~= a0 + (nl + la + nl) + (lr + nl + lq + nl));
    lemma_occurs_in_middle(a0, nl + la + nl, lr + nl + lq + nl);
    let a1 = a0 + nl + la;
    assert(pt =~= a1 + (nl + lr + nl) + (lq + nl));
    lemma_occurs_in_middle(a1, nl + lr + nl, lq + nl);
    let a2 = a1 + nl + lr;
    assert(pt =~= a2 + (nl + lq + nl) + Seq::<char>::empty());
    lemma_occurs_in_middle(a2, nl + lq + nl, Seq::<char>::empty());
}

proof fn lemma_starts_with_publish_section(
    m: Metrics,
    atoms: Seq<(String, String, String, i64)>,
    edges: Seq<(String, i64)>,
    agents: Seq<(bool, i64)>,
    active_claims: i64,
    graph_nodes: usize,
    graph_edges: usize,
)
    ensures
        ({
            let t = prometheus_text(m, atoms, edges, agents, active_claims, graph_nodes, graph_edges);
            publish_text(m).len() <= t.len() && t.subrange(0, publish_text(m).len() as int) == publish_text(m)
        }),
{
    let t = prometheus_text(m, atoms, edges, agents, active_claims, graph_nodes, graph_edges);
    let pt = publish_text(m);
    let ct = counters_text(m);
    let z = t.subrange(ct.len() as int, t.len() as int);
    assert(ct == pt + (rate_limit_text(m) + embedding_text(m) + contradiction_text(m)));
    assert(t.len() >= ct.len());
    assert forall|k: int| 0 <= k < pt.len() implies #[trigger] t[k] == pt[k] by {
        assert(t[k] == ct[k]);
    }
    assert(t.subrange(0, pt.len() as int) =~= pt);
}

/// Every publish counter line of the exposition reports its own counter:
/// it holds, each on a line of its own, `status="accepted"` with the
/// accepted count, `status="rejected"` with the rejected count and
/// `status="queued"` with the queued count.
pub proof fn lemma_publish_lines_report_their_counters(
    m: Metrics,
    atoms: Seq<(String, String, String, i64)>,
    edges: Seq<(String, i64)>,
    agents: Seq<(bool, i64)>,
    active_claims: i64,
    graph_nodes: usize,
    graph_edges: usize,
)
    ensures
        ({
            let t = prometheus_text(m, atoms, edges, agents, active_claims, graph_nodes, graph_edges);
            &&& exists|i: int| occurs_at(t, publish_count_line("accepted"@, m.publish_requests_accepted), i)
            &&& exists|i: int| occurs_at(t, publish_count_line("rejected"@, m.publish_requests_rejected), i)
            &&& exists|i: int| occurs_at(t, publish_count_line("queued"@, m.publish_requests_queued), i)
        }),
{
    let t = prometheus_text(m, atoms, edges, agents, active_claims, graph_nodes, graph_edges);
    let pt = publish_text(m);
    lemma_publish_section_lines(m);
    lemma_starts_with_publish_section(m, atoms, edges, agents, active_claims, graph_nodes, graph_edges);
    let ia = choose|i: int| occurs_at(pt, publish_count_line("accepted"@, m.publish_requests_accepted), i);
    lemma_occurs_in_start(t, pt, publish_count_line("accepted"@, m.publish_requests_accepted), ia);
    let ir = choose|i: int| occurs_at(pt, publish_count_line("rejected"@, m.publish_requests_rejected), i);
    lemma_occurs_in_start(t, pt, publish_count_line("rejected"@, m.publish_requests_rejected), ir);
    let iq = choose|i: int| occurs_at(pt, publish_count_line("queued"@, m.publish_requests_queued), i);
    lemma_occurs_in_start(t, pt, publish_count_line("queued"@, m.publish_requests_queued), iq);
}

proof fn lemma_occurs_in_start(t: Seq<char>, p: Seq<char>, n: Seq<char>, i: int)
    requires
        p.len() <= t.len(),
        t.subrange(0, p.len() as int) == p,
        occurs_at(p, n, i),
    ensures
        occurs_at(t, n, i),
{
    assert forall|k: int| 0 <= k < n.len() implies #[trigger] t.subrange(i, i + n.len())[k] == n[k] by {
        assert(t.subrange(0, p.len() as int)[i + k] == p[i + k]);
        assert(p.subrange(i, i + n.len())[k] == p[i + k]);
    }
    assert(t.subrange(i, i + n.len()) =~= n);
}

proof fn lemma_occurs_shift(a: Seq<char>, b: Seq<char>, n: Seq<char>, i: int)
    requires
        occurs_at(b, n, i),
    ensures
        occurs_at(a + b, n, a.len() + i),
{
    assert((a + b).subrange(a.len() + i, a.len() + i + n.len()) =~= b.subrange(i, i + n.len()));
}

proof fn lemma_starts_with_counters(
    m: Metrics,
    atoms: Seq<(String, String, String, i64)>,
    edges: Seq<(String, i64)>,
    agents: Seq<(bool, i64)>,
    active_claims: i64,
    graph_nodes: usize,
    graph_edges: usize,
)
    ensures
        ({
            let t = prometheus_text(m, atoms, edges, agents, active_claims, graph_nodes, graph_edges);
            counters_text(m).len() <= t.len() && t.subrange(0, counters_text(m).len() as int) == counters_text(m)
        }),
{
    let t = prometheus_text(m, atoms, edges, agents, active_claims, graph_nodes, graph_edges);
    let ct = counters_text(m);
    assert forall|k: int| 0 <= k < ct.len() implies #[trigger] t[k] == ct[k] by {}
    assert(t.subrange(0, ct.len() as int) =~= ct);
}

/// A counter's value line, on a line of its own.
pub open spec fn counter_line(head: Seq<char>, n: u64) -> Seq<char> {
    "\n"@ + head + decimal(n as nat) + "\n"@
}

/// The other counters of the exposition report their own values too: rate
/// limit rejections, completed and failed embedding jobs, and detected
/// contradictions, each on a line of its own.
pub proof fn lemma_other_counters_report_their_values(
    m: Metrics,
    atoms: Seq<(String, String, String, i64)>,
    edges: Seq<(String, i64)>,
    agents: Seq<(bool, i64)>,
    active_claims: i64,
    graph_nodes: usize,
    graph_edges: usize,
)
    ensures
        ({
            let t = prometheus_text(m, atoms, edges, agents, active_claims, graph_nodes, graph_edges);
            &&& exists|i: int| occurs_at(t, counter_line("mote_rate_limit_rejections_total "@, m.rate_limit_rejections), i)
            &&& exists|i: int| occurs_at(t, counter_line("mote_embedding_jobs_total{status=\"completed\"} "@,
                m.embedding_jobs_completed), i)
            &&& exists|i: int| occurs_at(t, counter_line("mote_embedding_jobs_total{status=\"failed\"} "@,
                m.embedding_jobs_failed), i)
            &&& exists|i: int| occurs_at(t, counter_line("mote_contradictions_detected_total "@,
                m.contradictions_detected), i)
        }),
{
    let t = prometheus_text(m, atoms, edges, agents, active_claims, graph_nodes, graph_edges);
    let ct = counters_text(m);
    let pt = publish_text(m);
    let rt = rate_limit_text(m);
    let et = embedding_text(m);
    let xt = contradiction_text(m);
    lemma_starts_with_counters(m, atoms, edges, agents, active_claims, graph_nodes, graph_edges);
    reveal_strlit("\n");
    reveal_strlit("# HELP mote_rate_limit_rejections_total Total number of rate limit rejections\n");
    reveal_strlit("# TYPE mote_rate_limit_rejections_total counter\n");
    reveal_strlit("# HELP mote_embedding_jobs_total Total number of embedding jobs\n");
    reveal_strlit("# TYPE mote_embedding_jobs_total counter\n");
    reveal_strlit("# HELP mote_contradictions_detected_total Total number of contradictions detected\n");
    reveal_strlit("# TYPE mote_contradictions_detected_total counter\n");
    let nl = "\n"@;
    // rate limit
    let lr = "mote_rate_limit_rejections_total "@ + decimal(m.rate_limit_rejections as nat);
    let hr = ("# HELP mote_rate_limit_rejections_total Total number of rate limit rejections\n"@
        + "# TYPE mote_rate_limit_rejections_total counter\n"@).drop_last();
    assert(counter_line("mote_rate_limit_rejections_total "@, m.rate_limit_rejections) =~= nl + lr + nl);
    assert(rt =~= hr + (nl + lr + nl) + Seq::<char>::empty());
    lemma_occurs_in_middle(hr, nl + lr + nl, Seq::<char>::empty());
    lemma_occurs_shift(pt, rt, nl + lr + nl, hr.len() as int);
    assert(ct =~= (pt + rt) + (et + xt));
    assert(ct.subrange(0, (pt + rt).len() as int) =~= pt + rt);
    lemma_occurs_in_start(ct, pt + rt, nl + lr + nl, (pt.len() + hr.len()) as int);
    lemma_occurs_in_start(t, ct, nl + lr + nl, (pt.len() + hr.len()) as int);
    // embedding jobs
    let lc = "mote_embedding_jobs_total{status=\"completed\"} "@ + decimal(m.embedding_jobs_completed as nat);
    let lf = "mote_embedding_jobs_total{status=\"failed\"} "@ + decimal(m.embedding_jobs_failed as nat);
    let he = ("# HELP mote_embedding_jobs_total Total number of embedding jobs\n"@
        + "# TYPE mote_embedding_jobs_total counter\n"@).drop_last();
    assert(counter_line("mote_embedding_jobs_total{status=\"completed\"} "@, m.embedding_jobs_completed) =~= nl + lc + nl);
    assert(counter_line("mote_embedding_jobs_total{status=\"failed\"} "@, m.embedding_jobs_failed) =~= nl + lf + nl);
    assert(et =~= he + (nl + lc + nl) + (lf + nl));
    lemma_occurs_in_middle(he, nl + lc + nl, lf + nl);
    assert(et =~= (he + nl + lc) + (nl + lf + nl) + Seq::<char>::empty());
    lemma_occurs_in_middle(he + nl + lc, nl + lf + nl, Seq::<char>::empty());
    lemma_occurs_shift(pt + rt, et, nl + lc + nl, he.len() as int);
    lemma_occurs_shift(pt + rt, et, nl + lf + nl, (he + nl + lc).len() as int);
    assert(ct =~= (pt + rt + et) + xt);
    assert(ct.subrange(0, (pt + rt + et).len() as int) =~= pt + rt + et);
    lemma_occurs_in_start(ct, pt + rt + et, nl + lc + nl, ((pt + rt).len() + he.len()) as int);
    lemma_occurs_in_start(ct, pt + rt + et, nl + lf + nl, ((pt + rt).len() + (he + nl + lc).len()) as int);
    lemma_occurs_in_start(t, ct, nl + lc + nl, ((pt + rt).len() + he.len()) as int);
    lemma_occurs_in_start(t, ct, nl + lf + nl, ((pt + rt).len() + (he + nl + lc).len()) as int);
    // contradictions
    let lx = "mote_contradictions_detected_total "@ + decimal(m.contradictions_detected as nat);
    let hx = ("# HELP mote_contradictions_detected_total Total number of contradictions detected\n"@
        + "# TYPE mote_contradictions_detected_total counter\n"@).drop_last();
    assert(counter_line("mote_contradictions_detected_total "@, m.contradictions_detected) =~= nl + lx + nl);
    assert(xt =~= hx + (nl + lx + nl) + Seq::<char>::empty());
    lemma_occurs_in_middle(hx, nl + lx + nl, Seq::<char>::empty());
    lemma_occurs_shift(pt + rt + et, xt, nl + lx + nl, hx.len() as int);
    assert(ct =~= (pt + rt + et) + xt);
    lemma_occurs_in_start(t, ct, nl + lx + nl, ((pt + rt + et).len() + hx.len()) as int);
}

fn append_line(out: &mut String, head: &str, value: &str)
    ensures
        final(out)@ == old(out)@ + head@ + value@ + "\n"@,
{
    out.append(head);
    out.append(value);
    out.append("\n");
}

impl Metrics {
    fn append_publish(&self, out: &mut String)
        ensures
            final(out)@ == old(out)@ + publish_text(*self),
    {
        out.append("# HELP mote_publish_requests_total Total number of publish requests\n");
        out.append("# TYPE mote_publish_requests_total counter\n");
        append_line(out, "mote_publish_requests_total{status=\"accepted\"} ", u64_to_decimal(self.publish_requests_accepted).as_str());
        append_line(out, "mote_publish_requests_total{status=\"rejected\"} ", u64_to_decimal(self.publish_requests_rejected).as_str());
        append_line(out, "mote_publish_requests_total{status=\"queued\"} ", u64_to_decimal(self.publish_requests_queued).as_str());
        assert(out@ =~= old(out)@ + publish_text(*self));
    }

    fn append_rate_limit(&self, out: &mut String)
        ensures
            final(out)@ == old(out)@ + rate_limit_text(*self),
    {
        out.append("# HELP mote_rate_limit_rejections_total Total number of rate limit rejections\n");
        out.append("# TYPE mote_rate_limit_rejections_total counter\n");
        append_line(out, "mote_rate_limit_rejections_total ", u64_to_decimal(self.rate_limit_rejections).as_str());
        assert(out@ =~= old(out)@ + rate_limit_text(*self));
    }

    fn append_embedding(&self, out: &mut String)
        ensures
            final(out)@ == old(out)@ + embedding_text(*self),
    {
        out.append("# HELP mote_embedding_jobs_total Total number of embedding jobs\n");
        out.append("# TYPE mote_embedding_jobs_total counter\n");
        append_line(out, "mote_embedding_jobs_total{status=\"completed\"} ", u64_to_decimal(self.embedding_jobs_completed).as_str());
        append_line(out, "mote_embedding_jobs_total{status=\"failed\"} ", u64_to_decimal(self.embedding_jobs_failed).as_str());
        assert(out@ =~= old(out)@ + embedding_text(*self));
    }

    fn append_contradictions(&self, out: &mut String)
        ensures
            final(out)@ == old(out)@ + contradiction_text(*self),
    {
        out.append("# HELP mote_contradictions_detected_total Total number of contradictions detected\n");
        out.append("# TYPE mote_contradictions_detected_total counter\n");
        append_line(out, "mote_contradictions_detected_total ", u64_to_decimal(self.contradictions_detected).as_str());
        assert(out@ =~= old(out)@ + contradiction_text(*self));
    }

    fn append_counters(&self, out: &mut String)
        ensures
            final(out)@ == old(out)@ + counters_text(*self),
    {
        self.append_publish(out);
        self.append_rate_limit(out);
        self.append_embedding(out);
        self.append_contradictions(out);
        assert(out@ =~= old(out)@ + counters_text(*self));
    }

    /// The Prometheus text exposition of these counters and of the gauges
    /// read beside them: atoms by type, lifecycle and domain, edges by
    /// type, agents by confirmation, active claims and the graph cache's
    /// size.
    pub fn format_prometheus(
        &self,
        atoms_by_type: &[(String, String, String, i64)],
        edges_by_type: &[(String, i64)],
        agents_by_confirmed: &[(bool, i64)],
        active_claims: i64,
        graph_nodes: usize,
        graph_edges: usize,
    ) -> (r: String)
        ensures
            r@ == prometheus_text(*self, atoms_by_type@, edges_by_type@, agents_by_confirmed@,
                active_claims, graph_nodes, graph_edges),
    {
        let mut out = String::new();
        self.append_counters(&mut out);
        let ghost s0 = out@;
        out.append("# HELP mote_atoms_total Total number of atoms by type, lifecycle, and domain\n");
        out.append("# TYPE mote_atoms_total gauge\n");
        let ghost s1 = out@;
        let mut i: usize = 0;
        while i < atoms_by_type.len()
            invariant
                i <= atoms_by_type@.len(),
                out@ == s1 + atom_lines(atoms_by_type@.subrange(0, i as int)),
            decreases atoms_by_type@.len() - i,
        {
            let row = &atoms_by_type[i];
            let ghost t = atoms_by_type@.subrange(0, i + 1);
            assert(t.drop_last() =~= atoms_by_type@.subrange(0, i as int));
            out.append("mote_atoms_total{type=\"");
            out.append(row.0.as_str());
            out.append("\",lifecycle=\"");
            out.append(row.1.as_str());
            out.append("\",domain=\"");
            out.append(row.2.as_str());
            out.append("\"} ");
            out.append(i64_to_decimal(row.3).as_str());
            out.append("\n");
            i = i + 1;
            assert(out@ =~= s1 + atom_lines(atoms_by_type@.subrange(0, i as int)));
        }
        assert(atoms_by_type@.subrange(0, atoms_by_type@.len() as int) =~= atoms_by_type@);
        out.append("# HELP mote_edges_total Total number of edges by type\n");
        out.append("# TYPE mote_edges_total gauge\n");
        let ghost s2 = out@;
        let mut j: usize = 0;
        while j < edges_by_type.len()
            invariant
                j <= edges_by_type@.len(),
                out@ == s2 + edge_lines(edges_by_type@.subrange(0, j as int)),
            decreases edges_by_type@.len() - j,
        {
            let row = &edges_by_type[j];
            let ghost t = edges_by_type@.subrange(0, j + 1);
            assert(t.drop_last() =~= edges_by_type@.subrange(0, j as int));
            out.append("mote_edges_total{type=\"");
            out.append(row.0.as_str());
            out.append("\"} ");
            out.append(i64_to_decimal(row.1).as_str());
            out.append("\n");
            j = j + 1;
            assert(out@ =~= s2 + edge_lines(edges_by_type@.subrange(0, j as int)));
        }
        assert(edges_by_type@.subrange(0, edges_by_type@.len() as int) =~= edges_by_type@);
        out.append("# HELP mote_agents_total Total number of agents by confirmation status\n");
        out.append("# TYPE mote_agents_total gauge\n");
        let ghost s3 = out@;
        let mut k: usize = 0;
        while k < agents_by_confirmed.len()
            invariant
                k <= agents_by_confirmed@.len(),
                out@ == s3 + agent_lines(agents_by_confirmed@.subrange(0, k as int)),
            decreases agents_by_confirmed@.len() - k,
        {
            let row = &agents_by_confirmed[k];
            let ghost t = agents_by_confirmed@.subrange(0, k + 1);
            assert(t.drop_last() =~= agents_by_confirmed@.subrange(0, k as int));
            out.append("mote_agents_total{confirmed=\"");
            if row.0 {
                out.append("true");
            } else {
                out.append("false");
            }
            out.append("\"} ");
            out.append(i64_to_decimal(row.1).as_str());
            out.append("\n");
            k = k + 1;
            assert(out@ =~= s3 + agent_lines(agents_by_confirmed@.subrange(0, k as int)));
        }
        assert(agents_by_confirmed@.subrange(0, agents_by_confirmed@.len() as int) =~= agents_by_confirmed@);
        let ghost s4 = out@;
        out.append("# HELP mote_claims_active Number of active claims\n");
        out.append("# TYPE mote_claims_active gauge\n");
        append_line(&mut out, "mote_claims_active ", i64_to_decimal(active_claims).as_str());
        out.append("# HELP mote_graph_cache_nodes Number of nodes in graph cache\n");
        out.append("# TYPE mote_graph_cache_nodes gauge\n");
        append_line(&mut out, "mote_graph_cache_nodes ", usize_to_decimal(graph_nodes).as_str());
        out.append("# HELP mote_graph_cache_edges Number of edges in graph cache\n");
        out.append("# TYPE mote_graph_cache_edges gauge\n");
        append_line(&mut out, "mote_graph_cache_edges ", usize_to_decimal(graph_edges).as_str());
        out.append("# HELP mote_embedding_queue_depth Current embedding queue depth\n");
        out.append("# TYPE mote_embedding_queue_depth gauge\n");
        out.append("mote_embedding_queue_depth 0\n");
        assert(out@ =~= prometheus_text(*self, atoms_by_type@, edges_by_type@, agents_by_confirmed@,
            active_claims, graph_nodes, graph_edges));
        out
    }
}

} // verus!
