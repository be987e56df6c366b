//! The in-memory knowledge graph: atoms as nodes, typed edges between them,
//! kept in a `petgraph` directed graph, with breadth-first traversals.
use vstd::prelude::*;
use vstd::hash_map::StringHashMap;
use petgraph::graph::{Graph, NodeIndex, EdgeIndex};
use petgraph::Directed;
use petgraph::visit::EdgeRef;
use crate::error::MoteError;
use crate::text::{str_eq, to_owned_string, concat2};
use crate::json::JsonValue;

verus! {

// ───────────────────────── the outside graph type ─────────────────────────

#[verifier::external_type_specification]
#[verifier::external_body]
#[verifier::reject_recursive_types(N)]
#[verifier::reject_recursive_types(E)]
#[verifier::reject_recursive_types(Ty)]
#[verifier::reject_recursive_types(Ix)]
pub struct ExGraph<N, E, Ty, Ix>(Graph<N, E, Ty, Ix>);

#[verifier::external_type_specification]
#[verifier::external_body]
pub struct ExDirected(Directed);

/// One stored edge: source node index, target node index, edge-type code.
pub type EdgeTriple = (usize, usize, u8);

/// Node weights of the graph, by node index.
pub uninterp spec fn pg_nodes(g: Graph<String, u8, Directed, u32>) -> Seq<Seq<char>>;

/// Edges of the graph, by edge index.
pub uninterp spec fn pg_edges(g: Graph<String, u8, Directed, u32>) -> Seq<EdgeTriple>;

/// Edges that leave (`outgoing`) or enter (`!outgoing`) node `a`, most
/// recently added first: the order in which `petgraph` walks a node's
/// adjacency list in a directed graph.
pub open spec fn incident_rev(es: Seq<EdgeTriple>, a: usize, outgoing: bool) -> Seq<EdgeTriple>
    decreases es.len(),
{
    if es.len() == 0 {
        Seq::empty()
    } else {
        let e = es.last();
        let rest = incident_rev(es.drop_last(), a, outgoing);
        if (outgoing && e.0 == a) || (!outgoing && e.1 == a) {
            seq![e] + rest
        } else {
            rest
        }
    }
}

/// The far end of an edge seen from the node it was listed for.
pub open spec fn far_end(e: EdgeTriple, outgoing: bool) -> usize {
    if outgoing { e.1 } else { e.0 }
}

/// Neighbours of `a` as `petgraph` lists them for a directed graph.
pub open spec fn neighbors_rev(es: Seq<EdgeTriple>, a: usize, outgoing: bool) -> Seq<usize> {
    incident_rev(es, a, outgoing).map_values(|e: EdgeTriple| far_end(e, outgoing))
}

/// `petgraph::graph::Graph::new`: an empty directed graph.
#[verifier::external_body]
fn pg_new() -> (g: Graph<String, u8, Directed, u32>)
    ensures
        pg_nodes(g) == Seq::<Seq<char>>::empty(),
        pg_edges(g) == Seq::<EdgeTriple>::empty(),
{
    Graph::new()
}

/// `Graph::node_count`: the number of nodes.
#[verifier::external_body]
fn pg_node_count(g: &Graph<String, u8, Directed, u32>) -> (r: usize)
    ensures
        r == pg_nodes(*g).len(),
{
    g.node_count()
}

/// `Graph::edge_count`: the number of edges.
#[verifier::external_body]
fn pg_edge_count(g: &Graph<String, u8, Directed, u32>) -> (r: usize)
    ensures
        r == pg_edges(*g).len(),
{
    g.edge_count()
}

/// `Graph::add_node`: appends a node and returns its index. The crate
/// asserts that the index stays below `u32::MAX`.
#[verifier::external_body]
fn pg_add_node(g: &mut Graph<String, u8, Directed, u32>, weight: String) -> (idx: usize)
    requires
        pg_nodes(*old(g)).len() < u32::MAX,
    ensures
        pg_nodes(*final(g)) == pg_nodes(*old(g)).push(weight@),
        pg_edges(*final(g)) == pg_edges(*old(g)),
        idx == pg_nodes(*old(g)).len(),
{
    g.add_node(weight).index()
}

/// `Graph::add_edge`: appends an edge between two existing nodes. The crate
/// panics on a missing node and asserts the edge index stays below `u32::MAX`.
#[verifier::external_body]
fn pg_add_edge(g: &mut Graph<String, u8, Directed, u32>, a: usize, b: usize, weight: u8)
    requires
        a < pg_nodes(*old(g)).len(),
        b < pg_nodes(*old(g)).len(),
        pg_edges(*old(g)).len() < u32::MAX,
    ensures
        pg_nodes(*final(g)) == pg_nodes(*old(g)),
        pg_edges(*final(g)) == pg_edges(*old(g)).push((a, b, weight)),
{
    g.add_edge(NodeIndex::new(a), NodeIndex::new(b), weight);
}

/// `Graph::find_edge` on a directed graph: the most recently added edge from
/// `a` to `b`, if there is one.
#[verifier::external_body]
fn pg_find_edge(g: &Graph<String, u8, Directed, u32>, a: usize, b: usize) -> (r: Option<usize>)
    requires
        a < pg_nodes(*g).len(),
        b < pg_nodes(*g).len(),
    ensures
        match r {
            None => forall|i: int|
                0 <= i < pg_edges(*g).len() ==> !(#[trigger] pg_edges(*g)[i].0 == a && pg_edges(*g)[i].1 == b),
            Some(e) => e < pg_edges(*g).len() && pg_edges(*g)[e as int].0 == a
                && pg_edges(*g)[e as int].1 == b && forall|j: int|
                e < j < pg_edges(*g).len() ==> !(#[trigger] pg_edges(*g)[j].0 == a && pg_edges(*g)[j].1 == b),
        },
{
    g.find_edge(NodeIndex::new(a), NodeIndex::new(b)).map(|e| e.index())
}

/// `Graph::edge_weight`: the weight of edge `e`, if it exists.
#[verifier::external_body]
fn pg_edge_weight(g: &Graph<String, u8, Directed, u32>, e: usize) -> (r: Option<u8>)
    requires
        e < u32::MAX,
    ensures
        e < pg_edges(*g).len() ==> r == Some(pg_edges(*g)[e as int].2),
        e >= pg_edges(*g).len() ==> r is None,
{
    g.edge_weight(EdgeIndex::new(e)).copied()
}

/// `Graph::node_weight`: the weight of node `n`, if it exists.
#[verifier::external_body]
fn pg_node_weight(g: &Graph<String, u8, Directed, u32>, n: usize) -> (r: Option<&String>)
    requires
        n < u32::MAX,
    ensures
        n < pg_nodes(*g).len() ==> (r is Some && r.unwrap()@ == pg_nodes(*g)[n as int]),
        n >= pg_nodes(*g).len() ==> r is None,
{
    g.node_weight(NodeIndex::new(n))
}

/// `Graph::neighbors_directed` on a directed graph, collected: the far ends
/// of the edges leaving (or entering) `a`, most recently added edge first.
#[verifier::external_body]
fn pg_neighbors(g: &Graph<String, u8, Directed, u32>, a: usize, outgoing: bool) -> (r: Vec<usize>)
    requires
        a < pg_nodes(*g).len(),
    ensures
        r@ == neighbors_rev(pg_edges(*g), a, outgoing),
{
    let dir = if outgoing { petgraph::Direction::Outgoing } else { petgraph::Direction::Incoming };
    g.neighbors_directed(NodeIndex::new(a), dir).map(|n| n.index()).collect()
}

/// `Graph::edges_directed` on a directed graph, collected as triples: the
/// edges leaving (or entering) `a`, most recently added first.
#[verifier::external_body]
fn pg_edges_directed(g: &Graph<String, u8, Directed, u32>, a: usize, outgoing: bool) -> (r: Vec<EdgeTriple>)
    requires
        a < pg_nodes(*g).len(),
    ensures
        r@ == incident_rev(pg_edges(*g), a, outgoing),
{
    let dir = if outgoing { petgraph::Direction::Outgoing } else { petgraph::Direction::Incoming };
    g.edges_directed(NodeIndex::new(a), dir)
        .map(|e| (e.source().index(), e.target().index(), *e.weight()))
        .collect()
}

// ───────────────────────── lemmas on adjacency lists ─────────────────────────

/// An edge is listed for `a` exactly when it is one of the graph's edges
/// with `a` at the listed end.
pub proof fn lemma_incident_rev_contains(es: Seq<EdgeTriple>, a: usize, outgoing: bool, e: EdgeTriple)
    ensures
        incident_rev(es, a, outgoing).contains(e) <==> (es.contains(e)
            && ((outgoing && e.0 == a) || (!outgoing && e.1 == a))),
    decreases es.len(),
{
    if es.len() > 0 {
        let rest = es.drop_last();
        lemma_incident_rev_contains(rest, a, outgoing, e);
        let last = es.last();
        assert(es =~= rest.push(last));
        if es.contains(e) && !rest.contains(e) {
            let k = choose|k: int| 0 <= k < es.len() && es[k] == e;
            assert(k == es.len() - 1) by {
                if k < es.len() - 1 {
                    assert(rest[k] == e);
                }
            }
        }
        if rest.contains(e) {
            let k = choose|k: int| 0 <= k < rest.len() && rest[k] == e;
            assert(es[k] == e);
        }
        let inc = incident_rev(es, a, outgoing);
        let inc_rest = incident_rev(rest, a, outgoing);
        if (outgoing && last.0 == a) || (!outgoing && last.1 == a) {
            assert(inc =~= seq![last] + inc_rest);
            if inc_rest.contains(e) {
                let k = choose|k: int| 0 <= k < inc_rest.len() && inc_rest[k] == e;
                assert(inc[k + 1] == e);
            }
            if inc.contains(e) && e != last {
                let k = choose|k: int| 0 <= k < inc.len() && inc[k] == e;
                assert(inc_rest[k - 1] == e);
            }
            assert(inc[0] == last);
        }
    }
}

/// Every listed edge is one of the graph's edges.
pub proof fn lemma_incident_rev_sub(es: Seq<EdgeTriple>, a: usize, outgoing: bool)
    ensures
        forall|e: EdgeTriple| #[trigger] incident_rev(es, a, outgoing).contains(e) ==> es.contains(e)
            && ((outgoing && e.0 == a) || (!outgoing && e.1 == a)),
        forall|e: EdgeTriple| es.contains(e) && ((outgoing && e.0 == a) || (!outgoing && e.1 == a))
            ==> #[trigger] incident_rev(es, a, outgoing).contains(e),
{
    assert forall|e: EdgeTriple| #[trigger] incident_rev(es, a, outgoing).contains(e) implies es.contains(e)
        && ((outgoing && e.0 == a) || (!outgoing && e.1 == a)) by {
        lemma_incident_rev_contains(es, a, outgoing, e);
    }
    assert forall|e: EdgeTriple| es.contains(e) && ((outgoing && e.0 == a) || (!outgoing && e.1 == a))
        implies #[trigger] incident_rev(es, a, outgoing).contains(e) by {
        lemma_incident_rev_contains(es, a, outgoing, e);
    }
}

/// `v` is the far end of some edge at `a` in the given direction.
pub open spec fn far_end_at(es: Seq<EdgeTriple>, a: usize, outgoing: bool, v: usize) -> bool {
    exists|i: int| 0 <= i < es.len() && far_end(#[trigger] es[i], outgoing) == v
        && ((outgoing && es[i].0 == a) || (!outgoing && es[i].1 == a))
}

/// Each listed neighbour of `a` is the far end of an edge at `a`, and the far
/// end of every edge at `a` is listed.
pub proof fn lemma_neighbors_rev(es: Seq<EdgeTriple>, a: usize, outgoing: bool)
    ensures
        forall|k: int| 0 <= k < neighbors_rev(es, a, outgoing).len()
            ==> far_end_at(es, a, outgoing, #[trigger] neighbors_rev(es, a, outgoing)[k]),
        forall|i: int| 0 <= i < es.len() && ((outgoing && es[i].0 == a) || (!outgoing && es[i].1 == a))
            ==> neighbors_rev(es, a, outgoing).contains(#[trigger] far_end(es[i], outgoing)),
{
    lemma_incident_rev_sub(es, a, outgoing);
    let inc = incident_rev(es, a, outgoing);
    let nb = neighbors_rev(es, a, outgoing);
    assert forall|k: int| 0 <= k < nb.len() implies far_end_at(es, a, outgoing, #[trigger] nb[k]) by {
        assert(inc.contains(inc[k]));
        let i = choose|i: int| 0 <= i < es.len() && es[i] == inc[k];
        assert(nb[k] == far_end(es[i], outgoing));
    }
    assert forall|i: int| 0 <= i < es.len() && ((outgoing && es[i].0 == a) || (!outgoing && es[i].1 == a))
        implies nb.contains(#[trigger] far_end(es[i], outgoing)) by {
        assert(es.contains(es[i]));
        assert(inc.contains(es[i]));
        let k = choose|k: int| 0 <= k < inc.len() && inc[k] == es[i];
        assert(nb[k] == far_end(es[i], outgoing));
    }
}

// ───────────────────────── edge types ─────────────────────────

/// The kinds of relation between atoms kept in the graph.
#[derive(Debug, Clone, Copy, PartialEq, Eq, Structural)]
pub enum EdgeType {
    DerivedFrom,
    InspiredBy,
    Contradicts,
    Replicates,
    Summarizes,
    Supersedes,
    Retracts,
}

/// Stored name of an edge type.
pub open spec fn edge_type_name(t: EdgeType) -> Seq<char> {
    match t {
        EdgeType::DerivedFrom => "derived_from"@,
        EdgeType::InspiredBy => "inspired_by"@,
        EdgeType::Contradicts => "contradicts"@,
        EdgeType::Replicates => "replicates"@,
        EdgeType::Summarizes => "summarizes"@,
        EdgeType::Supersedes => "supersedes"@,
        EdgeType::Retracts => "retracts"@,
    }
}

/// The code under which an edge type is stored in the graph.
pub open spec fn edge_code(t: EdgeType) -> u8 {
    match t {
        EdgeType::DerivedFrom => 0,
        EdgeType::InspiredBy => 1,
        EdgeType::Contradicts => 2,
        EdgeType::Replicates => 3,
        EdgeType::Summarizes => 4,
        EdgeType::Supersedes => 5,
        EdgeType::Retracts => 6,
    }
}

/// The edge type stored under a code (codes are below 7).
pub open spec fn code_edge_type(c: u8) -> EdgeType {
    if c == 0 { EdgeType::DerivedFrom }
    else if c == 1 { EdgeType::InspiredBy }
    else if c == 2 { EdgeType::Contradicts }
    else if c == 3 { EdgeType::Replicates }
    else if c == 4 { EdgeType::Summarizes }
    else if c == 5 { EdgeType::Supersedes }
    else { EdgeType::Retracts }
}

impl EdgeType {
    /// Reads a stored edge-type name; any other text is a validation error.
    pub fn from_str(s: &str) -> (r: Result<EdgeType, MoteError>)
        ensures
            match r {
                Ok(t) => edge_type_name(t) == s@,
                Err(e) => (forall|t: EdgeType| edge_type_name(t) != s@)
                    && crate::error::validation_error_with(e, "Unknown edge type: "@ + s@),
            },
    {
        proof {
            reveal_strlit("derived_from");
            reveal_strlit("inspired_by");
            reveal_strlit("contradicts");
            reveal_strlit("replicates");
            reveal_strlit("summarizes");
            reveal_strlit("supersedes");
            reveal_strlit("retracts");
        }
        if str_eq(s, "derived_from") {
            Ok(EdgeType::DerivedFrom)
        } else if str_eq(s, "inspired_by") {
            Ok(EdgeType::InspiredBy)
        } else if str_eq(s, "contradicts") {
            Ok(EdgeType::Contradicts)
        } else if str_eq(s, "replicates") {
            Ok(EdgeType::Replicates)
        } else if str_eq(s, "summarizes") {
            Ok(EdgeType::Summarizes)
        } else if str_eq(s, "supersedes") {
            Ok(EdgeType::Supersedes)
        } else if str_eq(s, "retracts") {
            Ok(EdgeType::Retracts)
        } else {
            Err(MoteError::Validation(concat2("Unknown edge type: ", s)))
        }
    }

    /// The stored name of this edge type.
    pub fn as_str(&self) -> (r: &'static str)
        ensures
            r@ == edge_type_name(*self),
    {
        match self {
            EdgeType::DerivedFrom => "derived_from",
            EdgeType::InspiredBy => "inspired_by",
            EdgeType::Contradicts => "contradicts",
            EdgeType::Replicates => "replicates",
            EdgeType::Summarizes => "summarizes",
            EdgeType::Supersedes => "supersedes",
            EdgeType::Retracts => "retracts",
        }
    }

    fn code(&self) -> (c: u8)
        ensures
            c == edge_code(*self),
            c < 7,
            code_edge_type(c) == *self,
    {
        match self {
            EdgeType::DerivedFrom => 0,
            EdgeType::InspiredBy => 1,
            EdgeType::Contradicts => 2,
            EdgeType::Replicates => 3,
            EdgeType::Summarizes => 4,
            EdgeType::Supersedes => 5,
            EdgeType::Retracts => 6,
        }
    }

    fn from_code(c: u8) -> (t: EdgeType)
        ensures
            t == code_edge_type(c),
    {
        if c == 0 { EdgeType::DerivedFrom }
        else if c == 1 { EdgeType::InspiredBy }
        else if c == 2 { EdgeType::Contradicts }
        else if c == 3 { EdgeType::Replicates }
        else if c == 4 { EdgeType::Summarizes }
        else if c == 5 { EdgeType::Supersedes }
        else { EdgeType::Retracts }
    }
}

/// Reading back the stored name of an edge type gives the same edge type.
pub proof fn lemma_edge_type_name_injective(t: EdgeType, u: EdgeType)
    ensures
        edge_type_name(t) == edge_type_name(u) ==> t == u,
{
    reveal_strlit("derived_from");
    reveal_strlit("inspired_by");
    reveal_strlit("contradicts");
    reveal_strlit("replicates");
    reveal_strlit("summarizes");
    reveal_strlit("supersedes");
    reveal_strlit("retracts");
    if edge_type_name(t) == edge_type_name(u) && t != u {
        assert(edge_type_name(t).len() != edge_type_name(u).len()
            || edge_type_name(t)[0] != edge_type_name(u)[0]
            || edge_type_name(t)[2] != edge_type_name(u)[2]);
    }
}

/// Direction in which a traversal follows edges.
#[derive(Debug, Clone, Copy, PartialEq, Eq, Structural)]
pub enum TraversalDirection {
    Outgoing,
    Incoming,
    Both,
}

// ───────────────────────── reachability ─────────────────────────

/// There is an edge from `a` to `b` whose type is one of `types`.
pub open spec fn typed_edge(es: Seq<EdgeTriple>, types: Seq<EdgeType>, a: usize, b: usize) -> bool {
    exists|i: int| 0 <= i < es.len() && #[trigger] es[i].0 == a && es[i].1 == b
        && types.contains(code_edge_type(es[i].2))
}

/// One traversal step from `u` to `v` in the given direction.
pub open spec fn step(es: Seq<EdgeTriple>, types: Seq<EdgeType>, dir: TraversalDirection, u: usize, v: usize) -> bool {
    match dir {
        TraversalDirection::Outgoing => typed_edge(es, types, u, v),
        TraversalDirection::Incoming => typed_edge(es, types, v, u),
        TraversalDirection::Both => typed_edge(es, types, u, v) || typed_edge(es, types, v, u),
    }
}

/// `v` can be reached from `s` in at most `k` steps.
pub open spec fn reach(es: Seq<EdgeTriple>, types: Seq<EdgeType>, dir: TraversalDirection, s: usize, v: usize, k: nat) -> bool
    decreases k,
{
    if k == 0 {
        v == s
    } else {
        reach(es, types, dir, s, v, (k - 1) as nat) || exists|u: usize|
            reach(es, types, dir, s, u, (k - 1) as nat) && #[trigger] step(es, types, dir, u, v)
    }
}

/// Reachability within a bound is kept when the bound grows.
pub proof fn lemma_reach_mono(es: Seq<EdgeTriple>, types: Seq<EdgeType>, dir: TraversalDirection, s: usize, v: usize, k: nat, m: nat)
    requires
        reach(es, types, dir, s, v, k),
        k <= m,
    ensures
        reach(es, types, dir, s, v, m),
    decreases m - k,
{
    if k < m {
        lemma_reach_mono(es, types, dir, s, v, k, (m - 1) as nat);
    }
}



/// The direction a lineage walk follows: incoming edges for `ancestors`,
/// outgoing edges for `descendants`, both otherwise.
pub open spec fn lineage_direction(d: Seq<char>) -> TraversalDirection {
    if d == "ancestors"@ {
        TraversalDirection::Incoming
    } else if d == "descendants"@ {
        TraversalDirection::Outgoing
    } else {
        TraversalDirection::Both
    }
}

/// The edge-type filter of a lineage walk lets edges of type `t` through:
/// every type without a filter, the named types with one.
pub open spec fn filter_admits(filter: Option<Seq<String>>, t: EdgeType) -> bool {
    match filter {
        None => true,
        Some(f) => exists|i: int| 0 <= i < f.len() && (#[trigger] f[i])@ == edge_type_name(t),
    }
}

/// The edge types, in code order, among the first `n` codes that the
/// filter lets through.
pub open spec fn admitted_upto(filter: Option<Seq<String>>, n: nat) -> Seq<EdgeType>
    decreases n,
{
    if n == 0 {
        Seq::empty()
    } else {
        let t = code_edge_type((n - 1) as u8);
        let rest = admitted_upto(filter, (n - 1) as nat);
        if filter_admits(filter, t) { rest.push(t) } else { rest }
    }
}

/// The edge types the filter lets through.
pub open spec fn admitted_types(filter: Option<Seq<String>>) -> Seq<EdgeType> {
    admitted_upto(filter, 7)
}

/// The filter as a sequence of names.
pub open spec fn filter_view(f: Option<&[String]>) -> Option<Seq<String>> {
    match f {
        Some(x) => Some(x@),
        None => None,
    }
}

/// Some atom of the list is called `id`.
pub open spec fn lineage_has(ns: Seq<String>, id: Seq<char>) -> bool {
    exists|k: int| 0 <= k < ns.len() && (#[trigger] ns[k])@ == id
}

/// The neighbour a candidate edge `(source, target)` leads to from `cur`.
pub open spec fn cand_neighbor(c: (usize, usize), cur: usize) -> usize {
    if c.0 == cur { c.1 } else { c.0 }
}

/// The edge `e` leaves `u` (when the walk follows outgoing edges) or
/// enters it (when it follows incoming ones).
pub open spec fn on_side(e: EdgeTriple, u: usize, dir: TraversalDirection) -> bool {
    (dir != TraversalDirection::Incoming && e.0 == u) || (dir != TraversalDirection::Outgoing && e.1 == u)
}

/// The edge index `i` is among `ids`.
pub open spec fn edge_listed(ids: Seq<int>, i: int) -> bool {
    exists|m: int| 0 <= m < ids.len() && ids[m] == i
}

proof fn lemma_edge_listed_push(ids: Seq<int>, x: int)
    ensures
        forall|i: int| #[trigger] edge_listed(ids, i) ==> edge_listed(ids.push(x), i),
        edge_listed(ids.push(x), x),
{
    assert forall|i: int| #[trigger] edge_listed(ids, i) implies edge_listed(ids.push(x), i) by {
        let m = choose|m: int| 0 <= m < ids.len() && ids[m] == i;
        assert(ids.push(x)[m] == i);
    }
    assert(ids.push(x)[ids.len() as int] == x);
}

fn lineage_dir_of(direction: &str) -> (r: TraversalDirection)
    ensures
        r == lineage_direction(direction@),
{
    if str_eq(direction, "ancestors") {
        TraversalDirection::Incoming
    } else if str_eq(direction, "descendants") {
        TraversalDirection::Outgoing
    } else {
        TraversalDirection::Both
    }
}

fn filter_names_contain(filter: &[String], name: &str) -> (r: bool)
    ensures
        r == exists|i: int| 0 <= i < filter@.len() && (#[trigger] filter@[i])@ == name@,
{
    let mut i: usize = 0;
    while i < filter.len()
        invariant
            i <= filter@.len(),
            forall|k: int| 0 <= k < i ==> (#[trigger] filter@[k])@ != name@,
        decreases filter@.len() - i,
    {
        if str_eq(filter[i].as_str(), name) {
            return true;
        }
        i = i + 1;
    }
    false
}

fn filter_types(filter: Option<&[String]>) -> (r: Vec<EdgeType>)
    ensures
        r@ == admitted_types(filter_view(filter)),
{
    let ghost f = match filter { Some(f) => Some(f@), None => None };
    let mut out: Vec<EdgeType> = Vec::new();
    let mut c: u8 = 0;
    while c < 7
        invariant
            c <= 7,
            f == match filter { Some(f) => Some(f@), None => None },
            out@ == admitted_upto(f, c as nat),
        decreases 7 - c,
    {
        let t = EdgeType::from_code(c);
        let admits = match filter {
            None => true,
            Some(names) => {
                let name = t.as_str();
                let a = filter_names_contain(names, name);
                proof {
                    assert(name@ == edge_type_name(t));
                    assert(f == Some(names@));
                    if a {
                        let i = choose|i: int| 0 <= i < names@.len() && (#[trigger] names@[i])@ == name@;
                        assert(f->0[i]@ == edge_type_name(t));
                    }
                    if filter_admits(f, t) {
                        let i = choose|i: int| 0 <= i < f->0.len() && (#[trigger] f->0[i])@ == edge_type_name(t);
                        assert(names@[i]@ == name@);
                    }
                }
                a
            },
        };
        assert(admits == filter_admits(f, t));
        assert(code_edge_type(((c + 1) as nat - 1) as u8) == t);
        if admits {
            out.push(t);
        }
        c = c + 1;
    }
    out
}

// ───────────────────────── the graph cache ─────────────────────────

/// Number of `false` entries in a flag sequence.
pub open spec fn count_false(s: Seq<bool>) -> nat
    decreases s.len(),
{
    if s.len() == 0 {
        0
    } else {
        count_false(s.drop_last()) + if s.last() { 0nat } else { 1nat }
    }
}

proof fn lemma_count_false_bound(s: Seq<bool>)
    ensures
        count_false(s) <= s.len(),
    decreases s.len(),
{
    if s.len() > 0 {
        lemma_count_false_bound(s.drop_last());
    }
}

proof fn lemma_count_false_set(s: Seq<bool>, i: int)
    requires
        0 <= i < s.len(),
        !s[i],
    ensures
        count_false(s.update(i, true)) + 1 == count_false(s),
    decreases s.len(),
{
    let t = s.update(i, true);
    if i == s.len() - 1 {
        assert(t.drop_last() =~= s.drop_last());
    } else {
        lemma_count_false_set(s.drop_last(), i);
        assert(t.drop_last() =~= s.drop_last().update(i, true));
    }
}

proof fn lemma_count_false_push(s: Seq<bool>)
    ensures
        count_false(s.push(false)) == count_false(s) + 1,
{
    assert(s.push(false).drop_last() =~= s);
}

/// The in-memory atom graph: every atom id is a node, and each ordered pair
/// of atoms has at most one edge.
pub struct GraphCache {
    graph: Graph<String, u8, Directed, u32>,
    node_indices: StringHashMap<usize>,
    cluster_cache: Vec<(String, JsonValue)>,
}

/// Atoms reached from a set of starting atoms, the edge types crossed and
/// the paths taken.
pub struct GraphSubgraph {
    pub hops_explored: u32,
    pub connected_atoms: Vec<String>,
    pub edge_types_found: Vec<String>,
    pub paths: Vec<Vec<String>>,
}

/// The lineage of an atom: the atoms reached (the start first) and the
/// edges crossed.
pub struct LineageSubgraph {
    pub nodes: Vec<String>,
    pub edges: Vec<LineageEdge>,
}

/// An edge of a lineage: source and target atom ids and the edge type's
/// name.
pub struct LineageEdge {
    pub source: String,
    pub target: String,
    pub edge_type: String,
}

/// An edge as atom ids and type name: (source, target, type).
pub open spec fn edge_view(e: LineageEdge) -> (Seq<char>, Seq<char>, Seq<char>) {
    (e.source@, e.target@, e.edge_type@)
}

/// `e` names the stored edge `t` of a graph with node names `nodes`.
pub open spec fn edge_is(e: LineageEdge, nodes: Seq<Seq<char>>, t: EdgeTriple) -> bool {
    edge_view(e) == named_edge(nodes, t)
}

/// The stored edge `e` of a graph with node names `nodes`, as atom ids and
/// type name.
pub open spec fn named_edge(nodes: Seq<Seq<char>>, e: EdgeTriple) -> (Seq<char>, Seq<char>, Seq<char>) {
    (nodes[e.0 as int], nodes[e.1 as int], edge_type_name(code_edge_type(e.2)))
}

/// The number of cached cluster results at which the cache is thinned.
pub open spec fn cluster_cache_cap() -> int {
    100
}

/// The cache after storing `value` under `key`: when full, its ten oldest
/// entries go first; then the key's entry is replaced, or a new one added
/// at the end.
pub open spec fn cluster_after_set(entries: Seq<(Seq<char>, JsonValue)>, key: Seq<char>, value: JsonValue)
    -> Seq<(Seq<char>, JsonValue)>
{
    let kept = if entries.len() >= cluster_cache_cap() { entries.skip(10) } else { entries };
    let i = first_key_index(kept, key);
    if i >= 0 { kept.update(i, (key, value)) } else { kept.push((key, value)) }
}

/// The index of the first entry under `key`, or -1.
pub open spec fn first_key_index(entries: Seq<(Seq<char>, JsonValue)>, key: Seq<char>) -> int {
    if exists|i: int| 0 <= i < entries.len() && (#[trigger] entries[i]).0 == key {
        choose|i: int| 0 <= i < entries.len() && (#[trigger] entries[i]).0 == key
            && forall|j: int| 0 <= j < i ==> (#[trigger] entries[j]).0 != key
    } else {
        -1
    }
}

impl GraphCache {
    /// Atom ids of the nodes, by node index.
    pub closed spec fn nodes(&self) -> Seq<Seq<char>> {
        pg_nodes(self.graph)
    }

    /// The edges, by edge index, as (source index, target index, type code).
    pub closed spec fn edges(&self) -> Seq<EdgeTriple> {
        pg_edges(self.graph)
    }

    /// The node index of each atom id in the graph.
    pub closed spec fn index_of(&self) -> Map<Seq<char>, usize> {
        self.node_indices@
    }

    /// The graph's invariant: the index map and the node list agree, edges
    /// join existing nodes and carry a known type, no two edges join the same
    /// ordered pair, and the indices fit the graph's `u32` index type.
    pub closed spec fn wf(&self) -> bool {
        let n = self.nodes().len();
        let es = self.edges();
        &&& n <= u32::MAX
        &&& es.len() <= u32::MAX
        &&& forall|i: int| 0 <= i < n ==> self.index_of().contains_key(#[trigger] self.nodes()[i])
            && self.index_of()[self.nodes()[i]] == i
        &&& forall|k: Seq<char>| #[trigger] self.index_of().contains_key(k) ==> self.index_of()[k] < n
            && self.nodes()[self.index_of()[k] as int] == k
        &&& forall|i: int| 0 <= i < es.len() ==> (#[trigger] es[i]).0 < n && es[i].1 < n && es[i].2 < 7
        &&& forall|i: int, j: int| 0 <= i < es.len() && 0 <= j < es.len() && i != j
            ==> !(#[trigger] es[i].0 == #[trigger] es[j].0 && es[i].1 == es[j].1)
    }

    /// `id` names a node other than `s` within `max` traversal steps of `s`.
    pub open spec fn reached_atom(&self, s: usize, types: Seq<EdgeType>, dir: TraversalDirection, max: nat, id: Seq<char>) -> bool {
        exists|v: usize| v < self.nodes().len() && #[trigger] self.nodes()[v as int] == id && v != s
            && reach(self.edges(), types, dir, s, v, max)
    }

    /// `e` is a stored edge of one of `types` whose two atoms are among `ns`.
    pub open spec fn crossed_edge(&self, e: LineageEdge, types: Seq<EdgeType>, ns: Seq<String>) -> bool {
        exists|i: int| 0 <= i < self.edges().len() && edge_is(e, self.nodes(), #[trigger] self.edges()[i])
            && types.contains(code_edge_type(self.edges()[i].2))
            && lineage_has(ns, self.nodes()[self.edges()[i].0 as int])
            && lineage_has(ns, self.nodes()[self.edges()[i].1 as int])
    }

    /// Atom ids in the graph.
    pub open spec fn contains_atom(&self, id: Seq<char>) -> bool {
        self.index_of().contains_key(id)
    }

    /// The cached cluster results, oldest first.
    pub closed spec fn cluster_entries(&self) -> Seq<(Seq<char>, JsonValue)> {
        self.cluster_cache@.map_values(|e: (String, JsonValue)| (e.0@, e.1))
    }

    /// The cached result under `cache_key`.
    pub fn get_cluster_result(&self, cache_key: &str) -> (r: Option<&JsonValue>)
        ensures
            first_key_index(self.cluster_entries(), cache_key@) < 0 ==> r is None,
            first_key_index(self.cluster_entries(), cache_key@) >= 0 ==> r is Some
                && *r->0 == self.cluster_entries()[first_key_index(self.cluster_entries(), cache_key@)].1,
    {
        let ghost es = self.cluster_entries();
        let mut i: usize = 0;
        while i < self.cluster_cache.len()
            invariant
                i <= self.cluster_cache@.len(),
                es == self.cluster_entries(),
                es.len() == self.cluster_cache@.len(),
                forall|j: int| 0 <= j < i ==> (#[trigger] es[j]).0 != cache_key@,
            decreases self.cluster_cache@.len() - i,
        {
            assert(es[i as int] == (self.cluster_cache@[i as int].0@, self.cluster_cache@[i as int].1));
            if str_eq(self.cluster_cache[i].0.as_str(), cache_key) {
                proof {
                    lemma_first_key_index(es, cache_key@, i as int);
                }
                return Some(&self.cluster_cache[i].1);
            }
            i = i + 1;
        }
        proof {
            if exists|k: int| 0 <= k < es.len() && (#[trigger] es[k]).0 == cache_key@ {
                let k = choose|k: int| 0 <= k < es.len() && (#[trigger] es[k]).0 == cache_key@;
                assert(es[k].0 != cache_key@);
            }
        }
        None
    }

    /// Stores a cluster result under `cache_key`. When the cache holds 100
    /// results or more, the ten oldest are dropped first.
    pub fn set_cluster_result(&mut self, cache_key: String, result: JsonValue)
        ensures
            final(self).cluster_entries() == cluster_after_set(old(self).cluster_entries(), cache_key@, result),
            final(self).nodes() == old(self).nodes(),
            final(self).edges() == old(self).edges(),
            final(self).index_of() == old(self).index_of(),
            old(self).wf() ==> final(self).wf(),
    {
        let ghost before = self.cluster_entries();
        if self.cluster_cache.len() >= 100 {
            let rest = self.cluster_cache.split_off(10);
            self.cluster_cache = rest;
            assert(self.cluster_entries() =~= before.skip(10));
        }
        let ghost kept = self.cluster_entries();
        assert(kept == if before.len() >= 100 { before.skip(10) } else { before });
        let mut i: usize = 0;
        while i < self.cluster_cache.len()
            invariant
                i <= self.cluster_cache@.len(),
                kept == self.cluster_entries(),
                kept == if before.len() >= 100 { before.skip(10) } else { before },
                before == old(self).cluster_entries(),
                self.graph == old(self).graph,
                self.node_indices == old(self).node_indices,
                kept.len() == self.cluster_cache@.len(),
                forall|j: int| 0 <= j < i ==> (#[trigger] kept[j]).0 != cache_key@,
            decreases self.cluster_cache@.len() - i,
        {
            assert(kept[i as int] == (self.cluster_cache@[i as int].0@, self.cluster_cache@[i as int].1));
            if str_eq(self.cluster_cache[i].0.as_str(), cache_key.as_str()) {
                proof {
                    lemma_first_key_index(kept, cache_key@, i as int);
                }
                let ghost k = cache_key@;
                let ghost v = result;
                let _old = self.cluster_cache.remove(i);
                self.cluster_cache.insert(i, (cache_key, result));
                assert(self.cluster_entries() =~= kept.update(i as int, (k, v)));
                proof {
                    lemma_wf_same_graph(*old(self), *self);
                }
                return;
            }
            i = i + 1;
        }
        proof {
            if exists|k: int| 0 <= k < kept.len() && (#[trigger] kept[k]).0 == cache_key@ {
                let k = choose|k: int| 0 <= k < kept.len() && (#[trigger] kept[k]).0 == cache_key@;
                assert(kept[k].0 != cache_key@);
            }
        }
        let ghost k = cache_key@;
        let ghost v = result;
        self.cluster_cache.push((cache_key, result));
        assert(self.cluster_entries() =~= kept.push((k, v)));
        proof {
            lemma_wf_same_graph(*old(self), *self);
        }
    }

    /// Empties the cluster cache.
    pub fn clear_cluster_cache(&mut self)
        ensures
            final(self).cluster_entries() == Seq::<(Seq<char>, JsonValue)>::empty(),
            final(self).nodes() == old(self).nodes(),
            final(self).edges() == old(self).edges(),
            final(self).index_of() == old(self).index_of(),
            old(self).wf() ==> final(self).wf(),
    {
        self.cluster_cache.clear();
        assert(self.cluster_entries() =~= Seq::<(Seq<char>, JsonValue)>::empty());
    }

    fn lineage_edge_of(&self, e: EdgeTriple) -> (r: LineageEdge)
        requires
            self.wf(),
            e.0 < self.nodes().len(),
            e.1 < self.nodes().len(),
        ensures
            edge_view(r) == named_edge(self.nodes(), e),
    {
        let src = match pg_node_weight(&self.graph, e.0) { Some(s) => s.clone(), None => String::new() };
        let tgt = match pg_node_weight(&self.graph, e.1) { Some(s) => s.clone(), None => String::new() };
        let t = EdgeType::from_code(e.2);
        LineageEdge { source: src, target: tgt, edge_type: to_owned_string(t.as_str()) }
    }

    /// The edges at `atom_id`: those leaving it, then those entering it,
    /// each list most recently added first; none for an unknown atom.
    pub fn get_edges(&self, atom_id: &str) -> (r: Vec<LineageEdge>)
        requires
            self.wf(),
        ensures
            !self.contains_atom(atom_id@) ==> r@.len() == 0,
            self.contains_atom(atom_id@) ==> ({
                let i = self.index_of()[atom_id@];
                let listed = incident_rev(self.edges(), i, true) + incident_rev(self.edges(), i, false);
                &&& r@.len() == listed.len()
                &&& forall|k: int| 0 <= k < r@.len() ==> edge_view(#[trigger] r@[k]) == named_edge(self.nodes(), listed[k])
            }),
    {
        let idx = match self.node_indices.get(atom_id) {
            Some(i) => *i,
            None => { return Vec::new(); },
        };
        proof {
            assert(self.index_of().contains_key(atom_id@));
        }
        let outs = pg_edges_directed(&self.graph, idx, true);
        let ins = pg_edges_directed(&self.graph, idx, false);
        let ghost listed = outs@ + ins@;
        let ghost nodes = self.nodes();
        proof {
            lemma_incident_rev_sub(self.edges(), idx, true);
            lemma_incident_rev_sub(self.edges(), idx, false);
        }
        let mut out: Vec<LineageEdge> = Vec::new();
        let mut k: usize = 0;
        while k < outs.len()
            invariant
                self.wf(),
                nodes == self.nodes(),
                idx < nodes.len(),
                listed == outs@ + ins@,
                forall|e: EdgeTriple| #[trigger] outs@.contains(e) ==> self.edges().contains(e),
                k <= outs@.len(),
                out@.len() == k,
                forall|q: int| 0 <= q < k ==> edge_view(#[trigger] out@[q]) == named_edge(nodes, listed[q]),
            decreases outs@.len() - k,
        {
            let e: EdgeTriple = outs[k];
            proof {
                assert(e == listed[k as int]);
                assert(outs@.contains(e));
                let j = choose|j: int| 0 <= j < self.edges().len() && self.edges()[j] == e;
                assert(self.edges()[j].0 < nodes.len() && self.edges()[j].1 < nodes.len() && self.edges()[j].2 < 7);
            }
            out.push(self.lineage_edge_of(e));
            k = k + 1;
        }
        let mut m: usize = 0;
        while m < ins.len()
            invariant
                self.wf(),
                nodes == self.nodes(),
                idx < nodes.len(),
                listed == outs@ + ins@,
                forall|e: EdgeTriple| #[trigger] ins@.contains(e) ==> self.edges().contains(e),
                m <= ins@.len(),
                out@.len() == outs@.len() + m,
                forall|q: int| 0 <= q < outs@.len() + m ==> edge_view(#[trigger] out@[q]) == named_edge(nodes, listed[q]),
            decreases ins@.len() - m,
        {
            let e: EdgeTriple = ins[m];
            proof {
                assert(e == listed[outs@.len() + m]);
                assert(ins@.contains(e));
                let j = choose|j: int| 0 <= j < self.edges().len() && self.edges()[j] == e;
                assert(self.edges()[j].0 < nodes.len() && self.edges()[j].1 < nodes.len() && self.edges()[j].2 < 7);
            }
            out.push(self.lineage_edge_of(e));
            m = m + 1;
        }
        out
    }

    /// An empty graph.
    pub fn new() -> (r: GraphCache)
        ensures
            r.wf(),
            r.nodes() == Seq::<Seq<char>>::empty(),
            r.edges() == Seq::<EdgeTriple>::empty(),
            r.cluster_entries() == Seq::<(Seq<char>, JsonValue)>::empty(),
    {
        let r = GraphCache { graph: pg_new(), node_indices: StringHashMap::new(), cluster_cache: Vec::new() };
        assert(r.index_of() =~= Map::<Seq<char>, usize>::empty());
        assert(r.cluster_entries() =~= Seq::<(Seq<char>, JsonValue)>::empty());
        r
    }

    /// Number of atoms in the graph.
    pub fn node_count(&self) -> (r: usize)
        requires
            self.wf(),
        ensures
            r == self.nodes().len(),
    {
        pg_node_count(&self.graph)
    }

    /// Number of edges in the graph.
    pub fn edge_count(&self) -> (r: usize)
        requires
            self.wf(),
        ensures
            r == self.edges().len(),
    {
        pg_edge_count(&self.graph)
    }

    /// The node of `atom_id`, adding one if the atom is new. Returns its index.
    pub fn add_node(&mut self, atom_id: String) -> (r: usize)
        requires
            old(self).wf(),
            !old(self).contains_atom(atom_id@) ==> old(self).nodes().len() < u32::MAX,
        ensures
            final(self).wf(),
            final(self).edges() == old(self).edges(),
            old(self).contains_atom(atom_id@) ==> final(self).nodes() == old(self).nodes()
                && r == old(self).index_of()[atom_id@],
            !old(self).contains_atom(atom_id@) ==> final(self).nodes() == old(self).nodes().push(atom_id@)
                && r == old(self).nodes().len(),
            final(self).contains_atom(atom_id@),
            final(self).index_of()[atom_id@] == r,
            r < final(self).nodes().len(),
            final(self).nodes()[r as int] == atom_id@,
            forall|k: Seq<char>| old(self).contains_atom(k) ==> final(self).contains_atom(k)
                && final(self).index_of()[k] == old(self).index_of()[k],
    {
        if let Some(idx) = self.node_indices.get(atom_id.as_str()) {
            return *idx;
        }
        let ghost old_nodes = self.nodes();
        let key = atom_id.clone();
        let idx = pg_add_node(&mut self.graph, atom_id);
        self.node_indices.insert(key, idx);
        proof {
            let n = self.nodes();
            assert(n.len() == old_nodes.len() + 1);
            assert forall|i: int| 0 <= i < n.len() implies self.index_of().contains_key(#[trigger] n[i])
                && self.index_of()[n[i]] == i by {
                if i < old_nodes.len() {
                    assert(n[i] == old_nodes[i]);
                    if n[i] == key@ {
                        assert(old(self).index_of().contains_key(key@));
                    }
                }
            }
            assert forall|k: Seq<char>| #[trigger] self.index_of().contains_key(k) implies self.index_of()[k] < n.len()
                && n[self.index_of()[k] as int] == k by {
                if k != key@ {
                    assert(old(self).index_of().contains_key(k));
                }
            }
            let es = self.edges();
            assert forall|i: int| 0 <= i < es.len() implies (#[trigger] es[i]).0 < n.len() && es[i].1 < n.len() && es[i].2 < 7 by {
                assert(old(self).edges()[i] == es[i]);
            }
        }
        idx
    }

    /// `types` contains the edge type stored under code `c`.
    fn types_contain(types: &[EdgeType], c: u8) -> (r: bool)
        ensures
            r == types@.contains(code_edge_type(c)),
    {
        let t = EdgeType::from_code(c);
        let mut i: usize = 0;
        while i < types.len()
            invariant
                0 <= i <= types@.len(),
                t == code_edge_type(c),
                forall|k: int| 0 <= k < i ==> types@[k] != t,
            decreases types@.len() - i,
        {
            if types[i] == t {
                return true;
            }
            i = i + 1;
        }
        false
    }

    /// There is an edge from node `a` to node `b` with one of `types`.
    fn typed_edge_between(&self, a: usize, b: usize, types: &[EdgeType]) -> (r: bool)
        requires
            self.wf(),
            a < self.nodes().len(),
            b < self.nodes().len(),
        ensures
            r == typed_edge(self.edges(), types@, a, b),
    {
        match pg_find_edge(&self.graph, a, b) {
            None => false,
            Some(e) => {
                let w = pg_edge_weight(&self.graph, e);
                match w {
                    None => false,
                    Some(c) => {
                        let r = Self::types_contain(types, c);
                        proof {
                            let es = self.edges();
                            if typed_edge(es, types@, a, b) {
                                let i = choose|i: int| 0 <= i < es.len() && #[trigger] es[i].0 == a && es[i].1 == b
                                    && types@.contains(code_edge_type(es[i].2));
                                if i != e {
                                    assert(!(es[i].0 == es[e as int].0 && es[i].1 == es[e as int].1));
                                }
                            }
                        }
                        r
                    },
                }
            },
        }
    }


    /// The edge from `a` to `b` when its type is one of `types`.
    fn typed_edge_index(&self, a: usize, b: usize, types: &[EdgeType]) -> (r: Option<usize>)
        requires
            self.wf(),
            a < self.nodes().len(),
            b < self.nodes().len(),
        ensures
            r is Some <==> typed_edge(self.edges(), types@, a, b),
            r is Some ==> r->0 < self.edges().len() && self.edges()[r->0 as int].0 == a
                && self.edges()[r->0 as int].1 == b && types@.contains(code_edge_type(self.edges()[r->0 as int].2)),
    {
        match pg_find_edge(&self.graph, a, b) {
            None => None,
            Some(e) => {
                match pg_edge_weight(&self.graph, e) {
                    None => None,
                    Some(c) => {
                        if Self::types_contain(types, c) {
                            Some(e)
                        } else {
                            proof {
                                let es = self.edges();
                                if typed_edge(es, types@, a, b) {
                                    let i = choose|i: int| 0 <= i < es.len() && #[trigger] es[i].0 == a && es[i].1 == b
                                        && types@.contains(code_edge_type(es[i].2));
                                    if i != e {
                                        assert(!(es[i].0 == es[e as int].0 && es[i].1 == es[e as int].1));
                                    }
                                }
                            }
                            None
                        }
                    },
                }
            },
        }
    }

    /// The candidate edges at `cur` for a direction, as (source, target)
    /// pairs: the outgoing ones, then the incoming ones.
    fn lineage_candidates(&self, cur: usize, dir: TraversalDirection) -> (r: Vec<(usize, usize)>)
        requires
            self.wf(),
            cur < self.nodes().len(),
        ensures
            forall|k: int| 0 <= k < r@.len() ==> (#[trigger] r@[k]).0 < self.nodes().len()
                && r@[k].1 < self.nodes().len() && (r@[k].0 == cur || r@[k].1 == cur),
            dir == TraversalDirection::Outgoing ==> forall|k: int| 0 <= k < r@.len() ==> (#[trigger] r@[k]).0 == cur,
            dir == TraversalDirection::Incoming ==> forall|k: int| 0 <= k < r@.len() ==> (#[trigger] r@[k]).1 == cur,
            dir != TraversalDirection::Incoming ==> forall|i: int| 0 <= i < self.edges().len()
                && #[trigger] self.edges()[i].0 == cur ==> exists|k: int| 0 <= k < r@.len()
                && #[trigger] r@[k] == (cur, self.edges()[i].1),
            dir != TraversalDirection::Outgoing ==> forall|i: int| 0 <= i < self.edges().len()
                && #[trigger] self.edges()[i].1 == cur ==> exists|k: int| 0 <= k < r@.len()
                && #[trigger] r@[k] == (self.edges()[i].0, cur),
    {
        let ghost es = self.edges();
        let ghost n = self.nodes().len();
        proof {
            lemma_neighbors_rev(es, cur, true);
            lemma_neighbors_rev(es, cur, false);
        }
        let mut out: Vec<(usize, usize)> = Vec::new();
        if dir != TraversalDirection::Incoming {
            let outs = pg_neighbors(&self.graph, cur, true);
            let mut j: usize = 0;
            while j < outs.len()
                invariant
                    self.wf(),
                    es == self.edges(),
                    n == self.nodes().len(),
                    cur < n,
                    outs@ == neighbors_rev(es, cur, true),
                    j <= outs@.len(),
                    out@.len() == j,
                    forall|k: int| 0 <= k < j ==> (#[trigger] out@[k]) == (cur, outs@[k]),
                    forall|k: int| 0 <= k < outs@.len() ==> far_end_at(es, cur, true, #[trigger] outs@[k]),
                decreases outs@.len() - j,
            {
                proof {
                    assert(far_end_at(es, cur, true, outs@[j as int]));
                    let i = choose|i: int| 0 <= i < es.len() && far_end(#[trigger] es[i], true) == outs@[j as int]
                        && es[i].0 == cur;
                    assert(es[i].1 < n);
                }
                out.push((cur, outs[j]));
                j = j + 1;
            }
            proof {
                assert forall|i: int| 0 <= i < es.len() && #[trigger] es[i].0 == cur implies exists|k: int|
                    0 <= k < out@.len() && #[trigger] out@[k] == (cur, es[i].1) by {
                    assert(outs@.contains(far_end(es[i], true)));
                    let k = choose|k: int| 0 <= k < outs@.len() && outs@[k] == far_end(es[i], true);
                    assert(out@[k] == (cur, es[i].1));
                }
            }
        }
        let ghost after_out = out@;
        if dir != TraversalDirection::Outgoing {
            let ins = pg_neighbors(&self.graph, cur, false);
            let base = out.len();
            let mut j: usize = 0;
            while j < ins.len()
                invariant
                    self.wf(),
                    es == self.edges(),
                    n == self.nodes().len(),
                    cur < n,
                    ins@ == neighbors_rev(es, cur, false),
                    base == after_out.len(),
                    j <= ins@.len(),
                    out@.len() == base + j,
                    forall|k: int| 0 <= k < base ==> out@[k] == after_out[k],
                    forall|k: int| 0 <= k < j ==> (#[trigger] out@[base + k]) == (ins@[k], cur),
                    forall|k: int| 0 <= k < ins@.len() ==> far_end_at(es, cur, false, #[trigger] ins@[k]),
                decreases ins@.len() - j,
            {
                proof {
                    assert(far_end_at(es, cur, false, ins@[j as int]));
                    let i = choose|i: int| 0 <= i < es.len() && far_end(#[trigger] es[i], false) == ins@[j as int]
                        && es[i].1 == cur;
                    assert(es[i].0 < n);
                }
                out.push((ins[j], cur));
                j = j + 1;
            }
            proof {
                assert forall|i: int| 0 <= i < es.len() && #[trigger] es[i].1 == cur implies exists|k: int|
                    0 <= k < out@.len() && #[trigger] out@[k] == (es[i].0, cur) by {
                    assert(ins@.contains(far_end(es[i], false)));
                    let k = choose|k: int| 0 <= k < ins@.len() && ins@[k] == far_end(es[i], false);
                    assert(out@[base + k] == (es[i].0, cur));
                }
                if dir != TraversalDirection::Incoming {
                    assert forall|i: int| 0 <= i < es.len() && #[trigger] es[i].0 == cur implies exists|k: int|
                        0 <= k < out@.len() && #[trigger] out@[k] == (cur, es[i].1) by {
                        let k = choose|k: int| 0 <= k < after_out.len() && #[trigger] after_out[k] == (cur, es[i].1);
                        assert(out@[k] == after_out[k]);
                    }
                }
                if dir == TraversalDirection::Incoming {
                    assert(base == 0);
                    assert forall|k: int| 0 <= k < out@.len() implies (#[trigger] out@[k]).1 == cur by {
                        assert(out@[base + k] == (ins@[k], cur));
                    }
                }
                assert forall|k: int| 0 <= k < out@.len() implies (#[trigger] out@[k]).0 < n
                    && out@[k].1 < n && (out@[k].0 == cur || out@[k].1 == cur) by {
                    if k < base {
                        assert(out@[k] == after_out[k]);
                    } else {
                        assert(out@[base + (k - base)] == (ins@[k - base], cur));
                        let i = choose|i: int| 0 <= i < es.len() && far_end(#[trigger] es[i], false) == ins@[k - base]
                            && es[i].1 == cur;
                        assert(es[i].0 < n);
                    }
                }
            }
        }
        out
    }

    /// Adds an edge of the given type from `source_id` to `target_id`, adding
    /// either atom first if it is new. An edge between the same ordered pair
    /// is refused as a conflict (the atoms stay added).
    pub fn add_edge(&mut self, source_id: &str, target_id: &str, edge_type: EdgeType) -> (r: Result<(), MoteError>)
        requires
            old(self).wf(),
            old(self).nodes().len() + 2 <= u32::MAX,
            old(self).edges().len() < u32::MAX,
        ensures
            final(self).wf(),
            final(self).nodes() == nodes_after_add(nodes_after_add(old(self).nodes(), source_id@), target_id@),
            final(self).contains_atom(source_id@),
            final(self).contains_atom(target_id@),
            forall|k: Seq<char>| old(self).contains_atom(k) ==> final(self).contains_atom(k)
                && final(self).index_of()[k] == old(self).index_of()[k],
            ({
                let si = final(self).index_of()[source_id@];
                let ti = final(self).index_of()[target_id@];
                let exists_before = exists|i: int| 0 <= i < old(self).edges().len()
                    && #[trigger] old(self).edges()[i].0 == si && old(self).edges()[i].1 == ti;
                &&& exists_before ==> (r matches Err(MoteError::Conflict(m)) && m@ == conflict_message())
                    && final(self).edges() == old(self).edges() && final(self).nodes() == old(self).nodes()
                &&& !exists_before ==> r is Ok
                    && final(self).edges() == old(self).edges().push((si, ti, edge_code(edge_type)))
            }),
    {
        proof {
            lemma_wf_contains(*old(self));
        }
        let ghost g0 = *self;
        let si = self.add_node(to_owned_string(source_id));
        proof {
            lemma_wf_contains(*self);
        }
        let ghost g1 = *self;
        let ti = self.add_node(to_owned_string(target_id));
        proof {
            lemma_wf_contains(*self);
        }
        if let Some(e) = pg_find_edge(&self.graph, si, ti) {
            proof {
                let es = g0.edges();
                assert(es[e as int].0 == si && es[e as int].1 == ti);
                assert(si < g0.nodes().len() && ti < g0.nodes().len());
                if !g0.contains_atom(source_id@) {
                    assert(si == g0.nodes().len());
                }
                assert(g1.nodes() == g0.nodes());
                if !g1.contains_atom(target_id@) {
                    assert(ti == g1.nodes().len());
                }
            }
            return Err(MoteError::Conflict(to_owned_string("Edge already exists")));
        }
        let code = edge_type.code();
        let ghost before = self.edges();
        pg_add_edge(&mut self.graph, si, ti, code);
        proof {
            let es = self.edges();
            let n = self.nodes().len();
            assert forall|i: int| 0 <= i < es.len() implies (#[trigger] es[i]).0 < n && es[i].1 < n && es[i].2 < 7 by {
                if i < before.len() {
                    assert(es[i] == before[i]);
                }
            }
            assert forall|i: int, j: int| 0 <= i < es.len() && 0 <= j < es.len() && i != j
                implies !(#[trigger] es[i].0 == #[trigger] es[j].0 && es[i].1 == es[j].1) by {
                if i < before.len() && j < before.len() {
                    assert(es[i] == before[i] && es[j] == before[j]);
                } else if i < before.len() {
                    assert(es[i] == before[i]);
                } else if j < before.len() {
                    assert(es[j] == before[j]);
                }
            }
        }
        Ok(())
    }


    #[verifier::rlimit(100)]
    #[verifier::spinoff_prover]
    /// The lineage of `start_atom_id`: a breadth-first walk at most
    /// `max_depth` steps deep along edges whose type passes the filter, in
    /// the direction `ancestors` (incoming), `descendants` (outgoing) or
    /// both (anything else). Returns the atoms reached, the start first and
    /// each once, and every edge crossed or met from an atom expanded before
    /// the depth limit. An unknown start atom gives just itself.
    pub fn traverse(
        &self,
        start_atom_id: &str,
        direction: &str,
        max_depth: usize,
        edge_type_filter: Option<&[String]>,
    ) -> (r: LineageSubgraph)
        requires
            self.wf(),
        ensures
            r.nodes@.len() >= 1,
            r.nodes@[0]@ == start_atom_id@,
            !self.contains_atom(start_atom_id@) ==> r.nodes@.len() == 1 && r.edges@.len() == 0,
            self.contains_atom(start_atom_id@) ==> ({
                let s = self.index_of()[start_atom_id@];
                let es = self.edges();
                let types = admitted_types(filter_view(edge_type_filter));
                let dir = lineage_direction(direction@);
                &&& forall|k: int| 1 <= k < r.nodes@.len()
                    ==> self.reached_atom(s, types, dir, max_depth as nat, #[trigger] r.nodes@[k]@)
                &&& forall|v: usize| v < self.nodes().len() && #[trigger] reach(es, types, dir, s, v, max_depth as nat)
                    ==> exists|k: int| 0 <= k < r.nodes@.len() && r.nodes@[k]@ == self.nodes()[v as int]
                &&& forall|k: int, l: int| 0 <= k < l < r.nodes@.len() ==> r.nodes@[k]@ != r.nodes@[l]@
                &&& forall|k: int| 0 <= k < r.edges@.len() ==> self.crossed_edge(#[trigger] r.edges@[k], types, r.nodes@)
                &&& forall|i: int, u: usize| 0 <= i < es.len() && types.contains(code_edge_type(es[i].2))
                    && u < self.nodes().len() && max_depth > 0 && reach(es, types, dir, s, u, (max_depth - 1) as nat)
                    && #[trigger] on_side(es[i], u, dir)
                    ==> exists|k: int| 0 <= k < r.edges@.len() && edge_is(r.edges@[k], self.nodes(), es[i])
            }),
    {
        let start = match self.node_indices.get(start_atom_id) {
            Some(i) => *i,
            None => {
                let mut only: Vec<String> = Vec::new();
                only.push(to_owned_string(start_atom_id));
                return LineageSubgraph { nodes: only, edges: Vec::new() };
            },
        };
        let types_vec = filter_types(edge_type_filter);
        let dir = lineage_dir_of(direction);
        let ghost es = self.edges();
        let ghost nodes = self.nodes();
        let ghost types = types_vec@;
        let n = pg_node_count(&self.graph);
        proof {
            assert(self.index_of().contains_key(start_atom_id@));
            assert(nodes[start as int] == start_atom_id@);
        }
        let mut visited: Vec<bool> = Vec::new();
        let mut i: usize = 0;
        while i < n
            invariant
                i <= n,
                visited@.len() == i,
                forall|k: int| 0 <= k < i ==> !visited@[k],
                count_false(visited@) == i,
            decreases n - i,
        {
            proof {
                lemma_count_false_push(visited@);
            }
            visited.push(false);
            i = i + 1;
        }
        proof {
            lemma_count_false_set(visited@, start as int);
        }
        visited.set(start, true);
        let mut names: Vec<String> = Vec::new();
        names.push(to_owned_string(start_atom_id));
        let mut edges: Vec<LineageEdge> = Vec::new();
        let ghost mut edge_ids: Seq<int> = Seq::empty();
        let mut queue: Vec<(usize, usize)> = Vec::new();
        queue.push((start, 0));
        let mut head: usize = 0;
        while head < queue.len()
            invariant
                self.wf(),
                es == self.edges(),
                nodes == self.nodes(),
                types == types_vec@,
                n == nodes.len(),
                start < n,
                visited@.len() == n,
                count_false(visited@) + queue@.len() == n,
                1 <= queue@.len(),
                queue@[0] == (start, 0usize),
                head <= queue@.len(),
                forall|k: int| 0 <= k < queue@.len() ==> (#[trigger] queue@[k]).0 < n && visited@[queue@[k].0 as int],
                forall|v: int| 0 <= v < n && #[trigger] visited@[v] ==> exists|k: int|
                    0 <= k < queue@.len() && (#[trigger] queue@[k]).0 == v,
                forall|k: int, l: int| 0 <= k < l < queue@.len() ==> (#[trigger] queue@[k]).0 != (#[trigger] queue@[l]).0,
                names@.len() == queue@.len(),
                forall|k: int| 0 <= k < names@.len() ==> (#[trigger] names@[k])@ == nodes[queue@[k].0 as int],
                forall|k: int, l: int| 0 <= k <= l < queue@.len() ==> (#[trigger] queue@[k]).1 <= (#[trigger] queue@[l]).1,
                head < queue@.len() ==> forall|k: int| 0 <= k < queue@.len() ==> (#[trigger] queue@[k]).1 <= queue@[head as int].1 + 1,
                forall|k: int| 0 <= k < queue@.len() ==> (#[trigger] queue@[k]).1 <= max_depth,
                forall|k: int| 0 <= k < queue@.len() ==> reach(es, types, dir, start, (#[trigger] queue@[k]).0, queue@[k].1 as nat),
                forall|k: int, v: usize| 0 <= k < head && (#[trigger] queue@[k]).1 < max_depth
                    && #[trigger] step(es, types, dir, queue@[k].0, v) ==> exists|l: int|
                    0 <= l < queue@.len() && (#[trigger] queue@[l]).0 == v && queue@[l].1 <= queue@[k].1 + 1,
                edges@.len() == edge_ids.len(),
                forall|k: int| 0 <= k < edge_ids.len() ==> 0 <= #[trigger] edge_ids[k] < es.len()
                    && edge_is(edges@[k], nodes, es[edge_ids[k]])
                    && types.contains(code_edge_type(es[edge_ids[k]].2))
                    && visited@[es[edge_ids[k]].0 as int] && visited@[es[edge_ids[k]].1 as int],
                forall|k: int, i: int| 0 <= k < head && (#[trigger] queue@[k]).1 < max_depth && 0 <= i < es.len()
                    && types.contains(code_edge_type(es[i].2)) && #[trigger] on_side(es[i], queue@[k].0, dir)
                    ==> edge_listed(edge_ids, i),
            decreases count_false(visited@) + queue@.len() - head,
        {
            let (cur, depth) = queue[head];
            let ghost h = head;
            head = head + 1;
            if depth >= max_depth {
                proof {
                    if head < queue@.len() {
                        assert(queue@[h as int].1 <= queue@[head as int].1);
                    }
                }
                continue;
            }
            let cands = self.lineage_candidates(cur, dir);
            proof {
                assert forall|v: usize| #[trigger] step(es, types, dir, cur, v) implies exists|k: int|
                    0 <= k < cands@.len() && typed_edge(es, types, cands@[k].0, cands@[k].1)
                    && cand_neighbor(#[trigger] cands@[k], cur) == v by {
                    if dir != TraversalDirection::Incoming && typed_edge(es, types, cur, v) {
                        let i = choose|i: int| 0 <= i < es.len() && #[trigger] es[i].0 == cur && es[i].1 == v
                            && types.contains(code_edge_type(es[i].2));
                        let k = choose|k: int| 0 <= k < cands@.len() && #[trigger] cands@[k] == (cur, es[i].1);
                        assert(typed_edge(es, types, cands@[k].0, cands@[k].1));
                    } else {
                        assert(typed_edge(es, types, v, cur));
                        let i = choose|i: int| 0 <= i < es.len() && #[trigger] es[i].0 == v && es[i].1 == cur
                            && types.contains(code_edge_type(es[i].2));
                        assert(es[i].1 == cur);
                        let k = choose|k: int| 0 <= k < cands@.len() && #[trigger] cands@[k] == (es[i].0, cur);
                        assert(typed_edge(es, types, cands@[k].0, cands@[k].1));
                    }
                }
            }
            let ghost queue_at_expand = queue@;
            let mut j: usize = 0;
            while j < cands.len()
                invariant
                    self.wf(),
                    es == self.edges(),
                    nodes == self.nodes(),
                    types == types_vec@,
                    n == nodes.len(),
                    start < n,
                    cur < n,
                    depth < max_depth,
                    h < queue_at_expand.len(),
                    head == h + 1,
                    queue_at_expand[h as int] == (cur, depth),
                    queue_at_expand.len() <= queue@.len(),
                    forall|k: int| 0 <= k < queue_at_expand.len() ==> queue@[k] == queue_at_expand[k],
                    forall|k: int| 0 <= k < queue_at_expand.len() ==> (#[trigger] queue_at_expand[k]).1 <= depth + 1,
                    forall|k: int| 0 <= k < cands@.len() ==> (#[trigger] cands@[k]).0 < n && cands@[k].1 < n
                        && (cands@[k].0 == cur || cands@[k].1 == cur),
                    dir == TraversalDirection::Outgoing ==> forall|k: int| 0 <= k < cands@.len() ==> (#[trigger] cands@[k]).0 == cur,
                    dir == TraversalDirection::Incoming ==> forall|k: int| 0 <= k < cands@.len() ==> (#[trigger] cands@[k]).1 == cur,
                    j <= cands@.len(),
                    visited@.len() == n,
                    count_false(visited@) + queue@.len() == n,
                    1 <= queue@.len(),
                    queue@[0] == (start, 0usize),
                    forall|k: int| 0 <= k < queue@.len() ==> (#[trigger] queue@[k]).0 < n && visited@[queue@[k].0 as int],
                    forall|v: int| 0 <= v < n && #[trigger] visited@[v] ==> exists|k: int|
                        0 <= k < queue@.len() && (#[trigger] queue@[k]).0 == v,
                    forall|k: int, l: int| 0 <= k < l < queue@.len() ==> (#[trigger] queue@[k]).0 != (#[trigger] queue@[l]).0,
                    names@.len() == queue@.len(),
                    forall|k: int| 0 <= k < names@.len() ==> (#[trigger] names@[k])@ == nodes[queue@[k].0 as int],
                    forall|k: int, l: int| 0 <= k <= l < queue@.len() ==> (#[trigger] queue@[k]).1 <= (#[trigger] queue@[l]).1,
                    forall|k: int| queue_at_expand.len() <= k < queue@.len() ==> (#[trigger] queue@[k]).1 == depth + 1,
                    forall|k: int| 0 <= k < queue@.len() ==> (#[trigger] queue@[k]).1 <= max_depth,
                    forall|k: int| 0 <= k < queue@.len() ==> reach(es, types, dir, start, (#[trigger] queue@[k]).0, queue@[k].1 as nat),
                    forall|k: int, v: usize| 0 <= k < h && (#[trigger] queue@[k]).1 < max_depth
                        && #[trigger] step(es, types, dir, queue@[k].0, v) ==> exists|l: int|
                        0 <= l < queue@.len() && (#[trigger] queue@[l]).0 == v && queue@[l].1 <= queue@[k].1 + 1,
                    forall|jj: int| 0 <= jj < j && typed_edge(es, types, cands@[jj].0, cands@[jj].1) ==> exists|l: int|
                        0 <= l < queue@.len() && (#[trigger] queue@[l]).0 == cand_neighbor(#[trigger] cands@[jj], cur)
                        && queue@[l].1 <= depth + 1,
                    edges@.len() == edge_ids.len(),
                    forall|k: int| 0 <= k < edge_ids.len() ==> 0 <= #[trigger] edge_ids[k] < es.len()
                        && edge_is(edges@[k], nodes, es[edge_ids[k]])
                        && types.contains(code_edge_type(es[edge_ids[k]].2))
                        && visited@[es[edge_ids[k]].0 as int] && visited@[es[edge_ids[k]].1 as int],
                    forall|k: int, i: int| 0 <= k < h && (#[trigger] queue@[k]).1 < max_depth && 0 <= i < es.len()
                        && types.contains(code_edge_type(es[i].2)) && #[trigger] on_side(es[i], queue@[k].0, dir)
                        ==> edge_listed(edge_ids, i),
                    forall|jj: int, i: int| #![trigger cands@[jj], es[i]] 0 <= jj < j && 0 <= i < es.len()
                        && es[i].0 == cands@[jj].0 && es[i].1 == cands@[jj].1
                        && types.contains(code_edge_type(es[i].2)) ==> edge_listed(edge_ids, i),
                decreases cands@.len() - j,
            {
                let (src, tgt) = cands[j];
                let nb = if src == cur { tgt } else { src };
                assert(nb == cand_neighbor(cands@[j as int], cur));
                match self.typed_edge_index(src, tgt, types_vec.as_slice()) {
                    None => {
                        proof {
                            assert forall|i: int| 0 <= i < es.len() && es[i].0 == src && es[i].1 == tgt
                                implies !types.contains(code_edge_type(es[i].2)) by {
                                if types.contains(code_edge_type(es[i].2)) {
                                    assert(typed_edge(es, types, src, tgt));
                                }
                            }
                        }
                    },
                    Some(e) => {
                        let w = match pg_edge_weight(&self.graph, e) { Some(w) => w, None => 0 };
                        assert(es[e as int] == (src, tgt, w));
                        let ghost e0 = edges@;
                        edges.push(self.lineage_edge_of((src, tgt, w)));
                        proof {
                            lemma_edge_listed_push(edge_ids, e as int);
                            edge_ids = edge_ids.push(e as int);
                            assert forall|i: int| 0 <= i < es.len() && es[i].0 == src && es[i].1 == tgt
                                implies i == e as int by {
                                if i != e as int {
                                    assert(!(es[i].0 == es[e as int].0 && es[i].1 == es[e as int].1));
                                }
                            }
                        }
                        proof {
                            assert(step(es, types, dir, cur, nb)) by {
                                if src == cur {
                                    assert(typed_edge(es, types, cur, nb));
                                    if dir == TraversalDirection::Incoming {
                                        assert(cands@[j as int].1 == cur);
                                        assert(typed_edge(es, types, nb, cur));
                                    }
                                } else {
                                    assert(tgt == cur);
                                    assert(typed_edge(es, types, nb, cur));
                                    assert(dir != TraversalDirection::Outgoing);
                                }
                            }
                        }
                        if !visited[nb] {
                            match pg_node_weight(&self.graph, nb) {
                                Some(atom_id) => {
                                    let ghost q0 = queue@;
                                    let ghost r0 = names@;
                                    names.push(atom_id.clone());
                                    proof {
                                        lemma_count_false_set(visited@, nb as int);
                                    }
                                    visited.set(nb, true);
                                    queue.push((nb, depth + 1));
                                    proof {
                                        assert(reach(es, types, dir, start, nb, (depth + 1) as nat)) by {
                                            assert(reach(es, types, dir, start, cur, depth as nat));
                                        }
                                        let q = queue@;
                                        assert forall|k: int| 0 <= k < names@.len() implies (#[trigger] names@[k])@ == nodes[q[k].0 as int] by {
                                            if k < r0.len() {
                                                assert(names@[k] == r0[k]);
                                                assert(q[k] == q0[k]);
                                            }
                                        }
                                        assert forall|v: int| 0 <= v < n && #[trigger] visited@[v] implies exists|k: int|
                                            0 <= k < q.len() && (#[trigger] q[k]).0 == v by {
                                            if v == nb {
                                                assert(q[q.len() - 1].0 == v);
                                            } else {
                                                let k = choose|k: int| 0 <= k < q0.len() && (#[trigger] q0[k]).0 == v;
                                                assert(q[k] == q0[k]);
                                            }
                                        }
                                        assert forall|k: int, l: int| 0 <= k < l < q.len() implies (#[trigger] q[k]).0 != (#[trigger] q[l]).0 by {
                                            if l == q.len() - 1 {
                                                assert(q[k] == q0[k]);
                                                assert(visited@[q0[k].0 as int]);
                                            } else {
                                                assert(q[k] == q0[k] && q[l] == q0[l]);
                                            }
                                        }
                                        assert forall|k: int, l: int| 0 <= k <= l < q.len() implies (#[trigger] q[k]).1 <= (#[trigger] q[l]).1 by {
                                            if l == q.len() - 1 && k < q0.len() {
                                                assert(q[k] == q0[k]);
                                                if k < queue_at_expand.len() {
                                                    assert(q0[k] == queue_at_expand[k]);
                                                }
                                            } else if l < q0.len() {
                                                assert(q[k] == q0[k] && q[l] == q0[l]);
                                            }
                                        }
                                        assert forall|k: int, v: usize| 0 <= k < h && (#[trigger] q[k]).1 < max_depth
                                            && #[trigger] step(es, types, dir, q[k].0, v) implies exists|l: int|
                                            0 <= l < q.len() && (#[trigger] q[l]).0 == v && q[l].1 <= q[k].1 + 1 by {
                                            assert(q[k] == q0[k]);
                                            let l = choose|l: int| 0 <= l < q0.len() && (#[trigger] q0[l]).0 == v && q0[l].1 <= q0[k].1 + 1;
                                            assert(q[l] == q0[l]);
                                        }
                                        assert forall|jj: int| 0 <= jj < j + 1 && typed_edge(es, types, cands@[jj].0, cands@[jj].1) implies exists|l: int|
                                            0 <= l < q.len() && (#[trigger] q[l]).0 == cand_neighbor(#[trigger] cands@[jj], cur)
                                            && q[l].1 <= depth + 1 by {
                                            if jj == j {
                                                assert(q[q.len() - 1].0 == nb);
                                            } else {
                                                let l = choose|l: int| 0 <= l < q0.len()
                                                    && (#[trigger] q0[l]).0 == cand_neighbor(cands@[jj], cur) && q0[l].1 <= depth + 1;
                                                assert(q[l] == q0[l]);
                                            }
                                        }
                                    }
                                },
                                None => {},
                            }
                        } else {
                            proof {
                                let k = choose|k: int| 0 <= k < queue@.len() && (#[trigger] queue@[k]).0 == nb as int;
                                if k < queue_at_expand.len() {
                                    assert(queue@[k] == queue_at_expand[k]);
                                }
                                assert(queue@[k].1 <= depth + 1);
                            }
                        }
                        proof {
                            assert forall|k: int| 0 <= k < edge_ids.len() implies 0 <= #[trigger] edge_ids[k] < es.len()
                                && edge_is(edges@[k], nodes, es[edge_ids[k]])
                                && types.contains(code_edge_type(es[edge_ids[k]].2))
                                && visited@[es[edge_ids[k]].0 as int] && visited@[es[edge_ids[k]].1 as int] by {
                                if k < edge_ids.len() - 1 {
                                    assert(edges@[k] == e0[k]);
                                }
                            }
                        }
                    },
                }
                j = j + 1;
            }
            proof {
                let q = queue@;
                assert forall|k: int, i: int| 0 <= k < head && (#[trigger] q[k]).1 < max_depth && 0 <= i < es.len()
                    && types.contains(code_edge_type(es[i].2)) && #[trigger] on_side(es[i], q[k].0, dir)
                    implies edge_listed(edge_ids, i) by {
                    if k == h {
                        assert(q[k] == queue_at_expand[k]);
                        if dir != TraversalDirection::Incoming && es[i].0 == cur {
                            let kk = choose|kk: int| 0 <= kk < cands@.len() && #[trigger] cands@[kk] == (cur, es[i].1);
                            assert(es[i].0 == cands@[kk].0 && es[i].1 == cands@[kk].1);
                        } else {
                            assert(dir != TraversalDirection::Outgoing && es[i].1 == cur);
                            let kk = choose|kk: int| 0 <= kk < cands@.len() && #[trigger] cands@[kk] == (es[i].0, cur);
                            assert(es[i].0 == cands@[kk].0 && es[i].1 == cands@[kk].1);
                        }
                    }
                }
                assert forall|k: int, v: usize| 0 <= k < head && (#[trigger] q[k]).1 < max_depth
                    && #[trigger] step(es, types, dir, q[k].0, v) implies exists|l: int|
                    0 <= l < q.len() && (#[trigger] q[l]).0 == v && q[l].1 <= q[k].1 + 1 by {
                    if k == h {
                        assert(q[k] == queue_at_expand[k]);
                        let jj = choose|jj: int| 0 <= jj < cands@.len() && typed_edge(es, types, cands@[jj].0, cands@[jj].1)
                            && cand_neighbor(#[trigger] cands@[jj], cur) == v;
                        assert(typed_edge(es, types, cands@[jj].0, cands@[jj].1));
                    }
                }
                if head < q.len() {
                    assert forall|k: int| 0 <= k < q.len() implies (#[trigger] q[k]).1 <= q[head as int].1 + 1 by {
                        assert(q[h as int] == queue_at_expand[h as int]);
                        assert(q[h as int].1 <= q[head as int].1);
                        if k < queue_at_expand.len() {
                            assert(q[k] == queue_at_expand[k]);
                        }
                    }
                }
            }
        }
        proof {
            lemma_count_false_bound(visited@);
            assert(self.index_of()[start_atom_id@] == start);
            let q = queue@;
            assert(types == admitted_types(filter_view(edge_type_filter)));
            assert(dir == lineage_direction(direction@));
            assert forall|k: int| 1 <= k < names@.len()
                implies self.reached_atom(start, types, dir, max_depth as nat, #[trigger] names@[k]@) by {
                let v = q[k].0;
                assert(q[0].0 != q[k].0);
                lemma_reach_mono(es, types, dir, start, v, q[k].1 as nat, max_depth as nat);
                assert(self.nodes()[v as int] == names@[k]@);
            }
            assert forall|v: usize| v < nodes.len() && #[trigger] reach(es, types, dir, start, v, max_depth as nat)
                implies exists|k: int| 0 <= k < names@.len() && names@[k]@ == nodes[v as int] by {
                lemma_bfs_complete(es, types, dir, start, q, max_depth, v, max_depth as nat);
                let l = choose|l: int| 0 <= l < q.len() && (#[trigger] q[l]).0 == v && q[l].1 <= max_depth;
                assert(names@[l]@ == nodes[q[l].0 as int]);
            }
            assert forall|k: int, l: int| 0 <= k < l < names@.len() implies names@[k]@ != names@[l]@ by {
                let a = q[k].0;
                let b = q[l].0;
                assert(a != b);
                assert(self.index_of()[nodes[a as int]] == a);
                assert(self.index_of()[nodes[b as int]] == b);
            }
        }
        let r = LineageSubgraph { nodes: names, edges };
        proof {
            let q = queue@;
            assert(r.nodes@ == names@);
            assert(r.edges@ == edges@);
            assert forall|i: int, u: usize| 0 <= i < es.len() && types.contains(code_edge_type(es[i].2))
                && u < self.nodes().len() && max_depth > 0 && reach(es, types, dir, start, u, (max_depth - 1) as nat)
                && #[trigger] on_side(es[i], u, dir)
                implies exists|k: int| 0 <= k < r.edges@.len() && edge_is(r.edges@[k], self.nodes(), es[i]) by {
                lemma_bfs_complete(es, types, dir, start, q, max_depth, u, (max_depth - 1) as nat);
                let l = choose|l: int| 0 <= l < q.len() && (#[trigger] q[l]).0 == u && q[l].1 <= (max_depth - 1) as nat;
                assert(on_side(es[i], q[l].0, dir));
                assert(edge_listed(edge_ids, i));
                let m = choose|m: int| 0 <= m < edge_ids.len() && edge_ids[m] == i;
                assert(edge_is(r.edges@[m], nodes, es[edge_ids[m]]));
            }
            assert forall|k: int| 0 <= k < r.edges@.len() implies exists|i: int| 0 <= i < es.len()
                && edge_is(#[trigger] r.edges@[k], self.nodes(), es[i])
                && types.contains(code_edge_type(es[i].2))
                && lineage_has(r.nodes@, self.nodes()[es[i].0 as int])
                && lineage_has(r.nodes@, self.nodes()[es[i].1 as int]) by {
                let i = edge_ids[k];
                assert(edge_ids[k] == i);
                assert(edge_is(r.edges@[k], nodes, es[i]));
                let a = es[i].0;
                let b = es[i].1;
                let ka = choose|ka: int| 0 <= ka < q.len() && (#[trigger] q[ka]).0 == a as int;
                let kb = choose|kb: int| 0 <= kb < q.len() && (#[trigger] q[kb]).0 == b as int;
                assert(r.nodes@[ka]@ == nodes[a as int]);
                assert(r.nodes@[kb]@ == nodes[b as int]);
                assert(lineage_has(r.nodes@, self.nodes()[es[i].0 as int]));
                assert(lineage_has(r.nodes@, self.nodes()[es[i].1 as int]));
            }
            assert(es == self.edges());
            assert(types == admitted_types(filter_view(edge_type_filter)));
            assert forall|k: int| 0 <= k < r.edges@.len() implies self.crossed_edge(#[trigger] r.edges@[k], types, r.nodes@) by {
                let i = edge_ids[k];
                assert(0 <= i < es.len()
                    && edge_is(r.edges@[k], self.nodes(), es[i])
                    && types.contains(code_edge_type(es[i].2))
                    && lineage_has(r.nodes@, self.nodes()[es[i].0 as int])
                    && lineage_has(r.nodes@, self.nodes()[es[i].1 as int]));
            }
        }
        r
    }

    #[verifier::rlimit(80)]
    /// Breadth-first search from `start_atom_id` over edges of the given
    /// types, in the given direction, at most `max_depth` steps deep. Returns
    /// the atom ids found, each once, without the start atom; an unknown
    /// start atom gives an empty list.
    pub fn traverse_bfs(
        &self,
        start_atom_id: &str,
        edge_types: &[EdgeType],
        max_depth: usize,
        direction: TraversalDirection,
    ) -> (r: Vec<String>)
        requires
            self.wf(),
        ensures
            !self.contains_atom(start_atom_id@) ==> r@.len() == 0,
            self.contains_atom(start_atom_id@) ==> ({
                let s = self.index_of()[start_atom_id@];
                let es = self.edges();
                &&& forall|k: int| #![trigger r@[k]] 0 <= k < r@.len()
                    ==> self.reached_atom(s, edge_types@, direction, max_depth as nat, r@[k]@)
                &&& forall|v: usize| v < self.nodes().len() && v != s
                    && #[trigger] reach(es, edge_types@, direction, s, v, max_depth as nat)
                    ==> exists|k: int| 0 <= k < r@.len() && r@[k]@ == self.nodes()[v as int]
                &&& forall|k: int, l: int| 0 <= k < l < r@.len() ==> r@[k]@ != r@[l]@
                &&& forall|k: int, l: int, d: nat|
                    #![trigger r@[k], reach(es, edge_types@, direction, s, self.index_of()[r@[l]@], d)]
                    0 <= k < l < r@.len() && d <= max_depth
                    && reach(es, edge_types@, direction, s, self.index_of()[r@[l]@], d)
                    ==> reach(es, edge_types@, direction, s, self.index_of()[r@[k]@], d)
            }),
    {
        let start = match self.node_indices.get(start_atom_id) {
            Some(i) => *i,
            None => return Vec::new(),
        };
        let ghost es = self.edges();
        let ghost nodes = self.nodes();
        let ghost types = edge_types@;
        let ghost dir = direction;
        let n = pg_node_count(&self.graph);
        proof {
            assert(self.index_of().contains_key(start_atom_id@));
            assert(nodes[start as int] == start_atom_id@);
        }
        let mut visited: Vec<bool> = Vec::new();
        let mut i: usize = 0;
        while i < n
            invariant
                i <= n,
                visited@.len() == i,
                forall|k: int| 0 <= k < i ==> !visited@[k],
                count_false(visited@) == i,
            decreases n - i,
        {
            proof {
                lemma_count_false_push(visited@);
            }
            visited.push(false);
            i = i + 1;
        }
        proof {
            lemma_count_false_set(visited@, start as int);
        }
        visited.set(start, true);
        let mut result: Vec<String> = Vec::new();
        let mut queue: Vec<(usize, usize)> = Vec::new();
        queue.push((start, 0));
        let mut head: usize = 0;
        while head < queue.len()
            invariant
                self.wf(),
                es == self.edges(),
                nodes == self.nodes(),
                types == edge_types@,
                dir == direction,
                n == nodes.len(),
                start < n,
                visited@.len() == n,
                count_false(visited@) + queue@.len() == n,
                1 <= queue@.len(),
                queue@[0] == (start, 0usize),
                head <= queue@.len(),
                forall|k: int| 0 <= k < queue@.len() ==> (#[trigger] queue@[k]).0 < n && visited@[queue@[k].0 as int],
                forall|v: int| 0 <= v < n && #[trigger] visited@[v] ==> exists|k: int|
                    0 <= k < queue@.len() && (#[trigger] queue@[k]).0 == v,
                forall|k: int, l: int| 0 <= k < l < queue@.len() ==> (#[trigger] queue@[k]).0 != (#[trigger] queue@[l]).0,
                result@.len() + 1 == queue@.len(),
                forall|k: int| 0 <= k < result@.len() ==> (#[trigger] result@[k])@ == nodes[queue@[k + 1].0 as int],
                forall|k: int, l: int| 0 <= k <= l < queue@.len() ==> (#[trigger] queue@[k]).1 <= (#[trigger] queue@[l]).1,
                head < queue@.len() ==> forall|k: int| 0 <= k < queue@.len() ==> (#[trigger] queue@[k]).1 <= queue@[head as int].1 + 1,
                forall|k: int| 0 <= k < queue@.len() ==> (#[trigger] queue@[k]).1 <= max_depth,
                forall|k: int| 0 <= k < queue@.len() ==> reach(es, types, dir, start, (#[trigger] queue@[k]).0, queue@[k].1 as nat),
                forall|k: int, v: usize| 0 <= k < head && (#[trigger] queue@[k]).1 < max_depth
                    && #[trigger] step(es, types, dir, queue@[k].0, v) ==> exists|l: int|
                    0 <= l < queue@.len() && (#[trigger] queue@[l]).0 == v && queue@[l].1 <= queue@[k].1 + 1,
            decreases count_false(visited@) + queue@.len() - head,
        {
            let (cur, depth) = queue[head];
            let ghost old_queue = queue@;
            let ghost h = head;
            head = head + 1;
            if depth >= max_depth {
                proof {
                    if head < queue@.len() {
                        assert(queue@[h as int].1 <= queue@[head as int].1);
                    }
                }
                continue;
            }
            let mut neighbors: Vec<usize> = Vec::new();
            match direction {
                TraversalDirection::Outgoing => {
                    neighbors = pg_neighbors(&self.graph, cur, true);
                },
                TraversalDirection::Incoming => {
                    neighbors = pg_neighbors(&self.graph, cur, false);
                },
                TraversalDirection::Both => {
                    let outs = pg_neighbors(&self.graph, cur, true);
                    let ins = pg_neighbors(&self.graph, cur, false);
                    let mut j: usize = 0;
                    while j < outs.len()
                        invariant
                            j <= outs@.len(),
                            neighbors@ == outs@.subrange(0, j as int),
                        decreases outs@.len() - j,
                    {
                        neighbors.push(outs[j]);
                        j = j + 1;
                    }
                    let mut j: usize = 0;
                    while j < ins.len()
                        invariant
                            j <= ins@.len(),
                            neighbors@ == outs@ + ins@.subrange(0, j as int),
                        decreases ins@.len() - j,
                    {
                        neighbors.push(ins[j]);
                        j = j + 1;
                    }
                    proof {
                        assert(outs@.subrange(0, outs@.len() as int) =~= outs@);
                        assert(ins@.subrange(0, ins@.len() as int) =~= ins@);
                    }
                },
            }
            proof {
                lemma_neighbors_rev(es, cur, true);
                lemma_neighbors_rev(es, cur, false);
                // every step target from `cur` is listed, and every listed node is a node
                assert forall|v: usize| #[trigger] step(es, types, dir, cur, v) implies neighbors@.contains(v) by {
                    lemma_step_listed(es, types, dir, cur, v, neighbors@);
                }
                assert forall|k: int| 0 <= k < neighbors@.len() implies #[trigger] neighbors@[k] < n by {
                    lemma_listed_is_node(es, n as nat, dir, cur, neighbors@, k);
                }
            }
            let ghost queue_at_expand = queue@;
            let mut j: usize = 0;
            while j < neighbors.len()
                invariant
                    self.wf(),
                    es == self.edges(),
                    nodes == self.nodes(),
                    types == edge_types@,
                    dir == direction,
                    n == nodes.len(),
                    start < n,
                    cur < n,
                    depth < max_depth,
                    h < queue_at_expand.len(),
                    head == h + 1,
                    queue_at_expand[h as int] == (cur, depth),
                    queue_at_expand.len() <= queue@.len(),
                    forall|k: int| 0 <= k < queue_at_expand.len() ==> queue@[k] == queue_at_expand[k],
                    forall|k: int| 0 <= k < queue_at_expand.len() ==> (#[trigger] queue_at_expand[k]).1 <= depth + 1,
                    forall|k: int| 0 <= k < neighbors@.len() ==> #[trigger] neighbors@[k] < n,
                    forall|v: usize| #[trigger] step(es, types, dir, cur, v) ==> neighbors@.contains(v),
                    j <= neighbors@.len(),
                    visited@.len() == n,
                    count_false(visited@) + queue@.len() == n,
                    1 <= queue@.len(),
                    queue@[0] == (start, 0usize),
                    forall|k: int| 0 <= k < queue@.len() ==> (#[trigger] queue@[k]).0 < n && visited@[queue@[k].0 as int],
                    forall|v: int| 0 <= v < n && #[trigger] visited@[v] ==> exists|k: int|
                        0 <= k < queue@.len() && (#[trigger] queue@[k]).0 == v,
                    forall|k: int, l: int| 0 <= k < l < queue@.len() ==> (#[trigger] queue@[k]).0 != (#[trigger] queue@[l]).0,
                    result@.len() + 1 == queue@.len(),
                    forall|k: int| 0 <= k < result@.len() ==> (#[trigger] result@[k])@ == nodes[queue@[k + 1].0 as int],
                    forall|k: int, l: int| 0 <= k <= l < queue@.len() ==> (#[trigger] queue@[k]).1 <= (#[trigger] queue@[l]).1,
                    forall|k: int| queue_at_expand.len() <= k < queue@.len() ==> (#[trigger] queue@[k]).1 == depth + 1,
                    forall|k: int| 0 <= k < queue@.len() ==> (#[trigger] queue@[k]).1 <= max_depth,
                    forall|k: int| 0 <= k < queue@.len() ==> reach(es, types, dir, start, (#[trigger] queue@[k]).0, queue@[k].1 as nat),
                    forall|k: int, v: usize| 0 <= k < h && (#[trigger] queue@[k]).1 < max_depth
                        && #[trigger] step(es, types, dir, queue@[k].0, v) ==> exists|l: int|
                        0 <= l < queue@.len() && (#[trigger] queue@[l]).0 == v && queue@[l].1 <= queue@[k].1 + 1,
                    forall|jj: int| 0 <= jj < j && #[trigger] step(es, types, dir, cur, neighbors@[jj]) ==> exists|l: int|
                        0 <= l < queue@.len() && (#[trigger] queue@[l]).0 == neighbors@[jj] && queue@[l].1 <= depth + 1,
                decreases neighbors@.len() - j,
            {
                let nb = neighbors[j];
                if !visited[nb] {
                    let matches = match direction {
                        TraversalDirection::Outgoing => self.typed_edge_between(cur, nb, edge_types),
                        TraversalDirection::Incoming => self.typed_edge_between(nb, cur, edge_types),
                        TraversalDirection::Both => {
                            self.typed_edge_between(cur, nb, edge_types) || self.typed_edge_between(nb, cur, edge_types)
                        },
                    };
                    if matches {
                        match pg_node_weight(&self.graph, nb) {
                            Some(atom_id) => {
                                let ghost q0 = queue@;
                                let ghost r0 = result@;
                                result.push(atom_id.clone());
                                proof {
                                    lemma_count_false_set(visited@, nb as int);
                                }
                                visited.set(nb, true);
                                queue.push((nb, depth + 1));
                                proof {
                                    assert(step(es, types, dir, cur, nb));
                                    assert(reach(es, types, dir, start, nb, (depth + 1) as nat)) by {
                                        assert(reach(es, types, dir, start, cur, depth as nat));
                                    }
                                    let q = queue@;
                                    assert forall|k: int| 0 <= k < result@.len() implies (#[trigger] result@[k])@ == nodes[q[k + 1].0 as int] by {
                                        if k < r0.len() {
                                            assert(result@[k] == r0[k]);
                                            assert(q[k + 1] == q0[k + 1]);
                                        }
                                    }
                                    assert forall|v: int| 0 <= v < n && #[trigger] visited@[v] implies exists|k: int|
                                        0 <= k < q.len() && (#[trigger] q[k]).0 == v by {
                                        if v == nb {
                                            assert(q[q.len() - 1].0 == v);
                                        } else {
                                            let k = choose|k: int| 0 <= k < q0.len() && (#[trigger] q0[k]).0 == v;
                                            assert(q[k] == q0[k]);
                                        }
                                    }
                                    assert forall|k: int, l: int| 0 <= k < l < q.len() implies (#[trigger] q[k]).0 != (#[trigger] q[l]).0 by {
                                        if l == q.len() - 1 {
                                            assert(q[k] == q0[k]);
                                            assert(visited@[q0[k].0 as int]);
                                        } else {
                                            assert(q[k] == q0[k] && q[l] == q0[l]);
                                        }
                                    }
                                    assert forall|k: int, l: int| 0 <= k <= l < q.len() implies (#[trigger] q[k]).1 <= (#[trigger] q[l]).1 by {
                                        if l == q.len() - 1 && k < q0.len() {
                                            assert(q[k] == q0[k]);
                                            if k < queue_at_expand.len() {
                                                assert(q0[k] == queue_at_expand[k]);
                                            }
                                        } else if l < q0.len() {
                                            assert(q[k] == q0[k] && q[l] == q0[l]);
                                        }
                                    }
                                    assert forall|k: int, v: usize| 0 <= k < h && (#[trigger] q[k]).1 < max_depth
                                        && #[trigger] step(es, types, dir, q[k].0, v) implies exists|l: int|
                                        0 <= l < q.len() && (#[trigger] q[l]).0 == v && q[l].1 <= q[k].1 + 1 by {
                                        assert(q[k] == q0[k]);
                                        let l = choose|l: int| 0 <= l < q0.len() && (#[trigger] q0[l]).0 == v && q0[l].1 <= q0[k].1 + 1;
                                        assert(q[l] == q0[l]);
                                    }
                                    assert forall|jj: int| 0 <= jj < j + 1 && #[trigger] step(es, types, dir, cur, neighbors@[jj]) implies exists|l: int|
                                        0 <= l < q.len() && (#[trigger] q[l]).0 == neighbors@[jj] && q[l].1 <= depth + 1 by {
                                        if jj == j {
                                            assert(q[q.len() - 1].0 == nb);
                                        } else {
                                            let l = choose|l: int| 0 <= l < q0.len() && (#[trigger] q0[l]).0 == neighbors@[jj] && q0[l].1 <= depth + 1;
                                            assert(q[l] == q0[l]);
                                        }
                                    }
                                }
                            },
                            None => {},
                        }
                    }
                } else {
                    proof {
                        let k = choose|k: int| 0 <= k < queue@.len() && (#[trigger] queue@[k]).0 == nb as int;
                        if k < queue_at_expand.len() {
                            assert(queue@[k] == queue_at_expand[k]);
                        }
                        assert(queue@[k].1 <= depth + 1);
                    }
                }
                j = j + 1;
            }
            proof {
                let q = queue@;
                assert forall|k: int, v: usize| 0 <= k < head && (#[trigger] q[k]).1 < max_depth
                    && #[trigger] step(es, types, dir, q[k].0, v) implies exists|l: int|
                    0 <= l < q.len() && (#[trigger] q[l]).0 == v && q[l].1 <= q[k].1 + 1 by {
                    if k == h {
                        assert(q[k] == queue_at_expand[k]);
                        assert(neighbors@.contains(v));
                        let jj = choose|jj: int| 0 <= jj < neighbors@.len() && neighbors@[jj] == v;
                        assert(step(es, types, dir, cur, neighbors@[jj]));
                    }
                }
                if head < q.len() {
                    assert forall|k: int| 0 <= k < q.len() implies (#[trigger] q[k]).1 <= q[head as int].1 + 1 by {
                        assert(q[h as int] == queue_at_expand[h as int]);
                        assert(q[h as int].1 <= q[head as int].1);
                        if k < queue_at_expand.len() {
                            assert(q[k] == queue_at_expand[k]);
                        }
                    }
                }
            }
        }
        proof {
            lemma_count_false_bound(visited@);
            assert(self.index_of()[start_atom_id@] == start);
            let q = queue@;
            // soundness: each result is a reached node other than the start
            assert forall|k: int| #![trigger result@[k]] 0 <= k < result@.len()
                implies self.reached_atom(start, edge_types@, direction, max_depth as nat, result@[k]@) by {
                let v = q[k + 1].0;
                assert(q[0].0 != q[k + 1].0);
                lemma_reach_mono(es, types, dir, start, v, q[k + 1].1 as nat, max_depth as nat);
                assert(self.nodes()[v as int] == result@[k]@);
            }
            // completeness: every node within reach was queued
            assert forall|v: usize| v < nodes.len() && v != start
                && #[trigger] reach(es, types, dir, start, v, max_depth as nat)
                implies exists|k: int| 0 <= k < result@.len() && result@[k]@ == nodes[v as int] by {
                lemma_bfs_complete(es, types, dir, start, q, max_depth, v, max_depth as nat);
                let l = choose|l: int| 0 <= l < q.len() && (#[trigger] q[l]).0 == v && q[l].1 <= max_depth;
                assert(l != 0);
                assert(result@[l - 1]@ == nodes[q[l].0 as int]);
            }
            // no atom twice: node names are distinct
            assert forall|k: int, l: int| 0 <= k < l < result@.len() implies result@[k]@ != result@[l]@ by {
                let a = q[k + 1].0;
                let b = q[l + 1].0;
                assert(a != b);
                assert(self.index_of()[nodes[a as int]] == a);
                assert(self.index_of()[nodes[b as int]] == b);
            }
            // breadth-first order: an atom listed earlier is no further from the start
            assert forall|k: int, l: int, d: nat|
                #![trigger result@[k], reach(es, types, dir, start, self.index_of()[result@[l]@], d)]
                0 <= k < l < result@.len() && d <= max_depth
                && reach(es, types, dir, start, self.index_of()[result@[l]@], d)
                implies reach(es, types, dir, start, self.index_of()[result@[k]@], d) by {
                let a = q[k + 1].0;
                let b = q[l + 1].0;
                assert(self.index_of()[nodes[a as int]] == a);
                assert(self.index_of()[nodes[b as int]] == b);
                assert(result@[k]@ == nodes[a as int]);
                assert(result@[l]@ == nodes[b as int]);
                lemma_bfs_complete(es, types, dir, start, q, max_depth, b, d);
                let m = choose|m: int| 0 <= m < q.len() && (#[trigger] q[m]).0 == b && q[m].1 <= d;
                if m != l + 1 {
                    assert(q[m].0 != q[l + 1].0);
                }
                assert(q[k + 1].1 <= q[l + 1].1);
                lemma_reach_mono(es, types, dir, start, a, q[k + 1].1 as nat, d);
            }
        }
        result
    }
}

proof fn lemma_wf_same_graph(a: GraphCache, b: GraphCache)
    requires
        a.graph == b.graph,
        a.node_indices == b.node_indices,
    ensures
        a.wf() ==> b.wf(),
        a.nodes() == b.nodes(),
        a.edges() == b.edges(),
        a.index_of() == b.index_of(),
{
    assert(a.nodes() == b.nodes());
    assert(a.edges() == b.edges());
    assert(a.index_of() == b.index_of());
    if a.wf() {
        let n = b.nodes().len();
        let es = b.edges();
        assert forall|i: int| 0 <= i < n implies b.index_of().contains_key(#[trigger] b.nodes()[i])
            && b.index_of()[b.nodes()[i]] == i by {
            assert(a.index_of().contains_key(a.nodes()[i]));
        }
        assert forall|k: Seq<char>| #[trigger] b.index_of().contains_key(k) implies b.index_of()[k] < n
            && b.nodes()[b.index_of()[k] as int] == k by {
            assert(a.index_of().contains_key(k));
        }
        assert forall|i: int| 0 <= i < es.len() implies (#[trigger] es[i]).0 < n && es[i].1 < n && es[i].2 < 7 by {
            assert(a.edges()[i] == es[i]);
        }
        assert forall|i: int, j: int| 0 <= i < es.len() && 0 <= j < es.len() && i != j
            implies !(#[trigger] es[i].0 == #[trigger] es[j].0 && es[i].1 == es[j].1) by {
            assert(a.edges()[i] == es[i] && a.edges()[j] == es[j]);
        }
    }
}


/// The keys of the cache entries are distinct.
pub open spec fn cluster_keys_distinct(es: Seq<(Seq<char>, JsonValue)>) -> bool {
    forall|i: int, j: int| 0 <= i < j < es.len() ==> (#[trigger] es[i]).0 != (#[trigger] es[j]).0
}

/// Storing a cluster result keeps the keys distinct, keeps the cache at
/// most 100 entries long if it was, and a lookup of the key then gives the
/// stored result.
pub proof fn lemma_cluster_read_after_write(es: Seq<(Seq<char>, JsonValue)>, key: Seq<char>, value: JsonValue)
    requires
        cluster_keys_distinct(es),
    ensures
        cluster_keys_distinct(cluster_after_set(es, key, value)),
        es.len() <= cluster_cache_cap() ==> cluster_after_set(es, key, value).len() <= cluster_cache_cap(),
        first_key_index(cluster_after_set(es, key, value), key) >= 0,
        cluster_after_set(es, key, value)[first_key_index(cluster_after_set(es, key, value), key)] == (key, value),
{
    let kept = if es.len() >= cluster_cache_cap() { es.skip(10) } else { es };
    assert(cluster_keys_distinct(kept)) by {
        if es.len() >= cluster_cache_cap() {
            assert forall|i: int, j: int| 0 <= i < j < kept.len() implies (#[trigger] kept[i]).0 != (#[trigger] kept[j]).0 by {
                assert(kept[i] == es[i + 10] && kept[j] == es[j + 10]);
            }
        }
    }
    let i = first_key_index(kept, key);
    let out = cluster_after_set(es, key, value);
    if i >= 0 {
        let w = choose|w: int| 0 <= w < kept.len() && (#[trigger] kept[w]).0 == key
            && forall|j: int| 0 <= j < w ==> (#[trigger] kept[j]).0 != key;
        lemma_first_key_index(kept, key, w);
        assert(out == kept.update(i, (key, value)));
        assert forall|a: int, b: int| 0 <= a < b < out.len() implies (#[trigger] out[a]).0 != (#[trigger] out[b]).0 by {
            assert(out[a].0 == kept[a].0 && out[b].0 == kept[b].0);
        }
        assert forall|j: int| 0 <= j < i implies (#[trigger] out[j]).0 != key by {
            assert(out[j] == kept[j]);
            assert(kept[j].0 != kept[i].0);
        }
        lemma_first_key_index(out, key, i);
    } else {
        assert(out == kept.push((key, value)));
        assert forall|j: int| 0 <= j < kept.len() implies (#[trigger] kept[j]).0 != key by {
            if kept[j].0 == key {
                assert(exists|w: int| 0 <= w < kept.len() && (#[trigger] kept[w]).0 == key);
                let w0 = choose|w: int| 0 <= w < kept.len() && (#[trigger] kept[w]).0 == key;
                lemma_min_key_index(kept, key, w0);
            }
        }
        assert forall|a: int, b: int| 0 <= a < b < out.len() implies (#[trigger] out[a]).0 != (#[trigger] out[b]).0 by {
            if b == kept.len() {
                assert(out[a] == kept[a]);
            } else {
                assert(out[a] == kept[a] && out[b] == kept[b]);
            }
        }
        assert forall|j: int| 0 <= j < kept.len() implies (#[trigger] out[j]).0 != key by {
            assert(out[j] == kept[j]);
        }
        lemma_first_key_index(out, key, kept.len() as int);
    }
}

/// When some entry has the key, `first_key_index` finds one.
proof fn lemma_min_key_index(es: Seq<(Seq<char>, JsonValue)>, key: Seq<char>, w: int)
    requires
        0 <= w < es.len(),
        es[w].0 == key,
    ensures
        first_key_index(es, key) >= 0,
    decreases w,
{
    if exists|j: int| 0 <= j < w && (#[trigger] es[j]).0 == key {
        let j = choose|j: int| 0 <= j < w && (#[trigger] es[j]).0 == key;
        lemma_min_key_index(es, key, j);
    } else {
        assert forall|j: int| 0 <= j < w implies (#[trigger] es[j]).0 != key by {}
        lemma_first_key_index(es, key, w);
    }
}

proof fn lemma_first_key_index(es: Seq<(Seq<char>, JsonValue)>, key: Seq<char>, i: int)
    requires
        0 <= i < es.len(),
        es[i].0 == key,
        forall|j: int| 0 <= j < i ==> (#[trigger] es[j]).0 != key,
    ensures
        first_key_index(es, key) == i,
{
    let k = first_key_index(es, key);
    assert(es[i].0 == key);
    if k != i {
        if k < i {
            assert(es[k].0 != key);
        } else {
            assert(es[i].0 != key);
        }
    }
}

/// The node list after adding an atom id: unchanged if present, else extended.
pub open spec fn nodes_after_add(nodes: Seq<Seq<char>>, id: Seq<char>) -> Seq<Seq<char>> {
    if nodes.contains(id) { nodes } else { nodes.push(id) }
}

/// The message of the conflict reported for a duplicate edge.
pub open spec fn conflict_message() -> Seq<char> {
    "Edge already exists"@
}

/// What a well-formed graph guarantees its users: an atom is in the graph
/// exactly when it is one of the nodes, each atom id names one node only,
/// its index names that node, and every edge joins two nodes.
pub proof fn lemma_graph_wf(g: GraphCache)
    requires
        g.wf(),
    ensures
        forall|k: Seq<char>| #[trigger] g.contains_atom(k) <==> g.nodes().contains(k),
        forall|i: int, j: int| 0 <= i < j < g.nodes().len() ==> (#[trigger] g.nodes()[i]) != (#[trigger] g.nodes()[j]),
        forall|k: Seq<char>| #[trigger] g.contains_atom(k) ==> g.index_of()[k] < g.nodes().len()
            && g.nodes()[g.index_of()[k] as int] == k,
        forall|i: int| 0 <= i < g.edges().len() ==> (#[trigger] g.edges()[i]).0 < g.nodes().len()
            && g.edges()[i].1 < g.nodes().len(),
{
    lemma_wf_contains(g);
    assert forall|i: int, j: int| 0 <= i < j < g.nodes().len() implies (#[trigger] g.nodes()[i]) != (#[trigger] g.nodes()[j]) by {
        assert(g.index_of()[g.nodes()[i]] == i);
        assert(g.index_of()[g.nodes()[j]] == j);
    }
}

proof fn lemma_wf_contains(g: GraphCache)
    requires
        g.wf(),
    ensures
        forall|k: Seq<char>| #[trigger] g.contains_atom(k) <==> g.nodes().contains(k),
{
    assert forall|k: Seq<char>| #[trigger] g.contains_atom(k) <==> g.nodes().contains(k) by {
        if g.nodes().contains(k) {
            let i = choose|i: int| 0 <= i < g.nodes().len() && g.nodes()[i] == k;
            assert(g.index_of().contains_key(g.nodes()[i]));
        }
        if g.contains_atom(k) {
            assert(g.nodes()[g.index_of()[k] as int] == k);
        }
    }
}

/// A step target from `u` appears in `u`'s neighbour list for the direction.
proof fn lemma_step_listed(es: Seq<EdgeTriple>, types: Seq<EdgeType>, dir: TraversalDirection, u: usize, v: usize, listed: Seq<usize>)
    requires
        step(es, types, dir, u, v),
        dir == TraversalDirection::Outgoing ==> listed == neighbors_rev(es, u, true),
        dir == TraversalDirection::Incoming ==> listed == neighbors_rev(es, u, false),
        dir == TraversalDirection::Both ==> listed == neighbors_rev(es, u, true) + neighbors_rev(es, u, false),
    ensures
        listed.contains(v),
{
    lemma_neighbors_rev(es, u, true);
    lemma_neighbors_rev(es, u, false);
    let outs = neighbors_rev(es, u, true);
    let ins = neighbors_rev(es, u, false);
    if typed_edge(es, types, u, v) && dir != TraversalDirection::Incoming {
        let i = choose|i: int| 0 <= i < es.len() && #[trigger] es[i].0 == u && es[i].1 == v
            && types.contains(code_edge_type(es[i].2));
        assert(far_end(es[i], true) == v);
        assert(outs.contains(v));
        if dir == TraversalDirection::Both {
            let k = choose|k: int| 0 <= k < outs.len() && outs[k] == v;
            assert(listed[k] == v);
        }
    } else {
        assert(typed_edge(es, types, v, u));
        let i = choose|i: int| 0 <= i < es.len() && #[trigger] es[i].0 == v && es[i].1 == u
            && types.contains(code_edge_type(es[i].2));
        assert(far_end(es[i], false) == v);
        assert(ins.contains(v));
        if dir == TraversalDirection::Both {
            let k = choose|k: int| 0 <= k < ins.len() && ins[k] == v;
            assert(listed[outs.len() + k] == v);
        }
    }
}

/// Every listed neighbour is a node of the graph.
proof fn lemma_listed_is_node(es: Seq<EdgeTriple>, n: nat, dir: TraversalDirection, u: usize, listed: Seq<usize>, k: int)
    requires
        forall|i: int| 0 <= i < es.len() ==> (#[trigger] es[i]).0 < n && es[i].1 < n,
        dir == TraversalDirection::Outgoing ==> listed == neighbors_rev(es, u, true),
        dir == TraversalDirection::Incoming ==> listed == neighbors_rev(es, u, false),
        dir == TraversalDirection::Both ==> listed == neighbors_rev(es, u, true) + neighbors_rev(es, u, false),
        0 <= k < listed.len(),
    ensures
        listed[k] < n,
{
    lemma_neighbors_rev(es, u, true);
    lemma_neighbors_rev(es, u, false);
    let outs = neighbors_rev(es, u, true);
    let ins = neighbors_rev(es, u, false);
    if dir == TraversalDirection::Outgoing || (dir == TraversalDirection::Both && k < outs.len()) {
        assert(listed[k] == outs[k]);
        assert(far_end_at(es, u, true, outs[k]));
    } else if dir == TraversalDirection::Incoming {
        assert(far_end_at(es, u, false, ins[k]));
    } else {
        assert(listed[k] == ins[k - outs.len()]);
        assert(far_end_at(es, u, false, ins[k - outs.len()]));
    }
}

/// Completeness of the breadth-first search: once every queued node of
/// depth below the limit has been expanded, every node within `k` steps of
/// the start (`k` at most the limit) is queued at depth at most `k`.
proof fn lemma_bfs_complete(
    es: Seq<EdgeTriple>,
    types: Seq<EdgeType>,
    dir: TraversalDirection,
    start: usize,
    q: Seq<(usize, usize)>,
    max_depth: usize,
    v: usize,
    k: nat,
)
    requires
        1 <= q.len(),
        q[0] == (start, 0usize),
        k <= max_depth,
        reach(es, types, dir, start, v, k),
        forall|i: int, w: usize| 0 <= i < q.len() && (#[trigger] q[i]).1 < max_depth
            && #[trigger] step(es, types, dir, q[i].0, w) ==> exists|l: int|
            0 <= l < q.len() && (#[trigger] q[l]).0 == w && q[l].1 <= q[i].1 + 1,
    ensures
        exists|l: int| 0 <= l < q.len() && (#[trigger] q[l]).0 == v && q[l].1 <= k,
    decreases k,
{
    if k == 0 {
        assert(q[0].0 == v);
    } else if reach(es, types, dir, start, v, (k - 1) as nat) {
        lemma_bfs_complete(es, types, dir, start, q, max_depth, v, (k - 1) as nat);
        let l = choose|l: int| 0 <= l < q.len() && (#[trigger] q[l]).0 == v && q[l].1 <= k - 1;
        assert(q[l].1 <= k);
    } else {
        let u = choose|u: usize| reach(es, types, dir, start, u, (k - 1) as nat) && #[trigger] step(es, types, dir, u, v);
        lemma_bfs_complete(es, types, dir, start, q, max_depth, u, (k - 1) as nat);
        let i = choose|i: int| 0 <= i < q.len() && (#[trigger] q[i]).0 == u && q[i].1 <= k - 1;
        assert(step(es, types, dir, q[i].0, v));
    }
}


fn copy_path(p: &Vec<String>) -> (r: Vec<String>)
    ensures
        r@.len() == p@.len(),
        forall|i: int| 0 <= i < p@.len() ==> (#[trigger] r@[i])@ == p@[i]@,
        r@.map_values(|x: String| x@) == p@.map_values(|x: String| x@),
{
    let mut out: Vec<String> = Vec::new();
    let mut i: usize = 0;
    while i < p.len()
        invariant
            i <= p@.len(),
            out@.len() == i,
            forall|k: int| 0 <= k < i ==> (#[trigger] out@[k])@ == p@[k]@,
        decreases p@.len() - i,
    {
        let x = p[i].clone();
        out.push(x);
        i = i + 1;
    }
    assert(out@.map_values(|x: String| x@) =~= p@.map_values(|x: String| x@));
    out
}

/// `name` is the name of one of `types`.
pub open spec fn names_admitted_type(types: Seq<EdgeType>, name: Seq<char>) -> bool {
    exists|t: EdgeType| types.contains(t) && name == #[trigger] edge_type_name(t)
}

impl GraphCache {
    /// There is an edge of one of `types` from the atom `a` to the atom `b`.
    pub open spec fn linked(&self, types: Seq<EdgeType>, a: Seq<char>, b: Seq<char>) -> bool {
        &&& self.index_of().contains_key(a)
        &&& self.index_of().contains_key(b)
        &&& typed_edge(self.edges(), types, self.index_of()[a], self.index_of()[b])
    }

    /// Node `v` lies within `max` outgoing steps of one of the starting
    /// atoms that are in the graph.
    pub open spec fn reached_from_starts(&self, starts: Seq<String>, types: Seq<EdgeType>, max: nat, v: usize) -> bool {
        exists|i: int| 0 <= i < starts.len() && self.index_of().contains_key(#[trigger] starts[i]@)
            && reach(self.edges(), types, TraversalDirection::Outgoing, self.index_of()[starts[i]@], v, max)
    }

    /// `p` is a walk of one to `max` outgoing steps, along edges of
    /// `types`, from one of the starting atoms.
    pub open spec fn subgraph_walk(&self, starts: Seq<String>, types: Seq<EdgeType>, max: nat, p: Seq<Seq<char>>) -> bool {
        &&& 2 <= p.len() <= max + 1
        &&& exists|i: int| 0 <= i < starts.len() && #[trigger] starts[i]@ == p[0]
        &&& forall|j: int| #![trigger p[j]] 0 <= j < p.len() - 1 ==> self.linked(types, p[j], p[j + 1])
    }

    spec fn subgraph_state(&self, starts: Seq<String>, types: Seq<EdgeType>, max: nat, visited: Seq<bool>,
        connected: Seq<String>, found: Seq<String>, paths: Seq<Vec<String>>) -> bool
    {
        let n = self.nodes().len();
        &&& visited.len() == n
        &&& forall|v: int| 0 <= v < n && #[trigger] visited[v] ==> exists|k: int| 0 <= k < connected.len()
            && (#[trigger] connected[k])@ == self.nodes()[v]
        &&& forall|k: int| #![trigger connected[k]] 0 <= k < connected.len() ==> self.index_of().contains_key(connected[k]@)
            && self.reached_from_starts(starts, types, max, self.index_of()[connected[k]@])
        &&& forall|k: int, l: int| 0 <= k < l < connected.len() ==> (#[trigger] connected[k])@ != (#[trigger] connected[l])@
        &&& forall|k: int| #![trigger found[k]] 0 <= k < found.len() ==> names_admitted_type(types, found[k]@)
        &&& forall|k: int, l: int| 0 <= k < l < found.len() ==> (#[trigger] found[k])@ != (#[trigger] found[l])@
        &&& forall|k: int| #![trigger paths[k]] 0 <= k < paths.len()
            ==> self.subgraph_walk(starts, types, max, paths[k]@.map_values(|x: String| x@))
    }

    #[verifier::rlimit(100)]
    #[verifier::spinoff_prover]
    fn explore_from(
        &self,
        s: usize,
        start_name: &String,
        max_hops: u32,
        types: &[EdgeType],
        visited: &mut Vec<bool>,
        connected: &mut Vec<String>,
        found: &mut Vec<String>,
        paths: &mut Vec<Vec<String>>,
        Ghost(starts): Ghost<Seq<String>>,
        Ghost(si): Ghost<int>,
    )
        requires
            self.wf(),
            s < self.nodes().len(),
            self.nodes()[s as int] == start_name@,
            0 <= si < starts.len(),
            starts[si]@ == start_name@,
            self.subgraph_state(starts, types@, max_hops as nat, old(visited)@, old(connected)@, old(found)@, old(paths)@),
        ensures
            self.subgraph_state(starts, types@, max_hops as nat, final(visited)@, final(connected)@, final(found)@, final(paths)@),
            forall|v: int| 0 <= v < old(visited)@.len() && old(visited)@[v] ==> #[trigger] final(visited)@[v],
            (forall|v: int| 0 <= v < old(visited)@.len() ==> !old(visited)@[v]) ==> forall|v: usize|
                v < self.nodes().len() && v != s
                && #[trigger] reach(self.edges(), types@, TraversalDirection::Outgoing, s, v, max_hops as nat)
                ==> final(visited)@[v as int],
    {
        let ghost es = self.edges();
        let ghost nodes = self.nodes();
        let ghost ty = types@;
        let ghost n = nodes.len();
        let ghost max = max_hops as nat;
        let ghost dir = TraversalDirection::Outgoing;
        let ghost fresh = forall|v: int| 0 <= v < old(visited)@.len() ==> !old(visited)@[v];
        let ghost vis0 = visited@;
        let ghost total = count_false(visited@) + 1;
        proof {
            assert(self.index_of()[start_name@] == s);
            assert(self.index_of().contains_key(starts[si]@));
        }
        let mut p0: Vec<String> = Vec::new();
        p0.push(start_name.clone());
        let mut queue: Vec<(usize, u32, Vec<String>)> = Vec::new();
        queue.push((s, 0, p0));
        let ghost mut gq: Seq<(usize, usize)> = seq![(s, 0usize)];
        let mut head: usize = 0;
        while head < queue.len()
            invariant
                self.wf(),
                es == self.edges(),
                nodes == self.nodes(),
                n == nodes.len(),
                ty == types@,
                max == max_hops as nat,
                dir == TraversalDirection::Outgoing,
                s < n,
                nodes[s as int] == start_name@,
                self.index_of()[start_name@] == s,
                0 <= si < starts.len(),
                starts[si]@ == start_name@,
                self.index_of().contains_key(starts[si]@),
                self.subgraph_state(starts, ty, max, visited@, connected@, found@, paths@),
                forall|v: int| 0 <= v < vis0.len() && vis0[v] ==> #[trigger] visited@[v],
                vis0.len() == n,
                fresh == forall|v: int| 0 <= v < vis0.len() ==> !vis0[v],
                count_false(visited@) + gq.len() == total,
                queue@.len() == gq.len(),
                1 <= gq.len(),
                gq[0] == (s, 0usize),
                head <= gq.len(),
                forall|k: int| #![trigger gq[k]] 0 <= k < gq.len() ==> queue@[k].0 == gq[k].0 && queue@[k].1 as usize == gq[k].1
                    && gq[k].0 < n && gq[k].1 <= max
                    && reach(es, ty, dir, s, gq[k].0, gq[k].1 as nat)
                    && queue@[k].2@.len() == gq[k].1 + 1
                    && queue@[k].2@[0]@ == start_name@
                    && queue@[k].2@[gq[k].1 as int]@ == nodes[gq[k].0 as int]
                    && (forall|j: int| #![trigger queue@[k].2@[j]] 0 <= j < gq[k].1
                        ==> self.linked(ty, queue@[k].2@[j]@, queue@[k].2@[j + 1]@)),
                forall|k: int, l: int| 0 <= k <= l < gq.len() ==> (#[trigger] gq[k]).1 <= (#[trigger] gq[l]).1,
                head < gq.len() ==> forall|k: int| 0 <= k < gq.len() ==> (#[trigger] gq[k]).1 <= gq[head as int].1 + 1,
                fresh ==> forall|v: int| 0 <= v < n && #[trigger] visited@[v] ==> exists|k: int|
                    1 <= k < gq.len() && (#[trigger] gq[k]).0 == v,
                forall|k: int| 1 <= k < gq.len() ==> visited@[(#[trigger] gq[k]).0 as int],
                fresh ==> forall|k: int, w: usize| 0 <= k < head && (#[trigger] gq[k]).1 < max_hops
                    && #[trigger] step(es, ty, dir, gq[k].0, w) ==> exists|l: int|
                    0 <= l < gq.len() && (#[trigger] gq[l]).0 == w && gq[l].1 <= gq[k].1 + 1,
            decreases count_false(visited@) + gq.len() - head,
        {
            let cur = queue[head].0;
            let depth = queue[head].1;
            let path = copy_path(&queue[head].2);
            let ghost h = head as int;
            head = head + 1;
            if depth >= max_hops {
                proof {
                    if head < gq.len() {
                        assert(gq[h].1 <= gq[head as int].1);
                    }
                }
                continue;
            }
            proof {
                lemma_neighbors_rev(es, cur, true);
            }
            let nbs = pg_neighbors(&self.graph, cur, true);
            let ghost gq_at = gq;
            let mut j: usize = 0;
            while j < nbs.len()
                invariant
                    self.wf(),
                    es == self.edges(),
                    nodes == self.nodes(),
                    n == nodes.len(),
                    ty == types@,
                    max == max_hops as nat,
                    dir == TraversalDirection::Outgoing,
                    s < n,
                    cur < n,
                    nodes[s as int] == start_name@,
                    self.index_of()[start_name@] == s,
                    0 <= si < starts.len(),
                    starts[si]@ == start_name@,
                    self.index_of().contains_key(starts[si]@),
                    (depth as int) < max_hops,
                    0 <= h < gq_at.len(),
                    head == h + 1,
                    gq_at[h] == (cur, depth as usize),
                    reach(es, ty, dir, s, cur, depth as nat),
                    path@.len() == depth + 1,
                    path@[0]@ == start_name@,
                    path@[depth as int]@ == nodes[cur as int],
                    forall|jj: int| #![trigger path@[jj]] 0 <= jj < depth ==> self.linked(ty, path@[jj]@, path@[jj + 1]@),
                    nbs@ == neighbors_rev(es, cur, true),
                    forall|k: int| 0 <= k < nbs@.len() ==> far_end_at(es, cur, true, #[trigger] nbs@[k]),
                    j <= nbs@.len(),
                    self.subgraph_state(starts, ty, max, visited@, connected@, found@, paths@),
                    forall|v: int| 0 <= v < vis0.len() && vis0[v] ==> #[trigger] visited@[v],
                    vis0.len() == n,
                    fresh == forall|v: int| 0 <= v < vis0.len() ==> !vis0[v],
                    count_false(visited@) + gq.len() == total,
                    queue@.len() == gq.len(),
                    gq_at.len() <= gq.len(),
                    forall|k: int| 0 <= k < gq_at.len() ==> gq[k] == gq_at[k],
                    gq[0] == (s, 0usize),
                    forall|k: int| #![trigger gq[k]] 0 <= k < gq.len() ==> queue@[k].0 == gq[k].0 && queue@[k].1 as usize == gq[k].1
                        && gq[k].0 < n && gq[k].1 <= max
                        && reach(es, ty, dir, s, gq[k].0, gq[k].1 as nat)
                        && queue@[k].2@.len() == gq[k].1 + 1
                        && queue@[k].2@[0]@ == start_name@
                        && queue@[k].2@[gq[k].1 as int]@ == nodes[gq[k].0 as int]
                        && (forall|jj: int| #![trigger queue@[k].2@[jj]] 0 <= jj < gq[k].1
                            ==> self.linked(ty, queue@[k].2@[jj]@, queue@[k].2@[jj + 1]@)),
                    forall|k: int, l: int| 0 <= k <= l < gq.len() ==> (#[trigger] gq[k]).1 <= (#[trigger] gq[l]).1,
                    forall|k: int| 0 <= k < gq.len() ==> (#[trigger] gq[k]).1 <= depth + 1,
                    forall|k: int| gq_at.len() <= k < gq.len() ==> (#[trigger] gq[k]).1 == depth + 1,
                    fresh ==> forall|v: int| 0 <= v < n && #[trigger] visited@[v] ==> exists|k: int|
                        1 <= k < gq.len() && (#[trigger] gq[k]).0 == v,
                    forall|k: int| 1 <= k < gq.len() ==> visited@[(#[trigger] gq[k]).0 as int],
                    fresh ==> forall|k: int, w: usize| 0 <= k < h && (#[trigger] gq[k]).1 < max_hops
                        && #[trigger] step(es, ty, dir, gq[k].0, w) ==> exists|l: int|
                        0 <= l < gq.len() && (#[trigger] gq[l]).0 == w && gq[l].1 <= gq[k].1 + 1,
                    fresh ==> forall|jj: int| 0 <= jj < j && step(es, ty, dir, cur, #[trigger] nbs@[jj]) ==> exists|l: int|
                        0 <= l < gq.len() && (#[trigger] gq[l]).0 == nbs@[jj] && gq[l].1 <= depth + 1,
                decreases nbs@.len() - j,
            {
                let nb = nbs[j];
                proof {
                    assert(far_end_at(es, cur, true, nbs@[j as int]));
                    let i = choose|i: int| 0 <= i < es.len() && far_end(#[trigger] es[i], true) == nb && es[i].0 == cur;
                    assert(es[i].1 < n);
                }
                if visited[nb] {
                    proof {
                        if fresh {
                            let k = choose|k: int| 1 <= k < gq.len() && (#[trigger] gq[k]).0 == nb as int;
                            assert(gq[k].1 <= depth + 1);
                        }
                    }
                } else {
                    match pg_find_edge(&self.graph, cur, nb) {
                        None => {
                            proof {
                                assert(!step(es, ty, dir, cur, nb));
                            }
                        },
                        Some(e) => {
                            let w = match pg_edge_weight(&self.graph, e) { Some(w) => w, None => 0 };
                            assert(es[e as int] == (cur, nb, w));
                            if !Self::types_contain(types, w) {
                                proof {
                                    if step(es, ty, dir, cur, nb) {
                                        let i = choose|i: int| 0 <= i < es.len() && #[trigger] es[i].0 == cur && es[i].1 == nb
                                            && ty.contains(code_edge_type(es[i].2));
                                        if i != e {
                                            assert(!(es[i].0 == es[e as int].0 && es[i].1 == es[e as int].1));
                                        }
                                    }
                                }
                            } else {
                                let tname = EdgeType::from_code(w).as_str();
                                if !filter_names_contain(found.as_slice(), tname) {
                                    let ghost f0 = found@;
                                    found.push(to_owned_string(tname));
                                    proof {
                                        let t = code_edge_type(w);
                                        assert(ty.contains(t));
                                        assert forall|k: int| #![trigger found@[k]] 0 <= k < found@.len() implies names_admitted_type(ty, found@[k]@) by {
                                            if k < f0.len() {
                                                assert(found@[k] == f0[k]);
                                            } else {
                                                assert(found@[k]@ == edge_type_name(t));
                                            }
                                        }
                                        assert forall|k: int, l: int| 0 <= k < l < found@.len() implies (#[trigger] found@[k])@ != (#[trigger] found@[l])@ by {
                                            if l < f0.len() {
                                                assert(found@[k] == f0[k] && found@[l] == f0[l]);
                                            } else {
                                                assert(found@[k] == f0[k]);
                                            }
                                        }
                                    }
                                }
                                match pg_node_weight(&self.graph, nb) {
                                    None => {},
                                    Some(atom_id) => {
                                        proof {
                                            assert(step(es, ty, dir, cur, nb));
                                            assert(reach(es, ty, dir, s, nb, (depth + 1) as nat));
                                            lemma_reach_mono(es, ty, dir, s, nb, (depth + 1) as nat, max);
                                            assert(self.index_of()[nodes[nb as int]] == nb);
                                            assert(self.index_of()[nodes[cur as int]] == cur);
                                            assert(self.linked(ty, nodes[cur as int], nodes[nb as int]));
                                        }
                                        let mut new_path = copy_path(&path);
                                        new_path.push(atom_id.clone());
                                        let ghost np = new_path@;
                                        proof {
                                            assert(np.len() == depth + 2);
                                            assert(np[0]@ == start_name@);
                                            assert(np[depth + 1]@ == nodes[nb as int]);
                                            assert forall|jj: int| #![trigger np[jj]] 0 <= jj < depth + 1
                                                implies self.linked(ty, np[jj]@, np[jj + 1]@) by {
                                                if jj < depth {
                                                    assert(np[jj]@ == path@[jj]@);
                                                    assert(np[jj + 1]@ == path@[jj + 1]@);
                                                } else {
                                                    assert(np[jj]@ == path@[depth as int]@);
                                                }
                                            }
                                        }
                                        let ghost c0 = connected@;
                                        if !filter_names_contain(connected.as_slice(), atom_id.as_str()) {
                                            connected.push(atom_id.clone());
                                        }
                                        proof {
                                            let c = connected@;
                                            assert(exists|k: int| 0 <= k < c.len() && (#[trigger] c[k])@ == nodes[nb as int]) by {
                                                if c.len() > c0.len() {
                                                    assert(c[c.len() - 1]@ == nodes[nb as int]);
                                                } else {
                                                    let k = choose|k: int| 0 <= k < c0.len() && (#[trigger] c0[k])@ == atom_id@;
                                                    assert(c[k] == c0[k]);
                                                }
                                            }
                                            assert forall|k: int| #![trigger c[k]] 0 <= k < c.len() implies self.index_of().contains_key(c[k]@)
                                                && self.reached_from_starts(starts, ty, max, self.index_of()[c[k]@]) by {
                                                if k < c0.len() {
                                                    assert(c[k] == c0[k]);
                                                } else {
                                                    assert(c[k]@ == nodes[nb as int]);
                                                    assert(self.index_of()[c[k]@] == nb);
                                                    assert(reach(es, ty, dir, self.index_of()[starts[si]@], nb, max));
                                                }
                                            }
                                            assert forall|k: int, l: int| 0 <= k < l < c.len() implies (#[trigger] c[k])@ != (#[trigger] c[l])@ by {
                                                if l < c0.len() {
                                                    assert(c[k] == c0[k] && c[l] == c0[l]);
                                                } else {
                                                    assert(c[k] == c0[k]);
                                                }
                                            }
                                        }
                                        let ghost p0s = paths@;
                                        paths.push(copy_path(&new_path));
                                        proof {
                                            let ps = paths@;
                                            let npv = np.map_values(|x: String| x@);
                                            assert(ps[ps.len() - 1]@.map_values(|x: String| x@) == npv);
                                            assert(self.subgraph_walk(starts, ty, max, npv)) by {
                                                assert(starts[si]@ == npv[0]);
                                                assert forall|jj: int| #![trigger npv[jj]] 0 <= jj < npv.len() - 1
                                                    implies self.linked(ty, npv[jj], npv[jj + 1]) by {
                                                    assert(npv[jj] == np[jj]@);
                                                    assert(npv[jj + 1] == np[jj + 1]@);
                                                }
                                            }
                                            assert forall|k: int| #![trigger ps[k]] 0 <= k < ps.len()
                                                implies self.subgraph_walk(starts, ty, max, ps[k]@.map_values(|x: String| x@)) by {
                                                if k < p0s.len() {
                                                    assert(ps[k] == p0s[k]);
                                                }
                                            }
                                        }
                                        let ghost v0 = visited@;
                                        proof {
                                            lemma_count_false_set(visited@, nb as int);
                                        }
                                        visited.set(nb, true);
                                        let ghost q0 = gq;
                                        queue.push((nb, depth + 1, new_path));
                                        proof {
                                            gq = gq.push((nb, (depth + 1) as usize));
                                            let v = visited@;
                                            assert forall|x: int| 0 <= x < n && #[trigger] v[x] implies exists|k: int|
                                                0 <= k < connected@.len() && (#[trigger] connected@[k])@ == nodes[x] by {
                                                if x != nb {
                                                    assert(v0[x]);
                                                    let k = choose|k: int| 0 <= k < c0.len() && (#[trigger] c0[k])@ == nodes[x];
                                                    assert(connected@[k] == c0[k]);
                                                }
                                            }
                                            assert forall|k: int| #![trigger gq[k]] 0 <= k < gq.len() implies queue@[k].0 == gq[k].0
                                                && queue@[k].1 as usize == gq[k].1
                                                && gq[k].0 < n && gq[k].1 <= max
                                                && reach(es, ty, dir, s, gq[k].0, gq[k].1 as nat)
                                                && queue@[k].2@.len() == gq[k].1 + 1
                                                && queue@[k].2@[0]@ == start_name@
                                                && queue@[k].2@[gq[k].1 as int]@ == nodes[gq[k].0 as int]
                                                && (forall|jj: int| #![trigger queue@[k].2@[jj]] 0 <= jj < gq[k].1
                                                    ==> self.linked(ty, queue@[k].2@[jj]@, queue@[k].2@[jj + 1]@)) by {
                                                if k < q0.len() {
                                                    assert(gq[k] == q0[k]);
                                                }
                                            }
                                            assert forall|k: int| 1 <= k < gq.len() implies v[(#[trigger] gq[k]).0 as int] by {
                                                if k < q0.len() {
                                                    assert(gq[k] == q0[k]);
                                                    assert(v0[q0[k].0 as int]);
                                                }
                                            }
                                            assert forall|k: int, l: int| 0 <= k <= l < gq.len() implies (#[trigger] gq[k]).1 <= (#[trigger] gq[l]).1 by {
                                                if l < q0.len() {
                                                    assert(gq[k] == q0[k] && gq[l] == q0[l]);
                                                } else if k < q0.len() {
                                                    assert(gq[k] == q0[k]);
                                                }
                                            }
                                            if fresh {
                                                assert forall|x: int| 0 <= x < n && #[trigger] v[x] implies exists|k: int|
                                                    1 <= k < gq.len() && (#[trigger] gq[k]).0 == x by {
                                                    if x == nb {
                                                        assert(gq[gq.len() - 1].0 == x);
                                                    } else {
                                                        assert(v0[x]);
                                                        let k = choose|k: int| 1 <= k < q0.len() && (#[trigger] q0[k]).0 == x;
                                                        assert(gq[k] == q0[k]);
                                                    }
                                                }
                                                assert forall|k: int, w2: usize| 0 <= k < h && (#[trigger] gq[k]).1 < max_hops
                                                    && #[trigger] step(es, ty, dir, gq[k].0, w2) implies exists|l: int|
                                                    0 <= l < gq.len() && (#[trigger] gq[l]).0 == w2 && gq[l].1 <= gq[k].1 + 1 by {
                                                    assert(gq[k] == q0[k]);
                                                    let l = choose|l: int| 0 <= l < q0.len() && (#[trigger] q0[l]).0 == w2 && q0[l].1 <= q0[k].1 + 1;
                                                    assert(gq[l] == q0[l]);
                                                }
                                                assert forall|jj: int| 0 <= jj < j + 1 && step(es, ty, dir, cur, #[trigger] nbs@[jj]) implies exists|l: int|
                                                    0 <= l < gq.len() && (#[trigger] gq[l]).0 == nbs@[jj] && gq[l].1 <= depth + 1 by {
                                                    if jj == j {
                                                        assert(gq[gq.len() - 1].0 == nb);
                                                    } else {
                                                        let l = choose|l: int| 0 <= l < q0.len() && (#[trigger] q0[l]).0 == nbs@[jj] && q0[l].1 <= depth + 1;
                                                        assert(gq[l] == q0[l]);
                                                    }
                                                }
                                            }
                                        }
                                    },
                                }
                            }
                        },
                    }
                }
                j = j + 1;
            }
            proof {
                if fresh {
                    assert forall|k: int, w2: usize| 0 <= k < head && (#[trigger] gq[k]).1 < max_hops
                        && #[trigger] step(es, ty, dir, gq[k].0, w2) implies exists|l: int|
                        0 <= l < gq.len() && (#[trigger] gq[l]).0 == w2 && gq[l].1 <= gq[k].1 + 1 by {
                        if k == h {
                            assert(gq[k] == gq_at[k]);
                            let i = choose|i: int| 0 <= i < es.len() && #[trigger] es[i].0 == cur && es[i].1 == w2
                                && ty.contains(code_edge_type(es[i].2));
                            assert(nbs@.contains(far_end(es[i], true)));
                            let jj = choose|jj: int| 0 <= jj < nbs@.len() && nbs@[jj] == w2;
                            assert(step(es, ty, dir, cur, nbs@[jj]));
                        }
                    }
                }
                if head < gq.len() {
                    assert forall|k: int| 0 <= k < gq.len() implies (#[trigger] gq[k]).1 <= gq[head as int].1 + 1 by {
                        assert(gq[h] == gq_at[h]);
                        assert(gq[h].1 <= gq[head as int].1);
                    }
                }
            }
        }
        proof {
            if fresh {
                assert forall|v: usize| v < n && v != s
                    && #[trigger] reach(es, ty, dir, s, v, max) implies visited@[v as int] by {
                    lemma_bfs_complete(es, ty, dir, s, gq, max_hops as usize, v, max);
                    let l = choose|l: int| 0 <= l < gq.len() && (#[trigger] gq[l]).0 == v && gq[l].1 <= max;
                    assert(l != 0);
                    assert(queue@[l].0 == v);
                    assert(gq[l].0 == v);
                }
            }
        }
    }

    /// The atoms reached along outgoing edges (of the filtered types) from
    /// the starting atoms, at most `max_hops` steps out, with the edge types
    /// crossed and the paths taken. The starts are explored in order,
    /// breadth first, and an atom reached once is not entered again, also
    /// from a later start; starts not in the graph are passed over.
    pub fn get_subgraph(&self, start_ids: &[String], max_hops: u32, edge_type_filter: Option<&[String]>) -> (r: GraphSubgraph)
        requires
            self.wf(),
        ensures
            r.hops_explored == max_hops,
            ({
                let types = admitted_types(filter_view(edge_type_filter));
                let max = max_hops as nat;
                &&& forall|k: int| #![trigger r.connected_atoms@[k]] 0 <= k < r.connected_atoms@.len()
                    ==> self.contains_atom(r.connected_atoms@[k]@)
                    && self.reached_from_starts(start_ids@, types, max, self.index_of()[r.connected_atoms@[k]@])
                &&& forall|k: int, l: int| 0 <= k < l < r.connected_atoms@.len()
                    ==> (#[trigger] r.connected_atoms@[k])@ != (#[trigger] r.connected_atoms@[l])@
                &&& forall|k: int| #![trigger r.edge_types_found@[k]] 0 <= k < r.edge_types_found@.len()
                    ==> names_admitted_type(types, r.edge_types_found@[k]@)
                &&& forall|k: int, l: int| 0 <= k < l < r.edge_types_found@.len()
                    ==> (#[trigger] r.edge_types_found@[k])@ != (#[trigger] r.edge_types_found@[l])@
                &&& forall|k: int| #![trigger r.paths@[k]] 0 <= k < r.paths@.len()
                    ==> self.subgraph_walk(start_ids@, types, max, r.paths@[k]@.map_values(|x: String| x@))
                &&& forall|i: int| #![trigger start_ids@[i]] 0 <= i < start_ids@.len() && self.contains_atom(start_ids@[i]@)
                    && (forall|j: int| 0 <= j < i ==> !self.contains_atom(#[trigger] start_ids@[j]@))
                    ==> forall|v: usize| v < self.nodes().len() && v != self.index_of()[start_ids@[i]@]
                    && #[trigger] reach(self.edges(), types, TraversalDirection::Outgoing, self.index_of()[start_ids@[i]@], v, max)
                    ==> lineage_has(r.connected_atoms@, self.nodes()[v as int])
            }),
    {
        let types_vec = filter_types(edge_type_filter);
        let ghost ty = types_vec@;
        let ghost starts = start_ids@;
        let n = pg_node_count(&self.graph);
        let mut visited: Vec<bool> = Vec::new();
        let mut i: usize = 0;
        while i < n
            invariant
                i <= n,
                visited@.len() == i,
                forall|k: int| 0 <= k < i ==> !visited@[k],
                count_false(visited@) == i,
            decreases n - i,
        {
            proof {
                lemma_count_false_push(visited@);
            }
            visited.push(false);
            i = i + 1;
        }
        let mut connected: Vec<String> = Vec::new();
        let mut found: Vec<String> = Vec::new();
        let mut paths: Vec<Vec<String>> = Vec::new();
        let ghost mut first: Option<int> = None;
        let mut si: usize = 0;
        while si < start_ids.len()
            invariant
                self.wf(),
                n == self.nodes().len(),
                ty == types_vec@,
                starts == start_ids@,
                si <= starts.len(),
                self.subgraph_state(starts, ty, max_hops as nat, visited@, connected@, found@, paths@),
                first is None <==> forall|j: int| 0 <= j < si ==> !self.contains_atom(#[trigger] starts[j]@),
                first is None ==> forall|v: int| 0 <= v < visited@.len() ==> !visited@[v],
                first matches Some(f) ==> 0 <= f < si && self.contains_atom(starts[f]@)
                    && (forall|j: int| 0 <= j < f ==> !self.contains_atom(#[trigger] starts[j]@))
                    && forall|v: usize| v < self.nodes().len() && v != self.index_of()[starts[f]@]
                    && #[trigger] reach(self.edges(), ty, TraversalDirection::Outgoing, self.index_of()[starts[f]@], v, max_hops as nat)
                    ==> visited@[v as int],
            decreases starts.len() - si,
        {
            let s = match self.node_indices.get(start_ids[si].as_str()) {
                Some(x) => Some(*x),
                None => None,
            };
            match s {
                Some(s) => {
                    proof {
                        assert(self.contains_atom(starts[si as int]@));
                        assert(self.nodes()[s as int] == starts[si as int]@);
                    }
                    let ghost v0 = visited@;
                    self.explore_from(s, &start_ids[si], max_hops, types_vec.as_slice(), &mut visited, &mut connected,
                        &mut found, &mut paths, Ghost(starts), Ghost(si as int));
                    proof {
                        if first is None {
                            first = Some(si as int);
                        } else {
                            let f = first->0;
                            assert forall|v: usize| v < self.nodes().len() && v != self.index_of()[starts[f]@]
                                && #[trigger] reach(self.edges(), ty, TraversalDirection::Outgoing, self.index_of()[starts[f]@], v, max_hops as nat)
                                implies visited@[v as int] by {
                                assert(v0[v as int]);
                            }
                        }
                    }
                },
                None => {
                    proof {
                        assert(!self.contains_atom(starts[si as int]@));
                    }
                },
            }
            si = si + 1;
        }
        proof {
            assert(ty == admitted_types(filter_view(edge_type_filter)));
            assert forall|k: int| #![trigger connected@[k]] 0 <= k < connected@.len()
                implies self.contains_atom(connected@[k]@) by {}
            assert forall|i: int| #![trigger starts[i]] 0 <= i < starts.len() && self.contains_atom(starts[i]@)
                && (forall|j: int| 0 <= j < i ==> !self.contains_atom(#[trigger] starts[j]@))
                implies forall|v: usize| v < self.nodes().len() && v != self.index_of()[starts[i]@]
                && #[trigger] reach(self.edges(), ty, TraversalDirection::Outgoing, self.index_of()[starts[i]@], v, max_hops as nat)
                ==> lineage_has(connected@, self.nodes()[v as int]) by {
                let f = first->0;
                if f < i {
                    assert(!self.contains_atom(starts[f]@));
                } else if f > i {
                    assert(!self.contains_atom(starts[i]@));
                }
                assert forall|v: usize| v < self.nodes().len() && v != self.index_of()[starts[i]@]
                    && #[trigger] reach(self.edges(), ty, TraversalDirection::Outgoing, self.index_of()[starts[i]@], v, max_hops as nat)
                    implies lineage_has(connected@, self.nodes()[v as int]) by {
                    assert(visited@[v as int]);
                }
            }
        }
        GraphSubgraph { hops_explored: max_hops, connected_atoms: connected, edge_types_found: found, paths }
    }
}

} // verus!
