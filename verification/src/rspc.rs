//! The dashboard's `/rspc` endpoint: which procedure a request names, the
//! parameters each reads, the graph edges it returns, and the owner check
//! of the procedures that change what agents see.
use vstd::prelude::*;
use vstd::string::StrSliceExecFns;
use crate::json::JsonValue;
use crate::artifacts::{has_str_member, str_member};
use crate::publish::{str_param, opt_param, opt_str_view, same_text, search_params, SearchParams};
use crate::mcp::starts_with;
use crate::stream::{starts_with_str, str_of};
use crate::text::{str_eq, to_owned_string};

verus! {

/// The procedures of the dashboard endpoint.
#[derive(Debug, Clone, Copy, PartialEq, Eq, Structural)]
pub enum RspcMethod {
    Health,
    SearchAtoms,
    GetGraph,
    GetGraphWithEmbeddings,
    ListProjects,
    GetProject,
    CreateProject,
    UpdateProject,
    DeleteProject,
    PublishAtoms,
    BanAtom,
    UnbanAtom,
}

/// The name a procedure is called by.
pub open spec fn rspc_method_name(m: RspcMethod) -> Seq<char> {
    match m {
        RspcMethod::Health => "health"@,
        RspcMethod::SearchAtoms => "searchAtoms"@,
        RspcMethod::GetGraph => "getGraph"@,
        RspcMethod::GetGraphWithEmbeddings => "getGraphWithEmbeddings"@,
        RspcMethod::ListProjects => "listProjects"@,
        RspcMethod::GetProject => "getProject"@,
        RspcMethod::CreateProject => "createProject"@,
        RspcMethod::UpdateProject => "updateProject"@,
        RspcMethod::DeleteProject => "deleteProject"@,
        RspcMethod::PublishAtoms => "publish_atoms"@,
        RspcMethod::BanAtom => "ban_atom"@,
        RspcMethod::UnbanAtom => "unban_atom"@,
    }
}

/// The procedure a request names; none (answered `404`) for another name.
pub fn rspc_method(name: &str) -> (r: Option<RspcMethod>)
    ensures
        r matches Some(m) ==> rspc_method_name(m) == name@,
        r is None ==> forall|m: RspcMethod| rspc_method_name(m) != name@,
{
    if str_eq(name, "health") { Some(RspcMethod::Health) }
    else if str_eq(name, "searchAtoms") { Some(RspcMethod::SearchAtoms) }
    else if str_eq(name, "getGraph") { Some(RspcMethod::GetGraph) }
    else if str_eq(name, "getGraphWithEmbeddings") { Some(RspcMethod::GetGraphWithEmbeddings) }
    else if str_eq(name, "listProjects") { Some(RspcMethod::ListProjects) }
    else if str_eq(name, "getProject") { Some(RspcMethod::GetProject) }
    else if str_eq(name, "createProject") { Some(RspcMethod::CreateProject) }
    else if str_eq(name, "updateProject") { Some(RspcMethod::UpdateProject) }
    else if str_eq(name, "deleteProject") { Some(RspcMethod::DeleteProject) }
    else if str_eq(name, "publish_atoms") { Some(RspcMethod::PublishAtoms) }
    else if str_eq(name, "ban_atom") { Some(RspcMethod::BanAtom) }
    else if str_eq(name, "unban_atom") { Some(RspcMethod::UnbanAtom) }
    else {
        proof {
            assert forall|m: RspcMethod| rspc_method_name(m) != name@ by {
                match m {
                    RspcMethod::Health => {},
                    RspcMethod::SearchAtoms => {},
                    RspcMethod::GetGraph => {},
                    RspcMethod::GetGraphWithEmbeddings => {},
                    RspcMethod::ListProjects => {},
                    RspcMethod::GetProject => {},
                    RspcMethod::CreateProject => {},
                    RspcMethod::UpdateProject => {},
                    RspcMethod::DeleteProject => {},
                    RspcMethod::PublishAtoms => {},
                    RspcMethod::BanAtom => {},
                    RspcMethod::UnbanAtom => {},
                }
            }
        }
        None
    }
}

/// The project a listing is limited to, when the parameters name one.
pub fn rspc_project_filter<'a>(params: Option<&'a JsonValue>) -> (r: Option<&'a str>)
    ensures
        same_text(r, opt_str_view(match params { Some(v) => Some(*v), None => None }, "project_id"@)),
{
    opt_param(params, "project_id")
}

/// The filters of `searchAtoms`: those of an atom search and the project.
pub fn rspc_search_params<'a>(params: Option<&'a JsonValue>) -> (r: (SearchParams<'a>, Option<&'a str>))
    ensures
        ({
            let p = match params { Some(v) => Some(*v), None => None };
            &&& same_text(r.0.domain, opt_str_view(p, "domain"@))
            &&& same_text(r.0.atom_type, opt_str_view(p, "type"@))
            &&& same_text(r.0.lifecycle, opt_str_view(p, "lifecycle"@))
            &&& same_text(r.0.query, opt_str_view(p, "query"@))
            &&& r.0.limit == (match p { Some(v) => crate::publish::i64_member_or(v, "limit"@, 50), None => 50 })
            &&& r.0.offset == (match p { Some(v) => crate::publish::i64_member_or(v, "offset"@, 0), None => 0 })
            &&& same_text(r.1, opt_str_view(p, "project_id"@))
        }),
{
    (search_params(params), rspc_project_filter(params))
}

/// A required string parameter; anything else is a bad request (`400`).
pub fn rspc_required_text<'a>(params: Option<&'a JsonValue>, key: &str) -> (r: Result<&'a str, u16>)
    ensures
        match opt_str_view(match params { Some(v) => Some(*v), None => None }, key@) {
            Some(t) => r matches Ok(s) && s@ == t,
            None => r == Err::<&str, u16>(400),
        },
{
    match opt_param(params, key) {
        Some(s) => Ok(s),
        None => Err(400),
    }
}

/// The fields of a project to create or update.
#[derive(Debug)]
pub struct ProjectInput<'a> {
    pub name: &'a str,
    pub slug: &'a str,
    pub description: Option<&'a str>,
}

/// The fields of `createProject` (and of `updateProject` after its id):
/// a name and a slug, both required, and an optional description.
pub fn rspc_project_input<'a>(params: Option<&'a JsonValue>) -> (r: Result<ProjectInput<'a>, u16>)
    ensures
        ({
            let p = match params { Some(v) => Some(*v), None => None };
            match (opt_str_view(p, "name"@), opt_str_view(p, "slug"@)) {
                (Some(n), Some(s)) => r matches Ok(i) && i.name@ == n && i.slug@ == s
                    && same_text(i.description, opt_str_view(p, "description"@)),
                _ => r matches Err(c) && c == 400,
            }
        }),
{
    let name = rspc_required_text(params, "name")?;
    let slug = rspc_required_text(params, "slug")?;
    Ok(ProjectInput { name, slug, description: opt_param(params, "description") })
}

/// A project as the dashboard lists it.
#[derive(Debug)]
pub struct Project {
    pub project_id: String,
    pub name: String,
    pub slug: String,
    pub description: Option<String>,
    pub created_at: String,
}

/// An edge of the graph the dashboard draws.
#[derive(Debug)]
pub struct Edge {
    pub source_id: String,
    pub target_id: String,
    pub edge_type: String,
    pub repl_type: Option<String>,
    pub created_at: String,
}

/// The texts of an edge: source, target, type, replication type and
/// creation time.
pub type EdgeTexts = (Seq<char>, Seq<char>, Seq<char>, Option<Seq<char>>, Seq<char>);

/// The texts of an edge.
pub open spec fn edge_texts(e: Edge) -> EdgeTexts {
    (e.source_id@, e.target_id@, e.edge_type@, match e.repl_type { Some(t) => Some(t@), None => None }, e.created_at@)
}

/// The edge an entry describes: one with string `source_id`, `target_id`,
/// `edge_type` and `created_at` (and `repl_type` when that is a string).
pub open spec fn edge_entry(e: JsonValue) -> Option<EdgeTexts> {
    if has_str_member(e, "source_id"@) && has_str_member(e, "target_id"@) && has_str_member(e, "edge_type"@)
        && has_str_member(e, "created_at"@) {
        Some((str_member(e, "source_id"@), str_member(e, "target_id"@), str_member(e, "edge_type"@),
            str_of(e.spec_get("repl_type"@)), str_member(e, "created_at"@)))
    } else {
        None
    }
}

/// The edges the entries describe, in order, skipping the others.
pub open spec fn edge_entries(s: Seq<JsonValue>) -> Seq<EdgeTexts>
    decreases s.len(),
{
    if s.len() == 0 {
        seq![]
    } else {
        let r = edge_entries(s.drop_last());
        match edge_entry(s.last()) {
            Some(t) => r.push(t),
            None => r,
        }
    }
}

fn text_of(s: &str) -> (r: String)
    ensures
        r@ == s@,
{
    to_owned_string(s)
}

/// The edges of a graph-edges result: none (answered `500`) when it has no
/// `edges` array, otherwise the edges its entries describe.
pub fn rspc_edges(result: &JsonValue) -> (r: Option<Vec<Edge>>)
    ensures
        match result.spec_get("edges"@) {
            Some(JsonValue::Array(a)) => r matches Some(es) && es@.map_values(|e: Edge| edge_texts(e)) == edge_entries(a@),
            _ => r is None,
        },
{
    let a = match result.get("edges") {
        Some(JsonValue::Array(a)) => a,
        _ => return None,
    };
    let mut out: Vec<Edge> = Vec::new();
    let mut i: usize = 0;
    while i < a.len()
        invariant
            i <= a@.len(),
            out@.map_values(|e: Edge| edge_texts(e)) == edge_entries(a@.subrange(0, i as int)),
        decreases a@.len() - i,
    {
        assert(a@.subrange(0, i + 1).drop_last() =~= a@.subrange(0, i as int));
        let e = &a[i];
        match (str_param(e, "source_id"), str_param(e, "target_id"), str_param(e, "edge_type"), str_param(e, "created_at")) {
            (Some(s), Some(t), Some(ty), Some(c)) => {
                let repl_type = match e.get("repl_type") {
                    Some(JsonValue::Str(x)) => Some(x.clone()),
                    _ => None,
                };
                let edge = Edge {
                    source_id: text_of(s),
                    target_id: text_of(t),
                    edge_type: text_of(ty),
                    repl_type,
                    created_at: text_of(c),
                };
                let ghost before = out@;
                out.push(edge);
                assert(out@.map_values(|e: Edge| edge_texts(e)) =~= before.map_values(|e: Edge| edge_texts(e)).push(edge_texts(edge)));
            },
            _ => {},
        }
        i = i + 1;
    }
    assert(a@.subrange(0, a@.len() as int) =~= a@);
    Some(out)
}

/// The owner check of a procedure that needs the owner: without a
/// configured secret the server fails (`500`); without a bearer token the
/// caller is refused (`401`); otherwise the token is handed on to be
/// verified against the secret.
pub fn owner_token<'a>(secret_configured: bool, authorization: Option<&'a str>) -> (r: Result<&'a str, u16>)
    ensures
        !secret_configured ==> r == Err::<&str, u16>(500),
        secret_configured ==> match authorization {
            Some(h) => if starts_with(h@, "Bearer "@) {
                r matches Ok(t) && t@ == h@.subrange(7, h@.len() as int)
            } else {
                r == Err::<&str, u16>(401)
            },
            None => r == Err::<&str, u16>(401),
        },
{
    if !secret_configured {
        return Err(500);
    }
    match authorization {
        Some(h) => {
            proof { reveal_strlit("Bearer "); }
            if starts_with_str(h, "Bearer ") {
                let n = h.unicode_len();
                Ok(h.substring_char(7, n))
            } else {
                Err(401)
            }
        },
        None => Err(401),
    }
}

} // verus!
