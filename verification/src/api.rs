//! The records the hub's HTTP and MCP endpoints read and answer with, and
//! the parts of its configuration the endpoints consult.
use vstd::prelude::*;
use crate::json::JsonValue;

verus! {

/// The answer of the health endpoint.
#[derive(Debug, Clone)]
pub struct HealthResponse {
    pub status: String,
    pub database: String,
    pub graph_nodes: usize,
    pub graph_edges: usize,
    pub embedding_queue_depth: usize,
}

/// Paging and filter of the review queue.
#[derive(Debug, Clone)]
pub struct ReviewQuery {
    pub limit: Option<i64>,
    pub offset: Option<i64>,
    pub domain: Option<String>,
}

/// The owner's decision on a queued atom: `approve` or `reject`.
#[derive(Debug, Clone)]
pub struct ReviewAction {
    pub action: String,
    pub reason: Option<String>,
}

/// The claims of the owner's session token: subject and expiry (Unix
/// seconds).
#[derive(Debug, Clone)]
pub struct OwnerClaims {
    pub sub: String,
    pub exp: usize,
}

/// The body of a request that creates a project.
#[derive(Debug, Clone)]
pub struct CreateProjectRequest {
    pub name: String,
    pub slug: String,
    pub description: Option<String>,
}

/// The same, as the typed router receives it.
#[derive(Debug, Clone)]
pub struct CreateProjectInput {
    pub name: String,
    pub slug: String,
    pub description: Option<String>,
}

/// Filters of an atom search.
#[derive(Debug, Clone)]
pub struct SearchAtomsInput {
    pub domain: Option<String>,
    pub atom_type: Option<String>,
    pub lifecycle: Option<String>,
    pub query: Option<String>,
    pub project_id: Option<String>,
    pub limit: Option<i64>,
    pub offset: Option<i64>,
}

/// A call of the typed router: a method and its parameters.
#[derive(Debug, Clone)]
pub struct RspcRequest<T> {
    pub method: String,
    pub params: Option<T>,
}

/// The answer of the typed router.
#[derive(Debug, Clone)]
pub struct RspcResponse<T> {
    pub result: T,
}

/// A project as the command-line client lists it.
#[derive(Debug, Clone)]
pub struct ProjectInfo {
    pub project_id: String,
    pub name: String,
    pub slug: String,
    pub description: Option<String>,
    pub created_at: String,
}

/// A file attached to a project.
#[derive(Debug, Clone)]
pub struct ProjectFileInfo {
    pub filename: String,
    pub size_bytes: i64,
    pub content_type: Option<String>,
    pub uploaded_at: String,
}

/// An atom waiting for review.
#[derive(Debug, Clone)]
pub struct ReviewItem {
    pub atom_id: String,
    pub atom_type: String,
    pub domain: String,
    pub statement: String,
    pub author_agent_id: String,
    pub created_at: String,
}

/// A page of the review queue and the queue's length.
#[derive(Debug, Clone)]
pub struct ReviewQueue {
    pub items: Vec<ReviewItem>,
    pub total: u64,
}

/// The answer to a simple agent registration.
#[derive(Debug, Clone)]
pub struct RegisterResponse {
    pub agent_id: String,
    pub api_token: String,
}

/// The answer to a key-based registration: the new id and the challenge
/// to sign, in hex.
#[derive(Debug, Clone)]
pub struct AgentRegistrationResponse {
    pub agent_id: String,
    pub challenge: String,
}

/// The answer to a token-based registration.
#[derive(Debug, Clone)]
pub struct SimpleRegistrationResponse {
    pub agent_id: String,
    pub api_token: String,
}

/// A registration request: the agent's public key in hex.
#[derive(Debug, Clone)]
pub struct AgentRegistration {
    pub public_key: String,
}

/// A confirmation: the agent's signature of its challenge, in hex.
#[derive(Debug, Clone)]
pub struct AgentConfirmation {
    pub agent_id: String,
    pub signature: String,
}

/// What a graph walk from a set of atoms found.
#[derive(Debug, Clone)]
pub struct GraphTraversalInfo {
    pub hops_explored: u32,
    pub connected_atoms: Vec<String>,
    pub edge_types_found: Vec<String>,
    pub paths: Vec<Vec<String>>,
}

/// An existing atom whose metrics oppose a new one's.
#[derive(Debug, Clone)]
pub struct Contradiction {
    pub existing_atom_id: String,
    pub existing_statement: String,
    pub conflicting_metrics: Vec<String>,
}

/// Sizes and intervals of the background workers.
#[derive(Debug, Clone)]
pub struct WorkersConfig {
    pub embedding_pool_size: usize,
    pub decay_interval_minutes: u64,
    pub claim_ttl_hours: u64,
    pub staleness_check_interval_minutes: u64,
}

/// Provenance fields every published atom must carry.
#[derive(Debug, Clone)]
pub struct AcceptanceConfig {
    pub required_provenance_fields: Vec<String>,
}

/// Origins the MCP endpoint accepts requests from.
#[derive(Debug, Clone)]
pub struct McpConfig {
    pub allowed_origins: Vec<String>,
}

/// What the hub offers a client: tools and resources.
#[derive(Debug, Clone, Copy)]
pub struct ServerCapabilities {
    pub tools: Option<crate::session::ToolsCapability>,
    pub resources: Option<crate::session::ResourcesCapability>,
}

/// The hub's name and version.
#[derive(Debug, Clone)]
pub struct ServerInfo {
    pub name: String,
    pub version: String,
}

/// The answer to an initialize request.
#[derive(Debug, Clone)]
pub struct InitializeResult {
    pub protocol_version: String,
    pub capabilities: ServerCapabilities,
    pub server_info: ServerInfo,
}

/// One piece of a tool's answer.
#[derive(Debug, Clone)]
pub struct Content {
    pub content_type: String,
    pub text: String,
}

/// The answer of a tool call.
#[derive(Debug, Clone)]
pub struct ToolCallResult {
    pub content: Vec<Content>,
    pub is_error: bool,
}

/// A JSON-RPC error object.
#[derive(Debug)]
pub struct JsonRpcError {
    pub code: i32,
    pub message: String,
    pub data: Option<JsonValue>,
}

} // verus!
