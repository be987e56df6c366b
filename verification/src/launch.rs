//! What `asenix agent run` decides while it launches agents for a project:
//! the names agents register under, the files and prompt each agent gets,
//! how a stored seed bounty becomes the atoms that are published, and how
//! a finished run is summed up.
use vstd::prelude::*;
use vstd::string::StrSliceExecFns;
use crate::json::{JsonValue, members_get, str_is, set_member, set_member_if_absent, find_member, take_member};
use crate::text::{to_owned_string, usize_to_decimal, i64_to_decimal, decimal, signed_decimal, trim, trim_str,
    str_contains, occurs_at, str_eq};
use crate::paths::AgentCred;
use crate::domain::{spec_to_lowercase, to_lowercase};
use crate::display::{truncate, truncated};

verus! {

/// The name an agent registers under: `<hostname>-<domain>-agent-<n>`.
pub open spec fn registration_name(hostname: Seq<char>, domain: Seq<char>, n: nat) -> Seq<char> {
    hostname + "-"@ + domain + "-agent-"@ + decimal(n)
}

/// The name the `n`-th agent of a project registers under on this host.
pub fn agent_registration_name(hostname: &str, domain: &str, n: usize) -> (r: String)
    ensures
        r@ == registration_name(hostname@, domain@, n as nat),
{
    let mut r = String::new();
    r.append(hostname);
    r.append("-");
    r.append(domain);
    r.append("-agent-");
    r.append(usize_to_decimal(n).as_str());
    r
}

/// The `.agent_config` file written into an agent's working directory.
pub open spec fn agent_config_text(cred: AgentCred, hub: Seq<char>, hostname: Seq<char>, slug: Seq<char>,
    n: nat, project_id: Seq<char>) -> Seq<char>
{
    "AGENT_ID="@ + cred.agent_id@ + "\nAPI_TOKEN="@ + cred.api_token@ + "\nSERVER_URL="@ + hub
        + "\nAGENT_NAME="@ + hostname + "-"@ + slug + "-"@ + decimal(n) + "\nPROJECT_ID="@ + project_id + "\n"@
}

/// The contents of an agent's `.agent_config`: its credentials, the hub,
/// its name and the project, one `KEY=value` line each.
pub fn agent_config_file(cred: &AgentCred, hub: &str, hostname: &str, slug: &str, n: usize, project_id: &str)
    -> (r: String)
    ensures
        r@ == agent_config_text(*cred, hub@, hostname@, slug@, n as nat, project_id@),
{
    let mut r = String::new();
    r.append("AGENT_ID=");
    r.append(cred.agent_id.as_str());
    r.append("\nAPI_TOKEN=");
    r.append(cred.api_token.as_str());
    r.append("\nSERVER_URL=");
    r.append(hub);
    r.append("\nAGENT_NAME=");
    r.append(hostname);
    r.append("-");
    r.append(slug);
    r.append("-");
    r.append(usize_to_decimal(n).as_str());
    r.append("\nPROJECT_ID=");
    r.append(project_id);
    r.append("\n");
    r
}

/// The prompt an agent starts with. Without a protocol document it names
/// the project; with one it asks the agent to follow the document, which
/// comes last.
pub open spec fn prompt_text(agent_id: Seq<char>, api_token: Seq<char>, project_id: Seq<char>, workdir: Seq<char>,
    project_name: Seq<char>, protocol: Seq<char>) -> Seq<char>
{
    let head = "Your credentials: AGENT_ID="@ + agent_id + " API_TOKEN="@ + api_token + " PROJECT_ID="@ + project_id
        + "\nWorking directory: "@ + workdir
        + "\nThe MCP server \"asenix\" is configured — use it for all hub calls.\n"@;
    if protocol.len() == 0 {
        head + "Project: "@ + project_name + " (id: "@ + project_id + ")\n"@
            + "IMPORTANT: Every atom you publish must include \"project_id\": \""@ + project_id + "\".\n"@
            + "IMPORTANT: Every survey call must include \"project_id\": \""@ + project_id + "\"."@
    } else {
        head + "IMPORTANT: Every atom you publish must include \"project_id\": \""@ + project_id
            + "\" — this is mandatory.\n"@
            + "IMPORTANT: Every survey call must include \"project_id\": \""@ + project_id
            + "\" — this scopes results to this project.\n"@
            + "Follow all instructions in the document below exactly.\n\n"@ + protocol
    }
}

/// The prompt handed to an agent.
pub fn agent_prompt(agent_id: &str, api_token: &str, project_id: &str, workdir: &str, project_name: &str,
    protocol: &str) -> (r: String)
    ensures
        r@ == prompt_text(agent_id@, api_token@, project_id@, workdir@, project_name@, protocol@),
{
    let mut r = String::new();
    r.append("Your credentials: AGENT_ID=");
    r.append(agent_id);
    r.append(" API_TOKEN=");
    r.append(api_token);
    r.append(" PROJECT_ID=");
    r.append(project_id);
    r.append("\nWorking directory: ");
    r.append(workdir);
    r.append("\nThe MCP server \"asenix\" is configured — use it for all hub calls.\n");
    if protocol.is_empty() {
        r.append("Project: ");
        r.append(project_name);
        r.append(" (id: ");
        r.append(project_id);
        r.append(")\n");
        r.append("IMPORTANT: Every atom you publish must include \"project_id\": \"");
        r.append(project_id);
        r.append("\".\n");
        r.append("IMPORTANT: Every survey call must include \"project_id\": \"");
        r.append(project_id);
        r.append("\".");
    } else {
        r.append("IMPORTANT: Every atom you publish must include \"project_id\": \"");
        r.append(project_id);
        r.append("\" — this is mandatory.\n");
        r.append("IMPORTANT: Every survey call must include \"project_id\": \"");
        r.append(project_id);
        r.append("\" — this scopes results to this project.\n");
        r.append("Follow all instructions in the document below exactly.\n\n");
        r.append(protocol);
    }
    r
}

/// The atoms a stored seed bounty stands for: the array under `atoms`
/// when there is one, otherwise the bounty itself.
pub open spec fn seed_sources(bounty: JsonValue) -> Seq<JsonValue> {
    match bounty.spec_get("atoms"@) {
        Some(JsonValue::Array(a)) => a@,
        _ => seq![bounty],
    }
}

/// `n` is the member list `m` with `atom_type` defaulted to `bounty` and
/// `project_id` set to the project.
pub open spec fn seeded_members(m: Seq<(String, JsonValue)>, n: Seq<(String, JsonValue)>, project_id: Seq<char>)
    -> bool
{
    &&& str_is(members_get(n, "project_id"@), project_id)
    &&& members_get(m, "atom_type"@) is Some ==> members_get(n, "atom_type"@) == members_get(m, "atom_type"@)
    &&& members_get(m, "atom_type"@) is None ==> str_is(members_get(n, "atom_type"@), "bounty"@)
    &&& forall|k: Seq<char>| k != "project_id"@ && k != "atom_type"@ ==> #[trigger] members_get(n, k) == members_get(m, k)
}

/// `b` is the seed atom `a` made ready for the project; what is not an
/// object passes unchanged.
pub open spec fn seeded_atom(a: JsonValue, b: JsonValue, project_id: Seq<char>) -> bool {
    match a {
        JsonValue::Object(m) => b matches JsonValue::Object(n) && seeded_members(m@, n@, project_id),
        _ => b == a,
    }
}

fn seed_one(a: JsonValue, project_id: &str) -> (r: JsonValue)
    ensures
        seeded_atom(a, r, project_id@),
{
    match a {
        JsonValue::Object(m) => {
            let mut m = m;
            proof {
                reveal_strlit("atom_type");
                reveal_strlit("project_id");
                assert("atom_type"@.len() != "project_id"@.len());
            }
            let ghost m0 = m@;
            set_member_if_absent(&mut m, "atom_type", JsonValue::Str(to_owned_string("bounty")));
            let ghost m1 = m@;
            set_member(&mut m, "project_id", JsonValue::Str(to_owned_string(project_id)));
            proof {
                assert(members_get(m@, "atom_type"@) == members_get(m1, "atom_type"@));
                assert forall|k: Seq<char>| k != "project_id"@ && k != "atom_type"@
                    implies #[trigger] members_get(m@, k) == members_get(m0, k) by {
                    assert(members_get(m@, k) == members_get(m1, k));
                    assert(members_get(m1, k) == members_get(m0, k));
                }
                assert(seeded_members(m0, m@, project_id@));
            }
            JsonValue::Object(m)
        },
        other => other,
    }
}

/// The atoms to publish for a seed bounty: each one the bounty holds (or
/// the bounty itself), in order, typed `bounty` unless it has a type, and
/// tied to the project.
pub fn seed_bounty_atoms(bounty: JsonValue, project_id: &str) -> (r: Vec<JsonValue>)
    ensures
        r@.len() == seed_sources(bounty).len(),
        forall|j: int| 0 <= j < r@.len() ==> seeded_atom(seed_sources(bounty)[j], #[trigger] r@[j], project_id@),
{
    let ghost src = seed_sources(bounty);
    let mut raw: Vec<JsonValue> = match bounty {
        JsonValue::Object(m) => {
            let is_array = match find_member(&m, "atoms") {
                Some(i) => {
                    proof { crate::json::lemma_member_index(m@, "atoms"@); }
                    match &m[i].1 {
                        JsonValue::Array(_) => true,
                        _ => false,
                    }
                },
                None => false,
            };
            if is_array {
                match take_member(m, "atoms") {
                    Some(JsonValue::Array(a)) => a,
                    _ => {
                        assert(false);
                        Vec::new()
                    },
                }
            } else {
                let mut one: Vec<JsonValue> = Vec::new();
                one.push(JsonValue::Object(m));
                proof { assert(one@ =~= src); }
                one
            }
        },
        other => {
            let mut one: Vec<JsonValue> = Vec::new();
            one.push(other);
            proof { assert(one@ =~= src); }
            one
        },
    };
    assert(raw@ =~= src);
    let mut out: Vec<JsonValue> = Vec::new();
    let ghost total = src.len();
    while raw.len() > 0
        invariant
            out@.len() + raw@.len() == total,
            total == src.len(),
            raw@ =~= src.subrange(out@.len() as int, total as int),
            forall|j: int| 0 <= j < out@.len() ==> seeded_atom(src[j], #[trigger] out@[j], project_id@),
        decreases raw@.len(),
    {
        let a = raw.remove(0);
        assert(a == src[out@.len() as int]);
        let b = seed_one(a, project_id);
        out.push(b);
    }
    out
}

/// `n` is the member list `m` of an atom made ready to publish: the
/// agent's credentials set, the project and an empty provenance added
/// where the atom has none.
pub open spec fn payload_members(m: Seq<(String, JsonValue)>, n: Seq<(String, JsonValue)>, agent_id: Seq<char>,
    api_token: Seq<char>, project_id: Seq<char>) -> bool
{
    &&& str_is(members_get(n, "agent_id"@), agent_id)
    &&& str_is(members_get(n, "api_token"@), api_token)
    &&& members_get(m, "project_id"@) is Some ==> members_get(n, "project_id"@) == members_get(m, "project_id"@)
    &&& members_get(m, "project_id"@) is None ==> str_is(members_get(n, "project_id"@), project_id)
    &&& members_get(m, "provenance"@) is Some ==> members_get(n, "provenance"@) == members_get(m, "provenance"@)
    &&& members_get(m, "provenance"@) is None ==> (members_get(n, "provenance"@) matches Some(JsonValue::Object(p)) && p@.len() == 0)
    &&& forall|k: Seq<char>| k != "agent_id"@ && k != "api_token"@ && k != "project_id"@ && k != "provenance"@
        ==> #[trigger] members_get(n, k) == members_get(m, k)
}

/// `b` is the atom `a` made ready to publish; what is not an object
/// passes unchanged.
pub open spec fn publish_payload(a: JsonValue, b: JsonValue, agent_id: Seq<char>, api_token: Seq<char>,
    project_id: Seq<char>) -> bool
{
    match a {
        JsonValue::Object(m) => b matches JsonValue::Object(n) && payload_members(m@, n@, agent_id, api_token, project_id),
        _ => b == a,
    }
}

/// The arguments of the `publish` call for one seed atom.
pub fn seed_publish_payload(atom: JsonValue, agent_id: &str, api_token: &str, project_id: &str) -> (r: JsonValue)
    ensures
        publish_payload(atom, r, agent_id@, api_token@, project_id@),
{
    match atom {
        JsonValue::Object(m) => {
            let mut m = m;
            proof {
                reveal_strlit("agent_id");
                reveal_strlit("api_token");
                reveal_strlit("project_id");
                reveal_strlit("provenance");
                assert("agent_id"@[1] != "api_token"@[1]);
                assert("agent_id"@.len() != "project_id"@.len());
                assert("agent_id"@[0] != "provenance"@[0]);
                assert("api_token"@[0] != "project_id"@[0]);
                assert("api_token"@[0] != "provenance"@[0]);
                assert("project_id"@[3] != "provenance"@[3]);
            }
            let ghost m0 = m@;
            set_member(&mut m, "agent_id", JsonValue::Str(to_owned_string(agent_id)));
            let ghost m1 = m@;
            set_member(&mut m, "api_token", JsonValue::Str(to_owned_string(api_token)));
            let ghost m2 = m@;
            set_member_if_absent(&mut m, "project_id", JsonValue::Str(to_owned_string(project_id)));
            let ghost m3 = m@;
            set_member_if_absent(&mut m, "provenance", JsonValue::Object(Vec::new()));
            proof {
                assert(members_get(m@, "agent_id"@) == members_get(m1, "agent_id"@));
                assert(members_get(m@, "api_token"@) == members_get(m2, "api_token"@));
                assert(members_get(m@, "project_id"@) == members_get(m3, "project_id"@));
                assert(members_get(m2, "project_id"@) == members_get(m0, "project_id"@));
                assert(members_get(m3, "provenance"@) == members_get(m0, "provenance"@));
                assert forall|k: Seq<char>| k != "agent_id"@ && k != "api_token"@ && k != "project_id"@ && k != "provenance"@
                    implies #[trigger] members_get(m@, k) == members_get(m0, k) by {
                    assert(members_get(m@, k) == members_get(m3, k));
                    assert(members_get(m3, k) == members_get(m2, k));
                    assert(members_get(m2, k) == members_get(m1, k));
                    assert(members_get(m1, k) == members_get(m0, k));
                }
                assert(payload_members(m0, m@, agent_id@, api_token@, project_id@));
            }
            JsonValue::Object(m)
        },
        other => other,
    }
}

/// The texts of the string items of a list, in order.
pub open spec fn str_items(s: Seq<JsonValue>) -> Seq<Seq<char>>
    decreases s.len(),
{
    if s.len() == 0 {
        seq![]
    } else {
        let r = str_items(s.drop_last());
        match s.last() {
            JsonValue::Str(t) => r.push(t@),
            _ => r,
        }
    }
}

/// The texts of an array's string items; nothing for a value that is not
/// an array.
pub open spec fn string_items_of(v: JsonValue) -> Seq<Seq<char>> {
    match v {
        JsonValue::Array(a) => str_items(a@),
        _ => seq![],
    }
}

/// The string items of an array, such as a project's Python requirements.
pub fn string_items(v: &JsonValue) -> (r: Vec<String>)
    ensures
        r@.map_values(|s: String| s@) == string_items_of(*v),
{
    let mut out: Vec<String> = Vec::new();
    match v {
        JsonValue::Array(a) => {
            let mut i: usize = 0;
            while i < a.len()
                invariant
                    i <= a@.len(),
                    out@.map_values(|s: String| s@) == str_items(a@.subrange(0, i as int)),
                decreases a@.len() - i,
            {
                assert(a@.subrange(0, i + 1).drop_last() =~= a@.subrange(0, i as int));
                match &a[i] {
                    JsonValue::Str(t) => {
                        let ghost before = out@;
                        out.push(t.clone());
                        assert(out@.map_values(|s: String| s@) =~= before.map_values(|s: String| s@).push(t@));
                    },
                    _ => {},
                }
                i = i + 1;
            }
            assert(a@.subrange(0, a@.len() as int) =~= a@);
        },
        _ => {
            assert(out@.map_values(|s: String| s@) =~= Seq::<Seq<char>>::empty());
        },
    }
    out
}

/// A stream event that reports a call of a publishing tool.
pub open spec fn is_publish_event(v: JsonValue) -> bool {
    &&& str_is(v.spec_get("type"@), "tool_use"@)
    &&& v.spec_get("name"@) matches Some(JsonValue::Str(n)) && exists|i: int| occurs_at(n@, "publish"@, i)
}

/// Whether an agent's stream event is a `tool_use` of a tool whose name
/// contains `publish`.
pub fn is_publish_tool_use(v: &JsonValue) -> (r: bool)
    ensures
        r == is_publish_event(*v),
{
    let is_tool_use = match v.get("type") {
        Some(JsonValue::Str(t)) => str_eq(t.as_str(), "tool_use"),
        _ => false,
    };
    if !is_tool_use {
        return false;
    }
    match v.get("name") {
        Some(JsonValue::Str(n)) => str_contains(n.as_str(), "publish"),
        _ => false,
    }
}

/// How a single agent's run ended, as far as the hub shows it.
#[derive(Debug, Clone, Copy, PartialEq, Eq, Structural)]
pub enum RunOutcome {
    /// This many atoms were added to the project.
    NewAtoms(usize),
    /// None were added yet, but the agent called a publishing tool.
    PublishCalled,
    /// Nothing was published.
    NothingPublished,
}

/// The outcome of a run from the project's atom counts before and after
/// and whether a publishing call was seen.
pub fn run_outcome(atoms_before: usize, atoms_after: usize, saw_publish: bool) -> (r: RunOutcome)
    ensures
        atoms_after > atoms_before ==> r == RunOutcome::NewAtoms((atoms_after - atoms_before) as usize),
        atoms_after <= atoms_before && saw_publish ==> r == RunOutcome::PublishCalled,
        atoms_after <= atoms_before && !saw_publish ==> r == RunOutcome::NothingPublished,
{
    let new_atoms = atoms_after.saturating_sub(atoms_before);
    if new_atoms > 0 {
        RunOutcome::NewAtoms(new_atoms)
    } else if saw_publish {
        RunOutcome::PublishCalled
    } else {
        RunOutcome::NothingPublished
    }
}

/// The MCP client configuration each agent is given: one HTTP server named
/// `asenix` at the hub's `/mcp` endpoint.
pub fn mcp_client_config(hub: &str) -> (r: JsonValue)
    ensures
        r matches JsonValue::Object(top) && top@.len() == 1 && top@[0].0@ == "mcpServers"@
            && (top@[0].1 matches JsonValue::Object(servers) && servers@.len() == 1 && servers@[0].0@ == "asenix"@
            && (servers@[0].1 matches JsonValue::Object(s) && s@.len() == 2
                && s@[0].0@ == "type"@ && (s@[0].1 matches JsonValue::Str(t) && t@ == "http"@)
                && s@[1].0@ == "url"@ && (s@[1].1 matches JsonValue::Str(u) && u@ == hub@ + "/mcp"@))),
{
    let mut url = to_owned_string(hub);
    url.append("/mcp");
    let server = JsonValue::Object(vec![
        (to_owned_string("type"), JsonValue::Str(to_owned_string("http"))),
        (to_owned_string("url"), JsonValue::Str(url)),
    ]);
    let servers = JsonValue::Object(vec![(to_owned_string("asenix"), server)]);
    JsonValue::Object(vec![(to_owned_string("mcpServers"), servers)])
}

/// The status shown for a launched agent: `running`, or `exited (<code>)`
/// once it has ended.
pub fn agent_status_label(exit_code: Option<i32>) -> (r: String)
    ensures
        exit_code is None ==> r@ == "running"@,
        exit_code matches Some(c) ==> r@ == "exited ("@ + signed_decimal(c as int) + ")"@,
{
    match exit_code {
        Some(c) => {
            let mut r = to_owned_string("exited (");
            r.append(i64_to_decimal(c as i64).as_str());
            r.append(")");
            r
        },
        None => to_owned_string("running"),
    }
}

/// A yes/no answer is yes when, trimmed and lower-cased, it is `y`.
pub fn answer_is_yes(answer: &str) -> (r: bool)
    ensures
        r == (spec_to_lowercase(trim(answer@)) == "y"@),
{
    let lower = to_lowercase(trim_str(answer));
    str_eq(lower.as_str(), "y")
}

/// The first `k` characters of `s` (all of them when it is shorter).
pub open spec fn take_chars(s: Seq<char>, k: nat) -> Seq<char> {
    if s.len() <= k { s } else { s.subrange(0, k as int) }
}

/// `s.chars().take(k)` collected into a string.
pub fn first_chars(s: &str, k: usize) -> (r: String)
    ensures
        r@ == take_chars(s@, k as nat),
{
    let n = s.unicode_len();
    if n <= k {
        to_owned_string(s)
    } else {
        to_owned_string(s.substring_char(0, k))
    }
}

/// The agent id listed for agent `n`: that of the first agent numbered
/// `n`, or nothing.
pub open spec fn listed_agent_id(agents: Seq<(usize, AgentCred)>, n: usize) -> Seq<char>
    decreases agents.len(),
{
    if agents.len() == 0 {
        seq![]
    } else if agents[0].0 == n {
        agents[0].1.agent_id@
    } else {
        listed_agent_id(agents.drop_first(), n)
    }
}

/// A row of the table shown after agents were launched: the agent's
/// number, its id cut to 20 characters, its status and its log.
pub fn launch_summary_row(agents: &[(usize, AgentCred)], agent_n: usize, status: &str, log: &str)
    -> (r: Vec<String>)
    ensures
        r@.len() == 4,
        r@[0]@ == decimal(agent_n as nat),
        r@[1]@ == truncated(listed_agent_id(agents@, agent_n), 20),
        r@[2]@ == status@,
        r@[3]@ == log@,
{
    let mut i: usize = 0;
    assert(agents@.subrange(0, agents@.len() as int) =~= agents@);
    while i < agents.len() && agents[i].0 != agent_n
        invariant
            i <= agents@.len(),
            listed_agent_id(agents@, agent_n) == listed_agent_id(agents@.subrange(i as int, agents@.len() as int), agent_n),
        decreases agents@.len() - i,
    {
        assert(agents@.subrange(i as int, agents@.len() as int).drop_first() =~= agents@.subrange(i + 1, agents@.len() as int));
        i = i + 1;
    }
    let id: String = if i < agents.len() { agents[i].1.agent_id.clone() } else { String::new() };
    let mut r: Vec<String> = Vec::new();
    r.push(usize_to_decimal(agent_n));
    r.push(truncate(id.as_str(), 20));
    r.push(to_owned_string(status));
    r.push(to_owned_string(log));
    r
}

/// A row of `asenix agent list`: the agent's number, its id cut to 20
/// characters, its hub and domain, and the date part (first 10
/// characters) of when it was created.
pub fn agent_list_row(n: usize, cred: &AgentCred) -> (r: Vec<String>)
    ensures
        r@.len() == 5,
        r@[0]@ == decimal(n as nat),
        r@[1]@ == truncated(cred.agent_id@, 20),
        r@[2]@ == cred.hub@,
        r@[3]@ == cred.domain@,
        r@[4]@ == take_chars(cred.created_at@, 10),
{
    let mut r: Vec<String> = Vec::new();
    r.push(usize_to_decimal(n));
    r.push(truncate(cred.agent_id.as_str(), 20));
    r.push(cred.hub.clone());
    r.push(cred.domain.clone());
    r.push(first_chars(cred.created_at.as_str(), 10));
    r
}

} // verus!
