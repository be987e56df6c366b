//! Where the command-line tool keeps its files: credentials per host, logs,
//! domain packs and agents' working directories, all under a data directory
//! (and a temporary directory) that the caller resolves.
use vstd::prelude::*;
use vstd::string::StrSliceExecFns;
use crate::text::{str_eq, to_owned_string, concat2, concat3, usize_to_decimal, decimal};

verus! {

/// The credentials of one registered agent, as the tool stores them.
#[derive(Debug, Clone)]
pub struct AgentCred {
    pub agent_id: String,
    pub api_token: String,
    pub hub: String,
    pub domain: String,
    pub created_at: String,
}

/// The owner's login: the hub, its token and when the token expires.
#[derive(Debug)]
pub struct AuthConfig {
    pub hub: String,
    pub token: String,
    pub expires_at: String,
}

/// `base` joined with `part` as a path: an absolute `part` replaces the
/// base; otherwise a `/` separates them unless the base is empty or already
/// ends with one.
pub open spec fn path_join(base: Seq<char>, part: Seq<char>) -> Seq<char> {
    if part.len() > 0 && part[0] == '/' {
        part
    } else if base.len() == 0 || base.last() == '/' {
        base + part
    } else {
        base + "/"@ + part
    }
}

/// Joins a path and a relative or absolute part, as `Path::join` does.
pub fn join_path(base: &str, part: &str) -> (r: String)
    ensures
        r@ == path_join(base@, part@),
{
    let pn = part.unicode_len();
    if pn > 0 && part.get_char(0) == '/' {
        return to_owned_string(part);
    }
    let bn = base.unicode_len();
    if bn == 0 || base.get_char(bn - 1) == '/' {
        concat2(base, part)
    } else {
        concat3(base, "/", part)
    }
}

/// The directory of the credentials kept for one hub host.
pub fn agent_creds_dir(data_dir: &str, hostname: &str) -> (r: String)
    ensures
        r@ == path_join(data_dir@, hostname@),
{
    join_path(data_dir, hostname)
}

/// The directory of agents' logs.
pub fn logs_dir(data_dir: &str) -> (r: String)
    ensures
        r@ == path_join(data_dir@, "logs"@),
{
    join_path(data_dir, "logs")
}

/// The file of the owner's login.
pub fn auth_path(data_dir: &str) -> (r: String)
    ensures
        r@ == path_join(data_dir@, "auth.toml"@),
{
    join_path(data_dir, "auth.toml")
}

/// The log of agent `n`: `logs/agent_<n>.log`.
pub fn log_path(data_dir: &str, n: usize) -> (r: String)
    ensures
        r@ == path_join(path_join(data_dir@, "logs"@), "agent_"@ + decimal(n as nat) + ".log"@),
{
    let dir = logs_dir(data_dir);
    let name = concat3("agent_", usize_to_decimal(n).as_str(), ".log");
    join_path(dir.as_str(), name.as_str())
}

/// The directory of installed domain packs.
pub fn domains_dir(data_dir: &str) -> (r: String)
    ensures
        r@ == path_join(data_dir@, "domains"@),
{
    join_path(data_dir, "domains")
}

/// The directory of the domain pack `name`.
pub fn domain_pack_dir(data_dir: &str, name: &str) -> (r: String)
    ensures
        r@ == path_join(path_join(data_dir@, "domains"@), name@),
{
    let dir = domains_dir(data_dir);
    join_path(dir.as_str(), name)
}

/// The working directory of agent `n` of a domain:
/// `<tmp>/asenix/<domain>/<n>`.
pub fn workdir_path(temp_dir: &str, domain: &str, n: usize) -> (r: String)
    ensures
        r@ == path_join(path_join(path_join(temp_dir@, "asenix"@), domain@), decimal(n as nat)),
{
    let a = join_path(temp_dir, "asenix");
    let b = join_path(a.as_str(), domain);
    join_path(b.as_str(), usize_to_decimal(n).as_str())
}

/// The process-id file of a background agent, in its working directory.
pub fn pid_path(temp_dir: &str, domain: &str, n: usize) -> (r: String)
    ensures
        r@ == path_join(path_join(path_join(path_join(temp_dir@, "asenix"@), domain@), decimal(n as nat)),
            "agent.pid"@),
{
    let w = workdir_path(temp_dir, domain, n);
    join_path(w.as_str(), "agent.pid")
}

/// The log of one run of a domain's agent:
/// `logs/<domain>_agent_<n>_<timestamp>.log`.
pub fn domain_log_path(data_dir: &str, domain: &str, n: usize, timestamp: &str) -> (r: String)
    ensures
        r@ == path_join(path_join(data_dir@, "logs"@),
            domain@ + "_agent_"@ + decimal(n as nat) + "_"@ + timestamp@ + ".log"@),
{
    let dir = logs_dir(data_dir);
    let mut name = concat3(domain, "_agent_", usize_to_decimal(n).as_str());
    name.append("_");
    name.append(timestamp);
    name.append(".log");
    join_path(dir.as_str(), name.as_str())
}

/// The credentials file name of agent `n` under a prefix:
/// `<prefix><n>.toml`.
pub open spec fn cred_file_name(prefix: Seq<char>, n: nat) -> Seq<char> {
    prefix + decimal(n) + ".toml"@
}

/// Some listed file is called `name`.
pub open spec fn listed(files: Seq<String>, name: Seq<char>) -> bool {
    exists|i: int| 0 <= i < files.len() && (#[trigger] files[i])@ == name
}

fn contains_name(files: &[String], name: &str) -> (r: bool)
    ensures
        r == listed(files@, name@),
{
    let mut i: usize = 0;
    while i < files.len()
        invariant
            i <= files@.len(),
            forall|k: int| 0 <= k < i ==> (#[trigger] files@[k])@ != name@,
        decreases files@.len() - i,
    {
        if str_eq(files[i].as_str(), name) {
            return true;
        }
        i = i + 1;
    }
    false
}


proof fn lemma_decimal_nonempty(n: nat)
    ensures
        decimal(n).len() >= 1,
        n >= 10 ==> decimal(n).len() >= 2,
    decreases n,
{
    if n >= 10 {
        lemma_decimal_nonempty(n / 10);
    }
}

/// Different numbers have different decimal renderings.
pub proof fn lemma_decimal_injective(a: nat, b: nat)
    ensures
        decimal(a) == decimal(b) ==> a == b,
    decreases a + b,
{
    lemma_decimal_nonempty(a);
    lemma_decimal_nonempty(b);
    if decimal(a) == decimal(b) {
        if a < 10 && b < 10 {
            assert(decimal(a)[0] == decimal(b)[0]);
        } else if a >= 10 && b >= 10 {
            let da = decimal(a);
            let db = decimal(b);
            assert(da.last() == db.last());
            assert(da.drop_last() =~= decimal(a / 10));
            assert(db.drop_last() =~= decimal(b / 10));
            lemma_decimal_injective(a / 10, b / 10);
            assert(a % 10 == b % 10);
        } else {
            assert(decimal(a).len() != decimal(b).len());
        }
    }
}

proof fn lemma_cred_name_injective(prefix: Seq<char>, a: nat, b: nat)
    ensures
        cred_file_name(prefix, a) == cred_file_name(prefix, b) ==> a == b,
{
    if cred_file_name(prefix, a) == cred_file_name(prefix, b) {
        reveal_strlit(".toml");
        let x = cred_file_name(prefix, a);
        let y = cred_file_name(prefix, b);
        assert(x.len() == prefix.len() + decimal(a).len() + ".toml"@.len());
        assert(y.len() == prefix.len() + decimal(b).len() + ".toml"@.len());
        assert(decimal(a).len() == decimal(b).len());
        assert(x.subrange(prefix.len() as int, (prefix.len() + decimal(a).len()) as int) =~= decimal(a));
        assert(y.subrange(prefix.len() as int, (prefix.len() + decimal(b).len()) as int) =~= decimal(b));
        lemma_decimal_injective(a, b);
    }
}

/// Among `n` files there is no credentials file for every number from 1 to
/// `n + 1`: the first free number is at most one past the count.
pub proof fn lemma_free_number_exists(files: Seq<String>, prefix: Seq<char>)
    ensures
        exists|k: nat| 1 <= k <= files.len() + 1 && !listed(files, #[trigger] cred_file_name(prefix, k)),
{
    if forall|k: nat| 1 <= k <= files.len() + 1 ==> listed(files, #[trigger] cred_file_name(prefix, k)) {
        let x = vstd::set_lib::set_int_range(1, (files.len() + 2) as int);
        vstd::set_lib::lemma_int_range(1, (files.len() + 2) as int);
        let f = |k: int| cred_file_name(prefix, k as nat);
        let y = x.map(f);
        assert forall|a: int, b: int| x.contains(a) && x.contains(b) && #[trigger] f(a) == #[trigger] f(b) implies a == b by {
            lemma_cred_name_injective(prefix, a as nat, b as nat);
        }
        assert(vstd::relations::injective_on(f, x));
        vstd::set_lib::lemma_map_size(x, y, f);
        let views = files.map_values(|s: String| s@);
        views.lemma_cardinality_of_set();
        assert(y.subset_of(views.to_set())) by {
            assert forall|t: Seq<char>| y.contains(t) implies views.to_set().contains(t) by {
                let k = choose|k: int| x.contains(k) && #[trigger] f(k) == t;
                assert(listed(files, cred_file_name(prefix, k as nat)));
                let i = choose|i: int| 0 <= i < files.len() && (#[trigger] files[i])@ == cred_file_name(prefix, k as nat);
                assert(views[i] == t);
            }
        }
        vstd::seq_lib::seq_to_set_is_finite(views);
        vstd::set_lib::lemma_len_subset(y, views.to_set());
        assert(false);
    }
}

/// The first agent number from 1 whose credentials file `<prefix><n>.toml`
/// is not among `files`, looking no further than one past their count.
fn first_free(prefix: &str, files: &[String]) -> (r: usize)
    requires
        files@.len() < usize::MAX,
    ensures
        1 <= r <= files@.len() + 1,
        forall|k: nat| 1 <= k < r ==> listed(files@, #[trigger] cred_file_name(prefix@, k)),
        !listed(files@, cred_file_name(prefix@, r as nat)),
{
    let mut n: usize = 1;
    while n <= files.len()
        invariant
            1 <= n <= files@.len() + 1,
            files@.len() < usize::MAX,
            forall|k: nat| 1 <= k < n ==> listed(files@, #[trigger] cred_file_name(prefix@, k)),
        decreases files@.len() + 1 - n,
    {
        let name = concat3(prefix, usize_to_decimal(n).as_str(), ".toml");
        if !contains_name(files, name.as_str()) {
            return n;
        }
        n = n + 1;
    }
    proof {
        lemma_free_number_exists(files@, prefix@);
        let k = choose|k: nat| 1 <= k <= files@.len() + 1 && !listed(files@, #[trigger] cred_file_name(prefix@, k));
        if k < n {
            assert(listed(files@, cred_file_name(prefix@, k)));
        }
    }
    n
}

/// The number the next agent of a host gets: the first `n` from 1 with no
/// `agent_<n>.toml` among the files of the host's directory (1 when the
/// directory does not exist).
pub fn next_agent_n(dir_exists: bool, files: &[String]) -> (r: usize)
    requires
        files@.len() < usize::MAX,
    ensures
        !dir_exists ==> r == 1,
        dir_exists ==> 1 <= r <= files@.len() + 1
            && (forall|k: nat| 1 <= k < r ==> listed(files@, #[trigger] cred_file_name("agent_"@, k)))
            && !listed(files@, cred_file_name("agent_"@, r as nat)),
{
    if !dir_exists {
        return 1;
    }
    first_free("agent_", files)
}

/// The number the next agent of a domain gets on a host: the first `n`
/// from 1 with no `<domain>_agent_<n>.toml` among the files (1 when the
/// directory does not exist).
pub fn next_agent_n_for_domain(dir_exists: bool, domain: &str, files: &[String]) -> (r: usize)
    requires
        files@.len() < usize::MAX,
    ensures
        !dir_exists ==> r == 1,
        dir_exists ==> 1 <= r <= files@.len() + 1
            && (forall|k: nat| 1 <= k < r ==> listed(files@, #[trigger] cred_file_name(domain@ + "_agent_"@, k)))
            && !listed(files@, cred_file_name(domain@ + "_agent_"@, r as nat)),
{
    if !dir_exists {
        return 1;
    }
    let prefix = concat2(domain, "_agent_");
    first_free(prefix.as_str(), files)
}


/// The number in a credentials file name `agent_<n>.toml`: none for a name
/// of another shape, 0 when what stands between `agent_` and `.toml` is not
/// a number.
pub fn cred_file_number(name: &str) -> (r: Option<usize>)
    ensures
        !(crate::mcp::starts_with(name@, "agent_"@) && crate::mcp::ends_with(name@, ".toml"@)) ==> r is None,
        crate::mcp::starts_with(name@, "agent_"@) && crate::mcp::ends_with(name@, ".toml"@) ==> name@.len() >= 11
            && r == Some(match crate::cli::spec_parse_usize(name@.subrange(6, name@.len() - 5)) {
                Some(n) => n,
                None => 0usize,
            }),
{
    proof {
        reveal_strlit("agent_");
        reveal_strlit(".toml");
    }
    let n = name.unicode_len();
    if !(crate::stream::starts_with_str(name, "agent_") && crate::stream::ends_with_str(name, ".toml")) {
        return None;
    }
    proof {
        if n < 11 {
            assert(name@.subrange(0, 6)[5] == name@[5]);
            assert(name@.subrange(n - 5, n as int)[10 - n] == name@[5]);
            assert(false);
        }
    }
    match crate::cli::parse_usize(name.substring_char(6, n - 5)) {
        Some(k) => Some(k),
        None => Some(0),
    }
}

/// Position `a` is listed before position `b`: its number is smaller, or
/// the same and it was found first.
pub open spec fn numbered_before(ns: Seq<usize>, a: usize, b: usize) -> bool {
    ns[a as int] < ns[b as int] || (ns[a as int] == ns[b as int] && a < b)
}

/// The positions ordered by their numbers, as a stable sort by number
/// orders them: every position exactly once, each listed before the next.
pub fn order_by_number(ns: &[usize]) -> (r: Vec<usize>)
    ensures
        r@.len() == ns@.len(),
        forall|k: usize| k < ns@.len() ==> r@.contains(k),
        forall|i: int| 0 <= i < r@.len() ==> r@[i] < ns@.len(),
        forall|i: int, j: int| 0 <= i < j < r@.len() ==> numbered_before(ns@, #[trigger] r@[i], #[trigger] r@[j]),
{
    let mut out: Vec<usize> = Vec::new();
    let mut k: usize = 0;
    while k < ns.len()
        invariant
            k <= ns@.len(),
            out@.len() == k,
            forall|q: usize| q < k ==> out@.contains(q),
            forall|i: int| 0 <= i < out@.len() ==> out@[i] < k,
            forall|i: int, j: int| 0 <= i < j < out@.len() ==> numbered_before(ns@, #[trigger] out@[i], #[trigger] out@[j]),
        decreases ns@.len() - k,
    {
        let key_k = ns[k];
        let mut p: usize = out.len();
        while p > 0 && ns[out[p - 1]] > key_k
            invariant
                p <= out@.len(),
                out@.len() == k,
                k < ns@.len(),
                key_k == ns@[k as int],
                forall|i: int| 0 <= i < out@.len() ==> out@[i] < k,
                forall|j: int| p <= j < out@.len() ==> ns@[#[trigger] out@[j] as int] > key_k,
            decreases p,
        {
            p = p - 1;
        }
        let ghost before = out@;
        out.insert(p, k);
        proof {
            assert forall|j: int| 0 <= j < out@.len() implies #[trigger] out@[j] == (if j < p { before[j] } else if j == p { k } else { before[j - 1] }) by {}
            assert forall|i: int, j: int| 0 <= i < j < out@.len() implies numbered_before(ns@, #[trigger] out@[i], #[trigger] out@[j]) by {
                if j < p {
                } else if i < p && j == p {
                    if p > 0 {
                        assert(ns@[before[p - 1] as int] <= key_k);
                        if i < p - 1 {
                            assert(numbered_before(ns@, before[i], before[p - 1]));
                        }
                    }
                } else if i < p {
                    assert(numbered_before(ns@, before[i], before[j - 1]));
                } else if i == p {
                    assert(ns@[before[j - 1] as int] > key_k);
                } else {
                    assert(numbered_before(ns@, before[i - 1], before[j - 1]));
                }
            }
            assert forall|q: usize| q < k + 1 implies out@.contains(q) by {
                if q == k {
                    assert(out@[p as int] == k);
                } else {
                    assert(before.contains(q));
                    let t = choose|t: int| 0 <= t < before.len() && before[t] == q;
                    if t < p { assert(out@[t] == q); } else { assert(out@[t + 1] == q); }
                }
            }
        }
        k = k + 1;
    }
    out
}

} // verus!
