//! The decisions of the remaining `asenix` commands: the review queue,
//! following agents' logs, resetting the local state and stopping agents.
use vstd::prelude::*;
use vstd::string::StrSliceExecFns;
use crate::text::{to_owned_string, trim, trim_str, str_eq, str_contains, occurs_at, usize_to_decimal, decimal, pieces};
use crate::cli::{parse_usize, spec_parse_usize, all_digits, digits_val};
use crate::mcp::ends_with;
use crate::stream::ends_with_str;

verus! {

/// What the owner chose for an item of the review queue.
#[derive(Debug, Clone, Copy, PartialEq, Eq, Structural)]
pub enum ReviewChoice {
    Approve,
    Reject,
    Skip,
}

/// The choice an answer at the review prompt names once trimmed: `a`/`approve`,
/// `r`/`reject`, or `s`/`skip`/nothing; anything else asks again.
pub open spec fn review_choice_of(t: Seq<char>) -> Option<ReviewChoice> {
    if t == "a"@ || t == "approve"@ {
        Some(ReviewChoice::Approve)
    } else if t == "r"@ || t == "reject"@ {
        Some(ReviewChoice::Reject)
    } else if t == "s"@ || t == "skip"@ || t.len() == 0 {
        Some(ReviewChoice::Skip)
    } else {
        None
    }
}

/// Reads an answer given at the review prompt.
pub fn parse_review_choice(input: &str) -> (r: Option<ReviewChoice>)
    ensures
        r == review_choice_of(trim(input@)),
{
    let t = trim_str(input);
    if str_eq(t, "a") || str_eq(t, "approve") {
        Some(ReviewChoice::Approve)
    } else if str_eq(t, "r") || str_eq(t, "reject") {
        Some(ReviewChoice::Reject)
    } else if str_eq(t, "s") || str_eq(t, "skip") || t.unicode_len() == 0 {
        Some(ReviewChoice::Skip)
    } else {
        None
    }
}

/// The reason given for a rejection: the answer trimmed, none when empty.
pub fn review_reason(answer: &str) -> (r: Option<String>)
    ensures
        trim(answer@).len() == 0 ==> r is None,
        trim(answer@).len() > 0 ==> (r matches Some(s) && s@ == trim(answer@)),
{
    let t = trim_str(answer);
    if t.unicode_len() == 0 { None } else { Some(to_owned_string(t)) }
}

/// The closing line of a review session.
pub fn review_summary(total: usize, approved: usize, rejected: usize) -> (r: String)
    requires
        approved + rejected <= total,
    ensures
        r@ == "  Reviewed "@ + decimal(total as nat) + " item(s): "@ + decimal(approved as nat) + " approved, "@
            + decimal(rejected as nat) + " rejected, "@ + decimal((total - approved - rejected) as nat) + " skipped"@,
{
    let mut r = to_owned_string("  Reviewed ");
    r.append(usize_to_decimal(total).as_str());
    r.append(" item(s): ");
    r.append(usize_to_decimal(approved).as_str());
    r.append(" approved, ");
    r.append(usize_to_decimal(rejected).as_str());
    r.append(" rejected, ");
    r.append(usize_to_decimal(total - approved - rejected).as_str());
    r.append(" skipped");
    r
}

/// An error loading the queue suggests logging in again when it mentions
/// `unauthorized` or `expired`.
pub fn suggests_login_again(message: &str) -> (r: bool)
    ensures
        r == ((exists|i: int| occurs_at(message@, "unauthorized"@, i)) || (exists|i: int| occurs_at(message@, "expired"@, i))),
{
    str_contains(message, "unauthorized") || str_contains(message, "expired")
}

/// A file whose name ends in `.log` is an agent's log.
pub fn is_log_file_name(name: &str) -> (r: bool)
    ensures
        r == ends_with(name@, ".log"@),
{
    ends_with_str(name, ".log")
}

/// The text that marks the logs of agent `n`: `_agent_<n>_`.
pub open spec fn agent_log_marker(n: nat) -> Seq<char> {
    "_agent_"@ + decimal(n) + "_"@
}

/// The positions of the log names that belong to agent `n`, in order.
pub fn agent_log_positions(names: &[String], n: usize) -> (r: Vec<usize>)
    ensures
        forall|i: int, j: int| 0 <= i < j < r@.len() ==> r@[i] < r@[j],
        forall|i: int| 0 <= i < r@.len() ==> r@[i] < names@.len(),
        forall|k: usize| (r@.contains(k) <==> (k < names@.len()
            && exists|p: int| occurs_at(names@[k as int]@, agent_log_marker(n as nat), p))),
{
    let mut marker = to_owned_string("_agent_");
    marker.append(usize_to_decimal(n).as_str());
    marker.append("_");
    let mut out: Vec<usize> = Vec::new();
    let mut i: usize = 0;
    while i < names.len()
        invariant
            i <= names@.len(),
            marker@ == agent_log_marker(n as nat),
            forall|a: int, b: int| 0 <= a < b < out@.len() ==> out@[a] < out@[b],
            forall|a: int| 0 <= a < out@.len() ==> out@[a] < i,
            forall|k: usize| (out@.contains(k) <==> (k < i
                && exists|p: int| occurs_at(names@[k as int]@, agent_log_marker(n as nat), p))),
        decreases names@.len() - i,
    {
        let hit = str_contains(names[i].as_str(), marker.as_str());
        let ghost before = out@;
        if hit {
            out.push(i);
        }
        proof {
            assert forall|k: usize| (out@.contains(k) <==> (k < i + 1
                && exists|p: int| occurs_at(names@[k as int]@, agent_log_marker(n as nat), p))) by {
                if out@.contains(k) {
                    if k != i {
                        let q = choose|q: int| 0 <= q < out@.len() && out@[q] == k;
                        assert(before[q] == k);
                        assert(before.contains(k));
                    }
                }
                if k < i && before.contains(k) {
                    let q = choose|q: int| 0 <= q < before.len() && before[q] == k;
                    assert(out@[q] == k);
                }
                if k == i && hit {
                    assert(out@[out@.len() - 1] == k);
                }
                if k == i && !hit && out@.contains(k) {
                    let q = choose|q: int| 0 <= q < out@.len() && out@[q] == k;
                    assert(before[q] < i);
                }
            }
        }
        i = i + 1;
    }
    out
}

/// The order of a log by the time it was last changed; a log whose time
/// is unknown comes before every other.
pub open spec fn mtime_key(t: Option<u64>) -> int {
    match t {
        Some(x) => x as int,
        None => -1,
    }
}

/// Log `a` is listed before log `b`: it was changed later, or at the same
/// time and was found first.
pub open spec fn listed_before(mtimes: Seq<Option<u64>>, a: usize, b: usize) -> bool {
    mtime_key(mtimes[a as int]) > mtime_key(mtimes[b as int])
        || (mtime_key(mtimes[a as int]) == mtime_key(mtimes[b as int]) && a < b)
}

fn mtime_of(mtimes: &[Option<u64>], k: usize) -> (r: i128)
    requires
        k < mtimes@.len(),
    ensures
        r == mtime_key(mtimes@[k as int]),
{
    match mtimes[k] {
        Some(x) => x as i128,
        None => -1,
    }
}

/// The logs newest first (a stable sort by modification time, latest
/// first, unknown times last): every position exactly once, each listed
/// before the next.
pub fn newest_first(mtimes: &[Option<u64>]) -> (r: Vec<usize>)
    ensures
        r@.len() == mtimes@.len(),
        forall|k: usize| k < mtimes@.len() ==> r@.contains(k),
        forall|i: int| 0 <= i < r@.len() ==> r@[i] < mtimes@.len(),
        forall|i: int, j: int| 0 <= i < j < r@.len() ==> listed_before(mtimes@, #[trigger] r@[i], #[trigger] r@[j]),
{
    let mut out: Vec<usize> = Vec::new();
    let mut k: usize = 0;
    while k < mtimes.len()
        invariant
            k <= mtimes@.len(),
            out@.len() == k,
            forall|q: usize| q < k ==> out@.contains(q),
            forall|i: int| 0 <= i < out@.len() ==> out@[i] < k,
            forall|i: int, j: int| 0 <= i < j < out@.len() ==> listed_before(mtimes@, #[trigger] out@[i], #[trigger] out@[j]),
        decreases mtimes@.len() - k,
    {
        let key_k = mtime_of(mtimes, k);
        let mut p: usize = out.len();
        while p > 0 && mtime_of(mtimes, out[p - 1]) < key_k
            invariant
                p <= out@.len(),
                out@.len() == k,
                k < mtimes@.len(),
                key_k == mtime_key(mtimes@[k as int]),
                mtimes@.len() == mtimes.len(),
                forall|i: int| 0 <= i < out@.len() ==> out@[i] < k,
                forall|j: int| p <= j < out@.len() ==> mtime_key(mtimes@[#[trigger] out@[j] as int]) < key_k,
            decreases p,
        {
            p = p - 1;
        }
        let ghost before = out@;
        out.insert(p, k);
        proof {
            assert forall|j: int| 0 <= j < out@.len() implies #[trigger] out@[j] == (if j < p { before[j] } else if j == p { k } else { before[j - 1] }) by {}
            assert forall|i: int, j: int| 0 <= i < j < out@.len() implies listed_before(mtimes@, #[trigger] out@[i], #[trigger] out@[j]) by {
                if j < p {
                } else if i < p && j == p {
                    if p > 0 {
                        assert(mtime_key(mtimes@[before[p - 1] as int]) >= key_k);
                        if i < p - 1 {
                            assert(listed_before(mtimes@, before[i], before[p - 1]));
                        }
                    }
                } else if i < p {
                    assert(listed_before(mtimes@, before[i], before[j - 1]));
                } else if i == p {
                    assert(mtime_key(mtimes@[before[j - 1] as int]) < key_k);
                } else {
                    assert(listed_before(mtimes@, before[i - 1], before[j - 1]));
                }
            }
            assert forall|q: usize| q < k + 1 implies out@.contains(q) by {
                if q == k {
                    assert(out@[p as int] == k);
                } else {
                    assert(before.contains(q));
                    let t = choose|t: int| 0 <= t < before.len() && before[t] == q;
                    if t < p { assert(out@[t] == q); } else { assert(out@[t + 1] == q); }
                }
            }
        }
        k = k + 1;
    }
    out
}

/// A row of the table of logs being followed: its number from 1 and its
/// file name.
pub fn log_table_rows(names: &[String]) -> (r: Vec<Vec<String>>)
    requires
        names@.len() < usize::MAX,
    ensures
        r@.len() == names@.len(),
        forall|i: int| 0 <= i < r@.len() ==> (#[trigger] r@[i])@.len() == 2 && r@[i]@[0]@ == decimal((i + 1) as nat)
            && r@[i]@[1]@ == names@[i]@,
{
    let mut out: Vec<Vec<String>> = Vec::new();
    let mut i: usize = 0;
    while i < names.len()
        invariant
            i <= names@.len(),
            names@.len() < usize::MAX,
            out@.len() == i,
            forall|j: int| 0 <= j < i ==> (#[trigger] out@[j])@.len() == 2 && out@[j]@[0]@ == decimal((j + 1) as nat)
                && out@[j]@[1]@ == names@[j]@,
        decreases names@.len() - i,
    {
        let mut row: Vec<String> = Vec::new();
        row.push(usize_to_decimal(i + 1));
        row.push(names[i].clone());
        out.push(row);
        i = i + 1;
    }
    out
}

/// The prefix of a followed log's lines: its file name, or `agent_<i+1>`
/// when it has none.
pub fn log_line_prefix(file_name: Option<&str>, i: usize) -> (r: String)
    requires
        i < usize::MAX,
    ensures
        r@ == match file_name {
            Some(f) => f@,
            None => "agent_"@ + decimal((i + 1) as nat),
        },
{
    match file_name {
        Some(f) => to_owned_string(f),
        None => {
            let mut r = to_owned_string("agent_");
            r.append(usize_to_decimal(i + 1).as_str());
            r
        },
    }
}

/// How many of the names end with `suffix`.
pub open spec fn count_ending(names: Seq<String>, suffix: Seq<char>) -> nat
    decreases names.len(),
{
    if names.len() == 0 {
        0
    } else {
        count_ending(names.drop_last(), suffix) + if ends_with(names.last()@, suffix) { 1nat } else { 0nat }
    }
}

/// The number of names that end with `suffix` (credential files end in
/// `.toml`, logs in `.log`).
pub fn count_names_ending(names: &[String], suffix: &str) -> (r: usize)
    ensures
        r == count_ending(names@, suffix@),
{
    let mut c: usize = 0;
    let mut i: usize = 0;
    while i < names.len()
        invariant
            i <= names@.len(),
            c == count_ending(names@.subrange(0, i as int), suffix@),
            c <= i,
        decreases names@.len() - i,
    {
        assert(names@.subrange(0, i + 1).drop_last() =~= names@.subrange(0, i as int));
        if ends_with_str(names[i].as_str(), suffix) {
            c = c + 1;
        }
        i = i + 1;
    }
    assert(names@.subrange(0, names@.len() as int) =~= names@);
    c
}

/// The lines that announce what a reset will delete; none when there is
/// nothing to delete.
pub fn reset_plan(cred_count: usize, creds_dir: &str, log_count: usize, logs_dir: &str, has_auth: bool,
    auth_path: &str) -> (r: Vec<String>)
    ensures
        r@.len() == (if cred_count > 0 { 1int } else { 0int }) + (if log_count > 0 { 1int } else { 0int })
            + (if has_auth { 1int } else { 0int }),
        cred_count > 0 ==> r@[0]@ == "  - "@ + decimal(cred_count as nat) + " credential file(s) in "@ + creds_dir@,
        log_count > 0 ==> r@[if cred_count > 0 { 1int } else { 0int }]@
            == "  - "@ + decimal(log_count as nat) + " log file(s) in "@ + logs_dir@,
        has_auth ==> r@[r@.len() - 1]@ == "  - auth token in "@ + auth_path@,
{
    let mut r: Vec<String> = Vec::new();
    if cred_count > 0 {
        let mut l = to_owned_string("  - ");
        l.append(usize_to_decimal(cred_count).as_str());
        l.append(" credential file(s) in ");
        l.append(creds_dir);
        r.push(l);
    }
    if log_count > 0 {
        let mut l = to_owned_string("  - ");
        l.append(usize_to_decimal(log_count).as_str());
        l.append(" log file(s) in ");
        l.append(logs_dir);
        r.push(l);
    }
    if has_auth {
        let mut l = to_owned_string("  - auth token in ");
        l.append(auth_path);
        r.push(l);
    }
    r
}

/// The line that closes a reset.
pub fn reset_summary(deleted_creds: usize, deleted_logs: usize, had_auth: bool) -> (r: String)
    ensures
        r@ == "Reset complete: "@ + decimal(deleted_creds as nat) + " credential(s), "@ + decimal(deleted_logs as nat)
            + " log(s)"@ + (if had_auth { ", auth token"@ } else { seq![] }) + " deleted"@,
{
    let mut r = to_owned_string("Reset complete: ");
    r.append(usize_to_decimal(deleted_creds).as_str());
    r.append(" credential(s), ");
    r.append(usize_to_decimal(deleted_logs).as_str());
    r.append(" log(s)");
    if had_auth {
        r.append(", auth token");
    } else {
        assert(r@ =~= r@ + Seq::<char>::empty());
    }
    r.append(" deleted");
    r
}

/// The number of the agent whose working directory has this name, when it
/// is a number and, where one agent was asked for, that one.
pub fn agent_dir_number(dir_name: &str, only_n: Option<usize>) -> (r: Option<usize>)
    ensures
        r == match spec_parse_usize(dir_name@) {
            Some(n) => match only_n {
                Some(o) => if n == o { Some(n) } else { None },
                None => Some(n),
            },
            None => None,
        },
{
    match parse_usize(dir_name) {
        Some(n) => match only_n {
            Some(o) => if n == o { Some(n) } else { None },
            None => Some(n),
        },
        None => None,
    }
}

/// A `u32` written in decimal, with an optional leading `+`.
pub open spec fn spec_parse_u32(s: Seq<char>) -> Option<u32> {
    let d = if s.len() > 0 && s[0] == '+' { s.drop_first() } else { s };
    if all_digits(d) && digits_val(d) <= u32::MAX {
        Some(digits_val(d) as u32)
    } else {
        None
    }
}

/// The process group read from a PID file: the trimmed text as a positive
/// `u32`.
pub fn parse_pid(text: &str) -> (r: Option<u32>)
    ensures
        r == match spec_parse_u32(trim(text@)) {
            Some(p) => if p > 0 { Some(p) } else { None },
            None => None,
        },
{
    match parse_usize(trim_str(text)) {
        Some(v) => if v > 0 && v <= 0xffff_ffff { Some(v as u32) } else { None },
        None => None,
    }
}

/// What is said after stopping agents when none was running any more.
pub fn stop_report(stopped: usize, already_gone: usize) -> (r: Option<String>)
    ensures
        stopped == 0 && already_gone > 0 ==> (r matches Some(s) && s@ == decimal(already_gone as nat) + " agent(s) were already stopped"@),
        !(stopped == 0 && already_gone > 0) ==> r is None,
{
    if stopped == 0 && already_gone > 0 {
        let mut s = usize_to_decimal(already_gone);
        s.append(" agent(s) were already stopped");
        Some(s)
    } else {
        None
    }
}


/// The rows `asenix status` shows of the hub's health.
pub fn status_rows(h: &crate::api::HealthResponse) -> (r: Vec<Vec<String>>)
    ensures
        r@.len() == 5,
        r@[0]@.len() == 2 && r@[0]@[0]@ == "Status"@ && r@[0]@[1]@ == h.status@,
        r@[1]@.len() == 2 && r@[1]@[0]@ == "Database"@ && r@[1]@[1]@ == h.database@,
        r@[2]@.len() == 2 && r@[2]@[0]@ == "Graph nodes"@ && r@[2]@[1]@ == decimal(h.graph_nodes as nat),
        r@[3]@.len() == 2 && r@[3]@[0]@ == "Graph edges"@ && r@[3]@[1]@ == decimal(h.graph_edges as nat),
        r@[4]@.len() == 2 && r@[4]@[0]@ == "Embed queue"@ && r@[4]@[1]@ == decimal(h.embedding_queue_depth as nat),
{
    let mut r: Vec<Vec<String>> = Vec::new();
    r.push(vec![to_owned_string("Status"), h.status.clone()]);
    r.push(vec![to_owned_string("Database"), h.database.clone()]);
    r.push(vec![to_owned_string("Graph nodes"), usize_to_decimal(h.graph_nodes)]);
    r.push(vec![to_owned_string("Graph edges"), usize_to_decimal(h.graph_edges)]);
    r.push(vec![to_owned_string("Embed queue"), usize_to_decimal(h.embedding_queue_depth)]);
    r
}

fn text_or_blank(o: &Option<String>) -> (r: String)
    ensures
        r@ == match o { Some(s) => s@, None => Seq::<char>::empty() },
{
    match o {
        Some(s) => s.clone(),
        None => String::new(),
    }
}

/// A row of `asenix project list`: slug, name, the description (or
/// nothing) cut to 40 characters, and the date part of when it was created.
pub fn project_list_row(p: &crate::api::ProjectInfo) -> (r: Vec<String>)
    ensures
        r@.len() == 4,
        r@[0]@ == p.slug@,
        r@[1]@ == p.name@,
        r@[2]@ == crate::display::truncated(match p.description { Some(d) => d@, None => Seq::<char>::empty() }, 40),
        r@[3]@ == crate::launch::take_chars(p.created_at@, 10),
{
    let d = text_or_blank(&p.description);
    vec![p.slug.clone(), p.name.clone(), crate::display::truncate(d.as_str(), 40),
        crate::launch::first_chars(p.created_at.as_str(), 10)]
}

/// The rows `asenix project show` gives a project: its id, name, slug,
/// description (or nothing) and creation time.
pub fn project_detail_rows(p: &crate::api::ProjectInfo) -> (r: Vec<Vec<String>>)
    ensures
        r@.len() == 5,
        r@[0]@.len() == 2 && r@[0]@[0]@ == "ID"@ && r@[0]@[1]@ == p.project_id@,
        r@[1]@.len() == 2 && r@[1]@[0]@ == "Name"@ && r@[1]@[1]@ == p.name@,
        r@[2]@.len() == 2 && r@[2]@[0]@ == "Slug"@ && r@[2]@[1]@ == p.slug@,
        r@[3]@.len() == 2 && r@[3]@[0]@ == "Description"@
            && r@[3]@[1]@ == match p.description { Some(d) => d@, None => Seq::<char>::empty() },
        r@[4]@.len() == 2 && r@[4]@[0]@ == "Created"@ && r@[4]@[1]@ == p.created_at@,
{
    let mut r: Vec<Vec<String>> = Vec::new();
    r.push(vec![to_owned_string("ID"), p.project_id.clone()]);
    r.push(vec![to_owned_string("Name"), p.name.clone()]);
    r.push(vec![to_owned_string("Slug"), p.slug.clone()]);
    r.push(vec![to_owned_string("Description"), text_or_blank(&p.description)]);
    r.push(vec![to_owned_string("Created"), p.created_at.clone()]);
    r
}

/// The texts of a project file's row but its size (a number of bytes the
/// caller formats): its name, its content type or `—`, and the date part
/// of when it was uploaded.
pub fn project_file_row_texts(f: &crate::api::ProjectFileInfo) -> (r: Vec<String>)
    ensures
        r@.len() == 3,
        r@[0]@ == f.filename@,
        r@[1]@ == match f.content_type { Some(t) => t@, None => "—"@ },
        r@[2]@ == crate::launch::take_chars(f.uploaded_at@, 10),
{
    let ct = match &f.content_type {
        Some(t) => t.clone(),
        None => to_owned_string("—"),
    };
    vec![f.filename.clone(), ct, crate::launch::first_chars(f.uploaded_at.as_str(), 10)]
}

/// A row of `asenix domain list`: name, description cut to 50 characters,
/// number of files, and marks for a bounty and for requirements.
pub fn pack_row(p: &crate::packs::PackInfo) -> (r: Vec<String>)
    ensures
        r@.len() == 5,
        r@[0]@ == p.name@,
        r@[1]@ == crate::display::truncated(p.description@, 50),
        r@[2]@ == decimal(p.file_count as nat),
        r@[3]@ == (if p.has_bounty { "✓"@ } else { "—"@ }),
        r@[4]@ == (if p.has_requirements { "✓"@ } else { "—"@ }),
{
    let mark_b = if p.has_bounty { to_owned_string("✓") } else { to_owned_string("—") };
    let mark_r = if p.has_requirements { to_owned_string("✓") } else { to_owned_string("—") };
    vec![p.name.clone(), crate::display::truncate(p.description.as_str(), 50), usize_to_decimal(p.file_count),
        mark_b, mark_r]
}

/// The texts shown of an item of the review queue: its id cut to 14
/// characters, its statement cut to 72, its author cut to 20, and the
/// first 19 characters of when it was created.
pub fn review_item_texts(item: &crate::api::ReviewItem) -> (r: Vec<String>)
    ensures
        r@.len() == 4,
        r@[0]@ == crate::display::truncated(item.atom_id@, 14),
        r@[1]@ == crate::display::truncated(item.statement@, 72),
        r@[2]@ == crate::display::truncated(item.author_agent_id@, 20),
        r@[3]@ == crate::launch::take_chars(item.created_at@, 19),
{
    vec![crate::display::truncate(item.atom_id.as_str(), 14), crate::display::truncate(item.statement.as_str(), 72),
        crate::display::truncate(item.author_agent_id.as_str(), 20), crate::launch::first_chars(item.created_at.as_str(), 19)]
}

/// The name an uploaded file is given: the one asked for, else the file's
/// own name, else `file`.
pub fn upload_file_name<'a>(name: Option<&'a str>, path_file_name: Option<&'a str>) -> (r: &'a str)
    ensures
        r@ == match name {
            Some(n) => n@,
            None => match path_file_name {
                Some(f) => f@,
                None => "file"@,
            },
        },
{
    match name {
        Some(n) => n,
        None => match path_file_name {
            Some(f) => f,
            None => "file",
        },
    }
}

/// The packages the lines name: each line trimmed, without the empty ones
/// and the comments (`#`).
pub open spec fn package_lines(pieces: Seq<Seq<char>>) -> Seq<Seq<char>>
    decreases pieces.len(),
{
    if pieces.len() == 0 {
        seq![]
    } else {
        let t = trim(pieces[0]);
        let rest = package_lines(pieces.drop_first());
        if t.len() > 0 && t[0] != '#' { seq![t] + rest } else { rest }
    }
}

/// The packages of a requirements file written one per line.
pub fn requirements_from_text(raw: &str) -> (r: Vec<String>)
    ensures
        r@.map_values(|s: String| s@) == package_lines(pieces(raw@, '\n')),
{
    let mut out: Vec<String> = Vec::new();
    let mut rest: &str = raw;
    loop
        invariant
            out@.map_values(|s: String| s@) + package_lines(pieces(rest@, '\n')) == package_lines(pieces(raw@, '\n')),
        decreases rest@.len(),
    {
        let ghost r0 = rest@;
        proof { crate::text::lemma_char_index(r0, '\n'); }
        let (piece, next, last): (&str, &str, bool) = match crate::text::split_once_char(rest, '\n') {
            Some((a, b)) => (a, b, false),
            None => (rest, rest, true),
        };
        let t = trim_str(piece);
        let keep = t.unicode_len() > 0 && t.get_char(0) != '#';
        let ghost before = out@.map_values(|s: String| s@);
        if keep {
            out.push(to_owned_string(t));
        }
        proof {
            let pcs = pieces(r0, '\n');
            assert(pcs[0] == piece@);
            if keep {
                assert(out@.map_values(|s: String| s@) =~= before.push(t@));
            } else {
                assert(out@.map_values(|s: String| s@) =~= before);
            }
            if last {
                assert(pcs =~= seq![piece@]);
                assert(pcs.drop_first() =~= Seq::<Seq<char>>::empty());
                assert(package_lines(pcs.drop_first()) =~= Seq::<Seq<char>>::empty());
            } else {
                assert(pcs.drop_first() =~= pieces(next@, '\n'));
            }
        }
        if last {
            assert(out@.map_values(|s: String| s@) =~= out@.map_values(|s: String| s@) + Seq::<Seq<char>>::empty());
            return out;
        }
        rest = next;
    }
}

/// A requirements file written as a JSON array: its first character that
/// is not whitespace is `[`.
pub fn is_json_list_text(raw: &str) -> (r: bool)
    ensures
        r == (crate::text::trim_start(raw@).len() > 0 && crate::text::trim_start(raw@)[0] == '['),
{
    let n = raw.unicode_len();
    let mut i: usize = 0;
    while i < n && crate::text::char_is_whitespace(raw.get_char(i))
        invariant
            n == raw@.len(),
            i <= n,
            forall|k: int| 0 <= k < i ==> crate::text::spec_is_whitespace(#[trigger] raw@[k]),
        decreases n - i,
    {
        i = i + 1;
    }
    proof {
        crate::text::lemma_trim_start_from(raw@, i as int);
        let t = raw@.subrange(i as int, n as int);
        if i < n {
            assert(!crate::text::spec_is_whitespace(t[0]));
            assert(crate::text::trim_start(t) == t);
        } else {
            assert(t.len() == 0);
        }
    }
    i < n && raw.get_char(i) == '['
}

} // verus!
