//! `asenix bounty post` and `asenix bounty list`: reading a bounty typed in
//! line by line, the arguments sent to the hub, and the rows listed back.
use vstd::prelude::*;
use vstd::string::StrSliceExecFns;
use crate::json::{JsonValue, members_get, str_is, keys_sorted, insert_sorted_member};
use crate::text::{to_owned_string, trim, trim_str, split_once, split_once_char, joined, join_texts};
use crate::display::{truncate, truncated};
use crate::launch::{take_chars, first_chars};
use crate::stream::str_of;

verus! {

/// The statement typed in, its lines joined; none when no line was typed.
pub fn bounty_statement(lines: &[String]) -> (r: Option<String>)
    ensures
        lines@.len() == 0 ==> r is None,
        lines@.len() > 0 ==> (r matches Some(s) && s@ == joined(lines@.map_values(|l: String| l@), "\n"@)),
{
    if lines.len() == 0 {
        None
    } else {
        Some(join_texts(lines, "\n"))
    }
}

/// Reads a `key=value` condition line into the conditions, which are kept
/// in key order with each key once (a later line for a key wins). Both
/// sides are trimmed. A line without `=` changes nothing and is reported.
pub fn add_condition(conditions: &mut Vec<(String, JsonValue)>, line: &str) -> (r: bool)
    requires
        keys_sorted(old(conditions)@),
    ensures
        keys_sorted(final(conditions)@),
        match split_once(line@, '=') {
            Some((k, v)) => r && str_is(members_get(final(conditions)@, trim(k)), trim(v))
                && forall|k2: Seq<char>| k2 != trim(k) ==> members_get(final(conditions)@, k2) == members_get(old(conditions)@, k2),
            None => !r && final(conditions)@ == old(conditions)@,
        },
{
    match split_once_char(line, '=') {
        Some((k, v)) => {
            insert_sorted_member(conditions, to_owned_string(trim_str(k)), JsonValue::Str(to_owned_string(trim_str(v))));
            true
        },
        None => false,
    }
}

/// How a condition is previewed: `key=value`, with `?` for a value that
/// is not a string.
pub open spec fn condition_preview_item(m: (String, JsonValue)) -> Seq<char> {
    m.0@ + "="@ + match m.1 {
        JsonValue::Str(s) => s@,
        _ => "?"@,
    }
}

/// The preview of the conditions: each as `key=value`, separated by `, `.
pub fn conditions_preview(conditions: &[(String, JsonValue)]) -> (r: String)
    ensures
        r@ == joined(conditions@.map_values(|m: (String, JsonValue)| condition_preview_item(m)), ", "@),
{
    let mut items: Vec<String> = Vec::new();
    let mut i: usize = 0;
    while i < conditions.len()
        invariant
            i <= conditions@.len(),
            items@.map_values(|s: String| s@) =~= conditions@.subrange(0, i as int).map_values(|m: (String, JsonValue)| condition_preview_item(m)),
        decreases conditions@.len() - i,
    {
        let mut s = conditions[i].0.clone();
        s.append("=");
        match &conditions[i].1 {
            JsonValue::Str(v) => s.append(v.as_str()),
            _ => s.append("?"),
        }
        let ghost before = items@;
        items.push(s);
        proof {
            assert(items@.map_values(|s: String| s@) =~= before.map_values(|s: String| s@).push(condition_preview_item(conditions@[i as int])));
            assert(conditions@.subrange(0, i + 1) =~= conditions@.subrange(0, i as int).push(conditions@[i as int]));
        }
        i = i + 1;
    }
    assert(conditions@.subrange(0, conditions@.len() as int) =~= conditions@);
    join_texts(items.as_slice(), ", ")
}

/// A metric line as typed: `name=value:unit:direction` (unit and direction
/// optional), or `name=value` with no colon at all. The value is read as a
/// number by the caller; a line that is neither form is reported.
#[derive(Debug)]
pub enum MetricLine {
    Full { name: String, value: String, unit: Option<String>, direction: String },
    Bare { name: String, value: String },
    Malformed,
}

/// The unit of a metric line's tail: the text before its first colon (or
/// all of it), trimmed; none when that is empty.
pub open spec fn metric_unit(rest: Seq<char>) -> Option<Seq<char>> {
    let first = match split_once(rest, ':') {
        Some((a, _)) => a,
        None => rest,
    };
    if trim(first).len() > 0 { Some(trim(first)) } else { None }
}

/// The direction of a metric line's tail: what follows its first colon,
/// trimmed, or `neutral`.
pub open spec fn metric_direction(rest: Seq<char>) -> Seq<char> {
    match split_once(rest, ':') {
        Some((_, b)) => trim(b),
        None => "neutral"@,
    }
}

/// Reads a metric line.
pub fn parse_metric_line(line: &str) -> (r: MetricLine)
    ensures
        match split_once(line@, ':') {
            Some((name_val, rest)) => match split_once(name_val, '=') {
                Some((name, val)) => r matches MetricLine::Full { name: n, value: v, unit: u, direction: d }
                    && n@ == trim(name) && v@ == trim(val) && d@ == metric_direction(rest)
                    && match metric_unit(rest) {
                        Some(t) => u matches Some(us) && us@ == t,
                        None => u is None,
                    },
                None => r is Malformed,
            },
            None => match split_once(line@, '=') {
                Some((name, val)) => r matches MetricLine::Bare { name: n, value: v } && n@ == trim(name) && v@ == trim(val),
                None => r is Malformed,
            },
        },
{
    match split_once_char(line, ':') {
        Some((name_val, rest)) => match split_once_char(name_val, '=') {
            Some((name, val)) => {
                let (first, direction) = match split_once_char(rest, ':') {
                    Some((a, b)) => (a, to_owned_string(trim_str(b))),
                    None => (rest, to_owned_string("neutral")),
                };
                let u = trim_str(first);
                let unit = if u.unicode_len() > 0 { Some(to_owned_string(u)) } else { None };
                MetricLine::Full {
                    name: to_owned_string(trim_str(name)),
                    value: to_owned_string(trim_str(val)),
                    unit,
                    direction,
                }
            },
            None => MetricLine::Malformed,
        },
        None => match split_once_char(line, '=') {
            Some((name, val)) => MetricLine::Bare {
                name: to_owned_string(trim_str(name)),
                value: to_owned_string(trim_str(val)),
            },
            None => MetricLine::Malformed,
        },
    }
}

/// The arguments of the `publish_atoms` call that posts a bounty.
pub fn bounty_publish_args(agent_id: &str, api_token: &str, domain: &str, statement: &str, conditions: JsonValue,
    metrics: Vec<JsonValue>) -> (r: JsonValue)
    ensures
        str_is(r.spec_get("agent_id"@), agent_id@),
        str_is(r.spec_get("api_token"@), api_token@),
        r.spec_get("atoms"@) matches Some(JsonValue::Array(atoms)) && atoms@.len() == 1 && {
            let a = atoms@[0];
            &&& str_is(a.spec_get("atom_type"@), "bounty"@)
            &&& str_is(a.spec_get("domain"@), domain@)
            &&& str_is(a.spec_get("statement"@), statement@)
            &&& a.spec_get("conditions"@) == Some(conditions)
            &&& a.spec_get("metrics"@) matches Some(JsonValue::Array(ms)) && ms@ == metrics@
        },
        r matches JsonValue::Object(m) && m@.len() == 3,
{
    proof {
        reveal_strlit("agent_id");
        reveal_strlit("api_token");
        reveal_strlit("atoms");
        reveal_strlit("atom_type");
        reveal_strlit("conditions");
        reveal_strlit("domain");
        reveal_strlit("metrics");
        reveal_strlit("statement");
        reveal_with_fuel(crate::json::member_index, 6);
        assert("agent_id"@[1] != "api_token"@[1]);
        assert("agent_id"@[1] != "atoms"@[1]);
        assert("api_token"@[1] != "atoms"@[1]);
        assert("atom_type"@[0] != "conditions"@[0]);
        assert("atom_type"@[0] != "domain"@[0]);
        assert("atom_type"@[0] != "metrics"@[0]);
        assert("atom_type"@[0] != "statement"@[0]);
        assert("conditions"@[0] != "domain"@[0]);
        assert("conditions"@[0] != "metrics"@[0]);
        assert("conditions"@[0] != "statement"@[0]);
        assert("domain"@[0] != "metrics"@[0]);
        assert("domain"@[0] != "statement"@[0]);
        assert("metrics"@[0] != "statement"@[0]);
    }
    let atom = JsonValue::Object(vec![
        (to_owned_string("atom_type"), JsonValue::Str(to_owned_string("bounty"))),
        (to_owned_string("conditions"), conditions),
        (to_owned_string("domain"), JsonValue::Str(to_owned_string(domain))),
        (to_owned_string("metrics"), JsonValue::Array(metrics)),
        (to_owned_string("statement"), JsonValue::Str(to_owned_string(statement))),
    ]);
    JsonValue::Object(vec![
        (to_owned_string("agent_id"), JsonValue::Str(to_owned_string(agent_id))),
        (to_owned_string("api_token"), JsonValue::Str(to_owned_string(api_token))),
        (to_owned_string("atoms"), JsonValue::Array(vec![atom])),
    ])
}

/// The id of the first published atom in the hub's answer (the JSON
/// pointer `/published_atoms/0`).
pub open spec fn first_published_id(result: JsonValue) -> Option<Seq<char>> {
    match result.spec_get("published_atoms"@) {
        Some(JsonValue::Array(a)) => if a@.len() > 0 { str_of(Some(a@[0])) } else { None },
        Some(JsonValue::Object(m)) => str_of(members_get(m@, "0"@)),
        _ => None,
    }
}

/// The id reported for a posted bounty, `unknown` when the answer has none.
pub fn published_atom_id(result: &JsonValue) -> (r: String)
    ensures
        r@ == match first_published_id(*result) {
            Some(id) => id,
            None => "unknown"@,
        },
{
    let first: Option<&JsonValue> = match result.get("published_atoms") {
        Some(JsonValue::Array(a)) => if a.len() > 0 { Some(&a[0]) } else { None },
        Some(JsonValue::Object(m)) => {
            proof { crate::json::lemma_member_index(m@, "0"@); }
            match crate::json::find_member(m, "0") {
                Some(i) => Some(&m[i].1),
                None => None,
            }
        },
        _ => None,
    };
    match first {
        Some(JsonValue::Str(s)) => s.clone(),
        _ => to_owned_string("unknown"),
    }
}

/// The arguments of the search that lists bounties: type `bounty`, at most
/// 50, in the domain when one is given (keys in order).
pub fn bounty_search_args(domain: Option<&str>) -> (r: JsonValue)
    ensures
        r matches JsonValue::Object(m) && keys_sorted(m@),
        str_is(r.spec_get("type"@), "bounty"@),
        r.spec_get("limit"@) matches Some(JsonValue::PosInt(l)) && l == 50,
        match domain {
            Some(d) => str_is(r.spec_get("domain"@), d@) && (r matches JsonValue::Object(m) && m@.len() == 3),
            None => r.spec_get("domain"@) is None && (r matches JsonValue::Object(m) && m@.len() == 2),
        },
{
    let mut m: Vec<(String, JsonValue)> = Vec::new();
    insert_sorted_member(&mut m, to_owned_string("type"), JsonValue::Str(to_owned_string("bounty")));
    insert_sorted_member(&mut m, to_owned_string("limit"), JsonValue::PosInt(50));
    proof {
        reveal_strlit("type");
        reveal_strlit("limit");
        reveal_strlit("domain");
        assert("type"@[0] != "limit"@[0]);
        assert("domain"@[0] != "limit"@[0]);
        assert("domain"@[0] != "type"@[0]);
    }
    match domain {
        Some(d) => {
            insert_sorted_member(&mut m, to_owned_string("domain"), JsonValue::Str(to_owned_string(d)));
        },
        None => {},
    }
    JsonValue::Object(m)
}

/// The text of a string member, or nothing.
pub open spec fn text_or_empty(v: Option<JsonValue>) -> Seq<char> {
    match str_of(v) {
        Some(s) => s,
        None => seq![],
    }
}

/// The texts of a listed bounty: its id cut to 14 characters, its
/// statement cut to 60, and the date part of when it was created (the
/// attraction, a number, is formatted by the caller).
pub fn bounty_row_texts(atom: &JsonValue) -> (r: Vec<String>)
    ensures
        r@.len() == 3,
        r@[0]@ == truncated(text_or_empty(atom.spec_get("atom_id"@)), 14),
        r@[1]@ == truncated(text_or_empty(atom.spec_get("statement"@)), 60),
        r@[2]@ == take_chars(text_or_empty(atom.spec_get("created_at"@)), 10),
{
    let mut r: Vec<String> = Vec::new();
    r.push(truncate(member_text(atom, "atom_id"), 14));
    r.push(truncate(member_text(atom, "statement"), 60));
    r.push(first_chars(member_text(atom, "created_at"), 10));
    r
}

fn member_text<'a>(v: &'a JsonValue, k: &str) -> (r: &'a str)
    ensures
        r@ == text_or_empty(v.spec_get(k@)),
{
    match v.get(k) {
        Some(JsonValue::Str(s)) => s.as_str(),
        _ => {
            proof { reveal_strlit(""); }
            ""
        },
    }
}

/// What is said when no bounty is found.
pub fn no_bounties_message(domain: Option<&str>) -> (r: String)
    ensures
        r@ == "No bounties found"@ + match domain {
            Some(d) => " in domain '"@ + d@ + "'"@,
            None => seq![],
        } + "."@,
{
    let mut r = to_owned_string("No bounties found");
    match domain {
        Some(d) => {
            r.append(" in domain '");
            r.append(d);
            r.append("'");
        },
        None => {},
    }
    r.append(".");
    r
}

} // verus!
