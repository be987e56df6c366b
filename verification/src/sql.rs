//! The text of the hub's dynamic database reads: which clauses a search
//! adds for the filters it is given, how their placeholders are numbered,
//! and which values are bound to them.
use vstd::prelude::*;
use crate::text::{to_owned_string, concat3, decimal, signed_decimal, usize_to_decimal,
    i64_to_decimal, joined};

verus! {

/// A query: its SQL text and the texts bound to its numbered placeholders,
/// `$1` first.
#[derive(Debug)]
pub struct SqlQuery {
    pub text: String,
    pub binds: Vec<String>,
}

/// The texts of a list of strings.
pub open spec fn texts(v: Seq<String>) -> Seq<Seq<char>> {
    v.map_values(|s: String| s@)
}

/// The text of an optional slice.
pub open spec fn opt_text(o: Option<&str>) -> Option<Seq<char>> {
    match o {
        Some(s) => Some(s@),
        None => None,
    }
}

/// A query under construction after one more optional filter: when the
/// filter has a value, its clause with the next placeholder number is
/// appended and the value is bound to it; otherwise nothing changes.
pub open spec fn with_filter(acc: (Seq<char>, Seq<Seq<char>>), clause: Seq<char>, value: Option<Seq<char>>)
    -> (Seq<char>, Seq<Seq<char>>)
{
    match value {
        Some(v) => (acc.0 + clause + "$"@ + decimal((acc.1.len() + 1) as nat), acc.1.push(v)),
        None => acc,
    }
}

/// The pattern a statement search binds: the text between two `%`.
pub open spec fn like_pattern(t: Option<Seq<char>>) -> Option<Seq<char>> {
    match t {
        Some(s) => Some("%"@ + s + "%"@),
        None => None,
    }
}

/// The atom search: live atoms, filtered by domain, type, lifecycle,
/// statement text and project (each only when given, in that order),
/// newest first, with the given limit and offset.
pub open spec fn search_atoms_sql(
    domain: Option<Seq<char>>,
    atom_type: Option<Seq<char>>,
    lifecycle: Option<Seq<char>>,
    text: Option<Seq<char>>,
    project_id: Option<Seq<char>>,
    limit: int,
    offset: int,
) -> (Seq<char>, Seq<Seq<char>>) {
    let a0 = ("SELECT * FROM atoms WHERE NOT retracted AND NOT archived"@, Seq::<Seq<char>>::empty());
    let a1 = with_filter(a0, " AND domain = "@, domain);
    let a2 = with_filter(a1, " AND type = "@, atom_type);
    let a3 = with_filter(a2, " AND lifecycle = "@, lifecycle);
    let a4 = with_filter(a3, " AND statement ILIKE "@, like_pattern(text));
    let a5 = with_filter(a4, " AND project_id = "@, project_id);
    (a5.0 + " ORDER BY created_at DESC"@ + " LIMIT "@ + signed_decimal(limit) + " OFFSET "@
        + signed_decimal(offset), a5.1)
}

/// The synthesis search: live synthesis atoms, of the domain when one is
/// given, newest first.
pub open spec fn synthesis_atoms_sql(domain: Option<Seq<char>>) -> (Seq<char>, Seq<Seq<char>>) {
    let a0 = ("SELECT * FROM atoms WHERE type = 'synthesis' AND NOT retracted AND NOT archived"@,
        Seq::<Seq<char>>::empty());
    let a1 = with_filter(a0, " AND domain = "@, domain);
    (a1.0 + " ORDER BY created_at DESC"@, a1.1)
}

fn owned(o: Option<&str>) -> (r: Option<String>)
    ensures
        match (r, o) {
            (Some(a), Some(b)) => a@ == b@,
            (None, None) => true,
            _ => false,
        },
{
    match o {
        Some(s) => Some(to_owned_string(s)),
        None => None,
    }
}

fn push_filter(query: &mut String, binds: &mut Vec<String>, clause: &str, value: Option<String>)
    requires
        old(binds)@.len() < 16,
    ensures
        (final(query)@, texts(final(binds)@)) == with_filter((old(query)@, texts(old(binds)@)), clause@,
            match value { Some(v) => Some(v@), None => None }),
        final(binds)@.len() <= old(binds)@.len() + 1,
{
    match value {
        Some(v) => {
            let ghost before = binds@;
            let ghost vv = v@;
            binds.push(v);
            assert(texts(binds@) =~= texts(before).push(vv));
            let n = usize_to_decimal(binds.len());
            query.append(clause);
            proof { reveal_strlit("$"); }
            query.append("$");
            query.append(n.as_str());
        },
        None => {},
    }
}

/// The query of an atom search with the given filters, limit and offset.
/// The statement filter binds the text between two `%`.
pub fn search_atoms_query(
    domain: Option<&str>,
    atom_type: Option<&str>,
    lifecycle: Option<&str>,
    text: Option<&str>,
    project_id: Option<&str>,
    limit: i64,
    offset: i64,
) -> (r: SqlQuery)
    ensures
        (r.text@, texts(r.binds@)) == search_atoms_sql(opt_text(domain), opt_text(atom_type),
            opt_text(lifecycle), opt_text(text), opt_text(project_id), limit as int, offset as int),
{
    let mut query = to_owned_string("SELECT * FROM atoms WHERE NOT retracted AND NOT archived");
    let mut binds: Vec<String> = Vec::new();
    assert(texts(binds@) =~= Seq::<Seq<char>>::empty());
    push_filter(&mut query, &mut binds, " AND domain = ", owned(domain));
    push_filter(&mut query, &mut binds, " AND type = ", owned(atom_type));
    push_filter(&mut query, &mut binds, " AND lifecycle = ", owned(lifecycle));
    let pattern = match text {
        Some(t) => {
            proof { reveal_strlit("%"); }
            Some(concat3("%", t, "%"))
        },
        None => None,
    };
    push_filter(&mut query, &mut binds, " AND statement ILIKE ", pattern);
    push_filter(&mut query, &mut binds, " AND project_id = ", owned(project_id));
    query.append(" ORDER BY created_at DESC");
    query.append(" LIMIT ");
    query.append(i64_to_decimal(limit).as_str());
    query.append(" OFFSET ");
    query.append(i64_to_decimal(offset).as_str());
    SqlQuery { text: query, binds }
}

/// The query of a synthesis search, of one domain or of all.
pub fn synthesis_atoms_query(domain: Option<&str>) -> (r: SqlQuery)
    ensures
        (r.text@, texts(r.binds@)) == synthesis_atoms_sql(opt_text(domain)),
{
    let mut query = to_owned_string(
        "SELECT * FROM atoms WHERE type = 'synthesis' AND NOT retracted AND NOT archived");
    let mut binds: Vec<String> = Vec::new();
    assert(texts(binds@) =~= Seq::<Seq<char>>::empty());
    push_filter(&mut query, &mut binds, " AND domain = ", owned(domain));
    query.append(" ORDER BY created_at DESC");
    SqlQuery { text: query, binds }
}

/// `n` question-mark placeholders.
pub open spec fn question_marks(n: nat) -> Seq<Seq<char>> {
    Seq::new(n, |i: int| "?"@)
}

/// The clause that limits a traversal to the named edge types: one `?`
/// per type, comma-separated; empty when no filter is given.
pub open spec fn edge_type_clause_text(filter: Option<nat>) -> Seq<char> {
    match filter {
        Some(n) => "AND e.type IN ("@ + joined(question_marks(n), ","@) + ")"@,
        None => seq![],
    }
}

/// The edge-type clause of a traversal query.
pub fn edge_type_clause(filter: Option<&[String]>) -> (r: String)
    ensures
        r@ == edge_type_clause_text(match filter { Some(f) => Some(f@.len()), None => None }),
{
    match filter {
        None => {
            let r = String::new();
            r
        },
        Some(f) => {
            let mut r = to_owned_string("AND e.type IN (");
            let ghost head = r@;
            let mut i: usize = 0;
            while i < f.len()
                invariant
                    i <= f@.len(),
                    r@ == head + joined(question_marks(i as nat), ","@),
                decreases f@.len() - i,
            {
                assert(question_marks((i + 1) as nat).drop_last() =~= question_marks(i as nat));
                proof { reveal_strlit("?"); reveal_strlit(","); }
                if i > 0 {
                    r.append(",");
                } else {
                    assert(joined(question_marks(1), ","@) == "?"@);
                }
                r.append("?");
                assert(r@ =~= head + joined(question_marks((i + 1) as nat), ","@));
                i = i + 1;
            }
            r.append(")");
            r
        },
    }
}

} // verus!
