//! Domain packs of the command-line tool: the `domain.toml` a pack carries,
//! the summary listed for an installed pack, and the rules a pack's name
//! and the listing follow.
use vstd::prelude::*;
use vstd::multiset::Multiset;
use vstd::string::StrSliceExecFns;
use crate::text::{text_lt, str_lt, to_owned_string, lemma_text_lt_total, lemma_text_lt_transitive,
    lemma_text_lt_asymmetric};

verus! {

broadcast use vstd::seq_lib::group_to_multiset_ensures;

/// The `domain.toml` of a pack: its name, what it is about, and the
/// directory agents work in (`.` unless it says otherwise).
#[derive(Debug, Clone)]
pub struct DomainToml {
    pub name: String,
    pub description: String,
    pub working_dir: String,
}

/// What `asenix domain list` shows of an installed pack.
#[derive(Debug)]
pub struct PackInfo {
    pub name: String,
    pub description: String,
    pub file_count: usize,
    pub has_bounty: bool,
    pub has_requirements: bool,
}

/// A pack name is refused when it is empty or holds a path separator.
pub open spec fn pack_name_error(name: Seq<char>) -> Option<Seq<char>> {
    if name.len() == 0 {
        Some("domain.toml: 'name' field must not be empty"@)
    } else if name.contains('/') || name.contains('\\') {
        Some("domain.toml: 'name' must not contain path separators"@)
    } else {
        None
    }
}

/// Checks the name a pack's `domain.toml` gives before the pack is
/// installed under it.
pub fn validate_pack_name(name: &str) -> (r: Result<(), String>)
    ensures
        match pack_name_error(name@) {
            Some(msg) => r matches Err(m) && m@ == msg,
            None => r is Ok,
        },
{
    let n = name.unicode_len();
    if n == 0 {
        return Err(to_owned_string("domain.toml: 'name' field must not be empty"));
    }
    let mut i: usize = 0;
    while i < n
        invariant
            n == name@.len(),
            i <= n,
            forall|j: int| 0 <= j < i ==> name@[j] != '/' && name@[j] != '\\',
        decreases n - i,
    {
        let c = name.get_char(i);
        if c == '/' || c == '\\' {
            proof {
                if c == '/' { assert(name@.contains('/')); } else { assert(name@.contains('\\')); }
            }
            return Err(to_owned_string("domain.toml: 'name' must not contain path separators"));
        }
        i = i + 1;
    }
    proof {
        assert(!name@.contains('/'));
        assert(!name@.contains('\\'));
    }
    Ok(())
}

/// The packs are listed by name: no pack's name sorts before that of an
/// earlier one.
pub open spec fn packs_sorted(s: Seq<PackInfo>) -> bool {
    forall|i: int, j: int| 0 <= i < j < s.len() ==> !text_lt(#[trigger] s[j].name@, #[trigger] s[i].name@)
}

proof fn lemma_insert_multiset(s: Seq<PackInfo>, i: int, x: PackInfo)
    requires
        0 <= i <= s.len(),
    ensures
        s.insert(i, x).to_multiset() =~= s.to_multiset().insert(x),
{
    let t = s.insert(i, x);
    assert(t.remove(i) =~= s);
    assert(t[i] == x);
    assert(t.to_multiset().count(x) > 0) by {
        assert(t.contains(x));
    }
    assert forall|y: PackInfo| #[trigger] t.to_multiset().count(y) == s.to_multiset().insert(x).count(y) by {
        assert(t.remove(i).to_multiset() =~= t.to_multiset().remove(x));
    }
}

/// The packs ordered by name, as `sort_by` on the names orders them: the
/// same packs, each name no earlier than the one before it.
pub fn sort_packs(packs: Vec<PackInfo>) -> (r: Vec<PackInfo>)
    ensures
        packs_sorted(r@),
        r@.to_multiset() =~= packs@.to_multiset(),
{
    let ghost all = packs@;
    let mut rest = packs;
    let mut out: Vec<PackInfo> = Vec::new();
    assert(all.subrange(0, 0).to_multiset() =~= Multiset::empty());
    while rest.len() > 0
        invariant
            packs_sorted(out@),
            out@.len() + rest@.len() == all.len(),
            rest@ =~= all.subrange(out@.len() as int, all.len() as int),
            out@.to_multiset() =~= all.subrange(0, out@.len() as int).to_multiset(),
        decreases rest@.len(),
    {
        let ghost k = out@.len() as int;
        let x = rest.remove(0);
        assert(x == all[k]);
        let mut p: usize = out.len();
        while p > 0 && str_lt(x.name.as_str(), out[p - 1].name.as_str())
            invariant
                p <= out@.len(),
                forall|j: int| p <= j < out@.len() ==> text_lt(x.name@, #[trigger] out@[j].name@),
            decreases p,
        {
            p = p - 1;
        }
        let ghost before = out@;
        proof {
            if p > 0 {
                assert(!text_lt(x.name@, before[p - 1].name@));
            }
            assert forall|j: int| 0 <= j < p implies !text_lt(x.name@, #[trigger] before[j].name@) by {
                if j < p - 1 {
                    let a = before[j].name@;
                    let b = before[p - 1].name@;
                    assert(!text_lt(b, a));
                    lemma_text_lt_total(a, b);
                    lemma_text_lt_total(b, x.name@);
                    if text_lt(x.name@, a) {
                        if text_lt(a, b) {
                            lemma_text_lt_transitive(x.name@, a, b);
                        }
                    }
                }
            }
        }
        out.insert(p, x);
        proof {
            lemma_insert_multiset(before, p as int, x);
            assert(all.subrange(0, k + 1) =~= all.subrange(0, k).push(x));
            assert forall|j: int| 0 <= j < out@.len() implies #[trigger] out@[j] == (if j < p { before[j] } else if j == p { x } else { before[j - 1] }) by {}
            assert forall|i: int, j: int| 0 <= i < j < out@.len() implies !text_lt(#[trigger] out@[j].name@, #[trigger] out@[i].name@) by {
                if j < p {
                } else if i < p && j == p {
                } else if i < p {
                    assert(!text_lt(before[j - 1].name@, before[i].name@));
                } else if i == p {
                    lemma_text_lt_asymmetric(x.name@, before[j - 1].name@);
                } else {
                    assert(!text_lt(before[j - 1].name@, before[i - 1].name@));
                }
            }
        }
    }
    assert(all.subrange(0, all.len() as int) =~= all);
    out
}

} // verus!
