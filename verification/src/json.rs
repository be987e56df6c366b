//! A JSON value as the hub's rules read it.
use vstd::prelude::*;
use crate::text::str_eq;
use vstd::string::StrSliceExecFns;

verus! {

/// A JSON value. Numbers keep the three forms a JSON library tells apart:
/// non-negative integers, negative integers, and other numbers, the last
/// held as the bit pattern of their 64-bit float. An object keeps its
/// members in order, each key once.
#[derive(Debug)]
pub enum JsonValue {
    Null,
    Bool(bool),
    PosInt(u64),
    NegInt(i64),
    Float(u64),
    Str(String),
    Array(Vec<JsonValue>),
    Object(Vec<(String, JsonValue)>),
}

/// Index of the first member with key `k`, or -1.
pub open spec fn member_index(m: Seq<(String, JsonValue)>, k: Seq<char>) -> int
    decreases m.len(),
{
    if m.len() == 0 {
        -1
    } else if m[0].0@ == k {
        0
    } else {
        let r = member_index(m.drop_first(), k);
        if r < 0 { -1 } else { r + 1 }
    }
}

pub(crate) proof fn lemma_member_index(m: Seq<(String, JsonValue)>, k: Seq<char>)
    ensures
        -1 <= member_index(m, k) < m.len(),
        member_index(m, k) >= 0 ==> m[member_index(m, k)].0@ == k,
        forall|j: int| 0 <= j < m.len() && (j < member_index(m, k) || member_index(m, k) < 0)
            ==> (#[trigger] m[j]).0@ != k,
    decreases m.len(),
{
    if m.len() > 0 && m[0].0@ != k {
        lemma_member_index(m.drop_first(), k);
        assert forall|j: int| 1 <= j < m.len() implies #[trigger] m[j] == m.drop_first()[j - 1] by {}
    }
}


/// The lower-case hex digit of a nibble, as JSON escapes write it.
pub open spec fn nibble_char(n: int) -> char {
    if n < 10 { (('0' as int) + n) as char } else { (('a' as int) + n - 10) as char }
}

/// How a JSON string literal writes the character `c`: quote and backslash
/// escaped, the control characters with a short escape where JSON has
/// one and as `\u00XX` otherwise, every other character as itself.
pub open spec fn json_escape_char(c: char) -> Seq<char> {
    if c == '"' {
        seq!['\\', '"']
    } else if c == '\\' {
        seq!['\\', '\\']
    } else if c == '\u{8}' {
        seq!['\\', 'b']
    } else if c == '\t' {
        seq!['\\', 't']
    } else if c == '\n' {
        seq!['\\', 'n']
    } else if c == '\u{c}' {
        seq!['\\', 'f']
    } else if c == '\r' {
        seq!['\\', 'r']
    } else if (c as int) < 0x20 {
        seq!['\\', 'u', '0', '0', nibble_char((c as int) / 16), nibble_char((c as int) % 16)]
    } else {
        seq![c]
    }
}

/// The escaped characters of `s`, one after another.
pub open spec fn json_escape(s: Seq<char>) -> Seq<char>
    decreases s.len(),
{
    if s.len() == 0 {
        Seq::empty()
    } else {
        json_escape(s.drop_last()) + json_escape_char(s.last())
    }
}

/// `s` as a JSON string literal.
pub open spec fn json_quote(s: Seq<char>) -> Seq<char> {
    seq!['"'] + json_escape(s) + seq!['"']
}

fn nibble_str(n: u32) -> (r: &'static str)
    requires
        n < 16,
    ensures
        r@ == seq![nibble_char(n as int)],
{
    proof {
        reveal_strlit("0"); reveal_strlit("1"); reveal_strlit("2"); reveal_strlit("3");
        reveal_strlit("4"); reveal_strlit("5"); reveal_strlit("6"); reveal_strlit("7");
        reveal_strlit("8"); reveal_strlit("9"); reveal_strlit("a"); reveal_strlit("b");
        reveal_strlit("c"); reveal_strlit("d"); reveal_strlit("e"); reveal_strlit("f");
    }
    if n == 0 { "0" } else if n == 1 { "1" } else if n == 2 { "2" } else if n == 3 { "3" }
    else if n == 4 { "4" } else if n == 5 { "5" } else if n == 6 { "6" } else if n == 7 { "7" }
    else if n == 8 { "8" } else if n == 9 { "9" } else if n == 10 { "a" } else if n == 11 { "b" }
    else if n == 12 { "c" } else if n == 13 { "d" } else if n == 14 { "e" } else { "f" }
}

fn push_escaped(out: &mut String, s: &str, i: usize)
    requires
        i < s@.len() <= usize::MAX,
    ensures
        final(out)@ == old(out)@ + json_escape_char(s@[i as int]),
{
    let c = s.get_char(i);
    proof {
        reveal_strlit("\\\"");
        reveal_strlit("\\\\");
        reveal_strlit("\\b");
        reveal_strlit("\\t");
        reveal_strlit("\\n");
        reveal_strlit("\\f");
        reveal_strlit("\\r");
        reveal_strlit("\\u00");
    }
    if c == '"' {
        out.append("\\\"");
    } else if c == '\\' {
        out.append("\\\\");
    } else if c == '\u{8}' {
        out.append("\\b");
    } else if c == '\t' {
        out.append("\\t");
    } else if c == '\n' {
        out.append("\\n");
    } else if c == '\u{c}' {
        out.append("\\f");
    } else if c == '\r' {
        out.append("\\r");
    } else if (c as u32) < 0x20 {
        let v: u32 = c as u32;
        out.append("\\u00");
        out.append(nibble_str(v / 16));
        out.append(nibble_str(v % 16));
        proof {
            assert(old(out)@ + "\\u00"@ + seq![nibble_char((v / 16) as int)] + seq![nibble_char((v % 16) as int)]
                =~= old(out)@ + json_escape_char(c));
        }
    } else {
        out.append(s.substring_char(i, i + 1));
        proof {
            assert(s@.subrange(i as int, i + 1) =~= seq![c]);
        }
    }
}

/// `s` as a JSON string literal, escaped as `serde_json` writes it.
pub fn json_string_literal(s: &str) -> (r: String)
    ensures
        r@ == json_quote(s@),
{
    proof {
        reveal_strlit("\"");
    }
    let mut out = String::new();
    out.append("\"");
    let n = s.unicode_len();
    let mut i: usize = 0;
    while i < n
        invariant
            n == s@.len(),
            i <= n,
            out@ == seq!['"'] + json_escape(s@.subrange(0, i as int)),
        decreases n - i,
    {
        push_escaped(&mut out, s, i);
        proof {
            let t = s@.subrange(0, i + 1);
            assert(t.drop_last() =~= s@.subrange(0, i as int));
            assert(t.last() == s@[i as int]);
        }
        i = i + 1;
    }
    out.append("\"");
    proof {
        assert(s@.subrange(0, n as int) =~= s@);
    }
    out
}

impl JsonValue {
    /// The value is a number.
    pub open spec fn spec_is_number(&self) -> bool {
        self is PosInt || self is NegInt || self is Float
    }

    /// The value is an integer that fits an `i64`.
    pub open spec fn spec_is_i64(&self) -> bool {
        match self {
            JsonValue::PosInt(u) => *u <= i64::MAX,
            JsonValue::NegInt(_) => true,
            _ => false,
        }
    }

    /// The member `k` of an object.
    pub open spec fn spec_get(&self, k: Seq<char>) -> Option<JsonValue> {
        match self {
            JsonValue::Object(m) => {
                let i = member_index(m@, k);
                if i >= 0 { Some(m@[i].1) } else { None }
            },
            _ => None,
        }
    }

    /// The value is a number.
    pub fn is_number(&self) -> (r: bool)
        ensures
            r == self.spec_is_number(),
    {
        match self {
            JsonValue::PosInt(_) | JsonValue::NegInt(_) | JsonValue::Float(_) => true,
            _ => false,
        }
    }

    /// The value is an integer that fits an `i64`.
    pub fn is_i64(&self) -> (r: bool)
        ensures
            r == self.spec_is_i64(),
    {
        match self {
            JsonValue::PosInt(u) => *u <= 0x7fff_ffff_ffff_ffff,
            JsonValue::NegInt(_) => true,
            _ => false,
        }
    }

    /// The text of a string value.
    pub fn as_str(&self) -> (r: Option<&str>)
        ensures
            match self {
                JsonValue::Str(t) => r is Some && r->0@ == t@,
                _ => r is None,
            },
    {
        match self {
            JsonValue::Str(t) => Some(t.as_str()),
            _ => None,
        }
    }

    /// The value is a string.
    pub fn is_string(&self) -> (r: bool)
        ensures
            r == (self is Str),
    {
        match self {
            JsonValue::Str(_) => true,
            _ => false,
        }
    }

    /// The value is an object with at least one member.
    pub fn is_nonempty_object(&self) -> (r: bool)
        ensures
            r == (self matches JsonValue::Object(m) && m@.len() > 0),
    {
        match self {
            JsonValue::Object(m) => m.len() > 0,
            _ => false,
        }
    }

    /// The member `k` of an object; `None` for a missing key or a non-object.
    pub fn get(&self, k: &str) -> (r: Option<&JsonValue>)
        ensures
            match self.spec_get(k@) {
                Some(v) => r == Some(&v),
                None => r is None,
            },
    {
        match self {
            JsonValue::Object(m) => {
                proof {
                    lemma_member_index(m@, k@);
                }
                let mut i: usize = 0;
                while i < m.len()
                    invariant
                        i <= m@.len(),
                        self.spec_get(k@) == (if member_index(m@, k@) >= 0 { Some(m@[member_index(m@, k@)].1) } else { None }),
                        forall|j: int| 0 <= j < i ==> (#[trigger] m@[j]).0@ != k@,
                        -1 <= member_index(m@, k@) < m@.len(),
                        member_index(m@, k@) >= 0 ==> m@[member_index(m@, k@)].0@ == k@,
                        forall|j: int| 0 <= j < m@.len() && (j < member_index(m@, k@) || member_index(m@, k@) < 0)
                            ==> (#[trigger] m@[j]).0@ != k@,
                    decreases m@.len() - i,
                {
                    if str_eq(m[i].0.as_str(), k) {
                        proof {
                            let mi = member_index(m@, k@);
                            assert(m@[i as int].0@ == k@);
                            if mi < 0 || i < mi {
                                assert(m@[i as int].0@ != k@);
                            }
                            if 0 <= mi && mi < i {
                                assert(m@[mi].0@ != k@);
                            }
                            assert(mi == i);
                            assert(self.spec_get(k@) == Some(m@[i as int].1));
                        }
                        return Some(&m[i].1);
                    }
                    i = i + 1;
                }
                None
            },
            _ => None,
        }
    }
}


/// The value of the first member with key `k` in a member list.
pub open spec fn members_get(m: Seq<(String, JsonValue)>, k: Seq<char>) -> Option<JsonValue> {
    let i = member_index(m, k);
    if i >= 0 { Some(m[i].1) } else { None }
}

/// The member `k` is a string with the text `t`.
pub open spec fn str_is(v: Option<JsonValue>, t: Seq<char>) -> bool {
    v matches Some(JsonValue::Str(s)) && s@ == t
}

/// `member_index` reads only the keys.
proof fn lemma_member_index_keys(m1: Seq<(String, JsonValue)>, m2: Seq<(String, JsonValue)>, k: Seq<char>)
    requires
        m1.len() == m2.len(),
        forall|i: int| 0 <= i < m1.len() ==> (#[trigger] m1[i]).0@ == m2[i].0@,
    ensures
        member_index(m1, k) == member_index(m2, k),
    decreases m1.len(),
{
    if m1.len() > 0 {
        assert(m1[0].0@ == m2[0].0@);
        assert forall|i: int| 0 <= i < m1.drop_first().len() implies
            (#[trigger] m1.drop_first()[i]).0@ == m2.drop_first()[i].0@ by {
            assert(m1[i + 1].0@ == m2[i + 1].0@);
        }
        lemma_member_index_keys(m1.drop_first(), m2.drop_first(), k);
    }
}

proof fn lemma_member_index_push(m: Seq<(String, JsonValue)>, x: (String, JsonValue), k: Seq<char>)
    ensures
        member_index(m.push(x), k) == (if member_index(m, k) >= 0 { member_index(m, k) } else if x.0@ == k { m.len() as int } else { -1 }),
    decreases m.len(),
{
    reveal_with_fuel(member_index, 2);
    if m.len() == 0 {
        assert(m.push(x).drop_first() =~= Seq::<(String, JsonValue)>::empty());
    } else {
        assert(m.push(x)[0] == m[0]);
        assert(m.push(x).drop_first() =~= m.drop_first().push(x));
        lemma_member_index_push(m.drop_first(), x, k);
    }
}

/// Index of the first member with key `k`.
pub fn find_member(m: &Vec<(String, JsonValue)>, k: &str) -> (r: Option<usize>)
    ensures
        match r {
            Some(i) => member_index(m@, k@) == i,
            None => member_index(m@, k@) == -1,
        },
{
    proof {
        lemma_member_index(m@, k@);
    }
    let mut i: usize = 0;
    while i < m.len()
        invariant
            i <= m@.len(),
            forall|j: int| 0 <= j < i ==> (#[trigger] m@[j]).0@ != k@,
            -1 <= member_index(m@, k@) < m@.len(),
            member_index(m@, k@) >= 0 ==> m@[member_index(m@, k@)].0@ == k@,
            forall|j: int| 0 <= j < m@.len() && (j < member_index(m@, k@) || member_index(m@, k@) < 0)
                ==> (#[trigger] m@[j]).0@ != k@,
        decreases m@.len() - i,
    {
        if str_eq(m[i].0.as_str(), k) {
            proof {
                let mi = member_index(m@, k@);
                assert(m@[i as int].0@ == k@);
                if 0 <= mi && mi < i {
                    assert(m@[mi].0@ != k@);
                }
            }
            return Some(i);
        }
        i = i + 1;
    }
    proof {
        let mi = member_index(m@, k@);
        if mi >= 0 {
            assert(m@[mi].0@ != k@);
        }
    }
    None
}

/// Sets the member `k` to `v`: the first member with that key takes the
/// new value, or the member is added at the end. Every other key keeps
/// its value.
pub fn set_member(m: &mut Vec<(String, JsonValue)>, k: &str, v: JsonValue)
    ensures
        members_get(final(m)@, k@) == Some(v),
        forall|k2: Seq<char>| k2 != k@ ==> members_get(final(m)@, k2) == members_get(old(m)@, k2),
{
    proof {
        lemma_member_index(m@, k@);
    }
    let key = crate::text::to_owned_string(k);
    match find_member(m, k) {
        Some(i) => {
            let ghost before = m@;
            m.set(i, (key, v));
            proof {
                lemma_member_index_keys(m@, before, k@);
                assert forall|k2: Seq<char>| k2 != k@ implies members_get(m@, k2) == members_get(before, k2) by {
                    lemma_member_index_keys(m@, before, k2);
                    lemma_member_index(before, k2);
                }
            }
        },
        None => {
            let ghost before = m@;
            m.push((key, v));
            proof {
                lemma_member_index_push(before, (key, v), k@);
                assert forall|k2: Seq<char>| k2 != k@ implies members_get(m@, k2) == members_get(before, k2) by {
                    lemma_member_index_push(before, (key, v), k2);
                    lemma_member_index(before, k2);
                }
            }
        },
    }
}

/// Sets the member `k` to `v` only where the list has no member `k`.
pub fn set_member_if_absent(m: &mut Vec<(String, JsonValue)>, k: &str, v: JsonValue)
    ensures
        members_get(old(m)@, k@) is Some ==> final(m)@ == old(m)@,
        members_get(old(m)@, k@) is None ==> members_get(final(m)@, k@) == Some(v),
        forall|k2: Seq<char>| k2 != k@ ==> members_get(final(m)@, k2) == members_get(old(m)@, k2),
{
    if find_member(m, k).is_none() {
        set_member(m, k, v);
    }
}

/// Removes the first member with key `k` and hands back its value.
pub fn take_member(m: Vec<(String, JsonValue)>, k: &str) -> (r: Option<JsonValue>)
    ensures
        r == members_get(m@, k@),
{
    let mut m = m;
    proof {
        lemma_member_index(m@, k@);
    }
    match find_member(&m, k) {
        Some(i) => {
            let (_, v) = m.remove(i);
            Some(v)
        },
        None => None,
    }
}


/// The keys of a member list are in strictly increasing order, as those
/// of a JSON object backed by a sorted map are.
pub open spec fn keys_sorted(m: Seq<(String, JsonValue)>) -> bool {
    forall|i: int, j: int| 0 <= i < j < m.len() ==> crate::text::text_lt(#[trigger] m[i].0@, #[trigger] m[j].0@)
}

proof fn lemma_member_index_sorted(m: Seq<(String, JsonValue)>, k: Seq<char>)
    requires
        keys_sorted(m),
    ensures
        forall|i: int| 0 <= i < m.len() && #[trigger] m[i].0@ == k ==> member_index(m, k) == i,
        (forall|i: int| 0 <= i < m.len() ==> #[trigger] m[i].0@ != k) ==> member_index(m, k) == -1,
{
    lemma_member_index(m, k);
    assert forall|i: int| 0 <= i < m.len() && #[trigger] m[i].0@ == k implies member_index(m, k) == i by {
        let f = member_index(m, k);
        if f < 0 || i < f {
            assert(m[i].0@ != k);
        } else if f < i {
            assert(crate::text::text_lt(m[f].0@, m[i].0@));
            crate::text::lemma_text_lt_irreflexive(k);
        }
    }
    if forall|i: int| 0 <= i < m.len() ==> #[trigger] m[i].0@ != k {
        if member_index(m, k) >= 0 {
            assert(m[member_index(m, k)].0@ == k);
        }
    }
}

/// Sets the member `k` to `v` in a member list kept in key order, as
/// inserting into a sorted map does: an existing member takes the new
/// value, a new one goes where its key sorts.
pub fn insert_sorted_member(m: &mut Vec<(String, JsonValue)>, k: String, v: JsonValue)
    requires
        keys_sorted(old(m)@),
    ensures
        keys_sorted(final(m)@),
        members_get(final(m)@, k@) == Some(v),
        forall|k2: Seq<char>| k2 != k@ ==> members_get(final(m)@, k2) == members_get(old(m)@, k2),
        final(m)@.len() == old(m)@.len() + (if members_get(old(m)@, k@) is Some { 0int } else { 1int }),
{
    let ghost kv = k@;
    let ghost before = m@;
    let mut p: usize = 0;
    while p < m.len() && crate::text::str_lt(m[p].0.as_str(), k.as_str())
        invariant
            p <= m@.len(),
            m@ == before,
            k@ == kv,
            forall|j: int| 0 <= j < p ==> crate::text::text_lt(#[trigger] m@[j].0@, kv),
        decreases m@.len() - p,
    {
        p = p + 1;
    }
    proof {
        lemma_member_index_sorted(before, kv);
        assert forall|j: int| 0 <= j < before.len() && #[trigger] before[j].0@ != kv && j >= p
            implies crate::text::text_lt(kv, before[j].0@) by {
            crate::text::lemma_text_lt_total(before[p as int].0@, kv);
            if j > p {
                if crate::text::text_lt(before[p as int].0@, kv) {
                } else if before[p as int].0@ == kv {
                } else {
                    crate::text::lemma_text_lt_transitive(kv, before[p as int].0@, before[j].0@);
                }
            }
        }
    }
    let same = p < m.len() && crate::text::str_eq(m[p].0.as_str(), k.as_str());
    if same {
        m.set(p, (k, v));
        proof {
            lemma_member_index_keys(m@, before, kv);
            assert forall|i: int, j: int| 0 <= i < j < m@.len() implies crate::text::text_lt(#[trigger] m@[i].0@, #[trigger] m@[j].0@) by {
                assert(m@[i].0@ == before[i].0@);
                assert(m@[j].0@ == before[j].0@);
            }
            assert forall|k2: Seq<char>| k2 != kv implies members_get(m@, k2) == members_get(before, k2) by {
                lemma_member_index_keys(m@, before, k2);
                lemma_member_index(before, k2);
            }
        }
    } else {
        m.insert(p, (k, v));
        proof {
            let x = m@[p as int];
            assert(x.0@ == kv);
            assert forall|j: int| 0 <= j < before.len() implies #[trigger] before[j].0@ != kv by {
                if j < p {
                    crate::text::lemma_text_lt_irreflexive(kv);
                } else if j == p {
                } else {
                    crate::text::lemma_text_lt_total(before[p as int].0@, kv);
                    crate::text::lemma_text_lt_asymmetric(kv, before[j].0@);
                }
            }
            assert forall|j: int| 0 <= j < m@.len() implies #[trigger] m@[j] == (if j < p { before[j] } else if j == p { x } else { before[j - 1] }) by {}
            assert forall|i: int, j: int| 0 <= i < j < m@.len() implies crate::text::text_lt(#[trigger] m@[i].0@, #[trigger] m@[j].0@) by {
                if j < p {
                } else if i < p && j == p {
                } else if i < p {
                    assert(crate::text::text_lt(before[i].0@, before[j - 1].0@));
                } else if i == p {
                    assert(before[j - 1].0@ != kv);
                } else {
                    assert(crate::text::text_lt(before[i - 1].0@, before[j - 1].0@));
                }
            }
            lemma_member_index_sorted(m@, kv);
            assert(m@[p as int].0@ == kv);
            assert forall|k2: Seq<char>| k2 != kv implies members_get(m@, k2) == members_get(before, k2) by {
                lemma_member_index_sorted(m@, k2);
                lemma_member_index_sorted(before, k2);
                if exists|j: int| 0 <= j < before.len() && #[trigger] before[j].0@ == k2 {
                    let j = choose|j: int| 0 <= j < before.len() && #[trigger] before[j].0@ == k2;
                    if j < p {
                        assert(m@[j].0@ == k2);
                    } else {
                        assert(m@[j + 1].0@ == k2);
                    }
                } else {
                    assert forall|i: int| 0 <= i < m@.len() implies #[trigger] m@[i].0@ != k2 by {
                        if i < p {
                            assert(before[i].0@ != k2);
                        } else if i > p {
                            assert(before[i - 1].0@ != k2);
                        }
                    }
                }
            }
        }
    }
}


/// The member list without the members named `k`, in order.
pub open spec fn without_key(m: Seq<(String, JsonValue)>, k: Seq<char>) -> Seq<(String, JsonValue)>
    decreases m.len(),
{
    if m.len() == 0 {
        seq![]
    } else if m[0].0@ == k {
        without_key(m.drop_first(), k)
    } else {
        seq![m[0]] + without_key(m.drop_first(), k)
    }
}

proof fn lemma_members_get_cons(m: Seq<(String, JsonValue)>, k: Seq<char>)
    requires
        m.len() > 0,
    ensures
        members_get(m, k) == (if m[0].0@ == k { Some(m[0].1) } else { members_get(m.drop_first(), k) }),
{
    if m[0].0@ != k {
        lemma_member_index(m.drop_first(), k);
        let r = member_index(m.drop_first(), k);
        if r >= 0 {
            assert(m[r + 1] == m.drop_first()[r]);
        }
    }
}

proof fn lemma_without_key(m: Seq<(String, JsonValue)>, k: Seq<char>, k2: Seq<char>)
    ensures
        members_get(without_key(m, k), k) is None,
        k2 != k ==> members_get(without_key(m, k), k2) == members_get(m, k2),
    decreases m.len(),
{
    if m.len() > 0 {
        lemma_without_key(m.drop_first(), k, k2);
        lemma_members_get_cons(m, k2);
        lemma_members_get_cons(m, k);
        let w = without_key(m.drop_first(), k);
        if m[0].0@ != k {
            let v = seq![m[0]] + w;
            assert(v.drop_first() =~= w);
            assert(v[0] == m[0]);
            lemma_members_get_cons(v, k2);
            lemma_members_get_cons(v, k);
        }
    }
}

/// Removes every member named `k` from an object's member list.
pub fn remove_member(m: Vec<(String, JsonValue)>, k: &str) -> (r: Vec<(String, JsonValue)>)
    ensures
        r@ == without_key(m@, k@),
        members_get(r@, k@) is None,
        forall|k2: Seq<char>| k2 != k@ ==> members_get(r@, k2) == members_get(m@, k2),
{
    let ghost all = m@;
    let mut rest = m;
    let mut kept: Vec<(String, JsonValue)> = Vec::new();
    let ghost mut taken: int = 0;
    while rest.len() > 0
        invariant
            0 <= taken <= all.len(),
            rest@ =~= all.subrange(taken, all.len() as int),
            kept@ + without_key(rest@, k@) =~= without_key(all, k@),
        decreases rest@.len(),
    {
        let ghost r0 = rest@;
        let x = rest.remove(0);
        proof {
            assert(r0.drop_first() =~= rest@);
            taken = taken + 1;
        }
        if !str_eq(x.0.as_str(), k) {
            let ghost before = kept@;
            kept.push(x);
            assert(kept@ =~= before + seq![x]);
        }
    }
    proof {
        assert forall|k2: Seq<char>| k2 != k@ implies members_get(kept@, k2) == members_get(all, k2) by {
            lemma_without_key(all, k@, k2);
        }
        lemma_without_key(all, k@, k@);
    }
    kept
}

} // verus!
