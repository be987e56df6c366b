//! Reading the events an agent streams while it works (one JSON object per
//! line) into what the command-line tool shows of them.
use vstd::prelude::*;
use vstd::string::StrSliceExecFns;
use vstd::utf8::{encode_utf8, decode_utf8, is_char_boundary};
use crate::json::{JsonValue, str_is};
use crate::text::{to_owned_string, str_eq, str_contains, occurs_at, char_index, find_char};
use crate::mcp::{starts_with, ends_with};

verus! {

broadcast use vstd::utf8::encode_utf8_decode_utf8;

/// How an event is shown.
#[derive(Debug)]
pub enum StreamEvent {
    /// The texts of an assistant message, in order.
    Assistant(Vec<String>),
    /// A tool call, described in one line.
    ToolUse(String),
    /// The final report of a run; its cost is read from the event itself.
    Result,
    /// Anything else, which is not shown.
    Other,
}

/// The texts of the `text` items of a message's content, in order.
pub open spec fn text_items(s: Seq<JsonValue>) -> Seq<Seq<char>>
    decreases s.len(),
{
    if s.len() == 0 {
        seq![]
    } else {
        let r = text_items(s.drop_last());
        let item = s.last();
        if str_is(item.spec_get("type"@), "text"@) && item.spec_get("text"@) is Some && item.spec_get("text"@)->0 is Str {
            r.push(item.spec_get("text"@)->0->Str_0@)
        } else {
            r
        }
    }
}

/// The member `k` of an optional value (missing when the value is).
pub open spec fn field(v: Option<JsonValue>, k: Seq<char>) -> Option<JsonValue> {
    match v {
        Some(x) => x.spec_get(k),
        None => None,
    }
}

/// The text of a string member.
pub open spec fn str_of(v: Option<JsonValue>) -> Option<Seq<char>> {
    match v {
        Some(JsonValue::Str(s)) => Some(s@),
        _ => None,
    }
}

/// The first line of a text, as `str::lines` yields it (its `\n` or `\r\n`
/// ending removed), or the whole text when it has no line break.
pub open spec fn first_line(s: Seq<char>) -> Seq<char> {
    let i = char_index(s, '\n');
    if i < 0 {
        s
    } else {
        let l = s.subrange(0, i);
        if l.len() > 0 && l.last() == '\r' { l.drop_last() } else { l }
    }
}

/// The first `n` bytes of the text's UTF-8 encoding, read back as text.
pub open spec fn byte_prefix(s: Seq<char>, n: nat) -> Seq<char> {
    decode_utf8(encode_utf8(s).subrange(0, n as int))
}

/// A command shown in one line: its first line, cut to its first 120 bytes
/// and an ellipsis when longer.
pub open spec fn shown_command(c: Seq<char>) -> Seq<char> {
    let l = first_line(c);
    if encode_utf8(l).len() > 120 { byte_prefix(l, 120) + "…"@ } else { l }
}

/// A detail text cut to its first 80 bytes.
pub open spec fn shown_detail(s: Seq<char>) -> Seq<char> {
    if encode_utf8(s).len() > 80 { byte_prefix(s, 80) } else { s }
}

/// A pair of underscores starts at `j`.
pub open spec fn sep_at(s: Seq<char>, j: int) -> bool {
    0 <= j && j + 1 < s.len() && s[j] == '_' && s[j + 1] == '_'
}

/// Index of the first `__` in `s`, or -1.
pub open spec fn first_sep(s: Seq<char>) -> int
    decreases s.len(),
{
    if s.len() < 2 {
        -1
    } else if s[0] == '_' && s[1] == '_' {
        0
    } else {
        let r = first_sep(s.drop_first());
        if r < 0 { -1 } else { r + 1 }
    }
}

/// The last piece of `s` split at `__`, as `split("__").last()` gives it.
pub open spec fn last_piece(s: Seq<char>) -> Seq<char>
    decreases s.len(),
{
    let i = first_sep(s);
    if i < 0 {
        s
    } else {
        proof { lemma_first_sep(s); }
        last_piece(s.subrange(i + 2, s.len() as int))
    }
}

/// A shell tool: `Bash`, `bash`, or a name ending in `__bash`.
pub open spec fn is_shell_tool(name: Seq<char>) -> bool {
    name == "Bash"@ || name == "bash"@ || ends_with(name, "__bash"@)
}

/// A file tool: its name contains `Read`, `Write`, `Edit`, `Glob` or `Grep`.
pub open spec fn is_file_tool(name: Seq<char>) -> bool {
    (exists|i: int| occurs_at(name, "Read"@, i)) || (exists|i: int| occurs_at(name, "Write"@, i))
        || (exists|i: int| occurs_at(name, "Edit"@, i)) || (exists|i: int| occurs_at(name, "Glob"@, i))
        || (exists|i: int| occurs_at(name, "Grep"@, i))
}

/// The tool's name, `?` when the event has none.
pub open spec fn tool_name_of(v: JsonValue) -> Seq<char> {
    match str_of(v.spec_get("name"@)) {
        Some(n) => n,
        None => "?"@,
    }
}

/// The text that a detail of a tool call is taken from: the statement,
/// the query or the hypothesis, the first there is.
pub open spec fn detail_source(input: Option<JsonValue>) -> Option<Seq<char>> {
    if str_of(field(input, "statement"@)) is Some {
        str_of(field(input, "statement"@))
    } else if str_of(field(input, "query"@)) is Some {
        str_of(field(input, "query"@))
    } else {
        str_of(field(input, "hypothesis"@))
    }
}

/// The line shown for a tool call.
pub open spec fn tool_line(v: JsonValue) -> Seq<char> {
    let name = tool_name_of(v);
    let input = v.spec_get("input"@);
    if is_shell_tool(name) {
        match str_of(field(input, "command"@)) {
            Some(c) => "$ "@ + shown_command(c),
            None => "Bash"@,
        }
    } else if is_file_tool(name) {
        let path = if str_of(field(input, "file_path"@)) is Some {
            str_of(field(input, "file_path"@))->0
        } else if str_of(field(input, "pattern"@)) is Some {
            str_of(field(input, "pattern"@))->0
        } else if str_of(field(input, "path"@)) is Some {
            str_of(field(input, "path"@))->0
        } else {
            "?"@
        };
        last_piece(name) + " "@ + path
    } else {
        let short = if starts_with(name, "mcp__asenix__"@) { name.subrange(13, name.len() as int) } else { name };
        let detail = match detail_source(input) {
            Some(d) => ": \""@ + shown_detail(d) + "\""@,
            None => match str_of(field(input, "domain"@)) {
                Some(d) => " ["@ + d + "]"@,
                None => seq![],
            },
        };
        short + detail
    }
}

/// Where a tool call's line cuts a text by bytes, the cut falls between
/// characters.
pub open spec fn cuts_fall_between_chars(v: JsonValue) -> bool {
    let name = tool_name_of(v);
    let input = v.spec_get("input"@);
    str_is(v.spec_get("type"@), "tool_use"@) ==> {
        &&& (is_shell_tool(name) && str_of(field(input, "command"@)) is Some) ==> {
            let l = first_line(str_of(field(input, "command"@))->0);
            encode_utf8(l).len() > 120 ==> is_char_boundary(encode_utf8(l), 120)
        }
        &&& (!is_shell_tool(name) && !is_file_tool(name) && detail_source(input) is Some) ==> {
            let d = detail_source(input)->0;
            encode_utf8(d).len() > 80 ==> is_char_boundary(encode_utf8(d), 80)
        }
    }
}

/// How an event is shown.
pub open spec fn shown_event(v: JsonValue, e: StreamEvent) -> bool {
    if str_is(v.spec_get("type"@), "assistant"@) {
        e matches StreamEvent::Assistant(texts) && texts@.map_values(|t: String| t@) == match field(v.spec_get("message"@), "content"@) {
            Some(JsonValue::Array(items)) => text_items(items@),
            _ => seq![],
        }
    } else if str_is(v.spec_get("type"@), "tool_use"@) {
        e matches StreamEvent::ToolUse(line) && line@ == tool_line(v)
    } else if str_is(v.spec_get("type"@), "result"@) {
        e is Result
    } else {
        e is Other
    }
}

fn str_field<'a>(v: Option<&'a JsonValue>, k: &str) -> (r: Option<&'a str>)
    ensures
        match v {
            Some(x) => match str_of(x.spec_get(k@)) {
                Some(s) => r is Some && r->0@ == s,
                None => r is None,
            },
            None => r is None,
        },
{
    match v {
        Some(x) => match x.get(k) {
            Some(JsonValue::Str(s)) => Some(s.as_str()),
            _ => None,
        },
        None => None,
    }
}

fn type_is(v: &JsonValue, t: &str) -> (r: bool)
    ensures
        r == str_is(v.spec_get("type"@), t@),
{
    match v.get("type") {
        Some(JsonValue::Str(s)) => str_eq(s.as_str(), t),
        _ => false,
    }
}

fn first_line_of<'a>(s: &'a str) -> (r: &'a str)
    ensures
        r@ == first_line(s@),
{
    proof { crate::text::lemma_char_index(s@, '\n'); }
    match find_char(s, '\n') {
        None => s,
        Some(i) => {
            if i > 0 && s.get_char(i - 1) == '\r' {
                s.substring_char(0, i - 1)
            } else {
                s.substring_char(0, i)
            }
        },
    }
}

/// The first `n` bytes of `s`; the cut must fall between characters.
fn byte_cut<'a>(s: &'a str, n: usize) -> (r: &'a str)
    requires
        n <= encode_utf8(s@).len(),
        is_char_boundary(encode_utf8(s@), n as int),
    ensures
        r@ == byte_prefix(s@, n as nat),
{
    let (head, _) = s.split_at(n);
    proof {
        vstd::utf8::encode_utf8_decode_utf8(head@);
    }
    head
}

pub proof fn lemma_first_sep(s: Seq<char>)
    ensures
        -1 <= first_sep(s) < s.len(),
        first_sep(s) >= 0 ==> sep_at(s, first_sep(s)),
        forall|j: int| 0 <= j < s.len() && (j < first_sep(s) || first_sep(s) < 0) ==> !sep_at(s, j),
    decreases s.len(),
{
    if s.len() >= 2 && !(s[0] == '_' && s[1] == '_') {
        lemma_first_sep(s.drop_first());
        assert forall|j: int| 1 <= j < s.len() && (j < first_sep(s) || first_sep(s) < 0) implies !sep_at(s, j) by {
            assert(sep_at(s, j) == sep_at(s.drop_first(), j - 1));
        }
    }
}

fn last_piece_of<'a>(s: &'a str) -> (r: &'a str)
    ensures
        r@ == last_piece(s@),
{
    let n = s.unicode_len();
    let mut start: usize = 0;
    let mut i: usize = 0;
    assert(s@.subrange(0, n as int) =~= s@);
    while n > 0 && i < n - 1
        invariant
            n == s@.len(),
            start <= i <= n,
            last_piece(s@) == last_piece(s@.subrange(start as int, n as int)),
            forall|j: int| start <= j < i ==> !sep_at(s@, j),
        decreases n - i,
    {
        if s.get_char(i) == '_' && s.get_char(i + 1) == '_' {
            proof {
                let t = s@.subrange(start as int, n as int);
                lemma_first_sep(t);
                let f = first_sep(t);
                assert forall|j: int| 0 <= j < t.len() implies sep_at(t, j) == sep_at(s@, j + start) by {}
                assert(sep_at(t, i - start));
                if f < 0 || f > i - start {
                    assert(!sep_at(t, i - start));
                }
                if 0 <= f && f < i - start {
                    assert(!sep_at(s@, f + start));
                }
                assert(f == i - start);
                assert(t.subrange(f + 2, t.len() as int) =~= s@.subrange(i + 2, n as int));
            }
            start = i + 2;
            i = i + 2;
        } else {
            i = i + 1;
        }
    }
    proof {
        let t = s@.subrange(start as int, n as int);
        lemma_first_sep(t);
        let f = first_sep(t);
        if f >= 0 {
            assert(sep_at(s@, f + start));
        }
    }
    s.substring_char(start, n)
}

pub fn ends_with_str(s: &str, p: &str) -> (r: bool)
    ensures
        r == ends_with(s@, p@),
{
    let n = s.unicode_len();
    let m = p.unicode_len();
    if m > n {
        false
    } else {
        str_eq(s.substring_char(n - m, n), p)
    }
}

pub fn starts_with_str(s: &str, p: &str) -> (r: bool)
    ensures
        r == starts_with(s@, p@),
{
    let n = s.unicode_len();
    let m = p.unicode_len();
    if m > n {
        false
    } else {
        str_eq(s.substring_char(0, m), p)
    }
}

fn tool_use_line(v: &JsonValue) -> (r: String)
    requires
        str_is(v.spec_get("type"@), "tool_use"@),
        cuts_fall_between_chars(*v),
    ensures
        r@ == tool_line(*v),
{
    let name: &str = match v.get("name") {
        Some(JsonValue::Str(n)) => n.as_str(),
        _ => "?",
    };
    let input = v.get("input");
    let shell = str_eq(name, "Bash") || str_eq(name, "bash") || ends_with_str(name, "__bash");
    if shell {
        match str_field(input, "command") {
            Some(c) => {
                let l = first_line_of(c);
                let mut r = to_owned_string("$ ");
                if l.as_bytes().len() > 120 {
                    let cut = byte_cut(l, 120);
                    r.append(cut);
                    r.append("…");
                    assert(r@ =~= "$ "@ + (cut@ + "…"@));
                } else {
                    r.append(l);
                }
                r
            },
            None => to_owned_string("Bash"),
        }
    } else if str_contains(name, "Read") || str_contains(name, "Write") || str_contains(name, "Edit")
        || str_contains(name, "Glob") || str_contains(name, "Grep") {
        let path: &str = match str_field(input, "file_path") {
            Some(p) => p,
            None => match str_field(input, "pattern") {
                Some(p) => p,
                None => match str_field(input, "path") {
                    Some(p) => p,
                    None => "?",
                },
            },
        };
        let mut r = to_owned_string(last_piece_of(name));
        r.append(" ");
        r.append(path);
        r
    } else {
        proof { reveal_strlit("mcp__asenix__"); }
        let n = name.unicode_len();
        let short: &str = if starts_with_str(name, "mcp__asenix__") { name.substring_char(13, n) } else { name };
        let mut r = to_owned_string(short);
        let src: Option<&str> = match str_field(input, "statement") {
            Some(s) => Some(s),
            None => match str_field(input, "query") {
                Some(s) => Some(s),
                None => str_field(input, "hypothesis"),
            },
        };
        match src {
            Some(d) => {
                r.append(": \"");
                let shown: &str = if d.as_bytes().len() > 80 { byte_cut(d, 80) } else { d };
                r.append(shown);
                r.append("\"");
                assert(r@ =~= short@ + (": \""@ + shown@ + "\""@));
            },
            None => match str_field(input, "domain") {
                Some(d) => {
                    r.append(" [");
                    r.append(d);
                    r.append("]");
                    assert(r@ =~= short@ + (" ["@ + d@ + "]"@));
                },
                None => {
                    assert(r@ =~= short@ + Seq::<char>::empty());
                },
            },
        }
        r
    }
}

fn assistant_texts(v: &JsonValue) -> (r: Vec<String>)
    ensures
        r@.map_values(|t: String| t@) == match field(v.spec_get("message"@), "content"@) {
            Some(JsonValue::Array(items)) => text_items(items@),
            _ => seq![],
        },
{
    let mut out: Vec<String> = Vec::new();
    let content = match v.get("message") {
        Some(m) => m.get("content"),
        None => None,
    };
    match content {
        Some(JsonValue::Array(items)) => {
            let mut i: usize = 0;
            while i < items.len()
                invariant
                    i <= items@.len(),
                    out@.map_values(|t: String| t@) == text_items(items@.subrange(0, i as int)),
                decreases items@.len() - i,
            {
                assert(items@.subrange(0, i + 1).drop_last() =~= items@.subrange(0, i as int));
                let item = &items[i];
                if type_is(item, "text") {
                    match item.get("text") {
                        Some(JsonValue::Str(t)) => {
                            let ghost before = out@;
                            out.push(t.clone());
                            assert(out@.map_values(|t: String| t@) =~= before.map_values(|t: String| t@).push(t@));
                        },
                        _ => {},
                    }
                }
                i = i + 1;
            }
            assert(items@.subrange(0, items@.len() as int) =~= items@);
        },
        _ => {
            assert(out@.map_values(|t: String| t@) =~= Seq::<Seq<char>>::empty());
        },
    }
    out
}

/// Whether every cut that showing the event makes by bytes falls between
/// characters (where one would not, cutting the text panics).
pub fn stream_event_cuts_ok(v: &JsonValue) -> (r: bool)
    ensures
        r == cuts_fall_between_chars(*v),
{
    if !type_is(v, "tool_use") {
        return true;
    }
    let name: &str = match v.get("name") {
        Some(JsonValue::Str(n)) => n.as_str(),
        _ => "?",
    };
    let input = v.get("input");
    if str_eq(name, "Bash") || str_eq(name, "bash") || ends_with_str(name, "__bash") {
        match str_field(input, "command") {
            Some(c) => {
                let l = first_line_of(c);
                l.as_bytes().len() <= 120 || l.is_char_boundary(120)
            },
            None => true,
        }
    } else if str_contains(name, "Read") || str_contains(name, "Write") || str_contains(name, "Edit")
        || str_contains(name, "Glob") || str_contains(name, "Grep") {
        true
    } else {
        let src: Option<&str> = match str_field(input, "statement") {
            Some(s) => Some(s),
            None => match str_field(input, "query") {
                Some(s) => Some(s),
                None => str_field(input, "hypothesis"),
            },
        };
        match src {
            Some(d) => d.as_bytes().len() <= 80 || d.is_char_boundary(80),
            None => true,
        }
    }
}

/// What is shown of an agent's stream event: an assistant message's
/// texts, one line for a tool call, the final report, or nothing.
pub fn describe_stream_event(v: &JsonValue) -> (r: StreamEvent)
    requires
        cuts_fall_between_chars(*v),
    ensures
        shown_event(*v, r),
{
    if type_is(v, "assistant") {
        StreamEvent::Assistant(assistant_texts(v))
    } else if type_is(v, "tool_use") {
        StreamEvent::ToolUse(tool_use_line(v))
    } else if type_is(v, "result") {
        StreamEvent::Result
    } else {
        StreamEvent::Other
    }
}

} // verus!
