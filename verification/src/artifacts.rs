//! Content-addressed artifacts: blobs and trees, their hashes, and the
//! checks an upload passes before it is stored.
use vstd::prelude::*;
use vstd::string::{StringSliceAdditionalSpecFns, StrSliceExecFns};
use crate::crypto::{spec_blake3, hex_lower, bytes_to_hex, content_hash_matches, blake3_hex};
use crate::error::{MoteError, validation_error_with};
use crate::json::{JsonValue, json_quote, json_string_literal};
use crate::text::{str_eq, to_owned_string, concat2, concat3};

verus! {

/// One entry of a tree: a named child artifact and its kind.
#[derive(Debug, Clone)]
pub struct TreeEntry {
    pub name: String,
    pub hash: String,
    pub type_: String,
}

/// The stored form of a tree artifact.
#[derive(Debug, Clone)]
pub struct TreeManifest {
    pub entries: Vec<TreeEntry>,
}

/// The body of an artifact sent inline with an atom.
#[derive(Debug, Clone)]
pub enum ArtifactContent {
    Blob { data: Vec<u8> },
    Tree { entries: Vec<TreeEntry> },
}

/// An artifact sent inline with an atom.
#[derive(Debug, Clone)]
pub struct InlineArtifact {
    pub artifact_type: String,
    pub content: ArtifactContent,
    pub media_type: Option<String>,
}

/// The answer to an artifact upload.
#[derive(Debug, Clone)]
pub struct ArtifactUploadResponse {
    pub status: String,
    pub hash: String,
    pub size_bytes: Option<i64>,
}

/// What the hub records about a stored artifact; `uploaded_at` is an
/// RFC 3339 timestamp.
#[derive(Debug, Clone)]
pub struct ArtifactMetadata {
    pub hash: String,
    pub type_: String,
    pub size_bytes: i64,
    pub media_type: Option<String>,
    pub uploaded_by: String,
    pub uploaded_at: String,
}


/// `t` names one of the two kinds of artifact.
pub open spec fn is_artifact_kind(t: Seq<char>) -> bool {
    t == "blob"@ || t == "tree"@
}

fn artifact_kind_ok(t: &str) -> (r: bool)
    ensures
        r == is_artifact_kind(t@),
{
    str_eq(t, "blob") || str_eq(t, "tree")
}

/// The JSON text of one tree entry, as `serde_json` writes the struct.
pub open spec fn entry_json(e: TreeEntry) -> Seq<char> {
    "{\"name\":"@ + json_quote(e.name@) + ",\"hash\":"@ + json_quote(e.hash@)
        + ",\"type_\":"@ + json_quote(e.type_@) + "}"@
}

/// The JSON texts of the entries, separated by commas.
pub open spec fn entries_json(es: Seq<TreeEntry>) -> Seq<char>
    decreases es.len(),
{
    if es.len() == 0 {
        Seq::empty()
    } else if es.len() == 1 {
        entry_json(es[0])
    } else {
        entries_json(es.drop_last()) + ","@ + entry_json(es.last())
    }
}

/// The JSON text of a tree manifest with these entries.
pub open spec fn manifest_json(es: Seq<TreeEntry>) -> Seq<char> {
    "{\"entries\":["@ + entries_json(es) + "]}"@
}

fn entry_json_text(e: &TreeEntry) -> (r: String)
    ensures
        r@ == entry_json(*e),
{
    let mut out = to_owned_string("{\"name\":");
    out.append(json_string_literal(e.name.as_str()).as_str());
    out.append(",\"hash\":");
    out.append(json_string_literal(e.hash.as_str()).as_str());
    out.append(",\"type_\":");
    out.append(json_string_literal(e.type_.as_str()).as_str());
    out.append("}");
    out
}

/// The stored JSON text of a tree manifest.
pub fn tree_manifest_json(entries: &Vec<TreeEntry>) -> (r: String)
    ensures
        r@ == manifest_json(entries@),
{
    let mut body = String::new();
    let mut i: usize = 0;
    while i < entries.len()
        invariant
            i <= entries@.len(),
            body@ == entries_json(entries@.subrange(0, i as int)),
        decreases entries@.len() - i,
    {
        let ghost t = entries@.subrange(0, i + 1);
        assert(t.drop_last() =~= entries@.subrange(0, i as int));
        if i > 0 {
            body.append(",");
        } else {
            assert(entries@.subrange(0, 0).len() == 0);
        }
        body.append(entry_json_text(&entries[i]).as_str());
        i = i + 1;
    }
    assert(entries@.subrange(0, entries@.len() as int) =~= entries@);
    let mut out = to_owned_string("{\"entries\":[");
    out.append(body.as_str());
    out.append("]}");
    out
}

/// The first complaint about the entries of an inline tree, in order: an
/// entry whose kind is neither blob nor tree, or one with an empty name or
/// hash.
pub open spec fn tree_entries_error(es: Seq<TreeEntry>) -> Option<Seq<char>>
    decreases es.len(),
{
    if es.len() == 0 {
        None
    } else if !is_artifact_kind(es[0].type_@) {
        Some("Tree entry "@ + es[0].name@ + " has invalid type: "@ + es[0].type_@)
    } else if es[0].name@.len() == 0 || es[0].hash@.len() == 0 {
        Some("Tree entries must have non-empty name and hash"@)
    } else {
        tree_entries_error(es.drop_first())
    }
}

fn check_tree_entries(entries: &Vec<TreeEntry>) -> (r: Result<(), MoteError>)
    ensures
        r is Ok <==> tree_entries_error(entries@) is None,
        r is Err ==> validation_error_with(r->Err_0, tree_entries_error(entries@)->0),
{
    let mut i: usize = 0;
    assert(entries@.subrange(0, entries@.len() as int) =~= entries@);
    while i < entries.len()
        invariant
            i <= entries@.len(),
            tree_entries_error(entries@) == tree_entries_error(entries@.subrange(i as int, entries@.len() as int)),
        decreases entries@.len() - i,
    {
        let ghost rest = entries@.subrange(i as int, entries@.len() as int);
        assert(rest[0] == entries@[i as int]);
        assert(rest.drop_first() =~= entries@.subrange(i + 1, entries@.len() as int));
        let e = &entries[i];
        if !artifact_kind_ok(e.type_.as_str()) {
            let mut m = concat3("Tree entry ", e.name.as_str(), " has invalid type: ");
            m.append(e.type_.as_str());
            return Err(MoteError::Validation(m));
        }
        if e.name.as_str().is_empty() || e.hash.as_str().is_empty() {
            proof { reveal_strlit("Tree entries must have non-empty name and hash"); }
            return Err(MoteError::Validation(to_owned_string("Tree entries must have non-empty name and hash")));
        }
        i = i + 1;
    }
    assert(entries@.subrange(entries@.len() as int, entries@.len() as int).len() == 0);
    Ok(())
}

/// What an inline artifact is stored as: its content hash and its bytes.
/// A blob is its data; a tree is the JSON text of its manifest.
pub open spec fn inline_artifact_outcome(a: InlineArtifact) -> Result<(Seq<char>, Seq<u8>), Seq<char>> {
    if !is_artifact_kind(a.artifact_type@) {
        Err("artifact_type must be 'blob' or 'tree'"@)
    } else {
        match a.content {
            ArtifactContent::Blob { data } => Ok((hex_lower(spec_blake3(data@)), data@)),
            ArtifactContent::Tree { entries } => {
                match tree_entries_error(entries@) {
                    Some(m) => Err(m),
                    None => {
                        let bytes = vstd::utf8::encode_utf8(manifest_json(entries@));
                        Ok((hex_lower(spec_blake3(bytes)), bytes))
                    },
                }
            },
        }
    }
}

/// The content hash and stored bytes of an inline artifact, or the
/// validation error that refuses it.
pub fn prepare_inline_artifact(artifact: &InlineArtifact) -> (r: Result<(String, Vec<u8>), MoteError>)
    ensures
        match inline_artifact_outcome(*artifact) {
            Ok((h, b)) => r is Ok && r->Ok_0.0@ == h && r->Ok_0.1@ == b,
            Err(m) => r is Err && validation_error_with(r->Err_0, m),
        },
{
    if !artifact_kind_ok(artifact.artifact_type.as_str()) {
        proof { reveal_strlit("artifact_type must be 'blob' or 'tree'"); }
        return Err(MoteError::Validation(to_owned_string("artifact_type must be 'blob' or 'tree'")));
    }
    match &artifact.content {
        ArtifactContent::Blob { data } => {
            let hash = blake3_hex(data.as_slice());
            Ok((hash, data.clone()))
        },
        ArtifactContent::Tree { entries } => {
            match check_tree_entries(entries) {
                Ok(()) => {},
                Err(e) => { return Err(e); },
            }
            let manifest = tree_manifest_json(entries);
            let bytes = manifest.as_str().as_bytes_vec();
            let hash = blake3_hex(bytes.as_slice());
            Ok((hash, bytes))
        },
    }
}

/// The per-agent storage quota for inline blobs, in bytes.
pub const INLINE_STORAGE_LIMIT: u64 = 10485760;

/// An inline blob of `content_size` bytes fits beside the `total_storage`
/// bytes the agent already stores, within [`INLINE_STORAGE_LIMIT`].
pub fn check_agent_storage(total_storage: i64, content_size: u64) -> (r: Result<(), MoteError>)
    requires
        total_storage >= 0,
        total_storage + content_size <= u64::MAX,
    ensures
        r is Ok <==> total_storage + content_size <= INLINE_STORAGE_LIMIT,
        r is Err ==> validation_error_with(r->Err_0, "Agent storage limit exceeded"@),
{
    if (total_storage as u64) + content_size > INLINE_STORAGE_LIMIT {
        proof { reveal_strlit("Agent storage limit exceeded"); }
        Err(MoteError::Validation(to_owned_string("Agent storage limit exceeded")))
    } else {
        Ok(())
    }
}

/// The media type recorded for an artifact: a blob keeps the one it was
/// sent with, a tree has none.
pub fn stored_media_type(artifact_type: &str, media_type: Option<String>) -> (r: Option<String>)
    ensures
        artifact_type@ == "blob"@ ==> r == media_type,
        artifact_type@ != "blob"@ ==> r is None,
{
    if str_eq(artifact_type, "blob") { media_type } else { None }
}

/// The headers an upload must carry, checked in order: the artifact kind
/// (400 when missing), the agent id and the signature (401 when missing),
/// then the kind's value (400 unless blob or tree).
pub fn check_upload_headers(
    artifact_type: Option<&str>,
    agent_id: Option<&str>,
    signature: Option<&str>,
) -> (r: Result<(), u16>)
    ensures
        artifact_type is None ==> r == Err::<(), u16>(400),
        artifact_type is Some && agent_id is None ==> r == Err::<(), u16>(401),
        artifact_type is Some && agent_id is Some && signature is None ==> r == Err::<(), u16>(401),
        artifact_type is Some && agent_id is Some && signature is Some ==>
            (r is Ok <==> is_artifact_kind(artifact_type->0@)) && (r is Err ==> r == Err::<(), u16>(400)),
{
    let t = match artifact_type {
        Some(t) => t,
        None => { return Err(400); },
    };
    if agent_id.is_none() {
        return Err(401);
    }
    if signature.is_none() {
        return Err(401);
    }
    if !artifact_kind_ok(t) {
        return Err(400);
    }
    Ok(())
}

/// An agent that published `count` atoms in the last hour may upload while
/// that is below `max_per_hour`; otherwise 429.
pub fn check_upload_rate(count: i64, max_per_hour: usize) -> (r: Result<(), u16>)
    requires
        count >= 0,
    ensures
        r is Ok <==> count < max_per_hour,
        r is Err ==> r == Err::<(), u16>(429),
{
    if count as u64 >= max_per_hour as u64 { Err(429) } else { Ok(()) }
}

/// The body's BLAKE3 hex must equal the address it is uploaded under
/// (400 otherwise).
pub fn check_upload_hash(hash: &str, body: &[u8]) -> (r: Result<(), u16>)
    ensures
        r is Ok <==> hex_lower(spec_blake3(body@)) == hash@,
        r is Err ==> r == Err::<(), u16>(400),
{
    if content_hash_matches(body, hash) { Ok(()) } else { Err(400) }
}

/// A blob upload fits the per-blob limit and, with what the agent already
/// stores, the per-agent limit; 413 otherwise.
pub fn check_blob_size(body_size: u64, max_blob_bytes: u64) -> (r: Result<(), u16>)
    ensures
        r is Ok <==> body_size <= max_blob_bytes,
        r is Err ==> r == Err::<(), u16>(413),
{
    if body_size > max_blob_bytes { Err(413) } else { Ok(()) }
}

/// The blob fits beside what the agent already stores (413 otherwise).
pub fn check_blob_storage(total_storage: i64, body_size: u64, max_storage_bytes: u64) -> (r: Result<(), u16>)
    requires
        total_storage >= 0,
        total_storage + body_size <= u64::MAX,
    ensures
        r is Ok <==> total_storage + body_size <= max_storage_bytes,
        r is Err ==> r == Err::<(), u16>(413),
{
    if (total_storage as u64) + body_size > max_storage_bytes { Err(413) } else { Ok(()) }
}

/// The member `key` of `v` is a string.
pub open spec fn has_str_member(v: JsonValue, key: Seq<char>) -> bool {
    v.spec_get(key) matches Some(JsonValue::Str(_))
}

/// The text of the string member `key` of `v`.
pub open spec fn str_member(v: JsonValue, key: Seq<char>) -> Seq<char> {
    match v.spec_get(key) {
        Some(JsonValue::Str(t)) => t@,
        _ => Seq::empty(),
    }
}

/// An uploaded tree manifest is an array whose every entry has string
/// members `name`, `hash` and `type`, the type blob or tree and the name
/// and hash non-empty.
pub open spec fn tree_manifest_valid(v: JsonValue) -> bool {
    &&& v is Array
    &&& forall|i: int| 0 <= i < v->Array_0@.len() ==> manifest_entry_valid(#[trigger] v->Array_0@[i])
}

/// One entry of an uploaded manifest passes the checks.
pub open spec fn manifest_entry_valid(e: JsonValue) -> bool {
    &&& has_str_member(e, "name"@)
    &&& has_str_member(e, "hash"@)
    &&& has_str_member(e, "type"@)
    &&& is_artifact_kind(str_member(e, "type"@))
    &&& str_member(e, "name"@).len() > 0
    &&& str_member(e, "hash"@).len() > 0
}

fn str_member_of<'a>(v: &'a JsonValue, key: &str) -> (r: Option<&'a str>)
    ensures
        r is Some <==> has_str_member(*v, key@),
        r is Some ==> r->0@ == str_member(*v, key@),
{
    match v.get(key) {
        Some(m) => m.as_str(),
        None => None,
    }
}

fn manifest_entry_ok(e: &JsonValue) -> (r: bool)
    ensures
        r == manifest_entry_valid(*e),
{
    let name = match str_member_of(e, "name") { Some(n) => n, None => { return false; } };
    let hash = match str_member_of(e, "hash") { Some(h) => h, None => { return false; } };
    let t = match str_member_of(e, "type") { Some(t) => t, None => { return false; } };
    artifact_kind_ok(t) && !name.is_empty() && !hash.is_empty()
}

/// Whether an uploaded tree manifest passes the checks (400 otherwise).
pub fn validate_tree_manifest(manifest: &JsonValue) -> (r: bool)
    ensures
        r == tree_manifest_valid(*manifest),
{
    match manifest {
        JsonValue::Array(items) => {
            let mut i: usize = 0;
            while i < items.len()
                invariant
                    i <= items@.len(),
                    *manifest == JsonValue::Array(*items),
                    forall|k: int| 0 <= k < i ==> manifest_entry_valid(#[trigger] items@[k]),
                decreases items@.len() - i,
            {
                if !manifest_entry_ok(&items[i]) {
                    assert(!manifest_entry_valid(items@[i as int]));
                    assert(manifest->Array_0@[i as int] == items@[i as int]);
                    return false;
                }
                i = i + 1;
            }
            true
        },
        _ => false,
    }
}

/// The `Content-Type` an artifact is served with: a blob's recorded media
/// type or `application/octet-stream`, and `application/json` for a tree.
pub fn artifact_content_type(artifact_type: &str, media_type: Option<String>) -> (r: String)
    ensures
        artifact_type@ == "blob"@ ==> r@ == (match media_type {
            Some(m) => m@,
            None => "application/octet-stream"@,
        }),
        artifact_type@ != "blob"@ ==> r@ == "application/json"@,
{
    if str_eq(artifact_type, "blob") {
        match media_type {
            Some(m) => m,
            None => to_owned_string("application/octet-stream"),
        }
    } else {
        to_owned_string("application/json")
    }
}

/// The entry a stored manifest lists, each field the string member of that
/// name or empty.
pub open spec fn listed_entry(e: JsonValue) -> (Seq<char>, Seq<char>, Seq<char>) {
    (str_member(e, "name"@), str_member(e, "hash"@), str_member(e, "type"@))
}

/// The entries of a stored tree manifest; `None` when it is not an array.
pub fn tree_entries_from_manifest(manifest: &JsonValue) -> (r: Option<Vec<TreeEntry>>)
    ensures
        r is Some <==> manifest is Array,
        r is Some ==> r->0@.len() == manifest->Array_0@.len()
            && forall|i: int| 0 <= i < r->0@.len() ==>
                ((#[trigger] r->0@[i]).name@, r->0@[i].hash@, r->0@[i].type_@) == listed_entry(manifest->Array_0@[i]),
{
    match manifest {
        JsonValue::Array(items) => {
            let mut out: Vec<TreeEntry> = Vec::new();
            let mut i: usize = 0;
            while i < items.len()
                invariant
                    i <= items@.len(),
                    out@.len() == i,
                    forall|k: int| 0 <= k < i ==>
                        ((#[trigger] out@[k]).name@, out@[k].hash@, out@[k].type_@) == listed_entry(items@[k]),
                decreases items@.len() - i,
            {
                let e = &items[i];
                let name = match str_member_of(e, "name") { Some(n) => to_owned_string(n), None => String::new() };
                let hash = match str_member_of(e, "hash") { Some(n) => to_owned_string(n), None => String::new() };
                let t = match str_member_of(e, "type") { Some(n) => to_owned_string(n), None => String::new() };
                out.push(TreeEntry { name, hash, type_: t });
                i = i + 1;
            }
            Some(out)
        },
        _ => None,
    }
}

/// The hash the first entry named `segment` points to (empty when that
/// entry has no string hash); `None` when no entry has that name; `Err`
/// with 500 when the manifest is not an array.
pub fn find_manifest_entry(manifest: &JsonValue, segment: &str) -> (r: Result<Option<String>, u16>)
    ensures
        !(manifest is Array) ==> r == Err::<Option<String>, u16>(500),
        manifest is Array ==> r is Ok && match r->Ok_0 {
            Some(h) => exists|i: int| 0 <= i < manifest->Array_0@.len()
                && str_member(#[trigger] manifest->Array_0@[i], "name"@) == segment@
                && h@ == str_member(manifest->Array_0@[i], "hash"@)
                && forall|j: int| 0 <= j < i ==> str_member(#[trigger] manifest->Array_0@[j], "name"@) != segment@,
            None => forall|i: int| 0 <= i < manifest->Array_0@.len()
                ==> str_member(#[trigger] manifest->Array_0@[i], "name"@) != segment@,
        },
{
    match manifest {
        JsonValue::Array(items) => {
            let mut i: usize = 0;
            while i < items.len()
                invariant
                    i <= items@.len(),
                    *manifest == JsonValue::Array(*items),
                    forall|j: int| 0 <= j < i ==> str_member(#[trigger] items@[j], "name"@) != segment@,
                decreases items@.len() - i,
            {
                let e = &items[i];
                proof { reveal_strlit(""); }
                let name = match str_member_of(e, "name") { Some(n) => n, None => "" };
                assert(name@ == str_member(items@[i as int], "name"@));
                if str_eq(name, segment) {
                    let hash = match str_member_of(e, "hash") { Some(h) => to_owned_string(h), None => String::new() };
                    assert(hash@ == str_member(items@[i as int], "hash"@));
                    assert(str_member(items@[i as int], "name"@) == segment@);
                    assert(manifest->Array_0@ == items@);
                    return Ok(Some(hash));
                }
                i = i + 1;
            }
            Ok(None)
        },
        _ => Err(500),
    }
}

/// The non-empty segments of a path, split at `/`, in order.
pub open spec fn path_segments(p: Seq<char>) -> Seq<Seq<char>>
    decreases p.len(),
{
    segments_from(p, 0, 0)
}

/// The non-empty segments of `p` from position `i`, the current one
/// starting at `start`.
pub open spec fn segments_from(p: Seq<char>, start: int, i: int) -> Seq<Seq<char>>
    decreases p.len() - i,
{
    if i >= p.len() || i < 0 || start < 0 || start > i {
        if 0 <= start < p.len() { seq![p.subrange(start, p.len() as int)] } else { Seq::empty() }
    } else if p[i] == '/' {
        let rest = segments_from(p, i + 1, i + 1);
        if start < i { seq![p.subrange(start, i)] + rest } else { rest }
    } else {
        segments_from(p, start, i + 1)
    }
}

/// The non-empty `/`-separated segments of a path.
pub fn split_path_segments(path: &str) -> (r: Vec<String>)
    ensures
        r@.map_values(|s: String| s@) == path_segments(path@),
{
    let n = path.unicode_len();
    let mut out: Vec<String> = Vec::new();
    let mut start: usize = 0;
    let mut i: usize = 0;
    while i < n
        invariant
            n == path@.len(),
            start <= i <= n,
            out@.map_values(|s: String| s@) + segments_from(path@, start as int, i as int) == path_segments(path@),
        decreases n - i,
    {
        if path.get_char(i) == '/' {
            if start < i {
                let seg = to_owned_string(path.substring_char(start, i));
                let ghost before = out@.map_values(|s: String| s@);
                out.push(seg);
                assert(out@.map_values(|s: String| s@) =~= before.push(path@.subrange(start as int, i as int)));
                assert(before.push(path@.subrange(start as int, i as int)) + segments_from(path@, i + 1, i + 1)
                    =~= before + (seq![path@.subrange(start as int, i as int)] + segments_from(path@, i + 1, i + 1)));
            }
            start = i + 1;
        }
        i = i + 1;
    }
    if start < n {
        let seg = to_owned_string(path.substring_char(start, n));
        let ghost before = out@.map_values(|s: String| s@);
        out.push(seg);
        assert(out@.map_values(|s: String| s@) =~= before.push(path@.subrange(start as int, n as int)));
    } else {
        assert(out@.map_values(|s: String| s@) + Seq::<Seq<char>>::empty() =~= out@.map_values(|s: String| s@));
    }
    out
}

} // verus!
