//! The Model Context Protocol endpoint: protocol versions, the checks on
//! request headers, and the resources the hub lists.
use vstd::prelude::*;
use vstd::string::StrSliceExecFns;
use crate::text::{str_eq, to_owned_string, concat2, trim, trim_str, str_contains, occurs_at,
    eq_ignore_ascii_case, str_eq_ignore_ascii_case};
use crate::error::validation_error_with;

verus! {

/// The protocol version the hub speaks by default.
pub open spec fn current_protocol_version() -> Seq<char> {
    "2025-11-25"@
}

/// The older protocol version the hub still accepts.
pub open spec fn fallback_protocol_version() -> Seq<char> {
    "2025-03-26"@
}

/// The hub speaks protocol version `v`.
pub open spec fn is_supported_version(v: Seq<char>) -> bool {
    v == current_protocol_version() || v == fallback_protocol_version()
}

fn supported_version(v: &str) -> (r: bool)
    ensures
        r == is_supported_version(v@),
{
    str_eq(v, "2025-11-25") || str_eq(v, "2025-03-26")
}

/// The version the hub answers an initialize with: the client's when the
/// hub supports it, its current one otherwise.
pub fn negotiate_protocol_version<'a>(client_protocol_version: &'a str) -> (r: &'a str)
    ensures
        is_supported_version(client_protocol_version@) ==> r@ == client_protocol_version@,
        !is_supported_version(client_protocol_version@) ==> r@ == current_protocol_version(),
{
    if supported_version(client_protocol_version) {
        client_protocol_version
    } else {
        "2025-11-25"
    }
}

/// The media types an `Accept` header lists: its comma-separated parts,
/// trimmed, without the empty ones; `start` is where the current part
/// began and `i` the position reached.
pub open spec fn accept_parts_from(s: Seq<char>, start: int, i: int) -> Seq<Seq<char>>
    decreases s.len() - i,
{
    if i >= s.len() || i < 0 || start < 0 || start > i {
        if 0 <= start <= s.len() && trim(s.subrange(start, s.len() as int)).len() > 0 {
            seq![trim(s.subrange(start, s.len() as int))]
        } else {
            Seq::empty()
        }
    } else if s[i] == ',' {
        let rest = accept_parts_from(s, i + 1, i + 1);
        if trim(s.subrange(start, i)).len() > 0 { seq![trim(s.subrange(start, i))] + rest } else { rest }
    } else {
        accept_parts_from(s, start, i + 1)
    }
}

/// The media types an `Accept` header lists.
pub open spec fn accept_parts(s: Seq<char>) -> Seq<Seq<char>> {
    accept_parts_from(s, 0, 0)
}

/// Splits an `Accept` header at commas, trims each part and drops the
/// empty ones.
pub fn parse_accept_header<'a>(header_value: &'a str) -> (r: Vec<&'a str>)
    ensures
        r@.map_values(|p: &str| p@) == accept_parts(header_value@),
{
    let n = header_value.unicode_len();
    let mut out: Vec<&'a str> = Vec::new();
    let mut start: usize = 0;
    let mut i: usize = 0;
    while i < n
        invariant
            n == header_value@.len(),
            start <= i <= n,
            out@.map_values(|p: &str| p@) + accept_parts_from(header_value@, start as int, i as int)
                == accept_parts(header_value@),
        decreases n - i,
    {
        if header_value.get_char(i) == ',' {
            let part = trim_str(header_value.substring_char(start, i));
            if part.unicode_len() > 0 {
                let ghost before = out@.map_values(|p: &str| p@);
                out.push(part);
                assert(out@.map_values(|p: &str| p@) =~= before.push(part@));
                assert(before.push(part@) + accept_parts_from(header_value@, i + 1, i + 1)
                    =~= before + (seq![part@] + accept_parts_from(header_value@, i + 1, i + 1)));
            }
            start = i + 1;
        }
        i = i + 1;
    }
    let part = trim_str(header_value.substring_char(start, n));
    if part.unicode_len() > 0 {
        let ghost before = out@.map_values(|p: &str| p@);
        out.push(part);
        assert(out@.map_values(|p: &str| p@) =~= before.push(part@));
    } else {
        assert(out@.map_values(|p: &str| p@) + Seq::<Seq<char>>::empty() =~= out@.map_values(|p: &str| p@));
    }
    out
}

/// Some listed media type equals `required` up to ASCII case.
pub open spec fn lists_media_type(media_types: Seq<&str>, required: Seq<char>) -> bool {
    exists|i: int| 0 <= i < media_types.len() && eq_ignore_ascii_case((#[trigger] media_types[i])@, required)
}

/// Whether one of the media types equals `required`, ignoring ASCII case.
pub fn has_accept_media_type(media_types: &[&str], required: &str) -> (r: bool)
    ensures
        r == lists_media_type(media_types@, required@),
{
    let mut i: usize = 0;
    while i < media_types.len()
        invariant
            i <= media_types@.len(),
            forall|k: int| 0 <= k < i ==> !eq_ignore_ascii_case((#[trigger] media_types@[k])@, required@),
        decreases media_types@.len() - i,
    {
        if str_eq_ignore_ascii_case(media_types[i], required) {
            return true;
        }
        i = i + 1;
    }
    false
}

/// A request header as the hub sees it: absent, present but not visible
/// ASCII, or present with its text.
pub enum HeaderText<'a> {
    Absent,
    NotText,
    Text(&'a str),
}

/// A header check that failed: the HTTP status and the message.
pub open spec fn header_error(r: Result<(), (u16, String)>, status: u16, msg: Seq<char>) -> bool {
    r matches Err((s, m)) && s == status && m@ == msg
}

fn header_err(status: u16, msg: String) -> (r: Result<(), (u16, String)>)
    ensures
        header_error(r, status, msg@),
{
    Err((status, msg))
}

/// Some allowed origin equals `o`.
pub open spec fn origin_listed(allowed: Seq<&str>, o: Seq<char>) -> bool {
    exists|i: int| 0 <= i < allowed.len() && (#[trigger] allowed[i])@ == o
}

/// The `Origin` header: absent is fine; otherwise it must be text (400)
/// and one of the allowed origins (403, `"Origin not allowed: <origin>"`).
pub fn validate_origin(origin: HeaderText, allowed_origins: &[&str]) -> (r: Result<(), (u16, String)>)
    ensures
        origin is Absent ==> r is Ok,
        origin is NotText ==> header_error(r, 400, "Invalid Origin header"@),
        origin matches HeaderText::Text(o) ==> (origin_listed(allowed_origins@, o@) ==> r is Ok)
            && (!origin_listed(allowed_origins@, o@) ==> header_error(r, 403, "Origin not allowed: "@ + o@)),
{
    match origin {
        HeaderText::Absent => Ok(()),
        HeaderText::NotText => header_err(400, to_owned_string("Invalid Origin header")),
        HeaderText::Text(o) => {
            let mut i: usize = 0;
            while i < allowed_origins.len()
                invariant
                    i <= allowed_origins@.len(),
                    origin == HeaderText::Text(o),
                    forall|k: int| 0 <= k < i ==> (#[trigger] allowed_origins@[k])@ != o@,
                decreases allowed_origins@.len() - i,
            {
                if str_eq(allowed_origins[i], o) {
                    return Ok(());
                }
                i = i + 1;
            }
            header_err(403, concat2("Origin not allowed: ", o))
        },
    }
}

/// The `Accept` header of a POST: absent is fine; otherwise it must be
/// text (400), and accept anything (`*/*`), JSON or an event stream (400).
pub fn validate_post_accept_header(accept: HeaderText) -> (r: Result<(), (u16, String)>)
    ensures
        accept is Absent ==> r is Ok,
        accept is NotText ==> header_error(r, 400, "Invalid Accept header"@),
        accept matches HeaderText::Text(a) ==> {
            let ok = (exists|i: int| occurs_at(a@, "*/*"@, i))
                || lists_media_type_seq(accept_parts(a@), "application/json"@)
                || lists_media_type_seq(accept_parts(a@), "text/event-stream"@);
            (ok ==> r is Ok) && (!ok ==> header_error(r, 400,
                "Accept header must include application/json or text/event-stream"@))
        },
{
    match accept {
        HeaderText::Absent => Ok(()),
        HeaderText::NotText => header_err(400, to_owned_string("Invalid Accept header")),
        HeaderText::Text(a) => {
            if str_contains(a, "*/*") {
                return Ok(());
            }
            let media_types = parse_accept_header(a);
            let json = has_accept_media_type(media_types.as_slice(), "application/json");
            let sse = has_accept_media_type(media_types.as_slice(), "text/event-stream");
            proof {
                lemma_lists_media_type_views(media_types@, "application/json"@);
                lemma_lists_media_type_views(media_types@, "text/event-stream"@);
            }
            if json || sse {
                Ok(())
            } else {
                header_err(400, to_owned_string("Accept header must include application/json or text/event-stream"))
            }
        },
    }
}

/// Some text of `parts` equals `required` up to ASCII case.
pub open spec fn lists_media_type_seq(parts: Seq<Seq<char>>, required: Seq<char>) -> bool {
    exists|i: int| 0 <= i < parts.len() && eq_ignore_ascii_case(#[trigger] parts[i], required)
}

proof fn lemma_lists_media_type_views(media: Seq<&str>, required: Seq<char>)
    ensures
        lists_media_type(media, required) == lists_media_type_seq(media.map_values(|p: &str| p@), required),
{
    let views = media.map_values(|p: &str| p@);
    if lists_media_type(media, required) {
        let i = choose|i: int| 0 <= i < media.len() && eq_ignore_ascii_case((#[trigger] media[i])@, required);
        assert(views[i] == media[i]@);
    }
    if lists_media_type_seq(views, required) {
        let i = choose|i: int| 0 <= i < views.len() && eq_ignore_ascii_case(#[trigger] views[i], required);
        assert(views[i] == media[i]@);
    }
}

/// The `MCP-Protocol-Version` header: absent is fine; otherwise it must be
/// text, a supported version, and the expected one when there is one (400
/// in each case).
pub fn validate_protocol_version_header(version: HeaderText, expected_version: Option<&str>) -> (r: Result<(), (u16, String)>)
    ensures
        version is Absent ==> r is Ok,
        version is NotText ==> header_error(r, 400, "Invalid MCP-Protocol-Version header"@),
        version matches HeaderText::Text(v) ==> {
            &&& !is_supported_version(v@) ==> header_error(r, 400, "Unsupported MCP-Protocol-Version: "@ + v@)
            &&& is_supported_version(v@) && expected_version is Some && expected_version->0@ != v@
                ==> header_error(r, 400, "Protocol version mismatch: expected "@ + expected_version->0@ + ", got "@ + v@)
            &&& is_supported_version(v@) && (expected_version is None || expected_version->0@ == v@) ==> r is Ok
        },
{
    match version {
        HeaderText::Absent => Ok(()),
        HeaderText::NotText => header_err(400, to_owned_string("Invalid MCP-Protocol-Version header")),
        HeaderText::Text(v) => {
            if !supported_version(v) {
                return header_err(400, concat2("Unsupported MCP-Protocol-Version: ", v));
            }
            match expected_version {
                Some(e) => {
                    if !str_eq(v, e) {
                        let mut m = concat2("Protocol version mismatch: expected ", e);
                        m.append(", got ");
                        m.append(v);
                        return header_err(400, m);
                    }
                    Ok(())
                },
                None => Ok(()),
            }
        },
    }
}

/// A resource the hub serves at a fixed URI.
#[derive(Debug, Clone)]
pub struct Resource {
    pub uri: String,
    pub name: String,
    pub description: String,
    pub mime_type: String,
}

/// A family of resources addressed by a URI template.
#[derive(Debug, Clone)]
pub struct ResourceTemplate {
    pub uri_template: String,
    pub name: String,
    pub description: String,
    pub mime_type: String,
}

/// The answer to `resources/list`.
#[derive(Debug, Clone)]
pub struct ResourcesListResult {
    pub resources: Vec<Resource>,
}

/// The answer to `resources/templates/list`.
#[derive(Debug, Clone)]
pub struct ResourceTemplatesListResult {
    pub templates: Vec<ResourceTemplate>,
}

/// One piece of content of a read resource.
#[derive(Debug, Clone)]
pub struct ResourceContent {
    pub uri: String,
    pub mime_type: String,
    pub text: String,
}

/// The answer to `resources/read`.
#[derive(Debug, Clone)]
pub struct ResourceReadResult {
    pub contents: Vec<ResourceContent>,
}

/// The four texts of a resource or template, in declaration order.
pub open spec fn resource_texts(r: Resource) -> (Seq<char>, Seq<char>, Seq<char>, Seq<char>) {
    (r.uri@, r.name@, r.description@, r.mime_type@)
}

/// The four texts of a template, in declaration order.
pub open spec fn template_texts(t: ResourceTemplate) -> (Seq<char>, Seq<char>, Seq<char>, Seq<char>) {
    (t.uri_template@, t.name@, t.description@, t.mime_type@)
}

/// The resources at fixed URIs: the field map of every domain.
pub fn get_concrete_resources() -> (r: ResourcesListResult)
    ensures
        r.resources@.len() == 1,
        resource_texts(r.resources@[0]) == ("fieldmap://all"@, "Full Research Field Map"@,
            "Synthesis atoms across all domains"@, "application/json"@),
{
    let mut resources: Vec<Resource> = Vec::new();
    resources.push(Resource {
        uri: to_owned_string("fieldmap://all"),
        name: to_owned_string("Full Research Field Map"),
        description: to_owned_string("Synthesis atoms across all domains"),
        mime_type: to_owned_string("application/json"),
    });
    ResourcesListResult { resources }
}

fn template(uri_template: &str, name: &str, description: &str) -> (r: ResourceTemplate)
    ensures
        template_texts(r) == (uri_template@, name@, description@, "application/json"@),
{
    ResourceTemplate {
        uri_template: to_owned_string(uri_template),
        name: to_owned_string(name),
        description: to_owned_string(description),
        mime_type: to_owned_string("application/json"),
    }
}

/// The resource templates: a single atom, an artifact's metadata, and the
/// field map of one domain.
pub fn get_resource_templates() -> (r: ResourceTemplatesListResult)
    ensures
        r.templates@.len() == 3,
        template_texts(r.templates@[0]) == ("atom://{atom_id}"@, "Research Atom"@,
            "A single atom from the knowledge graph"@, "application/json"@),
        template_texts(r.templates@[1]) == ("artifact://{hash}/meta"@, "Artifact Metadata"@,
            "Metadata for a content-addressed artifact"@, "application/json"@),
        template_texts(r.templates@[2]) == ("fieldmap://{domain}"@, "Research Field Map"@,
            "Synthesis atoms representing current research state for a domain"@, "application/json"@),
{
    let mut templates: Vec<ResourceTemplate> = Vec::new();
    templates.push(template("atom://{atom_id}", "Research Atom", "A single atom from the knowledge graph"));
    templates.push(template("artifact://{hash}/meta", "Artifact Metadata", "Metadata for a content-addressed artifact"));
    templates.push(template("fieldmap://{domain}", "Research Field Map",
        "Synthesis atoms representing current research state for a domain"));
    ResourceTemplatesListResult { templates }
}


/// What a resource URI addresses.
pub enum ResourceTarget<'a> {
    Atom(&'a str),
    ArtifactMeta(&'a str),
    FieldMap(Option<&'a str>),
}

/// `p` begins `s`.
pub open spec fn starts_with(s: Seq<char>, p: Seq<char>) -> bool {
    p.len() <= s.len() && s.subrange(0, p.len() as int) == p
}

/// `p` ends `s`.
pub open spec fn ends_with(s: Seq<char>, p: Seq<char>) -> bool {
    p.len() <= s.len() && s.subrange(s.len() - p.len(), s.len() as int) == p
}

fn prefix_len(s: &str, p: &str) -> (r: Option<usize>)
    ensures
        r is Some <==> starts_with(s@, p@),
        r is Some ==> r->0 == p@.len(),
{
    let n = s.unicode_len();
    let m = p.unicode_len();
    if m > n {
        return None;
    }
    let mut i: usize = 0;
    while i < m
        invariant
            n == s@.len(),
            m == p@.len(),
            m <= n,
            i <= m,
            forall|k: int| 0 <= k < i ==> s@[k] == p@[k],
        decreases m - i,
    {
        if s.get_char(i) != p.get_char(i) {
            proof {
                assert(s@.subrange(0, m as int)[i as int] != p@[i as int]);
            }
            return None;
        }
        i = i + 1;
    }
    assert(s@.subrange(0, m as int) =~= p@);
    Some(m)
}

fn has_suffix(s: &str, p: &str) -> (r: bool)
    ensures
        r == ends_with(s@, p@),
{
    let n = s.unicode_len();
    let m = p.unicode_len();
    if m > n {
        return false;
    }
    let mut i: usize = 0;
    while i < m
        invariant
            n == s@.len(),
            m == p@.len(),
            m <= n,
            i <= m,
            forall|k: int| 0 <= k < i ==> s@[n - m + k] == p@[k],
        decreases m - i,
    {
        if s.get_char(n - m + i) != p.get_char(i) {
            proof {
                assert(s@.subrange(n - m, n as int)[i as int] != p@[i as int]);
            }
            return false;
        }
        i = i + 1;
    }
    assert(s@.subrange(n - m, n as int) =~= p@);
    true
}

/// Which resource a URI names: `atom://<id>`, `artifact://<hash>/meta`, or
/// `fieldmap://<domain>` (`all` for every domain); any other URI is a
/// validation error `"Unsupported resource URI: <uri>"`.
pub fn resource_target<'a>(uri: &'a str) -> (r: Result<ResourceTarget<'a>, crate::error::MoteError>)
    ensures
        starts_with(uri@, "atom://"@) ==> (r matches Ok(ResourceTarget::Atom(id))
            && id@ == uri@.subrange(7, uri@.len() as int)),
        !starts_with(uri@, "atom://"@) && starts_with(uri@, "artifact://"@) && ends_with(uri@, "/meta"@)
            && uri@.len() >= 16 ==> (r matches Ok(ResourceTarget::ArtifactMeta(h))
            && h@ == uri@.subrange(11, uri@.len() - 5)),
        !starts_with(uri@, "atom://"@) && starts_with(uri@, "artifact://"@) && ends_with(uri@, "/meta"@)
            && uri@.len() < 16 ==> r is Err
            && crate::error::validation_error_with(r->Err_0, "Invalid artifact URI"@),
        !starts_with(uri@, "atom://"@) && !(starts_with(uri@, "artifact://"@) && ends_with(uri@, "/meta"@))
            && starts_with(uri@, "fieldmap://"@) ==> (r matches Ok(ResourceTarget::FieldMap(d))
            && (uri@.subrange(11, uri@.len() as int) == "all"@ ==> d is None)
            && (uri@.subrange(11, uri@.len() as int) != "all"@ ==> d is Some
                && d->0@ == uri@.subrange(11, uri@.len() as int))),
        !starts_with(uri@, "atom://"@) && !(starts_with(uri@, "artifact://"@) && ends_with(uri@, "/meta"@))
            && !starts_with(uri@, "fieldmap://"@) ==> r is Err
            && crate::error::validation_error_with(r->Err_0, "Unsupported resource URI: "@ + uri@),
{
    proof {
        reveal_strlit("atom://");
        reveal_strlit("artifact://");
        reveal_strlit("/meta");
        reveal_strlit("fieldmap://");
    }
    let n = uri.unicode_len();
    if let Some(k) = prefix_len(uri, "atom://") {
        return Ok(ResourceTarget::Atom(uri.substring_char(k, n)));
    }
    if let Some(k) = prefix_len(uri, "artifact://") {
        if has_suffix(uri, "/meta") {
            if k <= n - 5 {
                return Ok(ResourceTarget::ArtifactMeta(uri.substring_char(k, n - 5)));
            }
            return Err(crate::error::MoteError::Validation(to_owned_string("Invalid artifact URI")));
        }
    }
    if let Some(k) = prefix_len(uri, "fieldmap://") {
        let d = uri.substring_char(k, n);
        if str_eq(d, "all") {
            return Ok(ResourceTarget::FieldMap(None));
        }
        return Ok(ResourceTarget::FieldMap(Some(d)));
    }
    Err(crate::error::MoteError::Validation(concat2("Unsupported resource URI: ", uri)))
}

/// The `Debug` text of a list of strings, as `format!("{:?}", list)`
/// writes it.
pub uninterp spec fn spec_debug_texts(items: Seq<Seq<char>>) -> Seq<char>;

/// `format!("{:?}", items)`: the `Debug` text of a list of strings.
#[verifier::external_body]
fn debug_texts(items: &[&str]) -> (r: String)
    ensures
        r@ == spec_debug_texts(items@.map_values(|s: &str| s@)),
{
    format!("{:?}", items)
}

/// The `Origin` check of the streaming endpoint's `initialize`: the header
/// must be present, text, and one of the allowed origins; each failure is
/// a validation error, the last one listing the allowed origins.
pub fn check_origin(origin: HeaderText, allowed_origins: &[&str]) -> (r: Result<(), crate::error::MoteError>)
    ensures
        origin is Absent ==> r is Err && validation_error_with(r->Err_0, "Missing Origin header"@),
        origin is NotText ==> r is Err && validation_error_with(r->Err_0, "Invalid Origin header"@),
        origin matches HeaderText::Text(o) ==> (origin_listed(allowed_origins@, o@) ==> r is Ok)
            && (!origin_listed(allowed_origins@, o@) ==> r is Err && validation_error_with(r->Err_0,
                "Origin not allowed: "@ + o@ + ". Allowed: "@
                    + spec_debug_texts(allowed_origins@.map_values(|s: &str| s@)))),
{
    match origin {
        HeaderText::Absent => Err(crate::error::MoteError::Validation(to_owned_string("Missing Origin header"))),
        HeaderText::NotText => Err(crate::error::MoteError::Validation(to_owned_string("Invalid Origin header"))),
        HeaderText::Text(o) => {
            let mut i: usize = 0;
            while i < allowed_origins.len()
                invariant
                    i <= allowed_origins@.len(),
                    origin == HeaderText::Text(o),
                    forall|k: int| 0 <= k < i ==> (#[trigger] allowed_origins@[k])@ != o@,
                decreases allowed_origins@.len() - i,
            {
                if str_eq(allowed_origins[i], o) {
                    return Ok(());
                }
                i = i + 1;
            }
            let listed = debug_texts(allowed_origins);
            let mut m = concat2("Origin not allowed: ", o);
            m.append(". Allowed: ");
            m.append(listed.as_str());
            Err(crate::error::MoteError::Validation(m))
        },
    }
}

/// The `Accept` check of the streaming endpoint's `initialize`: the header
/// must be present, text, and mention `application/json` or
/// `text/event-stream`; each failure is a validation error.
pub fn check_accept(accept: HeaderText) -> (r: Result<(), crate::error::MoteError>)
    ensures
        accept is Absent ==> r is Err && validation_error_with(r->Err_0, "Missing Accept header"@),
        accept is NotText ==> r is Err && validation_error_with(r->Err_0, "Invalid Accept header"@),
        accept matches HeaderText::Text(a) ==> {
            let ok = (exists|i: int| occurs_at(a@, "application/json"@, i))
                || (exists|i: int| occurs_at(a@, "text/event-stream"@, i));
            (ok ==> r is Ok) && (!ok ==> r is Err && validation_error_with(r->Err_0,
                "Accept header must include both application/json and text/event-stream. Got: "@ + a@))
        },
{
    match accept {
        HeaderText::Absent => Err(crate::error::MoteError::Validation(to_owned_string("Missing Accept header"))),
        HeaderText::NotText => Err(crate::error::MoteError::Validation(to_owned_string("Invalid Accept header"))),
        HeaderText::Text(a) => {
            if str_contains(a, "application/json") || str_contains(a, "text/event-stream") {
                Ok(())
            } else {
                Err(crate::error::MoteError::Validation(
                    concat2("Accept header must include both application/json and text/event-stream. Got: ", a)))
            }
        },
    }
}

} // verus!
