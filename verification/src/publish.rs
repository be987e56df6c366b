//! Reading the parameters of the JSON-RPC methods: how an agent
//! authenticates, the atoms it publishes, and the filters and fields of the
//! other calls.
use vstd::prelude::*;
use vstd::string::StringSliceAdditionalSpecFns;
use crate::atom::{AtomType, atom_type_name};
use crate::artifacts::{has_str_member, str_member};
use crate::crypto::{hex_to_bytes, hex_decodable, hex_decoded};
use crate::error::{MoteError, validation_error_with};
use crate::json::JsonValue;
use crate::rpc::{present_member, refers_to};
use crate::text::to_owned_string;

verus! {

/// How a request authenticates: by the agent's API token, or by an Ed25519
/// signature of its parameters.
pub enum AuthRequest<'a> {
    Token { agent_id: &'a str, api_token: &'a str },
    Signature { agent_id: &'a str, signature: &'a str },
}

/// The credentials of a mutating call, read from its parameters: a string
/// `agent_id`, then a string `api_token` when that member is present and not
/// `null`, otherwise a string `signature`. Each missing or mistyped member
/// is a validation error with its own message.
pub fn auth_request<'a>(params: Option<&'a JsonValue>) -> (r: Result<AuthRequest<'a>, MoteError>)
    ensures
        params is None ==> r is Err && validation_error_with(r->Err_0, "Missing params"@),
        params matches Some(p) ==> {
            if !has_str_member(*p, "agent_id"@) {
                r is Err && validation_error_with(r->Err_0, "agent_id field required"@)
            } else if present_member(*p, "api_token"@) is Some {
                if has_str_member(*p, "api_token"@) {
                    r matches Ok(AuthRequest::Token { agent_id, api_token })
                        && agent_id@ == str_member(*p, "agent_id"@) && api_token@ == str_member(*p, "api_token"@)
                } else {
                    r is Err && validation_error_with(r->Err_0, "api_token must be a string"@)
                }
            } else if has_str_member(*p, "signature"@) {
                r matches Ok(AuthRequest::Signature { agent_id, signature })
                    && agent_id@ == str_member(*p, "agent_id"@) && signature@ == str_member(*p, "signature"@)
            } else {
                r is Err && validation_error_with(r->Err_0, "api_token or signature field required"@)
            }
        },
{
    let p = match params {
        Some(p) => p,
        None => { return Err(MoteError::Validation(to_owned_string("Missing params"))); },
    };
    let agent_id = match str_of(p, "agent_id") {
        Some(a) => a,
        None => { return Err(MoteError::Validation(to_owned_string("agent_id field required"))); },
    };
    let token = match p.get("api_token") {
        Some(JsonValue::Null) => None,
        other => other,
    };
    if token.is_some() {
        return match str_of(p, "api_token") {
            Some(t) => Ok(AuthRequest::Token { agent_id, api_token: t }),
            None => Err(MoteError::Validation(to_owned_string("api_token must be a string"))),
        };
    }
    match str_of(p, "signature") {
        Some(s) => Ok(AuthRequest::Signature { agent_id, signature: s }),
        None => Err(MoteError::Validation(to_owned_string("api_token or signature field required"))),
    }
}

fn str_of<'a>(v: &'a JsonValue, k: &str) -> (r: Option<&'a str>)
    ensures
        r is Some <==> has_str_member(*v, k@),
        r is Some ==> r->0@ == str_member(*v, k@),
{
    match v.get(k) {
        Some(m) => m.as_str(),
        None => None,
    }
}

/// The `atoms` of a publish call; anything but an array (a missing member
/// included) is a validation error.
pub fn publish_atoms_list<'a>(params: Option<&'a JsonValue>) -> (r: Result<&'a Vec<JsonValue>, MoteError>)
    ensures
        params is None ==> r is Err && validation_error_with(r->Err_0, "Missing params"@),
        params matches Some(p) ==> match p.spec_get("atoms"@) {
            Some(JsonValue::Array(items)) => r is Ok && *r->Ok_0 == items,
            _ => r is Err && validation_error_with(r->Err_0, "atoms must be an array"@),
        },
{
    let p = match params {
        Some(p) => p,
        None => { return Err(MoteError::Validation(to_owned_string("Missing params"))); },
    };
    match p.get("atoms") {
        Some(JsonValue::Array(items)) => Ok(items),
        _ => Err(MoteError::Validation(to_owned_string("atoms must be an array"))),
    }
}

/// The fields of one atom of a publish call. Absent or `null` conditions,
/// provenance and metrics are `None` (the first two then stand for an empty
/// object).
pub struct AtomFields<'a> {
    pub atom_type: AtomType,
    pub domain: &'a str,
    pub statement: &'a str,
    pub conditions: Option<&'a JsonValue>,
    pub provenance: Option<&'a JsonValue>,
    pub metrics: Option<&'a JsonValue>,
    pub artifact_tree_hash: Option<&'a str>,
    pub signature: Vec<u8>,
}

/// The bytes of a JSON array of integers 0..=255, if it is one.
pub open spec fn byte_array(items: Seq<JsonValue>) -> Option<Seq<u8>> {
    if forall|i: int| 0 <= i < items.len() ==> (#[trigger] items[i] matches JsonValue::PosInt(u) && u <= 255) {
        Some(items.map_values(|x: JsonValue| (x->PosInt_0) as u8))
    } else {
        None
    }
}

/// The signature stored with an atom: the bytes a hex string spells, the
/// bytes of an array of byte values, and nothing otherwise (an absent,
/// `null`, malformed or mistyped signature).
pub open spec fn atom_signature(v: JsonValue) -> Seq<u8> {
    match v.spec_get("signature"@) {
        Some(JsonValue::Str(s)) => {
            let b = vstd::utf8::encode_utf8(s@);
            if hex_decodable(b) { hex_decoded(b) } else { Seq::empty() }
        },
        Some(JsonValue::Array(items)) => match byte_array(items@) {
            Some(b) => b,
            None => Seq::empty(),
        },
        _ => Seq::empty(),
    }
}

fn signature_bytes(v: &JsonValue) -> (r: Vec<u8>)
    ensures
        r@ == atom_signature(*v),
{
    match v.get("signature") {
        Some(JsonValue::Str(s)) => {
            match hex_to_bytes(s.as_str()) {
                Ok(b) => b,
                Err(_) => Vec::new(),
            }
        },
        Some(JsonValue::Array(items)) => {
            let mut out: Vec<u8> = Vec::new();
            let mut i: usize = 0;
            while i < items.len()
                invariant
                    i <= items@.len(),
                    v.spec_get("signature"@) == Some(JsonValue::Array(*items)),
                    out@.len() == i,
                    forall|k: int| 0 <= k < i ==> (#[trigger] items@[k] matches JsonValue::PosInt(u) && u <= 255)
                        && out@[k] == (items@[k]->PosInt_0) as u8,
                decreases items@.len() - i,
            {
                match &items[i] {
                    JsonValue::PosInt(u) => {
                        if *u > 255 {
                            assert(!(items@[i as int] matches JsonValue::PosInt(u) && u <= 255));
                            assert(byte_array(items@) is None);
                            return Vec::new();
                        }
                        out.push(*u as u8);
                    },
                    _ => {
                        assert(!(items@[i as int] matches JsonValue::PosInt(u) && u <= 255));
                        assert(byte_array(items@) is None);
                        return Vec::new();
                    },
                }
                i = i + 1;
            }
            proof {
                assert(out@ =~= items@.map_values(|x: JsonValue| (x->PosInt_0) as u8));
            }
            out
        },
        _ => Vec::new(),
    }
}

/// The first complaint about an atom of a publish call, in the order the
/// members are read: the type (present, then known), the domain, the
/// statement.
pub open spec fn atom_fields_error(v: JsonValue) -> Option<Seq<char>> {
    if !has_str_member(v, "atom_type"@) {
        Some("atom_type field required"@)
    } else if forall|t: AtomType| atom_type_name(t) != str_member(v, "atom_type"@) {
        Some("Unknown atom type: "@ + str_member(v, "atom_type"@))
    } else if !has_str_member(v, "domain"@) {
        Some("domain field required"@)
    } else if !has_str_member(v, "statement"@) {
        Some("statement field required"@)
    } else {
        None
    }
}

/// Reads one atom of a publish call.
pub fn parse_publish_atom<'a>(atom_value: &'a JsonValue) -> (r: Result<AtomFields<'a>, MoteError>)
    ensures
        atom_fields_error(*atom_value) is Some ==> r is Err
            && validation_error_with(r->Err_0, atom_fields_error(*atom_value)->0),
        atom_fields_error(*atom_value) is None ==> r is Ok && {
            let f = r->Ok_0;
            &&& atom_type_name(f.atom_type) == str_member(*atom_value, "atom_type"@)
            &&& f.domain@ == str_member(*atom_value, "domain"@)
            &&& f.statement@ == str_member(*atom_value, "statement"@)
            &&& refers_to(f.conditions, present_member(*atom_value, "conditions"@))
            &&& refers_to(f.provenance, present_member(*atom_value, "provenance"@))
            &&& refers_to(f.metrics, present_member(*atom_value, "metrics"@))
            &&& (f.artifact_tree_hash is Some <==> has_str_member(*atom_value, "artifact_tree_hash"@))
            &&& (f.artifact_tree_hash is Some ==> f.artifact_tree_hash->0@ == str_member(*atom_value, "artifact_tree_hash"@))
            &&& f.signature@ == atom_signature(*atom_value)
        },
{
    let kind_text = match str_of(atom_value, "atom_type") {
        Some(t) => t,
        None => { return Err(MoteError::Validation(to_owned_string("atom_type field required"))); },
    };
    let atom_type = match AtomType::parse(kind_text) {
        Ok(t) => t,
        Err(e) => { return Err(e); },
    };
    let domain = match str_of(atom_value, "domain") {
        Some(d) => d,
        None => { return Err(MoteError::Validation(to_owned_string("domain field required"))); },
    };
    let conditions = present_of(atom_value, "conditions");
    let provenance = present_of(atom_value, "provenance");
    let metrics = present_of(atom_value, "metrics");
    let artifact_tree_hash = str_of(atom_value, "artifact_tree_hash");
    let signature = signature_bytes(atom_value);
    let statement = match str_of(atom_value, "statement") {
        Some(s) => s,
        None => { return Err(MoteError::Validation(to_owned_string("statement field required"))); },
    };
    Ok(AtomFields { atom_type, domain, statement, conditions, provenance, metrics, artifact_tree_hash, signature })
}

fn present_of<'a>(v: &'a JsonValue, k: &str) -> (r: Option<&'a JsonValue>)
    ensures
        refers_to(r, present_member(*v, k@)),
{
    match v.get(k) {
        Some(JsonValue::Null) => None,
        other => other,
    }
}

/// Findings and negative results are evidence: publishing one looks for
/// contradictions.
pub fn is_evidence(t: AtomType) -> (r: bool)
    ensures
        r == (t is Finding || t is NegativeResult),
{
    match t {
        AtomType::Finding | AtomType::NegativeResult => true,
        _ => false,
    }
}


/// The integer value of `v` when it fits an `i64`.
pub open spec fn json_i64(v: JsonValue) -> Option<i64> {
    match v {
        JsonValue::PosInt(u) => if u <= i64::MAX { Some(u as i64) } else { None },
        JsonValue::NegInt(i) => Some(i),
        _ => None,
    }
}

/// The integer member `k` of `p`, or `default` when it is absent or not an
/// integer that fits an `i64`.
pub open spec fn i64_member_or(p: JsonValue, k: Seq<char>, default: i64) -> i64 {
    match p.spec_get(k) {
        Some(v) => match json_i64(v) {
            Some(i) => i,
            None => default,
        },
        None => default,
    }
}

/// Reads an optional integer parameter with its default.
pub fn int_param(p: &JsonValue, k: &str, default: i64) -> (r: i64)
    ensures
        r == i64_member_or(*p, k@, default),
{
    match p.get(k) {
        Some(JsonValue::PosInt(u)) => if *u <= 0x7fff_ffff_ffff_ffff { *u as i64 } else { default },
        Some(JsonValue::NegInt(i)) => *i,
        _ => default,
    }
}

/// Reads an optional string parameter: `None` unless it is a string.
pub fn str_param<'a>(p: &'a JsonValue, k: &str) -> (r: Option<&'a str>)
    ensures
        r is Some <==> has_str_member(*p, k@),
        r is Some ==> r->0@ == str_member(*p, k@),
{
    str_of(p, k)
}

fn required_str<'a>(p: &'a JsonValue, k: &str, msg: &str) -> (r: Result<&'a str, MoteError>)
    ensures
        has_str_member(*p, k@) ==> r is Ok && r->Ok_0@ == str_member(*p, k@),
        !has_str_member(*p, k@) ==> r is Err && validation_error_with(r->Err_0, msg@),
{
    match str_of(p, k) {
        Some(v) => Ok(v),
        None => Err(MoteError::Validation(to_owned_string(msg))),
    }
}

/// The filters of an atom search: optional string filters, and a page of
/// `limit` (50 by default) atoms from `offset` (0 by default). Absent
/// parameters read as an empty object.
pub struct SearchParams<'a> {
    pub domain: Option<&'a str>,
    pub atom_type: Option<&'a str>,
    pub lifecycle: Option<&'a str>,
    pub query: Option<&'a str>,
    pub limit: i64,
    pub offset: i64,
}

/// An optional string parameter as a text, if it is one.
pub open spec fn opt_str_view(p: Option<JsonValue>, k: Seq<char>) -> Option<Seq<char>> {
    match p {
        Some(v) => if has_str_member(v, k) { Some(str_member(v, k)) } else { None },
        None => None,
    }
}

/// `r` holds the text `o` holds, or is `None` with it.
pub open spec fn same_text(r: Option<&str>, o: Option<Seq<char>>) -> bool {
    match o {
        Some(t) => r is Some && r->0@ == t,
        None => r is None,
    }
}

pub(crate) fn opt_param<'a>(p: Option<&'a JsonValue>, k: &str) -> (r: Option<&'a str>)
    ensures
        same_text(r, opt_str_view(match p { Some(v) => Some(*v), None => None }, k@)),
{
    match p {
        Some(v) => str_of(v, k),
        None => None,
    }
}

/// Reads the parameters of `search_atoms`.
pub fn search_params<'a>(params: Option<&'a JsonValue>) -> (r: SearchParams<'a>)
    ensures
        ({
            let p = match params { Some(v) => Some(*v), None => None };
            &&& same_text(r.domain, opt_str_view(p, "domain"@))
            &&& same_text(r.atom_type, opt_str_view(p, "type"@))
            &&& same_text(r.lifecycle, opt_str_view(p, "lifecycle"@))
            &&& same_text(r.query, opt_str_view(p, "query"@))
            &&& r.limit == (match p { Some(v) => i64_member_or(v, "limit"@, 50), None => 50 })
            &&& r.offset == (match p { Some(v) => i64_member_or(v, "offset"@, 0), None => 0 })
        }),
{
    let (limit, offset) = match params {
        Some(v) => (int_param(v, "limit", 50), int_param(v, "offset", 0)),
        None => (50, 0),
    };
    SearchParams {
        domain: opt_param(params, "domain"),
        atom_type: opt_param(params, "type"),
        lifecycle: opt_param(params, "lifecycle"),
        query: opt_param(params, "query"),
        limit,
        offset,
    }
}

/// The fields of a `claim_direction` call.
pub struct ClaimParams<'a> {
    pub hypothesis: &'a str,
    pub domain: &'a str,
    pub conditions: Option<&'a JsonValue>,
}

/// Reads the parameters of `claim_direction`: a string hypothesis and
/// domain (each a validation error when missing), and the conditions
/// (`None` for an absent or `null` member, standing for an empty object).
pub fn claim_params<'a>(params: Option<&'a JsonValue>) -> (r: Result<ClaimParams<'a>, MoteError>)
    ensures
        params is None ==> r is Err && validation_error_with(r->Err_0, "Missing params"@),
        params matches Some(p) ==> {
            if !has_str_member(*p, "hypothesis"@) {
                r is Err && validation_error_with(r->Err_0, "hypothesis field required"@)
            } else if !has_str_member(*p, "domain"@) {
                r is Err && validation_error_with(r->Err_0, "domain field required"@)
            } else {
                &&& r is Ok
                &&& r->Ok_0.hypothesis@ == str_member(*p, "hypothesis"@)
                &&& r->Ok_0.domain@ == str_member(*p, "domain"@)
                &&& refers_to(r->Ok_0.conditions, present_member(*p, "conditions"@))
            }
        },
{
    let p = match params {
        Some(p) => p,
        None => { return Err(MoteError::Validation(to_owned_string("Missing params"))); },
    };
    let hypothesis = match required_str(p, "hypothesis", "hypothesis field required") {
        Ok(h) => h,
        Err(e) => { return Err(e); },
    };
    let domain = match required_str(p, "domain", "domain field required") {
        Ok(d) => d,
        Err(e) => { return Err(e); },
    };
    Ok(ClaimParams { hypothesis, domain, conditions: present_of(p, "conditions") })
}

/// The fields of a `retract_atom` call: the atom and an optional reason.
pub fn retract_params<'a>(params: Option<&'a JsonValue>) -> (r: Result<(&'a str, Option<&'a str>), MoteError>)
    ensures
        params is None ==> r is Err && validation_error_with(r->Err_0, "Missing params"@),
        params matches Some(p) ==> {
            if !has_str_member(*p, "atom_id"@) {
                r is Err && validation_error_with(r->Err_0, "atom_id field required"@)
            } else {
                &&& r is Ok
                &&& r->Ok_0.0@ == str_member(*p, "atom_id"@)
                &&& same_text(r->Ok_0.1, opt_str_view(Some(*p), "reason"@))
            }
        },
{
    let p = match params {
        Some(p) => p,
        None => { return Err(MoteError::Validation(to_owned_string("Missing params"))); },
    };
    let atom_id = match required_str(p, "atom_id", "atom_id field required") {
        Ok(a) => a,
        Err(e) => { return Err(e); },
    };
    Ok((atom_id, str_of(p, "reason")))
}

/// The fields of a `confirm_agent` call: the agent and its signature of
/// the challenge.
pub fn confirm_params<'a>(params: Option<&'a JsonValue>) -> (r: Result<(&'a str, &'a str), MoteError>)
    ensures
        params is None ==> r is Err && validation_error_with(r->Err_0, "Missing params"@),
        params matches Some(p) ==> {
            if !has_str_member(*p, "agent_id"@) {
                r is Err && validation_error_with(r->Err_0, "agent_id field required"@)
            } else if !has_str_member(*p, "signature"@) {
                r is Err && validation_error_with(r->Err_0, "signature field required"@)
            } else {
                &&& r is Ok
                &&& r->Ok_0.0@ == str_member(*p, "agent_id"@)
                &&& r->Ok_0.1@ == str_member(*p, "signature"@)
            }
        },
{
    let p = match params {
        Some(p) => p,
        None => { return Err(MoteError::Validation(to_owned_string("Missing params"))); },
    };
    let agent_id = match required_str(p, "agent_id", "agent_id field required") {
        Ok(a) => a,
        Err(e) => { return Err(e); },
    };
    let signature = match required_str(p, "signature", "signature field required") {
        Ok(s) => s,
        Err(e) => { return Err(e); },
    };
    Ok((agent_id, signature))
}

/// The public key of a `register_agent` call.
pub fn register_params<'a>(params: Option<&'a JsonValue>) -> (r: Result<&'a str, MoteError>)
    ensures
        params is None ==> r is Err && validation_error_with(r->Err_0, "Missing params"@),
        params matches Some(p) ==> if has_str_member(*p, "public_key"@) {
            r is Ok && r->Ok_0@ == str_member(*p, "public_key"@)
        } else {
            r is Err && validation_error_with(r->Err_0, "public_key field required"@)
        },
{
    match params {
        Some(p) => required_str(p, "public_key", "public_key field required"),
        None => Err(MoteError::Validation(to_owned_string("Missing params"))),
    }
}

/// The name an agent registers under: its `agent_name` when it is a
/// string, `unnamed-agent` otherwise.
pub fn agent_name_param<'a>(params: Option<&'a JsonValue>) -> (r: &'a str)
    ensures
        same_text(Some(r), Some(match opt_str_view(match params { Some(v) => Some(*v), None => None }, "agent_name"@) {
            Some(t) => t,
            None => "unnamed-agent"@,
        })),
{
    match opt_param(params, "agent_name") {
        Some(n) => n,
        None => "unnamed-agent",
    }
}


/// The parameters as an agent signed them: without their `signature`
/// member.
pub fn unsigned_params(params: JsonValue) -> (r: JsonValue)
    ensures
        match params {
            JsonValue::Object(m) => r matches JsonValue::Object(n) && n@ == crate::json::without_key(m@, "signature"@),
            _ => r == params,
        },
{
    match params {
        JsonValue::Object(m) => JsonValue::Object(crate::json::remove_member(m, "signature")),
        other => other,
    }
}

/// Checks the signature an agent sent (in hex) of the canonical JSON text
/// of its unsigned parameters, under its registered public key (which is
/// read back through its hex form). Bad hex, a bad key, a signature that
/// is not 64 bytes or does not verify are cryptography errors.
pub fn check_params_signature(public_key: &[u8], canonical_params: &str, signature_hex: &str) -> (r: Result<(), MoteError>)
    requires
        public_key@.len() == 32,
    ensures
        !hex_decodable(signature_hex.spec_bytes()) ==> r is Err
            && crate::error::crypto_error_with(r->Err_0, "Invalid hex: "@ + crate::crypto::spec_hex_error(signature_hex.spec_bytes())),
        hex_decodable(signature_hex.spec_bytes()) ==> ({
            let sig = hex_decoded(signature_hex.spec_bytes());
            let msg = canonical_params.spec_bytes();
            &&& (r is Ok <==> (sig.len() == 64 && crate::crypto::signed_by(public_key@, msg, sig)))
            &&& !crate::crypto::spec_ed25519_key_valid(public_key@) ==> r is Err
                && crate::error::crypto_error_with(r->Err_0, "Invalid public key: "@ + crate::crypto::spec_ed25519_key_error(public_key@))
            &&& crate::crypto::spec_ed25519_key_valid(public_key@) && sig.len() != 64 ==> r is Err
                && crate::error::crypto_error_with(r->Err_0, "Invalid signature length"@)
            &&& crate::crypto::spec_ed25519_key_valid(public_key@) && sig.len() == 64
                && !crate::crypto::spec_ed25519_verifies(public_key@, msg, sig) ==> r is Err
                && crate::error::crypto_error_with(r->Err_0, "Signature verification failed: "@
                    + crate::crypto::spec_ed25519_verify_error(public_key@, msg, sig))
        }),
{
    let signature = hex_to_bytes(signature_hex)?;
    let key_hex = crate::crypto::bytes_to_hex(public_key);
    proof {
        crate::crypto::lemma_hex_roundtrip(public_key@);
    }
    let key = match hex_to_bytes(key_hex.as_str()) {
        Ok(k) => k,
        Err(e) => {
            return Err(e);
        },
    };
    let msg = canonical_params.as_bytes();
    match crate::crypto::verify_signature(key.as_slice(), msg, signature.as_slice()) {
        Ok(_) => Ok(()),
        Err(e) => Err(e),
    }
}

/// The check of a token login: the token must belong to an agent
/// (`token_owner`, the id of the agent it was issued to) and that agent
/// must be the one the request names.
pub fn check_token_owner(agent_id: &str, token_owner: Option<&str>) -> (r: Result<(), MoteError>)
    ensures
        match token_owner {
            None => r is Err && crate::error::auth_error_with(r->Err_0, "Invalid api_token"@),
            Some(o) => if o@ == agent_id@ {
                r is Ok
            } else {
                r is Err && crate::error::auth_error_with(r->Err_0, "api_token does not match agent_id"@)
            },
        },
{
    match token_owner {
        None => Err(MoteError::Authentication(to_owned_string("Invalid api_token"))),
        Some(o) => if crate::text::str_eq(o, agent_id) {
            Ok(())
        } else {
            Err(MoteError::Authentication(to_owned_string("api_token does not match agent_id")))
        },
    }
}

/// The check of the agent a signed request names, before its signature
/// is verified: it must be registered (`confirmed` is then whether it
/// confirmed its key) and confirmed.
pub fn check_signer(confirmed: Option<bool>) -> (r: Result<(), MoteError>)
    ensures
        match confirmed {
            None => r is Err && crate::error::auth_error_with(r->Err_0, "Agent not found"@),
            Some(false) => r is Err && crate::error::auth_error_with(r->Err_0, "Agent not confirmed"@),
            Some(true) => r is Ok,
        },
{
    match confirmed {
        None => Err(MoteError::Authentication(to_owned_string("Agent not found"))),
        Some(false) => Err(MoteError::Authentication(to_owned_string("Agent not confirmed"))),
        Some(true) => Ok(()),
    }
}

/// The parameters of a `query_cluster` call: the query vector (each
/// entry a number), the radius (a number) and the result limit.
pub struct ClusterParams<'a> {
    pub vector: &'a Vec<JsonValue>,
    pub radius: &'a JsonValue,
    pub limit: i64,
}

/// What is wrong with the parameters of a `query_cluster` call, in the
/// order they are checked: the vector must be an array, of numbers only,
/// not empty; the radius must be a number.
pub open spec fn cluster_params_problem(p: JsonValue) -> Option<Seq<char>> {
    match p.spec_get("vector"@) {
        Some(JsonValue::Array(items)) => {
            if exists|i: int| 0 <= i < items@.len() && !(#[trigger] items@[i]).spec_is_number() {
                Some("vector values must be numbers"@)
            } else if items@.len() == 0 {
                Some("vector must not be empty"@)
            } else if !(p.spec_get("radius"@) matches Some(r) && r.spec_is_number()) {
                Some("radius field required (number)"@)
            } else {
                None
            }
        },
        _ => Some("vector field required (array of numbers)"@),
    }
}

fn all_numbers(items: &Vec<JsonValue>) -> (r: bool)
    ensures
        r == forall|i: int| 0 <= i < items@.len() ==> (#[trigger] items@[i]).spec_is_number(),
{
    let mut i: usize = 0;
    while i < items.len()
        invariant
            i <= items@.len(),
            forall|k: int| 0 <= k < i ==> (#[trigger] items@[k]).spec_is_number(),
        decreases items@.len() - i,
    {
        if !items[i].is_number() {
            return false;
        }
        i = i + 1;
    }
    true
}

/// Reads the parameters of a `query_cluster` call; the limit defaults to
/// 20. Each problem is a validation error with its own message.
pub fn cluster_params<'a>(params: Option<&'a JsonValue>) -> (r: Result<ClusterParams<'a>, MoteError>)
    ensures
        params is None ==> r is Err && validation_error_with(r->Err_0, "Missing params"@),
        params matches Some(p) ==> match cluster_params_problem(*p) {
            Some(m) => r is Err && validation_error_with(r->Err_0, m),
            None => r matches Ok(c) && Some(JsonValue::Array(*c.vector)) == p.spec_get("vector"@)
                && Some(*c.radius) == p.spec_get("radius"@) && c.limit == i64_member_or(*p, "limit"@, 20),
        },
{
    let p = match params {
        Some(p) => p,
        None => { return Err(MoteError::Validation(to_owned_string("Missing params"))); },
    };
    let vector = match p.get("vector") {
        Some(JsonValue::Array(items)) => items,
        _ => { return Err(MoteError::Validation(to_owned_string("vector field required (array of numbers)"))); },
    };
    if !all_numbers(vector) {
        return Err(MoteError::Validation(to_owned_string("vector values must be numbers")));
    }
    if vector.len() == 0 {
        return Err(MoteError::Validation(to_owned_string("vector must not be empty")));
    }
    let radius = match p.get("radius") {
        Some(r) => if r.is_number() { r } else {
            return Err(MoteError::Validation(to_owned_string("radius field required (number)")));
        },
        None => { return Err(MoteError::Validation(to_owned_string("radius field required (number)"))); },
    };
    Ok(ClusterParams { vector, radius, limit: int_param(p, "limit", 20) })
}

/// The parameters of a `get_suggestions` call: an optional string domain
/// and the number of suggestions (10 by default).
pub fn suggestion_params<'a>(params: Option<&'a JsonValue>) -> (r: Result<(Option<&'a str>, i64), MoteError>)
    ensures
        params is None ==> r is Err && validation_error_with(r->Err_0, "Missing params"@),
        params matches Some(p) ==> r matches Ok((d, l))
            && (d is Some <==> has_str_member(*p, "domain"@))
            && (d is Some ==> d->0@ == str_member(*p, "domain"@))
            && l == i64_member_or(*p, "limit"@, 10),
{
    match params {
        None => Err(MoteError::Validation(to_owned_string("Missing params"))),
        Some(p) => Ok((str_param(p, "domain"), int_param(p, "limit", 10))),
    }
}

/// The check of the artifact an atom attaches: it must have been
/// uploaded (`artifact_stored`); a blob and a tree are both accepted.
pub fn check_attached_artifact(artifact_hash: Option<&str>, artifact_stored: bool) -> (r: Result<(), MoteError>)
    ensures
        match artifact_hash {
            Some(h) => if artifact_stored { r is Ok } else {
                r is Err && validation_error_with(r->Err_0,
                    "Artifact "@ + h@ + " does not exist. Upload the artifact first."@)
            },
            None => r is Ok,
        },
{
    match artifact_hash {
        Some(h) => if artifact_stored {
            Ok(())
        } else {
            Err(MoteError::Validation(crate::text::concat3("Artifact ", h, " does not exist. Upload the artifact first.")))
        },
        None => Ok(()),
    }
}

} // verus!
