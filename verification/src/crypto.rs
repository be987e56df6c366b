//! Content hashing, hex encoding and Ed25519 signature checks.
use vstd::prelude::*;
use vstd::string::StringSliceAdditionalSpecFns;
use crate::error::{MoteError, crypto_error_with};
use crate::text::{concat2, to_owned_string};

verus! {

/// The BLAKE3 digest of `data` (32 bytes).
pub uninterp spec fn spec_blake3(data: Seq<u8>) -> Seq<u8>;

/// Whether the 32 bytes `pk` are the compressed form of a curve point,
/// i.e. an Ed25519 public key that can be used for verification.
pub uninterp spec fn spec_ed25519_key_valid(pk: Seq<u8>) -> bool;

/// The message of the error that rejects `pk` as a public key.
pub uninterp spec fn spec_ed25519_key_error(pk: Seq<u8>) -> Seq<char>;

/// Whether `sig` is a valid Ed25519 signature of `msg` under the key `pk`.
pub uninterp spec fn spec_ed25519_verifies(pk: Seq<u8>, msg: Seq<u8>, sig: Seq<u8>) -> bool;

/// The message of the error that rejects `sig` as a signature of `msg`.
pub uninterp spec fn spec_ed25519_verify_error(pk: Seq<u8>, msg: Seq<u8>, sig: Seq<u8>) -> Seq<char>;

/// The message of the error that rejects `s` as hex.
pub uninterp spec fn spec_hex_error(s: Seq<u8>) -> Seq<char>;

/// The lower-case hex digit of a nibble.
pub open spec fn hex_digit(n: int) -> char {
    if n < 10 { (('0' as int) + n) as char } else { (('a' as int) + n - 10) as char }
}

/// Lower-case hex of `b`: two digits per byte, high nibble first.
pub open spec fn hex_lower(b: Seq<u8>) -> Seq<char> {
    Seq::new(2 * b.len(), |i: int| if i % 2 == 0 { hex_digit((b[i / 2] / 16) as int) } else { hex_digit((b[i / 2] % 16) as int) })
}

/// The value of a hex digit byte (either case).
pub open spec fn hex_value(c: u8) -> int {
    if 0x30 <= c <= 0x39 { c - 0x30 }
    else if 0x61 <= c <= 0x66 { c - 0x61 + 10 }
    else { c - 0x41 + 10 }
}

/// `c` is an ASCII hex digit, upper or lower case.
pub open spec fn is_hex_byte(c: u8) -> bool {
    (0x30 <= c <= 0x39) || (0x61 <= c <= 0x66) || (0x41 <= c <= 0x46)
}

/// `s` is an even number of hex digits.
pub open spec fn hex_decodable(s: Seq<u8>) -> bool {
    s.len() % 2 == 0 && forall|i: int| 0 <= i < s.len() ==> is_hex_byte(#[trigger] s[i])
}

/// The bytes that the hex digits of `s` spell, two digits per byte.
pub open spec fn hex_decoded(s: Seq<u8>) -> Seq<u8> {
    Seq::new(s.len() / 2, |i: int| (hex_value(s[2 * i]) * 16 + hex_value(s[2 * i + 1])) as u8)
}


proof fn lemma_hex_digit(n: int)
    requires
        0 <= n < 16,
    ensures
        '\0' <= hex_digit(n) <= '\u{7f}',
        is_hex_byte(hex_digit(n) as u8),
        hex_value(hex_digit(n) as u8) == n,
{
}

/// Hex text read back gives the bytes it was written from.
pub proof fn lemma_hex_roundtrip(b: Seq<u8>)
    ensures
        hex_decodable(vstd::utf8::encode_utf8(hex_lower(b))),
        hex_decoded(vstd::utf8::encode_utf8(hex_lower(b))) == b,
{
    let h = hex_lower(b);
    assert forall|i: int| 0 <= i < h.len() implies '\0' <= #[trigger] h[i] <= '\u{7f}' by {
        lemma_hex_digit((b[i / 2] / 16) as int);
        lemma_hex_digit((b[i / 2] % 16) as int);
    }
    assert(vstd::utf8::is_ascii_chars(h));
    vstd::utf8::is_ascii_chars_encode_utf8(h);
    let e = vstd::utf8::encode_utf8(h);
    assert(e.len() == 2 * b.len());
    assert forall|i: int| 0 <= i < e.len() implies is_hex_byte(#[trigger] e[i]) by {
        assert(e[i] == h[i] as u8);
        lemma_hex_digit((b[i / 2] / 16) as int);
        lemma_hex_digit((b[i / 2] % 16) as int);
    }
    assert forall|j: int| 0 <= j < b.len() implies #[trigger] hex_decoded(e)[j] == b[j] by {
        assert(e[2 * j] == h[2 * j] as u8);
        assert(e[2 * j + 1] == h[2 * j + 1] as u8);
        assert((2 * j) / 2 == j);
        assert((2 * j + 1) / 2 == j);
        assert((2 * j) % 2 == 0);
        assert((2 * j + 1) % 2 == 1);
        lemma_hex_digit((b[j] / 16) as int);
        lemma_hex_digit((b[j] % 16) as int);
        assert(hex_value(e[2 * j]) == b[j] / 16);
        assert(hex_value(e[2 * j + 1]) == b[j] % 16);
        assert((b[j] / 16) * 16 + b[j] % 16 == b[j]);
    }
    assert(hex_decoded(e) =~= b);
}

/// `hex::encode`: lower-case hex of the bytes.
#[verifier::external_body]
fn hex_encode(b: &[u8]) -> (r: String)
    ensures
        r@ == hex_lower(b@),
{
    hex::encode(b)
}

/// `hex::decode`: succeeds exactly on an even number of hex digits (either
/// case) and gives the bytes they spell; otherwise the error's message.
#[verifier::external_body]
fn hex_decode(s: &str) -> (r: Result<Vec<u8>, String>)
    ensures
        r is Ok <==> hex_decodable(s.spec_bytes()),
        r is Ok ==> r->Ok_0@ == hex_decoded(s.spec_bytes()),
        r is Err ==> r->Err_0@ == spec_hex_error(s.spec_bytes()),
{
    match hex::decode(s) {
        Ok(v) => Ok(v),
        Err(e) => Err(format!("{}", e)),
    }
}

/// `blake3::hash`: the 32-byte BLAKE3 digest of the data.
#[verifier::external_body]
fn blake3_hash(data: &[u8]) -> (r: Vec<u8>)
    ensures
        r@ == spec_blake3(data@),
        r@.len() == 32,
{
    blake3::hash(data).as_bytes().to_vec()
}

/// `ed25519_dalek::VerifyingKey::from_bytes`: whether the bytes are a
/// usable public key, with the message of the error when they are not.
#[verifier::external_body]
fn ed25519_check_key(pk: &[u8]) -> (r: Result<(), String>)
    requires
        pk@.len() == 32,
    ensures
        r is Ok <==> spec_ed25519_key_valid(pk@),
        r is Err ==> r->Err_0@ == spec_ed25519_key_error(pk@),
{
    match ed25519_dalek::VerifyingKey::from_bytes(pk.try_into().unwrap()) {
        Ok(_) => Ok(()),
        Err(e) => Err(format!("{}", e)),
    }
}

/// `ed25519_dalek::Verifier::verify` on the key that `pk` spells: whether
/// `sig` signs `msg`, with the message of the error when it does not.
#[verifier::external_body]
fn ed25519_verify(pk: &[u8], msg: &[u8], sig: &[u8]) -> (r: Result<(), String>)
    requires
        pk@.len() == 32,
        sig@.len() == 64,
        spec_ed25519_key_valid(pk@),
    ensures
        r is Ok <==> spec_ed25519_verifies(pk@, msg@, sig@),
        r is Err ==> r->Err_0@ == spec_ed25519_verify_error(pk@, msg@, sig@),
{
    let key = ed25519_dalek::VerifyingKey::from_bytes(pk.try_into().unwrap()).unwrap();
    match ed25519_dalek::Verifier::verify(&key, msg, &ed25519_dalek::Signature::from_bytes(sig.try_into().unwrap())) {
        Ok(()) => Ok(()),
        Err(e) => Err(format!("{}", e)),
    }
}

/// 32 bytes from the thread-local generator of `rand`.
#[verifier::external_body]
fn random_bytes_32() -> (r: Vec<u8>)
    ensures
        r@.len() == 32,
{
    let mut b = [0u8; 32];
    rand::RngCore::fill_bytes(&mut rand::rng(), &mut b);
    b.to_vec()
}

/// Lower-case hex of the bytes.
pub fn bytes_to_hex(bytes: &[u8]) -> (r: String)
    ensures
        r@ == hex_lower(bytes@),
{
    hex_encode(bytes)
}

/// The bytes a hex string spells, or a cryptography error
/// `"Invalid hex: <reason>"`.
pub fn hex_to_bytes(hex: &str) -> (r: Result<Vec<u8>, MoteError>)
    ensures
        r is Ok <==> hex_decodable(hex.spec_bytes()),
        r is Ok ==> r->Ok_0@ == hex_decoded(hex.spec_bytes()),
        r is Err ==> crypto_error_with(r->Err_0, "Invalid hex: "@ + spec_hex_error(hex.spec_bytes())),
{
    match hex_decode(hex) {
        Ok(v) => Ok(v),
        Err(e) => Err(MoteError::Cryptography(concat2("Invalid hex: ", e.as_str()))),
    }
}

/// Lower-case hex of the BLAKE3 digest of the data.
pub fn blake3_hex(data: &[u8]) -> (r: String)
    ensures
        r@ == hex_lower(spec_blake3(data@)),
        r@.len() == 64,
{
    let digest = blake3_hash(data);
    bytes_to_hex(digest.as_slice())
}

/// Whether `hash` is the lower-case hex of the BLAKE3 digest of `data`.
pub fn content_hash_matches(data: &[u8], hash: &str) -> (r: bool)
    ensures
        r == (hex_lower(spec_blake3(data@)) == hash@),
{
    let computed = blake3_hex(data);
    crate::text::str_eq(computed.as_str(), hash)
}

/// An agent's id: the hex of the first 16 bytes of the BLAKE3 digest of its
/// public key.
pub fn compute_agent_id(public_key: &[u8]) -> (r: String)
    ensures
        r@ == hex_lower(spec_blake3(public_key@).subrange(0, 16)),
        r@.len() == 32,
{
    let digest = blake3_hash(public_key);
    let mut head: Vec<u8> = Vec::new();
    let mut i: usize = 0;
    while i < 16
        invariant
            i <= 16,
            digest@.len() == 32,
            head@ == digest@.subrange(0, i as int),
        decreases 16 - i,
    {
        head.push(digest[i]);
        i = i + 1;
    }
    bytes_to_hex(head.as_slice())
}

/// The bytes an atom's id is the digest of: its type, domain and statement,
/// the JSON text of its conditions and provenance, and its RFC 3339
/// timestamp, one after another.
pub open spec fn atom_id_preimage(
    atom_type: Seq<u8>,
    domain: Seq<u8>,
    statement: Seq<u8>,
    conditions_json: Seq<u8>,
    provenance_json: Seq<u8>,
    timestamp: Seq<u8>,
) -> Seq<u8> {
    atom_type + domain + statement + conditions_json + provenance_json + timestamp
}

fn append_bytes(out: &mut Vec<u8>, s: &str)
    ensures
        final(out)@ == old(out)@ + s.spec_bytes(),
{
    let b = s.as_bytes();
    let mut i: usize = 0;
    while i < b.len()
        invariant
            i <= b@.len(),
            b@ == s.spec_bytes(),
            out@ == old(out)@ + b@.subrange(0, i as int),
        decreases b@.len() - i,
    {
        out.push(b[i]);
        i = i + 1;
        proof {
            assert(b@.subrange(0, i as int) == b@.subrange(0, i - 1) + seq![b@[i - 1]]);
        }
    }
    proof {
        assert(b@.subrange(0, b@.len() as int) == b@);
    }
}

/// An atom's content address: the hex of the BLAKE3 digest of
/// [`atom_id_preimage`]. The JSON texts and the timestamp come already
/// rendered.
pub fn compute_atom_id(
    atom_type: &str,
    domain: &str,
    statement: &str,
    conditions_json: &str,
    provenance_json: &str,
    timestamp_rfc3339: &str,
) -> (r: String)
    ensures
        r@ == hex_lower(spec_blake3(atom_id_preimage(
            atom_type.spec_bytes(),
            domain.spec_bytes(),
            statement.spec_bytes(),
            conditions_json.spec_bytes(),
            provenance_json.spec_bytes(),
            timestamp_rfc3339.spec_bytes(),
        ))),
{
    let mut data: Vec<u8> = Vec::new();
    append_bytes(&mut data, atom_type);
    append_bytes(&mut data, domain);
    append_bytes(&mut data, statement);
    append_bytes(&mut data, conditions_json);
    append_bytes(&mut data, provenance_json);
    append_bytes(&mut data, timestamp_rfc3339);
    proof {
        assert(data@ == atom_id_preimage(
            atom_type.spec_bytes(),
            domain.spec_bytes(),
            statement.spec_bytes(),
            conditions_json.spec_bytes(),
            provenance_json.spec_bytes(),
            timestamp_rfc3339.spec_bytes(),
        ));
    }
    let digest = blake3_hash(data.as_slice());
    bytes_to_hex(digest.as_slice())
}

/// `verify_signature` checks the key before the signature's length, and
/// both before the signature itself.
pub fn verify_signature(public_key: &[u8], message: &[u8], signature: &[u8]) -> (r: Result<bool, MoteError>)
    requires
        public_key@.len() == 32,
    ensures
        !spec_ed25519_key_valid(public_key@) ==> r is Err
            && crypto_error_with(r->Err_0, "Invalid public key: "@ + spec_ed25519_key_error(public_key@)),
        spec_ed25519_key_valid(public_key@) && signature@.len() != 64 ==> r is Err
            && crypto_error_with(r->Err_0, "Invalid signature length"@),
        spec_ed25519_key_valid(public_key@) && signature@.len() == 64
            && !spec_ed25519_verifies(public_key@, message@, signature@) ==> r is Err
            && crypto_error_with(r->Err_0, "Signature verification failed: "@
                + spec_ed25519_verify_error(public_key@, message@, signature@)),
        spec_ed25519_key_valid(public_key@) && signature@.len() == 64
            && spec_ed25519_verifies(public_key@, message@, signature@) ==> r == Ok::<bool, MoteError>(true),
{
    match ed25519_check_key(public_key) {
        Ok(()) => {},
        Err(e) => {
            return Err(MoteError::Cryptography(concat2("Invalid public key: ", e.as_str())));
        },
    }
    if signature.len() != 64 {
        proof {
            reveal_strlit("Invalid signature length");
        }
        return Err(MoteError::Cryptography(to_owned_string("Invalid signature length")));
    }
    match ed25519_verify(public_key, message, signature) {
        Ok(()) => Ok(true),
        Err(e) => Err(MoteError::Cryptography(concat2("Signature verification failed: ", e.as_str()))),
    }
}

/// A fresh 32-byte random challenge for an agent to sign.
pub fn generate_challenge() -> (r: Vec<u8>)
    ensures
        r@.len() == 32,
{
    random_bytes_32()
}


/// A fresh session id: the lower-case hex of the BLAKE3 digest of 32
/// random bytes.
pub fn generate_session_id() -> (r: String)
    ensures
        exists|b: Seq<u8>| b.len() == 32 && r@ == hex_lower(#[trigger] spec_blake3(b)),
        r@.len() == 64,
{
    let seed = random_bytes_32();
    let r = blake3_hex(seed.as_slice());
    assert(r@ == hex_lower(spec_blake3(seed@)));
    r
}

/// `pk` is a usable key under which `sig` signs `msg`.
pub open spec fn signed_by(pk: Seq<u8>, msg: Seq<u8>, sig: Seq<u8>) -> bool {
    spec_ed25519_key_valid(pk) && spec_ed25519_verifies(pk, msg, sig)
}

/// The agent whose key made a signature: the first of the confirmed agents
/// (id and public key) under whose key the signature verifies. A signature
/// that is not 64 bytes long, or that no agent made, is refused as
/// `Invalid signature`.
pub fn signature_owner(agents: &[(String, Vec<u8>)], message_hash: &[u8], signature: &[u8]) -> (r: Result<String, MoteError>)
    requires
        signature@.len() == 64 ==> forall|i: int| 0 <= i < agents@.len() ==> (#[trigger] agents@[i]).1@.len() == 32,
    ensures
        match r {
            Ok(id) => signature@.len() == 64 && exists|i: int| 0 <= i < agents@.len()
                && signed_by(agents@[i].1@, message_hash@, signature@) && id@ == agents@[i].0@
                && forall|j: int| 0 <= j < i ==> !signed_by(#[trigger] agents@[j].1@, message_hash@, signature@),
            Err(e) => (e matches MoteError::Authentication(m) && m@ == "Invalid signature"@)
                && (signature@.len() == 64 ==> forall|i: int| 0 <= i < agents@.len()
                    ==> !signed_by(#[trigger] agents@[i].1@, message_hash@, signature@)),
        },
{
    if signature.len() == 64 {
        let mut i: usize = 0;
        while i < agents.len()
            invariant
                i <= agents@.len(),
                signature@.len() == 64,
                forall|k: int| 0 <= k < agents@.len() ==> (#[trigger] agents@[k]).1@.len() == 32,
                forall|j: int| 0 <= j < i ==> !signed_by(#[trigger] agents@[j].1@, message_hash@, signature@),
            decreases agents@.len() - i,
        {
            let pk = agents[i].1.as_slice();
            assert(agents@[i as int].1@.len() == 32);
            if verify_signature(pk, message_hash, signature).is_ok() {
                return Ok(agents[i].0.clone());
            }
            i = i + 1;
        }
    }
    Err(MoteError::Authentication(to_owned_string("Invalid signature")))
}

} // verus!
