//! The signer: builds the string to sign from the HTTP method and the
//! canonical query, computes the keyed HMAC-SHA1 digest with the secret,
//! and base64-encodes it. Also merges the common signed parameters —
//! credentials, signature metadata, a fresh nonce and timestamp — into a
//! parameter map before signing.

use vstd::prelude::*;
use vstd::string::{StrSliceExecFns, StringSliceAdditionalSpecFns};
use vstd::utf8::{encode_utf8, encode_utf8_decode_utf8, is_ascii_chars, is_ascii_chars_encode_utf8};
use base64::Engine;
use hmac::Mac;
use crate::auth::AccessKey;
use crate::encode::percent_encode_spec;
use crate::error::Error;
use crate::params::{build_canonicalized_query, push_encoded, ParamMap};

verus! {

/// What HMAC-SHA1 returns for a key and message; a function of the two
/// alone.
pub uninterp spec fn hmac_sha1_of(key: Seq<u8>, msg: Seq<u8>) -> Seq<u8>;

/// Relies on `hmac::Hmac` over `sha1::Sha1`: the keyed HMAC-SHA1 digest of
/// the message, 20 bytes, determined by key and message alone. Keys of any
/// length are accepted.
#[verifier::external_body]
fn hmac_sha1(key: &Vec<u8>, msg: &Vec<u8>) -> (r: Vec<u8>)
    ensures
        r@ == hmac_sha1_of(key@, msg@),
        r@.len() == 20,
{
    let mut mac = <hmac::Hmac<sha1::Sha1> as hmac::KeyInit>::new_from_slice(key.as_slice())
        .expect("HMAC accepts keys of any length");
    mac.update(msg.as_slice());
    mac.finalize().into_bytes().to_vec()
}

/// What the standard padded base64 alphabet encodes a byte sequence to; a
/// function of the bytes alone.
pub uninterp spec fn base64_of(bytes: Seq<u8>) -> Seq<char>;

/// Relies on `base64`'s `general_purpose::STANDARD` engine: the padded
/// standard-alphabet base64 encoding, determined by the input alone.
#[verifier::external_body]
fn base64_encode(bytes: &Vec<u8>) -> (r: String)
    ensures
        r@ == base64_of(bytes@),
{
    base64::engine::general_purpose::STANDARD.encode(bytes.as_slice())
}

/// Relies on `uuid::Uuid::new_v4` and its hyphenated rendering: a fresh
/// random version-4 UUID; 36 ASCII characters (hex digits and hyphens)
/// whatever the outcome.
#[verifier::external_body]
fn fresh_nonce() -> (r: String)
    ensures
        r@.len() == 36,
        is_ascii_chars(r@),
{
    uuid::Uuid::new_v4().to_string()
}

/// The current UTC time, truncated to whole seconds and rendered per
/// RFC 3339 with a `Z` suffix: 20 characters, no fraction. Fails only if
/// the clock reads past what the rendering covers.
fn now_timestamp() -> (r: Option<String>)
    ensures
        r matches Some(ts) ==> ts@.len() == 20 && ts@[19] == 'Z' && is_ascii_chars(ts@)
            && crate::timestamp::is_rfc3339_render(encode_utf8(ts@)) && forall|i: int|
            0 <= i < ts@.len() ==> ts@[i] != '.',
{
    let secs = crate::timestamp::now_unix_secs();
    let r = crate::timestamp::rfc3339_utc(secs);
    proof {
        if r is Some {
            assert(secs < crate::timestamp::max_rfc3339_secs() && encode_utf8(r->Some_0@)
                == crate::timestamp::rfc3339_bytes(secs as int));
        }
    }
    r
}

/// The string to sign: `METHOD&` then the percent-encoded path `/`, then
/// `&` and the percent-encoded canonical query.
pub open spec fn string_to_sign_of(method: Seq<char>, canonical: Seq<char>) -> Seq<u8> {
    encode_utf8(method) + seq![0x26u8] + percent_encode_spec(seq![0x2fu8]) + seq![0x26u8]
        + percent_encode_spec(encode_utf8(canonical))
}

/// The HMAC key: the secret's bytes with `&` appended.
pub open spec fn signing_key_of(secret: Seq<char>) -> Seq<u8> {
    encode_utf8(secret) + seq![0x26u8]
}

/// The signature: base64 of the HMAC-SHA1 digest of the string to sign
/// under the secret-derived key. Identical inputs always yield identical
/// output.
pub open spec fn signature_spec(method: Seq<char>, canonical: Seq<char>, secret: Seq<char>) -> Seq<
    char,
> {
    base64_of(hmac_sha1_of(signing_key_of(secret), string_to_sign_of(method, canonical)))
}

/// Computes the request signature for a method, canonical query string and
/// secret. Never fails: every key is accepted.
pub fn signature(method: &str, canonical_query: &str, secret: &str) -> (r: Result<String, Error>)
    ensures
        r matches Ok(s) && s@ == signature_spec(method@, canonical_query@, secret@),
{
    let mut sts: Vec<u8> = method.as_bytes_vec();
    sts.push(0x26);
    sts.push(0x25);
    sts.push(0x32);
    sts.push(0x46);
    sts.push(0x26);
    let canonical_bytes = canonical_query.as_bytes_vec();
    push_encoded(&mut sts, &canonical_bytes);
    proof {
        let slash = seq![0x2fu8];
        assert(slash.first() == 0x2fu8);
        assert(slash.drop_first() =~= Seq::<u8>::empty());
        assert(crate::encode::encode_byte(0x2fu8) =~= seq![0x25u8, 0x32u8, 0x46u8]);
        assert(percent_encode_spec(slash) == crate::encode::encode_byte(0x2fu8)
            + percent_encode_spec(Seq::<u8>::empty()));
        assert(percent_encode_spec(slash) =~= seq![0x25u8, 0x32u8, 0x46u8]);
        assert(sts@ =~= string_to_sign_of(method@, canonical_query@));
    }
    let mut key: Vec<u8> = secret.as_bytes_vec();
    key.push(0x26);
    proof {
        assert(key@ =~= signing_key_of(secret@));
    }
    let digest = hmac_sha1(&key, &sts);
    Ok(base64_encode(&digest))
}

/// Computes the signature over a parameter map's canonical query string,
/// for the `GET` method.
pub fn calculate_signature(params: &ParamMap, access_key_secret: &str) -> (r: String)
    ensures
        r@ == signature_spec("GET"@, params.canonical_spec(), access_key_secret@),
{
    let canonical = build_canonicalized_query(params);
    match signature("GET", canonical.as_str(), access_key_secret) {
        Ok(s) => s,
        Err(_) => vstd::pervasive::unreached(),
    }
}

/// The signed parameter map that merging the common RPC parameters leaves
/// behind: the caller's map with credentials and signature metadata set,
/// and a fresh nonce and timestamp.
pub open spec fn injected_params(
    before: Map<Seq<u8>, Seq<u8>>,
    after: Map<Seq<u8>, Seq<u8>>,
    key: AccessKey,
) -> bool {
    &&& after.contains_key("SignatureNonce".spec_bytes())
    &&& after.contains_key("Timestamp".spec_bytes())
    &&& {
        let with_token = match key.spec_token() {
            Some(t) => before.insert("SecurityToken".spec_bytes(), encode_utf8(t)),
            None => before,
        };
        after == with_token.insert(
            "AccessKeyId".spec_bytes(),
            encode_utf8(key.spec_id()),
        ).insert("SignatureMethod".spec_bytes(), "HMAC-SHA1".spec_bytes()).insert(
            "SignatureVersion".spec_bytes(),
            "1.0".spec_bytes(),
        ).insert("SignatureNonce".spec_bytes(), after["SignatureNonce".spec_bytes()]).insert(
            "Timestamp".spec_bytes(),
            after["Timestamp".spec_bytes()],
        )
    }
    &&& after["SignatureNonce".spec_bytes()].len() == 36
    &&& after["Timestamp".spec_bytes()].len() == 20
    &&& crate::timestamp::is_rfc3339_render(after["Timestamp".spec_bytes()])
}

/// Merges the common signed parameters into the map: `AccessKeyId`,
/// `SignatureMethod`, `SignatureVersion`, a fresh `SignatureNonce`, a fresh
/// whole-second `Timestamp`, and `SecurityToken` when the credentials hold
/// a session token. Fails only when the clock cannot be rendered; the map
/// is then unchanged.
pub fn inject_common_rpc_params(params: &mut ParamMap, access_key: &AccessKey) -> (r: Result<
    (),
    Error,
>)
    requires
        old(params).wf(),
    ensures
        final(params).wf(),
        r is Ok ==> injected_params(old(params)@, final(params)@, *access_key),
        r matches Err(e) ==> (e matches Error::InvalidConfig { message } && message@
            == "failed to format timestamp"@) && final(params)@ == old(params)@,
{
    let ts = match now_timestamp() {
        Some(ts) => ts,
        None => {
            return Err(Error::invalid_config("failed to format timestamp".to_owned()));
        },
    };
    let nonce = fresh_nonce();
    match access_key.token() {
        Some(token) => {
            params.insert("SecurityToken", token.expose());
        },
        None => {},
    }
    params.insert("AccessKeyId", access_key.id());
    params.insert("SignatureMethod", "HMAC-SHA1");
    params.insert("SignatureVersion", "1.0");
    params.insert("SignatureNonce", nonce.as_str());
    params.insert("Timestamp", ts.as_str());
    proof {
        reveal_strlit("SignatureNonce");
        reveal_strlit("Timestamp");
        assert("SignatureNonce"@.len() == 14);
        assert("Timestamp"@.len() == 9);
        assert("SignatureNonce".spec_bytes() != "Timestamp".spec_bytes()) by {
            encode_utf8_decode_utf8("SignatureNonce"@);
            encode_utf8_decode_utf8("Timestamp"@);
        }
        is_ascii_chars_encode_utf8(nonce@);
        is_ascii_chars_encode_utf8(ts@);
    }
    Ok(())
}

} // verus!
