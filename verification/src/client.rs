//! The write path: from credentials, endpoint URL, status text and a
//! timestamp/nonce pair to the complete `Authorization` header. Each call
//! is a stateless transaction; the caller supplies the timestamp and nonce,
//! so the whole pipeline is a function of its arguments.

use vstd::prelude::*;

use crate::header::auth_header_spec;
use crate::header::build_auth_header;
use crate::header::OAuthParams;
use crate::params::append_bytes;
use crate::params::normalize;
use crate::params::normalize_spec;
use crate::params::params_view;
use crate::params::Param;
use crate::sigbase::build_signature_base;
use crate::sigbase::signature_base_spec;
use crate::signer::sign;
use crate::signer::signature_spec;

verus! {

/// The five credential strings, immutable for the life of the client.
pub struct Credentials {
    pub consumer_key: Vec<u8>,
    pub consumer_secret: Vec<u8>,
    pub access_token: Vec<u8>,
    pub access_secret: Vec<u8>,
    pub bearer_token: Vec<u8>,
}

/// The bytes of `oauth_consumer_key`.
pub open spec fn lit_key_consumer_key() -> Seq<u8> {
    seq!['o' as u8, 'a' as u8, 'u' as u8, 't' as u8, 'h' as u8, '_' as u8, 'c' as u8, 'o' as u8, 'n' as u8, 's' as u8, 'u' as u8, 'm' as u8, 'e' as u8, 'r' as u8, '_' as u8, 'k' as u8, 'e' as u8, 'y' as u8]
}

/// The bytes of `oauth_consumer_key`.
fn key_consumer_key_bytes() -> (out: Vec<u8>)
    ensures
        out@ == lit_key_consumer_key(),
{
    vec!['o' as u8, 'a' as u8, 'u' as u8, 't' as u8, 'h' as u8, '_' as u8, 'c' as u8, 'o' as u8, 'n' as u8, 's' as u8, 'u' as u8, 'm' as u8, 'e' as u8, 'r' as u8, '_' as u8, 'k' as u8, 'e' as u8, 'y' as u8]
}

/// The bytes of `oauth_nonce`.
pub open spec fn lit_key_nonce() -> Seq<u8> {
    seq!['o' as u8, 'a' as u8, 'u' as u8, 't' as u8, 'h' as u8, '_' as u8, 'n' as u8, 'o' as u8, 'n' as u8, 'c' as u8, 'e' as u8]
}

/// The bytes of `oauth_nonce`.
fn key_nonce_bytes() -> (out: Vec<u8>)
    ensures
        out@ == lit_key_nonce(),
{
    vec!['o' as u8, 'a' as u8, 'u' as u8, 't' as u8, 'h' as u8, '_' as u8, 'n' as u8, 'o' as u8, 'n' as u8, 'c' as u8, 'e' as u8]
}

/// The bytes of `oauth_signature_method`.
pub open spec fn lit_key_signature_method() -> Seq<u8> {
    seq!['o' as u8, 'a' as u8, 'u' as u8, 't' as u8, 'h' as u8, '_' as u8, 's' as u8, 'i' as u8, 'g' as u8, 'n' as u8, 'a' as u8, 't' as u8, 'u' as u8, 'r' as u8, 'e' as u8, '_' as u8, 'm' as u8, 'e' as u8, 't' as u8, 'h' as u8, 'o' as u8, 'd' as u8]
}

/// The bytes of `oauth_signature_method`.
fn key_signature_method_bytes() -> (out: Vec<u8>)
    ensures
        out@ == lit_key_signature_method(),
{
    vec!['o' as u8, 'a' as u8, 'u' as u8, 't' as u8, 'h' as u8, '_' as u8, 's' as u8, 'i' as u8, 'g' as u8, 'n' as u8, 'a' as u8, 't' as u8, 'u' as u8, 'r' as u8, 'e' as u8, '_' as u8, 'm' as u8, 'e' as u8, 't' as u8, 'h' as u8, 'o' as u8, 'd' as u8]
}

/// The bytes of `oauth_timestamp`.
pub open spec fn lit_key_timestamp() -> Seq<u8> {
    seq!['o' as u8, 'a' as u8, 'u' as u8, 't' as u8, 'h' as u8, '_' as u8, 't' as u8, 'i' as u8, 'm' as u8, 'e' as u8, 's' as u8, 't' as u8, 'a' as u8, 'm' as u8, 'p' as u8]
}

/// The bytes of `oauth_timestamp`.
fn key_timestamp_bytes() -> (out: Vec<u8>)
    ensures
        out@ == lit_key_timestamp(),
{
    vec!['o' as u8, 'a' as u8, 'u' as u8, 't' as u8, 'h' as u8, '_' as u8, 't' as u8, 'i' as u8, 'm' as u8, 'e' as u8, 's' as u8, 't' as u8, 'a' as u8, 'm' as u8, 'p' as u8]
}

/// The bytes of `oauth_token`.
pub open spec fn lit_key_token() -> Seq<u8> {
    seq!['o' as u8, 'a' as u8, 'u' as u8, 't' as u8, 'h' as u8, '_' as u8, 't' as u8, 'o' as u8, 'k' as u8, 'e' as u8, 'n' as u8]
}

/// The bytes of `oauth_token`.
fn key_token_bytes() -> (out: Vec<u8>)
    ensures
        out@ == lit_key_token(),
{
    vec!['o' as u8, 'a' as u8, 'u' as u8, 't' as u8, 'h' as u8, '_' as u8, 't' as u8, 'o' as u8, 'k' as u8, 'e' as u8, 'n' as u8]
}

/// The bytes of `oauth_version`.
pub open spec fn lit_key_version() -> Seq<u8> {
    seq!['o' as u8, 'a' as u8, 'u' as u8, 't' as u8, 'h' as u8, '_' as u8, 'v' as u8, 'e' as u8, 'r' as u8, 's' as u8, 'i' as u8, 'o' as u8, 'n' as u8]
}

/// The bytes of `oauth_version`.
fn key_version_bytes() -> (out: Vec<u8>)
    ensures
        out@ == lit_key_version(),
{
    vec!['o' as u8, 'a' as u8, 'u' as u8, 't' as u8, 'h' as u8, '_' as u8, 'v' as u8, 'e' as u8, 'r' as u8, 's' as u8, 'i' as u8, 'o' as u8, 'n' as u8]
}

/// The bytes of `status`.
pub open spec fn lit_key_status() -> Seq<u8> {
    seq!['s' as u8, 't' as u8, 'a' as u8, 't' as u8, 'u' as u8, 's' as u8]
}

/// The bytes of `status`.
fn key_status_bytes() -> (out: Vec<u8>)
    ensures
        out@ == lit_key_status(),
{
    vec!['s' as u8, 't' as u8, 'a' as u8, 't' as u8, 'u' as u8, 's' as u8]
}

/// The bytes of `HMAC-SHA1`.
pub open spec fn lit_hmac_sha1_name() -> Seq<u8> {
    seq!['H' as u8, 'M' as u8, 'A' as u8, 'C' as u8, '-' as u8, 'S' as u8, 'H' as u8, 'A' as u8, '1' as u8]
}

/// The bytes of `HMAC-SHA1`.
fn hmac_sha1_name_bytes() -> (out: Vec<u8>)
    ensures
        out@ == lit_hmac_sha1_name(),
{
    vec!['H' as u8, 'M' as u8, 'A' as u8, 'C' as u8, '-' as u8, 'S' as u8, 'H' as u8, 'A' as u8, '1' as u8]
}

/// The bytes of `1.0`.
pub open spec fn lit_version_value() -> Seq<u8> {
    seq!['1' as u8, '.' as u8, '0' as u8]
}

/// The bytes of `1.0`.
fn version_value_bytes() -> (out: Vec<u8>)
    ensures
        out@ == lit_version_value(),
{
    vec!['1' as u8, '.' as u8, '0' as u8]
}

/// The bytes of `POST`.
pub open spec fn lit_post_method() -> Seq<u8> {
    seq!['P' as u8, 'O' as u8, 'S' as u8, 'T' as u8]
}

/// The bytes of `POST`.
fn post_method_bytes() -> (out: Vec<u8>)
    ensures
        out@ == lit_post_method(),
{
    vec!['P' as u8, 'O' as u8, 'S' as u8, 'T' as u8]
}

/// The bytes of `Bearer `.
pub open spec fn lit_bearer_prefix() -> Seq<u8> {
    seq!['B' as u8, 'e' as u8, 'a' as u8, 'r' as u8, 'e' as u8, 'r' as u8, ' ' as u8]
}

/// The bytes of `Bearer `.
fn bearer_prefix_bytes() -> (out: Vec<u8>)
    ensures
        out@ == lit_bearer_prefix(),
{
    vec!['B' as u8, 'e' as u8, 'a' as u8, 'r' as u8, 'e' as u8, 'r' as u8, ' ' as u8]
}

/// The seven parameters that enter the signature base of a status update:
/// the six protocol parameters and the `status` request parameter.
pub open spec fn update_pairs_spec(
    consumer_key: Seq<u8>,
    token: Seq<u8>,
    timestamp: Seq<u8>,
    nonce: Seq<u8>,
    status: Seq<u8>,
) -> Seq<(Seq<u8>, Seq<u8>)> {
    seq![
        (lit_key_consumer_key(), consumer_key),
        (lit_key_token(), token),
        (lit_key_signature_method(), lit_hmac_sha1_name()),
        (lit_key_version(), lit_version_value()),
        (lit_key_timestamp(), timestamp),
        (lit_key_nonce(), nonce),
        (lit_key_status(), status),
    ]
}

/// The signature of a status update: the seven parameters normalized, the
/// base string built with method `POST` and the endpoint URL, and the
/// result signed with the two secrets.
pub open spec fn update_signature_spec(
    consumer_key: Seq<u8>,
    consumer_secret: Seq<u8>,
    token: Seq<u8>,
    token_secret: Seq<u8>,
    url: Seq<u8>,
    status: Seq<u8>,
    timestamp: Seq<u8>,
    nonce: Seq<u8>,
) -> Seq<u8> {
    signature_spec(
        signature_base_spec(
            lit_post_method(),
            url,
            normalize_spec(update_pairs_spec(consumer_key, token, timestamp, nonce, status)),
        ),
        consumer_secret,
        token_secret,
    )
}

/// The complete `Authorization` header of a status update.
pub open spec fn update_header_spec(
    consumer_key: Seq<u8>,
    consumer_secret: Seq<u8>,
    token: Seq<u8>,
    token_secret: Seq<u8>,
    url: Seq<u8>,
    status: Seq<u8>,
    timestamp: Seq<u8>,
    nonce: Seq<u8>,
) -> Seq<u8> {
    auth_header_spec(
        consumer_key,
        nonce,
        update_signature_spec(
            consumer_key,
            consumer_secret,
            token,
            token_secret,
            url,
            status,
            timestamp,
            nonce,
        ),
        lit_hmac_sha1_name(),
        timestamp,
        token,
        lit_version_value(),
    )
}

/// An owned copy of a byte slice.
fn bytes_of(src: &[u8]) -> (out: Vec<u8>)
    ensures
        out@ == src@,
{
    let mut out: Vec<u8> = Vec::new();
    append_bytes(&mut out, src);
    out
}

/// Build the `Authorization: OAuth ...` header for a status update with the
/// given credentials, endpoint URL, status text, timestamp and nonce: the
/// parameters are normalized, the base string is signed, and the header is
/// assembled with every value encoded exactly once.
pub fn oauth_header_for_update(
    credentials: &Credentials,
    url: &[u8],
    status: &[u8],
    timestamp: &[u8],
    nonce: &[u8],
) -> (out: Vec<u8>)
    ensures
        out@ == update_header_spec(
            credentials.consumer_key@,
            credentials.consumer_secret@,
            credentials.access_token@,
            credentials.access_secret@,
            url@,
            status@,
            timestamp@,
            nonce@,
        ),
{
    let mut signature_params: Vec<Param> = Vec::new();
    signature_params.push(
        Param { key: key_consumer_key_bytes(), value: bytes_of(credentials.consumer_key.as_slice()) },
    );
    signature_params.push(
        Param { key: key_token_bytes(), value: bytes_of(credentials.access_token.as_slice()) },
    );
    signature_params.push(
        Param { key: key_signature_method_bytes(), value: hmac_sha1_name_bytes() },
    );
    signature_params.push(Param { key: key_version_bytes(), value: version_value_bytes() });
    signature_params.push(Param { key: key_timestamp_bytes(), value: bytes_of(timestamp) });
    signature_params.push(Param { key: key_nonce_bytes(), value: bytes_of(nonce) });
    signature_params.push(Param { key: key_status_bytes(), value: bytes_of(status) });
    proof {
        assert(params_view(signature_params@) =~= update_pairs_spec(
            credentials.consumer_key@,
            credentials.access_token@,
            timestamp@,
            nonce@,
            status@,
        ));
    }
    let normalized = normalize(&signature_params);
    let method = post_method_bytes();
    let base = build_signature_base(method.as_slice(), url, normalized.as_slice());
    let signature = sign(
        base.as_slice(),
        credentials.consumer_secret.as_slice(),
        credentials.access_secret.as_slice(),
    );
    let oauth_params = OAuthParams {
        consumer_key: bytes_of(credentials.consumer_key.as_slice()),
        nonce: bytes_of(nonce),
        signature_method: hmac_sha1_name_bytes(),
        timestamp: bytes_of(timestamp),
        token: bytes_of(credentials.access_token.as_slice()),
        version: version_value_bytes(),
    };
    build_auth_header(&oauth_params, signature.as_slice())
}

/// The value of the `Authorization` header on the bearer-token read path:
/// `Bearer ` followed by the token itself, unencoded.
pub open spec fn bearer_header_spec(token: Seq<u8>) -> Seq<u8> {
    lit_bearer_prefix() + token
}

/// Build the bearer `Authorization` header value for the read path.
pub fn bearer_header(token: &[u8]) -> (out: Vec<u8>)
    ensures
        out@ == bearer_header_spec(token@),
{
    let mut out = bearer_prefix_bytes();
    append_bytes(&mut out, token);
    out
}

} // verus!
