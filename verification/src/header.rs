//! Assembly of the `Authorization` header: the six OAuth protocol
//! parameters plus the computed signature, each value percent-encoded, in a
//! fixed alphabetical key order.

use vstd::prelude::*;

use crate::params::append_bytes;
use crate::percent::percent_encode;
use crate::percent::percent_encode_spec;

verus! {

/// The six OAuth protocol parameters of one signed request, as raw
/// (unencoded) values.
pub struct OAuthParams {
    pub consumer_key: Vec<u8>,
    pub nonce: Vec<u8>,
    pub signature_method: Vec<u8>,
    pub timestamp: Vec<u8>,
    pub token: Vec<u8>,
    pub version: Vec<u8>,
}

/// The bytes of `OAuth oauth_consumer_key=`.
pub open spec fn lit_header_prefix() -> Seq<u8> {
    seq!['O' as u8, 'A' as u8, 'u' as u8, 't' as u8, 'h' as u8, ' ' as u8, 'o' as u8, 'a' as u8, 'u' as u8, 't' as u8, 'h' as u8, '_' as u8, 'c' as u8, 'o' as u8, 'n' as u8, 's' as u8, 'u' as u8, 'm' as u8, 'e' as u8, 'r' as u8, '_' as u8, 'k' as u8, 'e' as u8, 'y' as u8, '=' as u8]
}

/// The bytes of `OAuth oauth_consumer_key=`.
fn header_prefix_bytes() -> (out: Vec<u8>)
    ensures
        out@ == lit_header_prefix(),
{
    vec!['O' as u8, 'A' as u8, 'u' as u8, 't' as u8, 'h' as u8, ' ' as u8, 'o' as u8, 'a' as u8, 'u' as u8, 't' as u8, 'h' as u8, '_' as u8, 'c' as u8, 'o' as u8, 'n' as u8, 's' as u8, 'u' as u8, 'm' as u8, 'e' as u8, 'r' as u8, '_' as u8, 'k' as u8, 'e' as u8, 'y' as u8, '=' as u8]
}

/// The bytes of `, oauth_nonce=`.
pub open spec fn lit_sep_nonce() -> Seq<u8> {
    seq![',' as u8, ' ' as u8, 'o' as u8, 'a' as u8, 'u' as u8, 't' as u8, 'h' as u8, '_' as u8, 'n' as u8, 'o' as u8, 'n' as u8, 'c' as u8, 'e' as u8, '=' as u8]
}

/// The bytes of `, oauth_nonce=`.
fn sep_nonce_bytes() -> (out: Vec<u8>)
    ensures
        out@ == lit_sep_nonce(),
{
    vec![',' as u8, ' ' as u8, 'o' as u8, 'a' as u8, 'u' as u8, 't' as u8, 'h' as u8, '_' as u8, 'n' as u8, 'o' as u8, 'n' as u8, 'c' as u8, 'e' as u8, '=' as u8]
}

/// The bytes of `, oauth_signature=`.
pub open spec fn lit_sep_signature() -> Seq<u8> {
    seq![',' as u8, ' ' as u8, 'o' as u8, 'a' as u8, 'u' as u8, 't' as u8, 'h' as u8, '_' as u8, 's' as u8, 'i' as u8, 'g' as u8, 'n' as u8, 'a' as u8, 't' as u8, 'u' as u8, 'r' as u8, 'e' as u8, '=' as u8]
}

/// The bytes of `, oauth_signature=`.
fn sep_signature_bytes() -> (out: Vec<u8>)
    ensures
        out@ == lit_sep_signature(),
{
    vec![',' as u8, ' ' as u8, 'o' as u8, 'a' as u8, 'u' as u8, 't' as u8, 'h' as u8, '_' as u8, 's' as u8, 'i' as u8, 'g' as u8, 'n' as u8, 'a' as u8, 't' as u8, 'u' as u8, 'r' as u8, 'e' as u8, '=' as u8]
}

/// The bytes of `, oauth_signature_method=`.
pub open spec fn lit_sep_signature_method() -> Seq<u8> {
    seq![',' as u8, ' ' as u8, 'o' as u8, 'a' as u8, 'u' as u8, 't' as u8, 'h' as u8, '_' as u8, 's' as u8, 'i' as u8, 'g' as u8, 'n' as u8, 'a' as u8, 't' as u8, 'u' as u8, 'r' as u8, 'e' as u8, '_' as u8, 'm' as u8, 'e' as u8, 't' as u8, 'h' as u8, 'o' as u8, 'd' as u8, '=' as u8]
}

/// The bytes of `, oauth_signature_method=`.
fn sep_signature_method_bytes() -> (out: Vec<u8>)
    ensures
        out@ == lit_sep_signature_method(),
{
    vec![',' as u8, ' ' as u8, 'o' as u8, 'a' as u8, 'u' as u8, 't' as u8, 'h' as u8, '_' as u8, 's' as u8, 'i' as u8, 'g' as u8, 'n' as u8, 'a' as u8, 't' as u8, 'u' as u8, 'r' as u8, 'e' as u8, '_' as u8, 'm' as u8, 'e' as u8, 't' as u8, 'h' as u8, 'o' as u8, 'd' as u8, '=' as u8]
}

/// The bytes of `, oauth_timestamp=`.
pub open spec fn lit_sep_timestamp() -> Seq<u8> {
    seq![',' as u8, ' ' as u8, 'o' as u8, 'a' as u8, 'u' as u8, 't' as u8, 'h' as u8, '_' as u8, 't' as u8, 'i' as u8, 'm' as u8, 'e' as u8, 's' as u8, 't' as u8, 'a' as u8, 'm' as u8, 'p' as u8, '=' as u8]
}

/// The bytes of `, oauth_timestamp=`.
fn sep_timestamp_bytes() -> (out: Vec<u8>)
    ensures
        out@ == lit_sep_timestamp(),
{
    vec![',' as u8, ' ' as u8, 'o' as u8, 'a' as u8, 'u' as u8, 't' as u8, 'h' as u8, '_' as u8, 't' as u8, 'i' as u8, 'm' as u8, 'e' as u8, 's' as u8, 't' as u8, 'a' as u8, 'm' as u8, 'p' as u8, '=' as u8]
}

/// The bytes of `, oauth_token=`.
pub open spec fn lit_sep_token() -> Seq<u8> {
    seq![',' as u8, ' ' as u8, 'o' as u8, 'a' as u8, 'u' as u8, 't' as u8, 'h' as u8, '_' as u8, 't' as u8, 'o' as u8, 'k' as u8, 'e' as u8, 'n' as u8, '=' as u8]
}

/// The bytes of `, oauth_token=`.
fn sep_token_bytes() -> (out: Vec<u8>)
    ensures
        out@ == lit_sep_token(),
{
    vec![',' as u8, ' ' as u8, 'o' as u8, 'a' as u8, 'u' as u8, 't' as u8, 'h' as u8, '_' as u8, 't' as u8, 'o' as u8, 'k' as u8, 'e' as u8, 'n' as u8, '=' as u8]
}

/// The bytes of `, oauth_version=`.
pub open spec fn lit_sep_version() -> Seq<u8> {
    seq![',' as u8, ' ' as u8, 'o' as u8, 'a' as u8, 'u' as u8, 't' as u8, 'h' as u8, '_' as u8, 'v' as u8, 'e' as u8, 'r' as u8, 's' as u8, 'i' as u8, 'o' as u8, 'n' as u8, '=' as u8]
}

/// The bytes of `, oauth_version=`.
fn sep_version_bytes() -> (out: Vec<u8>)
    ensures
        out@ == lit_sep_version(),
{
    vec![',' as u8, ' ' as u8, 'o' as u8, 'a' as u8, 'u' as u8, 't' as u8, 'h' as u8, '_' as u8, 'v' as u8, 'e' as u8, 'r' as u8, 's' as u8, 'i' as u8, 'o' as u8, 'n' as u8, '=' as u8]
}

/// The full `Authorization` header value: `OAuth ` followed by the seven
/// `key=value` fields, comma-separated, keys in alphabetical order, every
/// value percent-encoded from its raw form.
pub open spec fn auth_header_spec(
    consumer_key: Seq<u8>,
    nonce: Seq<u8>,
    signature: Seq<u8>,
    signature_method: Seq<u8>,
    timestamp: Seq<u8>,
    token: Seq<u8>,
    version: Seq<u8>,
) -> Seq<u8> {
    lit_header_prefix() + percent_encode_spec(consumer_key) + lit_sep_nonce()
        + percent_encode_spec(nonce) + lit_sep_signature() + percent_encode_spec(signature)
        + lit_sep_signature_method() + percent_encode_spec(signature_method) + lit_sep_timestamp()
        + percent_encode_spec(timestamp) + lit_sep_token() + percent_encode_spec(token)
        + lit_sep_version() + percent_encode_spec(version)
}

/// How often a byte occurs in a byte string.
pub open spec fn count_byte(s: Seq<u8>, b: u8) -> nat
    decreases s.len(),
{
    if s.len() == 0 {
        0
    } else {
        (if s[0] == b {
            1nat
        } else {
            0nat
        }) + count_byte(s.drop_first(), b)
    }
}

pub proof fn lemma_count_byte_app(a: Seq<u8>, b: Seq<u8>, c: u8)
    ensures
        count_byte(a + b, c) == count_byte(a, c) + count_byte(b, c),
    decreases a.len(),
{
    if a.len() == 0 {
        assert(a + b =~= b);
    } else {
        assert((a + b).drop_first() =~= a.drop_first() + b);
        assert((a + b)[0] == a[0]);
        lemma_count_byte_app(a.drop_first(), b, c);
    }
}

pub proof fn lemma_count_byte_zero(s: Seq<u8>, b: u8)
    requires
        forall|i: int| 0 <= i < s.len() ==> #[trigger] s[i] != b,
    ensures
        count_byte(s, b) == 0,
    decreases s.len(),
{
    if s.len() > 0 {
        lemma_count_byte_zero(s.drop_first(), b);
    }
}

/// The `OAuth ` prefix holds no comma.
#[verifier::rlimit(60)]
proof fn lemma_prefix_comma_count()
    ensures
        count_byte(lit_header_prefix(), ',' as u8) == 0,
{
    reveal_with_fuel(count_byte, 27);
}

/// Each of the six field separators holds exactly one comma.
#[verifier::rlimit(100)]
proof fn lemma_separator_comma_counts()
    ensures
        count_byte(lit_sep_nonce(), ',' as u8) == 1,
        count_byte(lit_sep_signature(), ',' as u8) == 1,
        count_byte(lit_sep_signature_method(), ',' as u8) == 1,
        count_byte(lit_sep_timestamp(), ',' as u8) == 1,
        count_byte(lit_sep_token(), ',' as u8) == 1,
        count_byte(lit_sep_version(), ',' as u8) == 1,
{
    reveal_with_fuel(count_byte, 27);
}

/// The header always holds exactly seven comma-separated fields: the six
/// separators contribute one comma each, and no encoded value nor the
/// `OAuth ` prefix contains one.
pub proof fn lemma_header_has_six_commas(
    consumer_key: Seq<u8>,
    nonce: Seq<u8>,
    signature: Seq<u8>,
    signature_method: Seq<u8>,
    timestamp: Seq<u8>,
    token: Seq<u8>,
    version: Seq<u8>,
)
    ensures
        count_byte(
            auth_header_spec(
                consumer_key,
                nonce,
                signature,
                signature_method,
                timestamp,
                token,
                version,
            ),
            ',' as u8,
        ) == 6,
{
    let comma = ',' as u8;
    lemma_prefix_comma_count();
    lemma_separator_comma_counts();
    lemma_count_of_encoded_is_zero(consumer_key);
    lemma_count_of_encoded_is_zero(nonce);
    lemma_count_of_encoded_is_zero(signature);
    lemma_count_of_encoded_is_zero(signature_method);
    lemma_count_of_encoded_is_zero(timestamp);
    lemma_count_of_encoded_is_zero(token);
    lemma_count_of_encoded_is_zero(version);
    let h1 = lit_header_prefix() + percent_encode_spec(consumer_key);
    lemma_count_byte_app(lit_header_prefix(), percent_encode_spec(consumer_key), comma);
    let h2 = h1 + lit_sep_nonce();
    lemma_count_byte_app(h1, lit_sep_nonce(), comma);
    let h3 = h2 + percent_encode_spec(nonce);
    lemma_count_byte_app(h2, percent_encode_spec(nonce), comma);
    let h4 = h3 + lit_sep_signature();
    lemma_count_byte_app(h3, lit_sep_signature(), comma);
    let h5 = h4 + percent_encode_spec(signature);
    lemma_count_byte_app(h4, percent_encode_spec(signature), comma);
    let h6 = h5 + lit_sep_signature_method();
    lemma_count_byte_app(h5, lit_sep_signature_method(), comma);
    let h7 = h6 + percent_encode_spec(signature_method);
    lemma_count_byte_app(h6, percent_encode_spec(signature_method), comma);
    let h8 = h7 + lit_sep_timestamp();
    lemma_count_byte_app(h7, lit_sep_timestamp(), comma);
    let h9 = h8 + percent_encode_spec(timestamp);
    lemma_count_byte_app(h8, percent_encode_spec(timestamp), comma);
    let h10 = h9 + lit_sep_token();
    lemma_count_byte_app(h9, lit_sep_token(), comma);
    let h11 = h10 + percent_encode_spec(token);
    lemma_count_byte_app(h10, percent_encode_spec(token), comma);
    let h12 = h11 + lit_sep_version();
    lemma_count_byte_app(h11, lit_sep_version(), comma);
    lemma_count_byte_app(h12, percent_encode_spec(version), comma);
}

/// An encoded value holds no comma.
proof fn lemma_count_of_encoded_is_zero(s: Seq<u8>)
    ensures
        count_byte(percent_encode_spec(s), ',' as u8) == 0,
{
    crate::percent::lemma_encoded_value_no_delimiters(s);
    lemma_count_byte_zero(percent_encode_spec(s), ',' as u8);
}

/// Build the `Authorization` header value from the six protocol parameters
/// and the computed signature. Every value is encoded here from its raw
/// form; in particular the signature arrives as raw base64 text and is
/// encoded exactly once.
pub fn build_auth_header(params: &OAuthParams, signature: &[u8]) -> (out: Vec<u8>)
    ensures
        out@ == auth_header_spec(
            params.consumer_key@,
            params.nonce@,
            signature@,
            params.signature_method@,
            params.timestamp@,
            params.token@,
            params.version@,
        ),
{
    let mut out = header_prefix_bytes();
    let encoded = percent_encode(params.consumer_key.as_slice());
    append_bytes(&mut out, encoded.as_slice());
    let sep = sep_nonce_bytes();
    append_bytes(&mut out, sep.as_slice());
    let encoded = percent_encode(params.nonce.as_slice());
    append_bytes(&mut out, encoded.as_slice());
    let sep = sep_signature_bytes();
    append_bytes(&mut out, sep.as_slice());
    let encoded = percent_encode(signature);
    append_bytes(&mut out, encoded.as_slice());
    let sep = sep_signature_method_bytes();
    append_bytes(&mut out, sep.as_slice());
    let encoded = percent_encode(params.signature_method.as_slice());
    append_bytes(&mut out, encoded.as_slice());
    let sep = sep_timestamp_bytes();
    append_bytes(&mut out, sep.as_slice());
    let encoded = percent_encode(params.timestamp.as_slice());
    append_bytes(&mut out, encoded.as_slice());
    let sep = sep_token_bytes();
    append_bytes(&mut out, sep.as_slice());
    let encoded = percent_encode(params.token.as_slice());
    append_bytes(&mut out, encoded.as_slice());
    let sep = sep_version_bytes();
    append_bytes(&mut out, sep.as_slice());
    let encoded = percent_encode(params.version.as_slice());
    append_bytes(&mut out, encoded.as_slice());
    proof {
        assert(out@ =~= auth_header_spec(
            params.consumer_key@,
            params.nonce@,
            signature@,
            params.signature_method@,
            params.timestamp@,
            params.token@,
            params.version@,
        ));
    }
    out
}

} // verus!
