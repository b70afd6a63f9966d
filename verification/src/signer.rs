//! Signature computation: the signing key is derived from the two secrets,
//! the base string is HMAC-SHA1-signed with it, and the digest is
//! base64-encoded. The digest and its encoding come from outside crates and
//! are named, not restated, here.

use crypto::mac::Mac;
use vstd::prelude::*;

use crate::percent::percent_encode_spec;

verus! {

/// The HMAC-SHA1 tag of a message under a key, as the `crypto` crate
/// computes it.
pub uninterp spec fn hmac_sha1_of(key: Seq<u8>, msg: Seq<u8>) -> Seq<u8>;

/// The base64 encoding of a byte string, standard alphabet with padding, as
/// the `base64` crate computes it.
pub uninterp spec fn base64_of(bytes: Seq<u8>) -> Seq<u8>;

/// Relies on `crypto::hmac::Hmac` over `crypto::sha1::Sha1`: the tag is a
/// function of the key and the message alone, and is one SHA-1 digest of
/// 20 bytes (SHA-1 outputs 160 bits).
#[verifier::external_body]
fn hmac_sha1(key: &[u8], msg: &[u8]) -> (r: Vec<u8>)
    ensures
        r@ == hmac_sha1_of(key@, msg@),
        r@.len() == 20,
{
    let mut mac = crypto::hmac::Hmac::new(crypto::sha1::Sha1::new(), key);
    mac.input(msg);
    mac.result().code().to_vec()
}

/// Relies on `base64::encode`: standard alphabet with `=` padding, so the
/// output is a function of the input bytes alone and four bytes long for
/// every three input bytes begun.
#[verifier::external_body]
fn base64_encode(bytes: &[u8]) -> (r: Vec<u8>)
    ensures
        r@ == base64_of(bytes@),
        r@.len() == ((bytes@.len() + 2) / 3) * 4,
{
    base64::encode(bytes).into_bytes()
}

/// The signing key: the two secrets, each percent-encoded, joined with `&`.
pub open spec fn signing_key_spec(consumer_secret: Seq<u8>, token_secret: Seq<u8>) -> Seq<u8> {
    percent_encode_spec(consumer_secret) + seq!['&' as u8] + percent_encode_spec(token_secret)
}

/// The OAuth signature of a base string: the base64-encoded HMAC-SHA1 tag of
/// the base string under the derived signing key.
pub open spec fn signature_spec(base: Seq<u8>, consumer_secret: Seq<u8>, token_secret: Seq<u8>) -> Seq<u8> {
    base64_of(hmac_sha1_of(signing_key_spec(consumer_secret, token_secret), base))
}

/// Derive the signing key from the consumer secret and the token secret.
pub fn signing_key(consumer_secret: &[u8], token_secret: &[u8]) -> (out: Vec<u8>)
    ensures
        out@ == signing_key_spec(consumer_secret@, token_secret@),
{
    let mut out = crate::percent::percent_encode(consumer_secret);
    out.push('&' as u8);
    let encoded_token_secret = crate::percent::percent_encode(token_secret);
    crate::params::append_bytes(&mut out, encoded_token_secret.as_slice());
    proof {
        assert(out@ =~= signing_key_spec(consumer_secret@, token_secret@));
    }
    out
}

/// Sign a base string: derive the signing key, take the HMAC-SHA1 tag of the
/// base string under it, and base64-encode the 20-byte digest. The result is
/// the 28-byte base64 text, not yet percent-encoded.
pub fn sign(base: &[u8], consumer_secret: &[u8], token_secret: &[u8]) -> (out: Vec<u8>)
    ensures
        out@ == signature_spec(base@, consumer_secret@, token_secret@),
        out@.len() == 28,
{
    let key = signing_key(consumer_secret, token_secret);
    let digest = hmac_sha1(key.as_slice(), base);
    base64_encode(digest.as_slice())
}

} // verus!
