//! The canonical signature base string: `METHOD&encode(URL)&encode(PARAMS)`.
//! This is the exact byte string that is HMAC-signed; the server rebuilds it
//! independently, so every byte matters.

use vstd::prelude::*;

use crate::params::append_bytes;
use crate::percent::percent_encode;
use crate::percent::percent_encode_spec;

verus! {

/// The signature base string for a request: the method, the encoded URL and
/// the encoded normalized parameter string, joined with `&`.
pub open spec fn signature_base_spec(method: Seq<u8>, url: Seq<u8>, normalized: Seq<u8>) -> Seq<
    u8,
> {
    method + seq!['&' as u8] + percent_encode_spec(url) + seq!['&' as u8] + percent_encode_spec(
        normalized,
    )
}

/// Build the signature base string from the uppercase HTTP method, the
/// endpoint URL without a query string, and the normalized parameters.
pub fn build_signature_base(method: &[u8], url: &[u8], normalized: &[u8]) -> (out: Vec<u8>)
    ensures
        out@ == signature_base_spec(method@, url@, normalized@),
{
    let mut out: Vec<u8> = Vec::new();
    append_bytes(&mut out, method);
    out.push('&' as u8);
    let encoded_url = percent_encode(url);
    append_bytes(&mut out, encoded_url.as_slice());
    out.push('&' as u8);
    let encoded_normalized = percent_encode(normalized);
    append_bytes(&mut out, encoded_normalized.as_slice());
    proof {
        assert(out@ =~= signature_base_spec(method@, url@, normalized@));
    }
    out
}

} // verus!
