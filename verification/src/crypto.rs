use vstd::prelude::*;
use base64::Engine;
use sha1::Digest;

verus! {

/// The SHA-1 digest of a byte sequence. The digest is a pure function of the
/// input bytes; its definition is left abstract here and supplied at run time
/// by the `sha1` crate.
pub uninterp spec fn sha1_of(data: Seq<u8>) -> Seq<u8>;

/// The standard base64 encoding (with padding) of a byte sequence, as a
/// sequence of ASCII bytes.
pub uninterp spec fn b64_encode_of(data: Seq<u8>) -> Seq<u8>;

/// The standard base64 decoding of a byte sequence: `Some(bytes)` when the
/// input is well-formed base64, `None` otherwise.
pub uninterp spec fn b64_decode_of(data: Seq<u8>) -> Option<Seq<u8>>;

/// Relies on `sha1::Sha1::digest` (RustCrypto): the digest depends on the
/// input bytes alone and is always 20 bytes (160 bits) long.
#[verifier::external_body]
pub fn sha1_digest(data: &Vec<u8>) -> (r: Vec<u8>)
    ensures
        r@ == sha1_of(data@),
        r@.len() == 20,
{
    sha1::Sha1::digest(data.as_slice()).as_slice().to_vec()
}

/// Relies on `base64::engine::Engine::encode` with the `STANDARD` engine:
/// the encoding depends on the input bytes alone.
#[verifier::external_body]
pub fn b64_encode(data: &Vec<u8>) -> (r: Vec<u8>)
    ensures
        r@ == b64_encode_of(data@),
{
    base64::engine::general_purpose::STANDARD.encode(data.as_slice()).into_bytes()
}

/// Relies on `base64::engine::Engine::decode` with the `STANDARD` engine:
/// decoding succeeds exactly on well-formed base64 input, and the decoded
/// bytes depend on the input bytes alone.
#[verifier::external_body]
pub fn b64_decode(data: &Vec<u8>) -> (r: Option<Vec<u8>>)
    ensures
        match r {
            Some(v) => b64_decode_of(data@) == Some(v@),
            None => b64_decode_of(data@) is None,
        },
{
    match base64::engine::general_purpose::STANDARD.decode(data.as_slice()) {
        Ok(v) => Some(v),
        Err(_) => None,
    }
}

} // verus!
