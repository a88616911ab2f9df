//! Channel encoder: a reversible binary-to-text mapping for output chunks.
//!
//! The transport toward the consumer is text-oriented, so every chunk read
//! from a channel is encoded before it is emitted, and the consumer decodes
//! it back to the original bytes.

use base64::Engine;
use vstd::prelude::*;

verus! {

/// The text that the standard padded base64 alphabet assigns to a byte
/// sequence. The mapping depends on the bytes alone.
pub uninterp spec fn b64_of(b: Seq<u8>) -> Seq<char>;

/// Relies on base64's `Engine::encode` with the `STANDARD` engine: the
/// canonical padded base64 text of the input bytes.
#[verifier::external_body]
fn b64_encode(b: &[u8]) -> (r: String)
    ensures
        r@ == b64_of(b@),
{
    base64::engine::general_purpose::STANDARD.encode(b)
}

/// Relies on base64's `Engine::decode` with the `STANDARD` engine: it
/// requires canonical padding and rejects stray trailing bits, so it
/// succeeds exactly on the texts `Engine::encode` produces, and is then the
/// exact inverse of `Engine::encode`.
#[verifier::external_body]
fn b64_decode(s: &str) -> (r: Result<Vec<u8>, base64::DecodeError>)
    ensures
        forall|orig: Seq<u8>| #[trigger] b64_of(orig) == s@ ==> r is Ok && r->Ok_0@ == orig,
        r matches Ok(v) ==> b64_of(v@) == s@,
{
    base64::engine::general_purpose::STANDARD.decode(s)
}

#[verifier::external_type_specification]
#[verifier::external_body]
pub struct ExDecodeError(base64::DecodeError);

/// Encode one output chunk for the text transport.
pub fn encode_chunk(b: &[u8]) -> (r: String)
    ensures
        r@ == b64_of(b@),
{
    b64_encode(b)
}

/// Decode one transport chunk back to bytes.
///
/// Decoding succeeds exactly on the texts `encode_chunk` produces, and then
/// returns the encoded bytes; any other text yields `None`.
pub fn decode_chunk(s: &str) -> (r: Option<Vec<u8>>)
    ensures
        forall|orig: Seq<u8>| #[trigger] b64_of(orig) == s@ ==> r is Some && r->0@ == orig,
        r matches Some(v) ==> b64_of(v@) == s@,
{
    match b64_decode(s) {
        Ok(v) => Some(v),
        Err(_) => None,
    }
}

/// Encoder round trip: decoding what encode produced gives back exactly the
/// original byte sequence, for every byte sequence.
pub fn codec_round_trip(b: &[u8]) -> (r: Vec<u8>)
    ensures
        r@ == b@,
{
    let encoded = encode_chunk(b);
    match decode_chunk(encoded.as_str()) {
        Some(v) => v,
        None => {
            proof {
                assert(b64_of(b@) == encoded@);
                assert(false);
            }
            vstd::pervasive::unreached()
        },
    }
}

} // verus!
