//! iperf3 JSON messages: a 32-bit big-endian length, then the UTF-8 body.

use vstd::prelude::*;
use crate::be::{be32, be32_at, lemma_be32_roundtrip, push_be32, read_be32};

verus! {

/// Upper bound on the parameter JSON (`MAX_PARAMS_JSON_STRING` in iperf.h).
pub const MAX_PARAMS_JSON: usize = 8 * 1024;

/// The length field is too short.
#[derive(Debug, Clone, Copy, PartialEq, Eq, Structural)]
pub struct FrameError;

/// The frame for a JSON body: its length as a big-endian `u32`, then the
/// body. A body of 2^32 bytes or more has its length taken modulo 2^32, as
/// the cast to `u32` does.
pub open spec fn json_frame(json: Seq<u8>) -> Seq<u8> {
    be32(json.len() as u32) + json
}

/// Encodes `[len_be32][json]`.
pub fn encode_json_frame(json: &[u8]) -> (out: Vec<u8>)
    ensures
        out@ == json_frame(json@),
{
    let mut out: Vec<u8> = Vec::new();
    push_be32(&mut out, json.len() as u32);
    out.extend_from_slice(json);
    out
}

/// Reads the JSON length from the first four bytes of `prefix` and hands
/// back the bytes after them unchanged. Fails exactly when `prefix` is
/// shorter than four bytes.
pub fn decode_json_len(prefix: &[u8]) -> (r: Result<(usize, &[u8]), FrameError>)
    ensures
        prefix@.len() < 4 ==> r == Err::<(usize, &[u8]), FrameError>(FrameError),
        prefix@.len() >= 4 ==> (r matches Ok((len, rest)) && len == be32_at(prefix@, 0)
            && rest@ == prefix@.subrange(4, prefix@.len() as int)),
{
    if prefix.len() < 4 {
        return Err(FrameError);
    }
    let len = read_be32(prefix, 0);
    let (_, rest) = prefix.split_at(4);
    Ok((len as usize, rest))
}

/// Decoding the length of an encoded frame gives back the body's length and
/// the body itself, for every body shorter than 2^32 bytes.
pub proof fn lemma_frame_roundtrip(json: Seq<u8>)
    requires
        json.len() <= u32::MAX,
    ensures
        json_frame(json).len() == json.len() + 4,
        be32_at(json_frame(json), 0) == json.len(),
        json_frame(json).subrange(4, json_frame(json).len() as int) == json,
{
    let x = json.len() as u32;
    lemma_be32_roundtrip(x);
    let f = json_frame(json);
    assert(be32_at(f, 0) == be32_at(be32(x), 0));
    assert(f.subrange(4, f.len() as int) =~= json);
}

} // verus!
