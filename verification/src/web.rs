//! The browser shim's result header: the 9 bytes that tell the host whether a
//! compilation succeeded and where its output lies in linear memory.

use vstd::prelude::*;
use vstd::slice::slice_to_vec;
use vstd::utf8::{encode_utf8, valid_utf8};

verus! {

/// Little-endian encoding of a 32-bit value.
pub open spec fn le_bytes_u32(v: u32) -> Seq<u8> {
    seq![
        (v & 0xff) as u8,
        ((v >> 8u32) & 0xff) as u8,
        ((v >> 16u32) & 0xff) as u8,
        ((v >> 24u32) & 0xff) as u8,
    ]
}

/// The value that four little-endian bytes denote.
pub open spec fn le_value(b: Seq<u8>) -> int
    recommends
        b.len() == 4,
{
    b[0] + 256 * b[1] + 65536 * b[2] + 16777216 * b[3]
}

/// The result header: a success flag byte, then the payload length and the
/// payload address, each as a little-endian `u32`.
pub open spec fn result_header(ok: bool, len: u32, addr: u32) -> Seq<u8> {
    seq![if ok { 1u8 } else { 0u8 }] + le_bytes_u32(len) + le_bytes_u32(addr)
}

/// Builds the header that `compile` hands back to the host. The length and
/// the address are written as `u32`s, as the 32-bit target holds them.
pub fn make_result(ok: bool, data_len: usize, data_addr: usize) -> (header: Vec<u8>)
    ensures
        header@ == result_header(ok, data_len as u32, data_addr as u32),
        header@.len() == 9,
{
    let len = data_len as u32;
    let addr = data_addr as u32;
    let mut header: Vec<u8> = Vec::with_capacity(9);
    header.push(if ok { 1u8 } else { 0u8 });
    push_le_u32(&mut header, len);
    push_le_u32(&mut header, addr);
    assert(header@ =~= result_header(ok, len, addr));
    header
}

fn push_le_u32(out: &mut Vec<u8>, v: u32)
    ensures
        final(out)@ == old(out)@ + le_bytes_u32(v),
{
    out.push((v & 0xff) as u8);
    out.push(((v >> 8u32) & 0xff) as u8);
    out.push(((v >> 16u32) & 0xff) as u8);
    out.push(((v >> 24u32) & 0xff) as u8);
    assert(final(out)@ =~= old(out)@ + le_bytes_u32(v));
}

/// The four little-endian bytes of a `u32` denote that `u32` again.
pub proof fn lemma_le_bytes_roundtrip(v: u32)
    ensures
        le_bytes_u32(v).len() == 4,
        le_value(le_bytes_u32(v)) == v,
{
    let b0 = (v & 0xff) as u8;
    let b1 = ((v >> 8u32) & 0xff) as u8;
    let b2 = ((v >> 16u32) & 0xff) as u8;
    let b3 = ((v >> 24u32) & 0xff) as u8;
    assert(b0 + 256 * b1 + 65536 * b2 + 16777216 * b3 == v) by (bit_vector)
        requires
            b0 == (v & 0xff) as u8,
            b1 == ((v >> 8u32) & 0xff) as u8,
            b2 == ((v >> 16u32) & 0xff) as u8,
            b3 == ((v >> 24u32) & 0xff) as u8,
    ;
}

/// What the host reads back from a header: byte 0 is 1 exactly when the
/// compilation succeeded, bytes 1 to 4 give the payload length and bytes 5
/// to 8 its address, both little-endian.
pub proof fn law_result_header_layout(ok: bool, data_len: usize, data_addr: usize)
    ensures
        ({
            let h = result_header(ok, data_len as u32, data_addr as u32);
            &&& h.len() == 9
            &&& (h[0] == 1) == ok
            &&& (h[0] == 0) == !ok
            &&& le_value(h.subrange(1, 5)) == data_len as u32
            &&& le_value(h.subrange(5, 9)) == data_addr as u32
        }),
{
    let len = data_len as u32;
    let addr = data_addr as u32;
    let h = result_header(ok, len, addr);
    lemma_le_bytes_roundtrip(len);
    lemma_le_bytes_roundtrip(addr);
    assert(h.subrange(1, 5) =~= le_bytes_u32(len));
    assert(h.subrange(5, 9) =~= le_bytes_u32(addr));
}


/// Wraps `std::str::from_utf8`: as its documentation says, it succeeds
/// exactly when the bytes are well-formed UTF-8, and the text it gives back
/// is the one those bytes encode.
#[verifier::external_body]
fn utf8_text(bytes: &[u8]) -> (text: Option<String>)
    ensures
        text is Some <==> valid_utf8(bytes@),
        text matches Some(t) ==> encode_utf8(t@) == bytes@,
{
    match std::str::from_utf8(bytes) {
        Ok(s) => Some(s.to_string()),
        Err(_) => None,
    }
}

/// The text of the Kestrel source the host handed over, or `None` when those
/// bytes are not valid UTF-8.
pub fn decode_source(src_bytes: &[u8]) -> (source: Option<String>)
    ensures
        source is Some <==> valid_utf8(src_bytes@),
        source matches Some(s) ==> encode_utf8(s@) == src_bytes@,
{
    utf8_text(src_bytes)
}

/// The message given back for source bytes that are not UTF-8.
pub open spec fn invalid_source_message() -> Seq<char> {
    "kestrelc: source is not valid UTF-8"@
}

/// The payload that `compile` hands back: `None` stands for source bytes that
/// did not decode; otherwise the compiler's module bytes or its error text.
/// The flag tells the two apart as header byte 0 does.
pub fn compile_reply(compiled: Option<Result<Vec<u8>, String>>) -> (reply: (bool, Vec<u8>))
    ensures
        match compiled {
            None => !reply.0 && reply.1@ == encode_utf8(invalid_source_message()),
            Some(Ok(wasm)) => reply.0 && reply.1@ == wasm@,
            Some(Err(msg)) => !reply.0 && reply.1@ == encode_utf8(msg@),
        },
{
    match compiled {
        None => {
            let msg = "kestrelc: source is not valid UTF-8";
            (false, slice_to_vec(msg.as_bytes()))
        },
        Some(Ok(wasm)) => (true, wasm),
        Some(Err(msg)) => (false, slice_to_vec(msg.as_str().as_bytes())),
    }
}

} // verus!
