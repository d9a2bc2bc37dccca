//! The wire form of the push stream: server-sent events.

use bytes::Bytes;
use vstd::prelude::*;
use vstd::string::*;
use vstd::utf8::encode_utf8;

verus! {

/// A cheaply cloneable chunk of bytes of the `bytes` crate, as the streaming
/// response body takes it.
#[verifier::external_type_specification]
#[verifier::external_body]
pub struct ExBytes(Bytes);

/// The bytes that a chunk holds, in order.
pub uninterp spec fn chunk_bytes(chunk: Bytes) -> Seq<u8>;

/// Turns a string into a chunk with `Bytes::from`.
///
/// Trusted: the chunk holds the bytes of the string, which are the UTF-8
/// encoding of its characters, unchanged and in order.
#[verifier::external_body]
fn chunk_of(line: String) -> (chunk: Bytes)
    ensures
        chunk_bytes(chunk) == encode_utf8(line@),
{
    Bytes::from(line)
}

/// The line that carries `payload` on the push stream: `data: `, the payload,
/// and an empty line.
pub open spec fn sse_line(payload: Seq<char>) -> Seq<char> {
    seq!['d', 'a', 't', 'a', ':', ' '] + payload + seq!['\n', '\n']
}

/// Formats `payload` as one server-sent event.
pub fn sse_frame(payload: &str) -> (line: String)
    ensures
        line@ == sse_line(payload@),
{
    let mut line = String::from_str("data: ");
    line.append(payload);
    line.append("\n\n");
    proof {
        reveal_strlit("data: ");
        reveal_strlit("\n\n");
        assert("data: "@ =~= seq!['d', 'a', 't', 'a', ':', ' ']);
        assert("\n\n"@ =~= seq!['\n', '\n']);
    }
    line
}

/// Formats `payload` as one server-sent event, as a chunk of the response
/// body.
pub fn sse_event(payload: &str) -> (chunk: Bytes)
    ensures
        chunk_bytes(chunk) == encode_utf8(sse_line(payload@)),
{
    chunk_of(sse_frame(payload))
}

/// The content type of the push stream.
pub fn content_type() -> (value: &'static str)
    ensures
        value@ == "text/event-stream"@,
{
    "text/event-stream"
}

/// The cache directive of the push stream.
pub fn cache_control() -> (value: &'static str)
    ensures
        value@ == "no-cache"@,
{
    "no-cache"
}

} // verus!
