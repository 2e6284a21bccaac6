//! Messages on the wire: four bytes of length, the most significant first, and the body.
use crate::text;
use crate::text::{decimal_text, join3};
use vstd::prelude::*;

verus! {

/// A number as four bytes, the most significant first.
pub open spec fn length_bytes(n: u32) -> Seq<u8> {
    seq![(n >> 24) as u8, (n >> 16) as u8, (n >> 8) as u8, n as u8]
}

/// The number that four bytes stand for.
pub open spec fn length_of(a: u8, b: u8, c: u8, d: u8) -> u32 {
    ((a as u32) << 24) | ((b as u32) << 16) | ((c as u32) << 8) | (d as u32)
}

/// Four bytes stand for the number that they were made from.
pub proof fn lemma_length_bytes(n: u32)
    ensures
        length_of((n >> 24) as u8, (n >> 16) as u8, (n >> 8) as u8, n as u8) == n,
{
    assert((((n >> 24) as u8 as u32) << 24) | (((n >> 16) as u8 as u32) << 16) | (((
    n >> 8) as u8 as u32) << 8) | (n as u8 as u32) == n) by (bit_vector);
}

/// A body that fits one message, on the wire.
pub open spec fn framed(body: Seq<u8>) -> Seq<u8> {
    length_bytes(body.len() as u32) + body
}

/// What a message of `n` bytes is refused with.
pub open spec fn too_large(n: nat) -> Seq<char> {
    "message too large: "@ + text::decimal(n) + " bytes"@
}

/// Puts a body on the wire, unless it has more than `limit` bytes.
pub fn frame_message(body: &[u8], limit: u32) -> (result: Result<Vec<u8>, String>)
    ensures
        match result {
            Ok(frame) => body@.len() <= limit && frame@ == framed(body@),
            Err(message) => body@.len() > limit && message@ == too_large(body@.len()),
        },
{
    if body.len() as u64 > limit as u64 {
        let size = decimal_text(body.len() as u64);
        return Err(join3("message too large: ", size.as_str(), " bytes"));
    }
    let n = body.len() as u32;
    let mut frame: Vec<u8> = Vec::new();
    frame.push((n >> 24) as u8);
    frame.push((n >> 16) as u8);
    frame.push((n >> 8) as u8);
    frame.push(n as u8);
    frame.extend_from_slice(body);
    assert(frame@ =~= framed(body@));
    Ok(frame)
}

/// Reads the length of a message, unless it announces more than `limit` bytes.
pub fn message_length(prefix: [u8; 4], limit: u32) -> (result: Result<u32, String>)
    ensures
        ({
            let n = length_of(prefix@[0], prefix@[1], prefix@[2], prefix@[3]);
            match result {
                Ok(length) => n <= limit && length == n,
                Err(message) => n > limit && message@ == too_large(n as nat),
            }
        }),
{
    let n: u32 = ((prefix[0] as u32) << 24) | ((prefix[1] as u32) << 16) | ((prefix[2] as u32) << 8)
        | (prefix[3] as u32);
    if n > limit {
        let size = decimal_text(n as u64);
        return Err(join3("message too large: ", size.as_str(), " bytes"));
    }
    Ok(n)
}

/// What stands at the start of a stream.
#[derive(Debug)]
pub enum Frame {
    /// Not a whole message yet.
    Incomplete,
    /// A length that no message may have.
    TooLarge(String),
    /// A message, and how many bytes of the stream it takes.
    Message { body: Vec<u8>, consumed: usize },
}

/// Takes the first message, of at most `limit` bytes, from the bytes of a stream.
pub fn read_frame(stream: &[u8], limit: u32) -> (frame: Frame)
    ensures
        if stream@.len() < 4 {
            frame is Incomplete
        } else {
            let n = length_of(stream@[0], stream@[1], stream@[2], stream@[3]);
            if n > limit {
                frame matches Frame::TooLarge(message) && message@ == too_large(n as nat)
            } else if stream@.len() < 4 + n {
                frame is Incomplete
            } else {
                frame matches Frame::Message { body, consumed } && consumed == 4 + n && body@
                    == stream@.subrange(4, 4 + n as int)
            }
        },
{
    if stream.len() < 4 {
        return Frame::Incomplete;
    }
    let prefix: [u8; 4] = [stream[0], stream[1], stream[2], stream[3]];
    match message_length(prefix, limit) {
        Err(message) => Frame::TooLarge(message),
        Ok(announced) => {
            if ((stream.len() - 4) as u64) < announced as u64 {
                return Frame::Incomplete;
            }
            let length = announced as usize;
            let mut body: Vec<u8> = Vec::new();
            for i in 0..length
                invariant
                    4 + length <= stream@.len(),
                    4 + length <= usize::MAX,
                    body@ == stream@.subrange(4, 4 + i as int),
            {
                body.push(stream[4 + i]);
                assert(body@ =~= stream@.subrange(4, 4 + i + 1));
            }
            Frame::Message { body, consumed: 4 + length }
        },
    }
}

/// Reading a stream gives back the message that was put on it, and leaves what follows.
pub proof fn reading_gives_back_what_was_written(body: Seq<u8>, rest: Seq<u8>)
    requires
        body.len() <= u32::MAX,
    ensures
        ({
            let stream = framed(body) + rest;
            let n = length_of(stream[0], stream[1], stream[2], stream[3]);
            &&& n == body.len()
            &&& stream.len() >= 4 + n
            &&& stream.subrange(4, 4 + n as int) == body
            &&& stream.skip(4 + n as int) == rest
        }),
{
    let n = body.len() as u32;
    lemma_length_bytes(n);
    let stream = framed(body) + rest;
    assert(stream[0] == (n >> 24) as u8);
    assert(stream[1] == (n >> 16) as u8);
    assert(stream[2] == (n >> 8) as u8);
    assert(stream[3] == n as u8);
    assert(stream.subrange(4, 4 + n as int) =~= body);
    assert(stream.skip(4 + n as int) =~= rest);
}

/// A message that was put on the wire is taken off it as it was, and leaves exactly what follows. What
/// has come of it before its last byte is incomplete.
pub proof fn framed_message_is_read_back(
    body: &[u8],
    limit: u32,
    framed_body: Result<Vec<u8>, String>,
    stream: &[u8],
    rest: Seq<u8>,
    part: &[u8],
    n: int,
    read: Frame,
    read_part: Frame,
)
    requires
        call_ensures(frame_message, (body, limit), framed_body),
        framed_body is Ok,
        stream@ == framed_body->Ok_0@ + rest,
        0 <= n < framed_body->Ok_0@.len(),
        part@ == framed_body->Ok_0@.take(n),
        call_ensures(read_frame, (stream, limit), read),
        call_ensures(read_frame, (part, limit), read_part),
    ensures
        read matches Frame::Message { body: found, consumed } && found@ == body@ && consumed
            == framed_body->Ok_0@.len(),
        read_part is Incomplete,
{
    let frame = framed_body->Ok_0@;
    reading_gives_back_what_was_written(body@, rest);
    reading_gives_back_what_was_written(body@, Seq::<u8>::empty());
    assert(framed(body@) + Seq::<u8>::empty() =~= frame);
    if n >= 4 {
        assert(part@[0] == frame[0] && part@[1] == frame[1] && part@[2] == frame[2] && part@[3]
            == frame[3]);
    }
}

/// A message is refused exactly where it has more bytes than the limit, and an announced length exactly
/// where it is greater.
pub proof fn limit_is_exact(
    body: &[u8],
    limit: u32,
    framed_body: Result<Vec<u8>, String>,
    prefix: [u8; 4],
    length: Result<u32, String>,
)
    requires
        call_ensures(frame_message, (body, limit), framed_body),
        call_ensures(message_length, (prefix, limit), length),
    ensures
        framed_body is Err <==> body@.len() > limit,
        ({
            let announced = 16777216 * prefix@[0] + 65536 * prefix@[1] + 256 * prefix@[2]
                + prefix@[3];
            &&& length is Err <==> announced > limit
            &&& length matches Ok(found) ==> found == announced
        }),
{
    lemma_length_of(prefix@[0], prefix@[1], prefix@[2], prefix@[3]);
}

proof fn lemma_length_of(a: u8, b: u8, c: u8, d: u8)
    ensures
        length_of(a, b, c, d) == 16777216 * a + 65536 * b + 256 * c + d,
{
    assert(((a as u32) << 24) | ((b as u32) << 16) | ((c as u32) << 8) | (d as u32) == 16777216 * (
    a as u32) + 65536 * (b as u32) + 256 * (c as u32) + (d as u32)) by (bit_vector);
}

} // verus!
