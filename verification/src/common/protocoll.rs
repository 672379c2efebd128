//! The messages between client and server, and how they are framed on the wire.

use vstd::prelude::*;

use crate::common::dtos::{FrameDataDTO, ServerCommandDTO};

verus! {

#[derive(Debug)]
pub enum ClientMessage {
    // control
    Attach { cols: u16, rows: u16 },
    KillServer,
    ListSessions,
    // data
    Input(Vec<u8>),
    Resize { cols: u16, rows: u16 },
    // control, wrapped
    ExecuteServerCommand(ServerCommandDTO),
}

#[derive(Debug)]
pub enum ServerMessage {
    // control
    Sessions(Vec<String>),
    // data
    Frame(Vec<u8>),
    Bell,
    FrameData(FrameDataDTO),
}

/// The length of the header in front of every message: a 32-bit number.
pub const HEADER_LEN: usize = 4;

/// A 32-bit number as it travels: four bytes, the most significant first.
pub open spec fn big_endian(n: u32) -> Seq<u8> {
    seq![
        (n / 0x100_0000) as u8,
        (n / 0x1_0000 % 0x100) as u8,
        (n / 0x100 % 0x100) as u8,
        (n % 0x100) as u8,
    ]
}

/// The number that four bytes stand for, the most significant first.
pub open spec fn header_value(b: Seq<u8>) -> int {
    b[0] * 0x100_0000 + b[1] * 0x1_0000 + b[2] * 0x100 + b[3]
}

/// A message on the wire: its length, then its bytes.
pub open spec fn frame(payload: Seq<u8>) -> Seq<u8> {
    big_endian(payload.len() as u32) + payload
}

/// The bytes that put a serialized message on the wire.
pub fn encode_frame(payload: &Vec<u8>) -> (r: Vec<u8>)
    ensures
        r@ == frame(payload@),
{
    let len: u32 = payload.len() as u32;
    let mut r: Vec<u8> = Vec::new();
    r.push((len / 0x100_0000) as u8);
    r.push((len / 0x1_0000 % 0x100) as u8);
    r.push((len / 0x100 % 0x100) as u8);
    r.push((len % 0x100) as u8);
    r.extend_from_slice(payload.as_slice());
    assert(r@ =~= frame(payload@));
    r
}

/// How many bytes of message follow a header.
pub fn frame_len(header: &[u8; 4]) -> (r: usize)
    ensures
        r == header_value(header@),
{
    let n: u32 = header[0] as u32 * 0x100_0000 + header[1] as u32 * 0x1_0000 + header[2] as u32
        * 0x100 + header[3] as u32;
    n as usize
}

/// What a reader takes from a stream: the message at its front, if all of it is there.
pub open spec fn first_message(stream: Seq<u8>) -> Option<Seq<u8>> {
    if stream.len() < HEADER_LEN || stream.len() < HEADER_LEN + header_value(stream) {
        None
    } else {
        Some(stream.subrange(HEADER_LEN as int, HEADER_LEN + header_value(stream)))
    }
}

/// What a reader finds on a stream: message after message, until no whole one is left.
pub open spec fn messages(stream: Seq<u8>) -> Seq<Seq<u8>>
    decreases stream.len(),
{
    match first_message(stream) {
        None => Seq::empty(),
        Some(m) => seq![m] + messages(stream.skip(HEADER_LEN + m.len())),
    }
}

/// What a writer leaves on a stream: the frames of its first `k` messages.
pub open spec fn stream_of(payloads: Seq<Seq<u8>>, k: nat) -> Seq<u8>
    decreases k,
{
    if k == 0 || k > payloads.len() {
        Seq::empty()
    } else {
        stream_of(payloads, (k - 1) as nat) + frame(payloads[k - 1])
    }
}

/// The most that a header can announce is a 32-bit number.
pub open spec fn fits_frame(payload: Seq<u8>) -> bool {
    payload.len() <= u32::MAX
}

/// What was written is what is read: whatever follows a framed message on the stream, a
/// reader gets the message back, and the next read starts where the message ends.
pub proof fn law_frame_round_trip(payload: Seq<u8>, rest: Seq<u8>)
    requires
        fits_frame(payload),
    ensures
        first_message(frame(payload) + rest) == Some(payload),
        (frame(payload) + rest).skip(HEADER_LEN + payload.len()) == rest,
{
    let n = payload.len() as u32;
    let s = frame(payload) + rest;
    assert(s[0] == big_endian(n)[0]);
    assert(s[1] == big_endian(n)[1]);
    assert(s[2] == big_endian(n)[2]);
    assert(s[3] == big_endian(n)[3]);
    lemma_big_endian(n);
    assert(header_value(s) == n);
    assert(s.subrange(4, 4 + payload.len() as int) =~= payload);
    assert(s.skip(4 + payload.len() as int) =~= rest);
}

/// Messages do not run into each other: however many were written, a reader finds each of
/// them, whole and in order.
pub proof fn law_stream_round_trip(payloads: Seq<Seq<u8>>)
    requires
        forall|i: int| 0 <= i < payloads.len() ==> fits_frame(#[trigger] payloads[i]),
    ensures
        messages(stream_of(payloads, payloads.len())) == payloads,
    decreases payloads.len(),
{
    if payloads.len() == 0 {
        assert(messages(Seq::<u8>::empty()) =~= payloads);
    } else {
        let rest = payloads.drop_first();
        lemma_stream_first(payloads, payloads.len());
        law_frame_round_trip(payloads[0], stream_of(rest, rest.len()));
        assert forall|i: int| 0 <= i < rest.len() implies fits_frame(#[trigger] rest[i]) by {
            assert(rest[i] == payloads[i + 1]);
        }
        law_stream_round_trip(rest);
        assert(seq![payloads[0]] + rest =~= payloads);
    }
}

/// A stream starts with the frame of its first message.
proof fn lemma_stream_first(payloads: Seq<Seq<u8>>, k: nat)
    requires
        1 <= k <= payloads.len(),
    ensures
        stream_of(payloads, k) == frame(payloads[0]) + stream_of(
            payloads.drop_first(),
            (k - 1) as nat,
        ),
    decreases k,
{
    if k == 1 {
        reveal_with_fuel(stream_of, 2);
        assert(stream_of(payloads, 1) =~= frame(payloads[0]) + Seq::<u8>::empty());
    } else {
        lemma_stream_first(payloads, (k - 1) as nat);
        assert(payloads.drop_first()[k - 2] == payloads[k - 1]);
        assert(stream_of(payloads, k) =~= frame(payloads[0]) + stream_of(
            payloads.drop_first(),
            (k - 1) as nat,
        ));
    }
}

/// Four bytes hold the number that they were made from.
proof fn lemma_big_endian(n: u32)
    ensures
        header_value(big_endian(n)) == n,
{
    let a = n / 0x100_0000;
    let b = n / 0x1_0000 % 0x100;
    let c = n / 0x100 % 0x100;
    let d = n % 0x100;
    assert(a < 0x100 && b < 0x100 && c < 0x100 && d < 0x100 && a * 0x100_0000 + b * 0x1_0000 + c
        * 0x100 + d == n) by (nonlinear_arith)
        requires
            a == n / 0x100_0000,
            b == n / 0x1_0000 % 0x100,
            c == n / 0x100 % 0x100,
            d == n % 0x100,
    ;
}

} // verus!
