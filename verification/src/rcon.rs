//! The remote-console wire format of the vanilla server: little-endian
//! `[length][id][type][body][0 0]` frames, where `length` counts everything
//! after itself, and the request ids a session hands out. The socket is the
//! caller's.

use vstd::prelude::*;

use vstd::string::StringSliceAdditionalSpecFns;

use crate::ping::{lossy_text, push_bytes, sub_bytes, utf8_lossy};

verus! {

/// The packet type of a login.
pub const LOGIN: i32 = 3;

/// The packet type of a command.
pub const COMMAND: i32 = 2;

/// The longest reply body accepted.
pub const MAX_BODY: i32 = 8192;

/// The four little-endian bytes of `x`.
pub open spec fn le32(x: i32) -> Seq<u8> {
    let u = x as u32;
    seq![(u % 256) as u8, ((u / 256) % 256) as u8, ((u / 65536) % 256) as u8, (u / 16777216) as u8]
}

/// The `i32` four little-endian bytes hold.
pub open spec fn from_le32(b0: u8, b1: u8, b2: u8, b3: u8) -> i32 {
    (b0 + 256 * b1 + 65536 * b2 + 16777216 * b3) as u32 as i32
}

/// The four little-endian bytes of `x`.
pub fn le_bytes(x: i32) -> (r: [u8; 4])
    ensures
        r@ == le32(x),
{
    let u = x as u32;
    let r = [(u % 256) as u8, ((u / 256) % 256) as u8, ((u / 65536) % 256) as u8, (u / 16777216) as u8];
    assert(r@ =~= le32(x));
    r
}

/// The `i32` four little-endian bytes hold.
pub fn read_le(b0: u8, b1: u8, b2: u8, b3: u8) -> (r: i32)
    ensures
        r == from_le32(b0, b1, b2, b3),
{
    let u: u32 = b0 as u32 + 256 * (b1 as u32) + 65536 * (b2 as u32) + 16777216 * (b3 as u32);
    u as i32
}

/// Reading back the bytes of `x` gives `x`.
pub proof fn lemma_le32_round_trip(x: i32)
    ensures
        from_le32(le32(x)[0], le32(x)[1], le32(x)[2], le32(x)[3]) == x,
{
    let u = x as u32;
    assert((u % 256) as u8 + 256 * (((u / 256) % 256) as u8) + 65536 * (((u / 65536) % 256) as u8)
        + 16777216 * ((u / 16777216) as u8) == u) by (nonlinear_arith);
    assert(((x as u32) as i32) == x) by (bit_vector);
}

/// The UTF-8 bytes of a body.
pub open spec fn body_bytes(body: &str) -> Seq<u8> {
    body.spec_bytes()
}

/// The frame of one request: its length, id, type, body and two zero bytes.
pub open spec fn frame_spec(id: i32, kind: i32, body: Seq<u8>) -> Seq<u8> {
    le32((body.len() + 10) as i32) + le32(id) + le32(kind) + body + seq![0u8, 0u8]
}

/// The frame of one request.
pub fn encode(id: i32, kind: i32, body: &str) -> (r: Vec<u8>)
    requires
        body_bytes(body).len() + 10 <= i32::MAX,
    ensures
        r@ == frame_spec(id, kind, body_bytes(body)),
{
    let bytes = body.as_bytes();
    let length = (bytes.len() + 10) as i32;
    let mut out: Vec<u8> = Vec::new();
    push_bytes(&mut out, &le_bytes(length));
    push_bytes(&mut out, &le_bytes(id));
    push_bytes(&mut out, &le_bytes(kind));
    push_bytes(&mut out, bytes);
    out.push(0);
    out.push(0);
    assert(out@ =~= frame_spec(id, kind, body_bytes(body)));
    out
}

/// Whether a reply's stated length is one the server can send: an empty
/// body at least, the longest body at most.
pub open spec fn length_ok_spec(length: i32) -> bool {
    10 <= length <= 8192 + 10
}

/// Whether a reply's stated length is acceptable.
pub fn length_ok(length: i32) -> (r: bool)
    ensures
        r == length_ok_spec(length),
{
    10 <= length && length <= MAX_BODY + 10
}

/// The id and body text of a reply's payload (everything after its length):
/// the id is its first four bytes, the body what lies between the type and
/// the two closing bytes.
pub open spec fn reply_spec(payload: Seq<u8>) -> (i32, Seq<char>) {
    (
        from_le32(payload[0], payload[1], payload[2], payload[3]),
        lossy_text(payload.subrange(8, payload.len() - 2)),
    )
}

/// The id and body text of a reply's payload.
pub fn parse_reply(payload: &[u8]) -> (r: (i32, String))
    requires
        payload@.len() >= 10,
    ensures
        r.0 == reply_spec(payload@).0,
        r.1@ == reply_spec(payload@).1,
        vstd::utf8::valid_utf8(payload@.subrange(8, payload@.len() - 2)) ==> r.1@ == vstd::utf8::decode_utf8(
            payload@.subrange(8, payload@.len() - 2),
        ),
{
    let id = read_le(payload[0], payload[1], payload[2], payload[3]);
    let body = sub_bytes(payload, 8, payload.len() - 2);
    assert(body@ =~= payload@.subrange(8, payload@.len() - 2));
    (id, utf8_lossy(body.as_slice()))
}

/// A request's frame, read back, states its length, id and body: a reply
/// the server echoes in this shape is read as the id and text it carries.
pub proof fn lemma_frame_round_trip(id: i32, kind: i32, body: Seq<char>)
    requires
        vstd::utf8::encode_utf8(body).len() + 10 <= i32::MAX,
    ensures
        ({
            let f = frame_spec(id, kind, vstd::utf8::encode_utf8(body));
            let payload = f.skip(4);
            &&& from_le32(f[0], f[1], f[2], f[3]) == f.len() - 4
            &&& payload.len() >= 10
            &&& reply_spec(payload).0 == id
            &&& vstd::utf8::valid_utf8(payload.subrange(8, payload.len() - 2))
            &&& vstd::utf8::decode_utf8(payload.subrange(8, payload.len() - 2)) == body
        }),
{
    let bytes = vstd::utf8::encode_utf8(body);
    let f = frame_spec(id, kind, bytes);
    let n = (bytes.len() + 10) as i32;
    lemma_le32_round_trip(n);
    lemma_le32_round_trip(id);
    let payload = f.skip(4);
    assert(payload.subrange(8, payload.len() - 2) =~= bytes);
    assert(f[0] == le32(n)[0] && f[1] == le32(n)[1] && f[2] == le32(n)[2] && f[3] == le32(n)[3]);
    assert(payload[0] == le32(id)[0] && payload[1] == le32(id)[1] && payload[2] == le32(id)[2]
        && payload[3] == le32(id)[3]);
    vstd::utf8::encode_utf8_valid_utf8(body);
    vstd::utf8::encode_utf8_decode_utf8(body);
}

/// Why a console exchange failed.
#[derive(Debug, Clone, Copy, PartialEq, Eq, Structural)]
pub enum RconError {
    /// The login reply did not echo the login's id: the password was refused.
    AuthFailed,
    /// A reply answered another request than the one just sent.
    OutOfSequence,
    /// The stated reply length is not one the server sends.
    Malformed,
}

/// The ids a console session hands out: one more for every request.
#[derive(Debug, Clone, Copy, PartialEq, Eq, Structural)]
pub struct Session {
    pub next_id: i32,
}

impl Session {
    /// A session that has sent nothing.
    pub fn new() -> (r: Session)
        ensures
            r.next_id == 0,
    {
        Session { next_id: 0 }
    }

    /// The id of the next request.
    pub fn next_request(&mut self) -> (r: i32)
        requires
            old(self).next_id < i32::MAX,
        ensures
            r == old(self).next_id + 1,
            final(self).next_id == r,
    {
        self.next_id = self.next_id + 1;
        self.next_id
    }
}

/// The verdict on a login reply.
pub fn check_login(sent: i32, reply: i32) -> (r: Result<(), RconError>)
    ensures
        r is Ok <==> reply == sent,
        r is Err ==> r == Err::<(), RconError>(RconError::AuthFailed),
{
    if reply != sent {
        Err(RconError::AuthFailed)
    } else {
        Ok(())
    }
}

/// The verdict on a command reply.
pub fn check_reply(sent: i32, reply: i32) -> (r: Result<(), RconError>)
    ensures
        r is Ok <==> reply == sent,
        r is Err ==> r == Err::<(), RconError>(RconError::OutOfSequence),
{
    if reply != sent {
        Err(RconError::OutOfSequence)
    } else {
        Ok(())
    }
}

} // verus!
