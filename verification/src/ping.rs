//! Server List Ping: the status handshake the multiplayer list uses. Packets
//! are varint-length-framed; the status reply body is a varint-prefixed JSON
//! string.

use vstd::prelude::*;

use vstd::string::StringSliceAdditionalSpecFns;

use crate::json::Json;
use crate::text::{chars_of, string_of};

verus! {

/// Why a varint or a status packet could not be read.
#[derive(Debug, Clone, Copy, PartialEq, Eq, Structural)]
pub enum PingFault {
    /// The bytes ran out before the varint's last byte.
    TruncatedVarint,
    /// A varint ran past five bytes.
    MalformedVarint,
    /// A frame length outside what a status reply may carry.
    BadLength,
    /// The reply's packet id was not the status id.
    UnexpectedPacket,
    /// The status string claims more bytes than its packet holds.
    Overrun,
}

/// The bytes a varint spells for the unsigned value `x`: seven bits per
/// byte, least significant first, the high bit set on every byte but the last.
pub open spec fn encode(x: nat) -> Seq<u8>
    decreases x,
{
    if x < 128 {
        seq![x as u8]
    } else {
        seq![(x % 128 + 128) as u8] + encode(x / 128)
    }
}

/// The varint encoding of an `i32`, which is that of its two's-complement bits.
pub open spec fn varint(value: i32) -> Seq<u8> {
    encode((value as u32) as nat)
}

/// Reading a varint from the front of `s` when at most `budget` bytes may
/// make it up: the value (before truncation to 32 bits) and the bytes it used.
pub open spec fn decode(s: Seq<u8>, budget: nat) -> Result<(int, nat), PingFault>
    decreases s.len(),
{
    if s.len() == 0 {
        Err(PingFault::TruncatedVarint)
    } else if s[0] < 128 {
        Ok((s[0] as int, 1))
    } else if budget <= 1 {
        Err(PingFault::MalformedVarint)
    } else {
        match decode(s.drop_first(), (budget - 1) as nat) {
            Ok((v, n)) => Ok(((s[0] - 128) + 128 * v, n + 1)),
            Err(e) => Err(e),
        }
    }
}

/// How many bytes a varint read at the front of `s` consumes, whatever its
/// outcome.
pub open spec fn consumed(s: Seq<u8>) -> nat {
    match decode(s, 5) {
        Ok((_, n)) => n,
        Err(PingFault::MalformedVarint) => 5,
        Err(_) => s.len(),
    }
}

/// The `i32` a decoded value stands for: its low 32 bits.
pub open spec fn as_i32(v: int) -> i32 {
    ((v % 0x1_0000_0000) as u32) as i32
}

pub open spec fn p128(i: nat) -> int
    decreases i,
{
    if i == 0 {
        1
    } else {
        128 * p128((i - 1) as nat)
    }
}

/// The value carried by the low seven bits of the first `i` bytes of `s`.
pub open spec fn partial(s: Seq<u8>, i: nat) -> int
    decreases i,
{
    if i == 0 {
        0
    } else {
        partial(s, (i - 1) as nat) + (s[i - 1] % 128) * p128((i - 1) as nat)
    }
}

pub open spec fn lift(r: Result<(int, nat), PingFault>, p: int, scale: int, k: nat) -> Result<
    (int, nat),
    PingFault,
> {
    match r {
        Ok((v, n)) => Ok((p + scale * v, n + k)),
        Err(e) => Err(e),
    }
}

proof fn lemma_bits(v: u32)
    ensures
        v & 0x7f == v % 128,
        v >> 7u32 == v / 128,
        ((v & 0x7f) as u8 | 0x80u8) as int == v % 128 + 128,
        ((v & 0x7f) as u8) as int == v % 128,
{
    assert(v & 0x7f == v % 128) by (bit_vector);
    assert(v >> 7u32 == v / 128) by (bit_vector);
    assert(((v & 0x7f) as u8 | 0x80u8) == ((v % 128) + 128) as u8) by (bit_vector);
    assert(((v & 0x7f) as u8) == (v % 128) as u8) by (bit_vector);
}

/// Append the varint encoding of `value` to `buf`.
pub fn write_varint(buf: &mut Vec<u8>, value: i32)
    ensures
        final(buf)@ == old(buf)@ + varint(value),
{
    let ghost start = buf@;
    let mut v: u32 = value as u32;
    assert(varint(value) == encode(v as nat));
    loop
        invariant
            start == old(buf)@,
            start + varint(value) == buf@ + encode(v as nat),
        decreases v,
    {
        proof {
            lemma_bits(v);
        }
        let byte = (v & 0x7f) as u8;
        let ghost before = v;
        let ghost prev = buf@;
        v = v >> 7;
        if v == 0 {
            assert(encode(before as nat) =~= seq![byte]);
            buf.push(byte);
            assert(buf@ =~= prev + encode(before as nat));
            return;
        }
        assert(encode(before as nat) == seq![(byte | 0x80) as u8] + encode(v as nat));
        buf.push(byte | 0x80);
        assert(buf@ + encode(v as nat) =~= prev + encode(before as nat));
    }
}

proof fn lemma_byte_bits(b: u8)
    ensures
        (b & 0x7f) as int == b % 128,
        ((b & 0x80) == 0) == (b < 128),
{
    assert((b & 0x7f) == b % 128) by (bit_vector);
    assert(((b & 0x80) == 0) == (b < 128)) by (bit_vector);
}

proof fn lemma_p128()
    ensures
        p128(0) == 1,
        p128(1) == 128,
        p128(2) == 0x4000,
        p128(3) == 0x20_0000,
        p128(4) == 0x1000_0000,
        p128(5) == 0x8_0000_0000,
{
    reveal_with_fuel(p128, 6);
}

proof fn lemma_or_step(value: u32, c: u32, i: nat)
    requires
        c < 128,
        i <= 4,
        value < p128(i),
    ensures
        (value | (c << (7 * i) as u32)) as int == (value + c * p128(i)) % 0x1_0000_0000,
        i < 4 ==> (value | (c << (7 * i) as u32)) as int == value + c * p128(i),
{
    lemma_p128();
    if i == 0 {
        assert(value | (c << 0u32) == value + c) by (bit_vector)
            requires
                value < 1,
                c < 128,
        ;
    } else if i == 1 {
        assert(value | (c << 7u32) == value + c * 128) by (bit_vector)
            requires
                value < 128,
                c < 128,
        ;
    } else if i == 2 {
        assert(value | (c << 14u32) == value + c * 0x4000) by (bit_vector)
            requires
                value < 0x4000,
                c < 128,
        ;
    } else if i == 3 {
        assert(value | (c << 21u32) == value + c * 0x20_0000) by (bit_vector)
            requires
                value < 0x20_0000,
                c < 128,
        ;
    } else {
        assert(value | (c << 28u32) == value + (c % 16) * 0x1000_0000) by (bit_vector)
            requires
                value < 0x1000_0000,
                c < 128,
        ;
        assert((value + (c % 16) * 0x1000_0000) == (value + c * 0x1000_0000) % 0x1_0000_0000)
            by (nonlinear_arith)
            requires
                value < 0x1000_0000,
                c < 128,
        ;
    }
}

proof fn lemma_lift_compose(x: Result<(int, nat), PingFault>, a: int, p: int, sc: int, i: nat)
    ensures
        lift(lift(x, a, 128, 1), p, sc, i) == lift(x, p + sc * a, sc * 128, i + 1),
{
    match x {
        Ok((v, n)) => {
            assert(p + sc * (a + 128 * v) == p + sc * a + (sc * 128) * v) by (nonlinear_arith);
        },
        Err(_) => {},
    }
}

proof fn lemma_decode_len(s: Seq<u8>, b: nat)
    requires
        b >= 1,
    ensures
        decode(s, b) matches Ok((_, n)) ==> 1 <= n <= s.len(),
        decode(s, b) == Err::<(int, nat), PingFault>(PingFault::MalformedVarint) ==> b <= s.len(),
    decreases s.len(),
{
    if s.len() > 0 && s[0] >= 128 && b > 1 {
        lemma_decode_len(s.drop_first(), (b - 1) as nat);
    }
}

/// A varint read never uses more bytes than it was given.
pub proof fn lemma_consumed_len(s: Seq<u8>)
    ensures
        consumed(s) <= s.len(),
{
    lemma_decode_len(s, 5);
    match decode(s, 5) {
        Ok(_) => {},
        Err(PingFault::MalformedVarint) => {},
        Err(_) => {},
    }
}

/// Read one varint starting at `*pos` in `bytes`, advancing `*pos` past the
/// bytes it used.
pub fn read_varint_slice(bytes: &[u8], pos: &mut usize) -> (r: Result<i32, PingFault>)
    requires
        *old(pos) <= bytes@.len(),
    ensures
        match decode(bytes@.skip(*old(pos) as int), 5) {
            Ok((v, _)) => r == Ok::<i32, PingFault>(as_i32(v)),
            Err(e) => r == Err::<i32, PingFault>(e),
        },
        *final(pos) == *old(pos) + consumed(bytes@.skip(*old(pos) as int)),
        *final(pos) <= bytes@.len(),
{
    proof {
        lemma_consumed_len(bytes@.skip(*old(pos) as int));
    }
    let start = *pos;
    let ghost s = bytes@.skip(start as int);
    let mut value: u32 = 0;
    let mut shift: u32 = 0;
    let mut i: usize = 0;
    proof {
        lemma_p128();
        assert(s.skip(0) =~= s);
    }
    loop
        invariant
            start == *old(pos),
            start <= bytes@.len(),
            s == bytes@.skip(start as int),
            *pos == start + i,
            i <= 4,
            i <= s.len(),
            shift == 7 * i,
            value as int == partial(s, i as nat),
            (value as int) < p128(i as nat),
            decode(s, 5) == lift(decode(s.skip(i as int), (5 - i) as nat), partial(s, i as nat), p128(i as nat), i as nat),
        decreases 5 - i,
    {
        if *pos >= bytes.len() {
            assert(s.skip(i as int).len() == 0);
            return Err(PingFault::TruncatedVarint);
        }
        let b = bytes[*pos];
        assert(b == s[i as int]);
        assert(s.skip(i as int)[0] == b);
        *pos = *pos + 1;
        proof {
            lemma_byte_bits(b);
            lemma_or_step(value, (b & 0x7f) as u32, i as nat);
        }
        let ghost old_value = value;
        value = value | (((b & 0x7f) as u32) << shift);
        if b & 0x80 == 0 {
            assert(decode(s.skip(i as int), (5 - i) as nat) == Ok::<(int, nat), PingFault>((b as int, 1nat)));
            assert(partial(s, i as nat) + p128(i as nat) * (b as int) == old_value + (b % 128) * p128(i as nat)) by (nonlinear_arith)
                requires
                    old_value == partial(s, i as nat),
                    b < 128,
            ;
            return Ok(value as i32);
        }
        proof {
            let t = s.skip(i as int);
            assert(t.drop_first() =~= s.skip(i + 1));
            if i < 4 {
                lemma_lift_compose(decode(s.skip(i + 1), (4 - i) as nat), b - 128, partial(s, i as nat), p128(i as nat), i as nat);
                assert(partial(s, (i + 1) as nat) == partial(s, i as nat) + (s[i as int] % 128) * p128(i as nat));
                assert(p128((i + 1) as nat) == 128 * p128(i as nat));
                assert(p128(i as nat) * (b - 128) == (b % 128) * p128(i as nat)) by (nonlinear_arith)
                    requires b >= 128, b < 256;
                assert(old_value + (b % 128) * p128(i as nat) < 128 * p128(i as nat)) by (nonlinear_arith)
                    requires b % 128 <= 127, old_value < p128(i as nat);
            }
        }
        shift = shift + 7;
        i = i + 1;
        if shift >= 32 {
            return Err(PingFault::MalformedVarint);
        }
    }
}

proof fn lemma_decode_encode(x: nat, rest: Seq<u8>, budget: nat)
    requires
        budget >= 1,
        x < p128(budget),
    ensures
        decode(encode(x) + rest, budget) == Ok::<(int, nat), PingFault>((x as int, encode(x).len())),
    decreases x,
{
    let s = encode(x) + rest;
    if x < 128 {
        assert(s[0] == x as u8);
    } else {
        if budget <= 1 {
            assert(p128(budget) == 128) by {
                reveal_with_fuel(p128, 2);
            }
        }
        assert(budget >= 2);
        let q = x / 128;
        assert(p128(budget) == 128 * p128((budget - 1) as nat));
        assert(q < p128((budget - 1) as nat));
        lemma_decode_encode(q, rest, (budget - 1) as nat);
        assert(s[0] == (x % 128 + 128) as u8);
        assert(s.drop_first() =~= encode(q) + rest);
    }
}

/// Reading back what `write_varint` wrote gives the value written, and uses
/// exactly the bytes it wrote, whatever follows them.
pub proof fn lemma_varint_round_trip(value: i32, rest: Seq<u8>)
    ensures
        decode(varint(value) + rest, 5) == Ok::<(int, nat), PingFault>(((value as u32) as int, varint(value).len())),
        as_i32((value as u32) as int) == value,
        consumed(varint(value) + rest) == varint(value).len(),
{
    lemma_p128();
    let x = (value as u32) as nat;
    lemma_decode_encode(x, rest, 5);
    let u = value as u32;
    assert((u as i32) == value) by (bit_vector)
        requires
            u == value as u32,
    ;
    assert((u as int) % 0x1_0000_0000 == u as int);
}

/// Largest status payload accepted, in bytes.
pub const MAX_PAYLOAD: i32 = 262144;

/// Appends `bytes` to `buf`.
pub fn push_bytes(buf: &mut Vec<u8>, bytes: &[u8])
    ensures
        final(buf)@ == old(buf)@ + bytes@,
{
    let ghost start = buf@;
    let mut i: usize = 0;
    while i < bytes.len()
        invariant
            start == old(buf)@,
            i <= bytes@.len(),
            buf@ == start + bytes@.subrange(0, i as int),
        decreases bytes.len() - i,
    {
        buf.push(bytes[i]);
        i += 1;
        assert(bytes@.subrange(0, i as int) =~= bytes@.subrange(0, i - 1).push(bytes@[i - 1]));
    }
    assert(bytes@.subrange(0, bytes@.len() as int) =~= bytes@);
}

/// The length in bytes of `text`'s UTF-8 encoding.
pub open spec fn byte_len(text: &str) -> usize {
    text.spec_bytes().len() as usize
}

/// Append `text` as a varint byte length followed by its UTF-8 bytes.
pub fn write_string(buf: &mut Vec<u8>, text: &str)
    ensures
        final(buf)@ == old(buf)@ + varint(byte_len(text) as i32) + text.spec_bytes(),
{
    let bytes = text.as_bytes();
    write_varint(buf, text.len() as i32);
    push_bytes(buf, bytes);
}

/// A port number in network byte order.
pub open spec fn port_bytes(port: u16) -> Seq<u8> {
    seq![(port / 256) as u8, (port % 256) as u8]
}

/// The loopback address the status handshake names.
pub open spec fn loopback() -> Seq<char> {
    "127.0.0.1"@
}

/// The handshake payload announcing a status request to `port` on loopback,
/// for any protocol version.
pub open spec fn handshake_spec(port: u16) -> Seq<u8> {
    varint(0i32) + varint(-1i32) + varint(9i32) + loopback_bytes() + port_bytes(port)
        + varint(1i32)
}

/// The UTF-8 bytes of the loopback address.
pub open spec fn loopback_bytes() -> Seq<u8> {
    seq![49u8, 50u8, 55u8, 46u8, 48u8, 46u8, 48u8, 46u8, 49u8]
}

/// The handshake packet's payload: packet id 0, protocol -1 (any), the
/// address, the port, and the status intent.
pub fn handshake(port: u16) -> (out: Vec<u8>)
    ensures
        out@ == handshake_spec(port),
{
    let mut out: Vec<u8> = Vec::new();
    write_varint(&mut out, 0);
    write_varint(&mut out, -1);
    write_varint(&mut out, 9);
    let address: [u8; 9] = [49, 50, 55, 46, 48, 46, 48, 46, 49];
    push_bytes(&mut out, address.as_slice());
    out.push((port >> 8) as u8);
    out.push((port & 0xff) as u8);
    write_varint(&mut out, 1);
    proof {
        reveal_strlit("127.0.0.1");
        assert(address@ =~= loopback_bytes());
        assert((port >> 8) as u8 == (port / 256) as u8) by (bit_vector);
        assert((port & 0xff) as u8 == (port % 256) as u8) by (bit_vector);
    }
    assert(out@ =~= handshake_spec(port));
    out
}

/// A packet on the wire: its payload prefixed by the payload's length.
pub fn frame(payload: &[u8]) -> (out: Vec<u8>)
    ensures
        out@ == varint(payload@.len() as i32) + payload@,
{
    let mut out: Vec<u8> = Vec::new();
    write_varint(&mut out, payload.len() as i32);
    push_bytes(&mut out, payload);
    out
}

/// The framed status request that follows the handshake.
pub fn status_request() -> (out: Vec<u8>)
    ensures
        out@ == varint(1i32) + seq![0u8],
{
    let body: [u8; 1] = [0];
    let out = frame(body.as_slice());
    assert(body@ =~= seq![0u8]);
    out
}

/// Whether a reply frame's declared length is one a status reply may have.
pub fn status_length_ok(length: i32) -> (r: bool)
    ensures
        r == (0 <= length <= MAX_PAYLOAD),
{
    0 <= length && length <= MAX_PAYLOAD
}

/// What `String::from_utf8_lossy` makes of `bytes`.
pub uninterp spec fn lossy_text(bytes: Seq<u8>) -> Seq<char>;

/// Decodes `bytes` as UTF-8, replacing each invalid sequence with U+FFFD
/// (std's `String::from_utf8_lossy`). The result is named; for valid UTF-8
/// it is stated, as std documents: the text the bytes encode.
#[verifier::external_body]
pub(crate) fn utf8_lossy(bytes: &[u8]) -> (s: String)
    ensures
        s@ == lossy_text(bytes@),
        vstd::utf8::valid_utf8(bytes@) ==> s@ == vstd::utf8::decode_utf8(bytes@),
{
    String::from_utf8_lossy(bytes).into_owned()
}

/// The bytes of `bytes` from `lo` up to `hi`.
pub fn sub_bytes(bytes: &[u8], lo: usize, hi: usize) -> (out: Vec<u8>)
    requires
        lo <= hi <= bytes@.len(),
    ensures
        out@ == bytes@.subrange(lo as int, hi as int),
{
    let mut out: Vec<u8> = Vec::new();
    let mut i = lo;
    while i < hi
        invariant
            lo <= i <= hi <= bytes@.len(),
            out@ == bytes@.subrange(lo as int, i as int),
        decreases hi - i,
    {
        out.push(bytes[i]);
        i += 1;
        assert(bytes@.subrange(lo as int, i as int) =~= bytes@.subrange(lo as int, i - 1).push(bytes@[i - 1]));
    }
    out
}

/// What reading a status reply's payload gives: the packet id must be 0, then
/// a varint length and that many bytes of text.
pub open spec fn status_payload_spec(p: Seq<u8>) -> Result<Seq<char>, PingFault> {
    match decode(p, 5) {
        Err(e) => Err(e),
        Ok((id, n)) => if as_i32(id) != 0 {
            Err(PingFault::UnexpectedPacket)
        } else {
            let q = p.skip(n as int);
            match decode(q, 5) {
                Err(e) => Err(e),
                Ok((len, m)) => {
                    let text_len = as_i32(len) as usize;
                    if text_len > q.len() - m {
                        Err(PingFault::Overrun)
                    } else {
                        Ok(lossy_text(q.subrange(m as int, m + text_len)))
                    }
                },
            }
        },
    }
}

/// The status text carried by a reply payload.
pub fn read_status_payload(payload: &[u8]) -> (r: Result<String, PingFault>)
    ensures
        match status_payload_spec(payload@) {
            Ok(t) => r matches Ok(s) && s@ == t,
            Err(e) => r == Err::<String, PingFault>(e),
        },
{
    let mut pos: usize = 0;
    assert(payload@.skip(0) =~= payload@);
    let id = read_varint_slice(payload, &mut pos)?;
    if id != 0 {
        return Err(PingFault::UnexpectedPacket);
    }
    let ghost q = payload@.skip(pos as int);
    let after_id = pos;
    let len = read_varint_slice(payload, &mut pos)?;
    let text_len = len as usize;
    if text_len > payload.len() - pos {
        return Err(PingFault::Overrun);
    }
    let text = sub_bytes(payload, pos, pos + text_len);
    assert(text@ =~= q.subrange((pos - after_id) as int, (pos - after_id) + text_len));
    Ok(utf8_lossy(text.as_slice()))
}

/// `s` with every `§` formatting code removed: the section sign and the
/// character after it.
pub open spec fn strip_spec(s: Seq<char>) -> Seq<char>
    decreases s.len(),
{
    if s.len() == 0 {
        s
    } else if s[0] == '§' {
        if s.len() >= 2 {
            strip_spec(s.skip(2))
        } else {
            Seq::empty()
        }
    } else {
        seq![s[0]] + strip_spec(s.drop_first())
    }
}

/// `text` with every `§` formatting code removed.
pub fn strip_codes(text: &str) -> (out: String)
    ensures
        out@ == strip_spec(text@),
{
    let cs = chars_of(text);
    let mut out: Vec<char> = Vec::new();
    let mut i: usize = 0;
    assert(cs@.skip(0) =~= cs@);
    while i < cs.len()
        invariant
            i <= cs@.len(),
            strip_spec(cs@) == out@ + strip_spec(cs@.skip(i as int)),
        decreases cs.len() - i,
    {
        let ghost t = cs@.skip(i as int);
        assert(t[0] == cs@[i as int]);
        if cs[i] == '§' {
            if i + 1 < cs.len() {
                assert(t.skip(2) =~= cs@.skip(i + 2));
                i = i + 2;
            } else {
                assert(cs@.skip(cs@.len() as int) =~= Seq::<char>::empty());
                assert(out@ + Seq::<char>::empty() =~= out@);
                i = cs.len();
            }
        } else {
            let ghost before = out@;
            out.push(cs[i]);
            assert(t.drop_first() =~= cs@.skip(i + 1));
            assert(before + (seq![cs@[i as int]] + strip_spec(cs@.skip(i + 1))) =~= out@ + strip_spec(cs@.skip(i + 1)));
            i = i + 1;
        }
    }
    assert(cs@.skip(cs@.len() as int) =~= Seq::<char>::empty());
    assert(out@ + Seq::<char>::empty() =~= out@);
    string_of(&out)
}

/// The value of the first field named `key`, and its index.
pub open spec fn field_index(fields: Seq<(String, Json)>, key: Seq<char>) -> Option<int> {
    if exists|i: int| 0 <= i < fields.len() && (#[trigger] fields[i]).0@ == key {
        Some(choose|i: int|
            0 <= i < fields.len() && (#[trigger] fields[i]).0@ == key && forall|k: int|
                0 <= k < i ==> (#[trigger] fields[k]).0@ != key)
    } else {
        None
    }
}

/// The text of a chat component: a string itself, an array its parts in
/// order, an object its `text` string (if any) followed by its `extra`
/// component.
pub open spec fn component_text(j: Json) -> Seq<char>
    decreases j,
{
    match j {
        Json::Str(t) => t@,
        Json::Array(parts) => components_text(parts@),
        Json::Object(fields) => {
            let text = match field_index(fields@, "text"@) {
                Some(i) => match fields@[i].1 {
                    Json::Str(t) => t@,
                    _ => Seq::empty(),
                },
                None => Seq::empty(),
            };
            let extra = match field_index(fields@, "extra"@) {
                Some(i) => if 0 <= i < fields@.len() {
                    component_text(fields@[i].1)
                } else {
                    Seq::empty()
                },
                None => Seq::empty(),
            };
            text + extra
        },
        _ => Seq::empty(),
    }
}

/// The text of a list of chat components, in order.
pub open spec fn components_text(parts: Seq<Json>) -> Seq<char>
    decreases parts,
{
    if parts.len() == 0 {
        Seq::empty()
    } else {
        components_text(parts.drop_last()) + component_text(parts.last())
    }
}

/// The index of the first field named `key`.
pub fn first_field(fields: &Vec<(String, Json)>, key: &str) -> (r: Option<usize>)
    ensures
        r matches Some(i) ==> field_index(fields@, key@) == Some(i as int) && i < fields@.len(),
        r is None ==> field_index(fields@, key@) is None,
{
    let mut i: usize = 0;
    while i < fields.len()
        invariant
            i <= fields@.len(),
            forall|k: int| 0 <= k < i ==> (#[trigger] fields@[k]).0@ != key@,
        decreases fields.len() - i,
    {
        if crate::text::str_eq(fields[i].0.as_str(), key) {
            proof {
                assert(fields@[i as int].0@ == key@);
                let c = choose|c: int|
                    0 <= c < fields@.len() && (#[trigger] fields@[c]).0@ == key@ && forall|k: int|
                        0 <= k < c ==> (#[trigger] fields@[k]).0@ != key@;
                if c < i {
                } else if c > i {
                    assert(fields@[i as int].0@ != key@);
                }
            }
            return Some(i);
        }
        i += 1;
    }
    None
}

/// Append the text of a chat component to `out`.
pub fn walk(j: &Json, out: &mut Vec<char>)
    ensures
        final(out)@ == old(out)@ + component_text(*j),
    decreases j,
{
    match j {
        Json::Str(t) => {
            assert(component_text(*j) == t@);
            crate::text::push_str(out, t.as_str());
            assert(out@ == old(out)@ + component_text(*j));
        },
        Json::Array(parts) => {
            assert(component_text(*j) == components_text(parts@));
            walk_parts(parts, out);
            assert(out@ == old(out)@ + component_text(*j));
        },
        Json::Object(fields) => {
            walk_fields(fields, out);
            assert(out@ =~= old(out)@ + component_text(*j));
        },
        _ => {
            assert(component_text(*j) == Seq::<char>::empty());
            assert(out@ =~= old(out)@ + component_text(*j));
        },
    }
}

/// Append the text of a list of chat components to `out`.
fn walk_parts(parts: &Vec<Json>, out: &mut Vec<char>)
    ensures
        final(out)@ == old(out)@ + components_text(parts@),
    decreases parts,
{
    let ghost start = out@;
    let mut i: usize = 0;
    proof {
        assert(components_text(parts@.take(0)) == Seq::<char>::empty());
        assert(start + Seq::<char>::empty() =~= start);
    }
    while i < parts.len()
        invariant
            i <= parts@.len(),
            out@ == start + components_text(parts@.take(i as int)),
        decreases parts.len() - i,
    {
        assert(parts@.take(i + 1).drop_last() =~= parts@.take(i as int));
        assert(parts@.take(i + 1).last() == parts@[i as int]);
        assert(components_text(parts@.take(i + 1)) == components_text(parts@.take(i as int))
            + component_text(parts@[i as int]));
        assert(decreases_to!(parts => parts@));
        assert(decreases_to!(parts@ => parts@[i as int]));
        walk(&parts[i], out);
        assert(out@ =~= start + components_text(parts@.take(i + 1)));
        i += 1;
    }
    assert(parts@.take(parts@.len() as int) =~= parts@);
}

/// Append the text of a component object's fields to `out`: its `text`
/// string, then its `extra` component.
#[verifier::rlimit(40)]
fn walk_fields(fields: &Vec<(String, Json)>, out: &mut Vec<char>)
    ensures
        final(out)@ == old(out)@ + component_text(Json::Object(*fields)),
    decreases fields,
{
    proof {
        reveal_strlit("text");
        reveal_strlit("extra");
    }
    let ghost start = out@;
    match first_field(fields, "text") {
        Some(i) => match &fields[i].1 {
            Json::Str(t) => crate::text::push_str(out, t.as_str()),
            _ => {},
        },
        None => {},
    }
    match first_field(fields, "extra") {
        Some(i) => {
            assert(decreases_to!(fields => fields@));
            assert(decreases_to!(fields@ => fields@[i as int]));
            assert(decreases_to!(fields@[i as int] => fields@[i as int].1));
            walk(&fields[i].1, out);
        },
        None => {},
    }
    assert(out@ =~= start + component_text(Json::Object(*fields)));
}

/// What the server list shows of a server: players online and allowed,
/// its message of the day without formatting codes, and its version name.
#[derive(Debug, Clone)]
pub struct PingResult {
    pub players_online: u32,
    pub players_max: u32,
    pub motd: String,
    pub version: String,
}

/// A player count the status states, cut to 32 bits; 0 when absent.
pub open spec fn player_count(status: Json, field: Seq<char>) -> u32 {
    match crate::json::get_opt(crate::json::get_spec(status, "players"@), field) {
        Some(v) => match crate::json::u64_spec(v) {
            Some(n) => n as u32,
            None => 0,
        },
        None => 0,
    }
}

/// A parsed status reply, as the server list shows it.
pub fn parse_status(status: &Json) -> (r: PingResult)
    ensures
        r.players_online == player_count(*status, "online"@),
        r.players_max == player_count(*status, "max"@),
        r.motd@ == strip_spec(match crate::json::get_spec(*status, "description"@) {
            Some(d) => component_text(d),
            None => Seq::empty(),
        }),
        r.version@ == crate::json::text_in(crate::json::get_spec(*status, "version"@), "name"@),
{
    let players = status.get("players");
    let online: u32 = match players {
        Some(p) => match p.get("online") {
            Some(v) => match v.as_u64() {
                Some(n) => n as u32,
                None => 0,
            },
            None => 0,
        },
        None => 0,
    };
    let max: u32 = match players {
        Some(p) => match p.get("max") {
            Some(v) => match v.as_u64() {
                Some(n) => n as u32,
                None => 0,
            },
            None => 0,
        },
        None => 0,
    };
    let mut raw: Vec<char> = Vec::new();
    if let Some(d) = status.get("description") {
        walk(d, &mut raw);
    }
    let text = string_of(&raw);
    PingResult {
        players_online: online,
        players_max: max,
        motd: strip_codes(text.as_str()),
        version: crate::json::text_of(status.get("version"), "name"),
    }
}


/// No formatting code survives stripping: the result holds no `§`.
pub proof fn lemma_strip_leaves_no_section_sign(s: Seq<char>, i: int)
    requires
        0 <= i < strip_spec(s).len(),
    ensures
        strip_spec(s)[i] != '§',
    decreases s.len(),
{
    if s.len() > 0 {
        if s[0] == '§' {
            if s.len() >= 2 {
                lemma_strip_leaves_no_section_sign(s.skip(2), i);
            }
        } else if i > 0 {
            lemma_strip_leaves_no_section_sign(s.drop_first(), i - 1);
        }
    }
}

/// A chat-component array reads its parts in array order: the text of the
/// first part comes first, followed by the text of the parts after it.
#[verifier::spinoff_prover]
#[verifier::rlimit(40)]
pub proof fn lemma_parts_read_in_order(parts: Seq<Json>)
    requires
        parts.len() > 0,
    ensures
        components_text(parts) == component_text(parts[0]) + components_text(parts.drop_first()),
    decreases parts.len(),
{
    if parts.len() == 1 {
        assert(parts.drop_last() =~= Seq::<Json>::empty());
        assert(parts.drop_first() =~= Seq::<Json>::empty());
        assert(parts.last() == parts[0]);
        assert(components_text(Seq::<Json>::empty()) == Seq::<char>::empty());
        assert(components_text(parts) =~= component_text(parts[0]));
        assert(component_text(parts[0]) + Seq::<char>::empty() =~= component_text(parts[0]));
    } else {
        let init = parts.drop_last();
        let rest = parts.drop_first();
        lemma_parts_read_in_order(init);
        let a = component_text(parts[0]);
        let z = component_text(parts.last());
        assert(init[0] == parts[0]);
        assert(init.drop_first() =~= rest.drop_last());
        assert(rest.last() == parts.last());
        let m = components_text(rest.drop_last());
        assert(components_text(init) == a + m);
        assert(components_text(parts) == components_text(init) + z);
        assert(components_text(rest) == m + z);
        assert((a + m) + z =~= a + (m + z));
    }
}

/// The text of a chat-component array of two strings is the first string
/// followed by the second.
pub proof fn lemma_two_strings_in_order(parts: Vec<Json>, a: String, b: String)
    requires
        parts@ == seq![Json::Str(a), Json::Str(b)],
    ensures
        component_text(Json::Array(parts)) == a@ + b@,
{
    lemma_parts_read_in_order(parts@);
    lemma_parts_read_in_order(parts@.drop_first());
    assert(parts@.drop_first().drop_first() =~= Seq::<Json>::empty());
    assert(parts@.drop_first()[0] == Json::Str(b));
    assert(component_text(Json::Array(parts)) =~= a@ + b@);
}

} // verus!
