//! The Source RCON protocol Minecraft speaks: a little-endian length, id, type, payload,
//! two NUL bytes.

use vstd::prelude::*;
use crate::text::{parse_u32, parse_u32_spec, split_words, to_chars, words};

verus! {

#[derive(Debug, Clone)]
pub struct RconControl {
    pub host: String,
    pub port: u16,
    pub password: String,
    pub restart_command: Option<String>,
    pub ping_port: Option<u16>,
    pub cwd: String,
}

/// Packet type of a login.
pub const AUTH: i32 = 3;
/// Packet type of a command.
pub const EXEC: i32 = 2;

/// The four little-endian bytes of a 32-bit two's-complement integer.
pub open spec fn le_bytes(x: i32) -> Seq<u8> {
    let u = x as u32;
    seq![(u % 256) as u8, ((u / 256) % 256) as u8, ((u / 65536) % 256) as u8, (u / 16777216) as u8]
}

/// The integer four little-endian bytes hold.
pub open spec fn le_value(b: Seq<u8>) -> i32 {
    (b[0] + 256 * b[1] + 65536 * b[2] + 16777216 * b[3]) as u32 as i32
}

/// A whole packet: length of the rest, id, type, payload, two NULs.
pub open spec fn packet_spec(id: i32, kind: i32, payload: Seq<u8>) -> Seq<u8> {
    le_bytes((payload.len() + 10) as i32) + le_bytes(id) + le_bytes(kind) + payload + seq![0u8, 0u8]
}

fn push_le(out: &mut Vec<u8>, x: i32)
    ensures
        final(out)@ == old(out)@ + le_bytes(x),
{
    let u: u32 = x as u32;
    out.push((u % 256) as u8);
    out.push(((u / 256) % 256) as u8);
    out.push(((u / 65536) % 256) as u8);
    out.push((u / 16777216) as u8);
    assert(final(out)@ =~= old(out)@ + le_bytes(x));
}

/// Encodes one packet.
pub fn encode_packet(id: i32, kind: i32, payload: &[u8]) -> (r: Vec<u8>)
    requires
        payload@.len() + 10 <= i32::MAX,
    ensures
        r@ == packet_spec(id, kind, payload@),
{
    let body_len: i32 = (payload.len() + 10) as i32;
    let mut buf: Vec<u8> = Vec::new();
    push_le(&mut buf, body_len);
    push_le(&mut buf, id);
    push_le(&mut buf, kind);
    let mut i: usize = 0;
    let ghost start = buf@;
    while i < payload.len()
        invariant
            i <= payload@.len(),
            buf@ == start + payload@.take(i as int),
        decreases payload@.len() - i,
    {
        buf.push(payload[i]);
        i = i + 1;
        assert(buf@ =~= start + payload@.take(i as int));
    }
    assert(payload@.take(payload@.len() as int) =~= payload@);
    buf.push(0);
    buf.push(0);
    assert(buf@ =~= packet_spec(id, kind, payload@));
    buf
}

fn read_le(b: &[u8], at: usize) -> (r: i32)
    requires
        at + 4 <= b@.len(),
    ensures
        r == le_value(b@.subrange(at as int, at + 4)),
{
    let u: u32 = b[at] as u32 + 256 * (b[at + 1] as u32) + 65536 * (b[at + 2] as u32) + 16777216 * (b[at + 3] as u32);
    u as i32
}

/// What the bytes after a reply's length field hold: id, type, and the payload before the
/// two trailing NULs.
pub fn decode_body(body: &[u8]) -> (r: (i32, i32, Vec<u8>))
    requires
        body@.len() >= 10,
    ensures
        r.0 == le_value(body@.subrange(0, 4)),
        r.1 == le_value(body@.subrange(4, 8)),
        r.2@ == body@.subrange(8, body@.len() - 2),
{
    let id = read_le(body, 0);
    let kind = read_le(body, 4);
    let end = body.len() - 2;
    let mut out: Vec<u8> = Vec::new();
    let mut i: usize = 8;
    while i < end
        invariant
            8 <= i <= end,
            end == body@.len() - 2,
            out@ == body@.subrange(8, i as int),
        decreases end - i,
    {
        out.push(body[i]);
        i = i + 1;
        assert(out@ =~= body@.subrange(8, i as int));
    }
    (id, kind, out)
}

/// A body is read as the length field says, but never shorter than the ten bytes of an
/// empty packet.
pub fn body_length(len_field: &[u8]) -> (r: usize)
    requires
        len_field@.len() == 4,
    ensures
        r as int == (if le_value(len_field@) < 10 { 10int } else { le_value(len_field@) as int }),
{
    let v = read_le(len_field, 0);
    assert(len_field@.subrange(0, 4) =~= len_field@);
    if v < 10 { 10 } else { v as usize }
}

proof fn lemma_le_roundtrip(x: i32)
    ensures
        le_value(le_bytes(x)) == x,
{
    let u = x as u32;
    assert(((u % 256) as u8) as int == u % 256);
    assert((((u / 256) % 256) as u8) as int == (u / 256) % 256);
    assert((((u / 65536) % 256) as u8) as int == (u / 65536) % 256);
    assert(u / 16777216 < 256);
    assert(((u / 16777216) as u8) as int == u / 16777216);
    assert((u % 256) + 256 * ((u / 256) % 256) + 65536 * ((u / 65536) % 256) + 16777216 * (u / 16777216) == u) by (nonlinear_arith);
    assert((x as u32) as i32 == x) by (bit_vector);
}

/// Reading back an encoded packet: its length field, id, type and payload are what was
/// encoded.
pub proof fn lemma_packet_roundtrip(id: i32, kind: i32, payload: Seq<u8>)
    requires
        payload.len() + 10 <= i32::MAX,
    ensures
        ({
            let p = packet_spec(id, kind, payload);
            &&& le_value(p.subrange(0, 4)) == payload.len() + 10
            &&& p.len() == payload.len() + 14
            &&& le_value(p.subrange(4, 8)) == id
            &&& le_value(p.subrange(8, 12)) == kind
            &&& p.subrange(12, p.len() - 2) == payload
        }),
{
    let p = packet_spec(id, kind, payload);
    lemma_le_roundtrip((payload.len() + 10) as i32);
    lemma_le_roundtrip(id);
    lemma_le_roundtrip(kind);
    assert(p.subrange(0, 4) =~= le_bytes((payload.len() + 10) as i32));
    assert(p.subrange(4, 8) =~= le_bytes(id));
    assert(p.subrange(8, 12) =~= le_bytes(kind));
    assert(p.subrange(12, p.len() - 2) =~= payload);
}

/// The player count in the answer to `list` (`There are 3 of a max of 20 players online`):
/// the third word, as a number.
pub open spec fn players_in_list(out: Seq<char>) -> Option<u32> {
    if words(out).len() > 2 {
        parse_u32_spec(words(out)[2])
    } else {
        None
    }
}

pub fn players_from_list(out: &str) -> (r: Option<u32>)
    ensures
        r == players_in_list(out@),
{
    let cs = to_chars(out);
    let ws = split_words(cs.as_slice());
    if ws.len() > 2 {
        assert(crate::text::views(ws@)[2] == ws@[2]@);
        parse_u32(ws[2].as_slice())
    } else {
        None
    }
}

} // verus!
