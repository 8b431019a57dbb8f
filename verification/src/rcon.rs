//! The RCON protocol of a Minecraft server: framing of packets, the numbering
//! of requests, and the answer to a login. The socket itself is the caller's.
use vstd::prelude::*;
use vstd::bytes::{
    lemma_auto_spec_u32_to_from_le_bytes, spec_u32_from_le_bytes, spec_u32_to_le_bytes,
    u32_from_le_bytes, u32_to_le_bytes,
};
use vstd::utf8::{decode_utf8, encode_utf8, valid_utf8};
use vstd::string::StringSliceAdditionalSpecFns;
use crate::numbers::{decimal, decimal_chars};
use crate::text::{push_str, string_of};

verus! {

/// The packet type of a login.
pub const TYPE_AUTH: i32 = 3;

/// The packet type of a console command.
pub const TYPE_EXEC_COMMAND: i32 = 2;

/// The name for what `String::from_utf8_lossy` makes of bytes.
pub uninterp spec fn utf8_lossy(b: Seq<u8>) -> Seq<char>;

/// `String::from_utf8_lossy(b)` as an owned string: the text of `b`, where
/// invalid UTF-8 becomes U+FFFD; valid UTF-8 is decoded as it is.
#[verifier::external_body]
pub(crate) fn from_utf8_lossy(b: &[u8]) -> (r: String)
    ensures
        r@ == utf8_lossy(b@),
        valid_utf8(b@) ==> r@ == decode_utf8(b@),
{
    String::from_utf8_lossy(b).into_owned()
}

/// The four bytes of a little-endian `i32`.
pub open spec fn le_i32(x: i32) -> Seq<u8> {
    spec_u32_to_le_bytes(x as u32)
}

/// The `i32` of four little-endian bytes.
pub open spec fn i32_of_le(s: Seq<u8>) -> i32 {
    spec_u32_from_le_bytes(s) as i32
}

/// A whole packet: its length, then id, type, body, and two zero bytes.
pub open spec fn packet(id: i32, ptype: i32, body: Seq<u8>) -> Seq<u8> {
    spec_u32_to_le_bytes(((body.len() + 10) % 0x1_0000_0000) as u32) + le_i32(id) + le_i32(ptype)
        + body + seq![0u8, 0u8]
}

fn extend_bytes(out: &mut Vec<u8>, b: &[u8])
    ensures
        final(out)@ == old(out)@ + b@,
{
    let mut i: usize = 0;
    while i < b.len()
        invariant
            i <= b.len(),
            out@ == old(out)@ + b@.take(i as int),
        decreases b.len() - i,
    {
        out.push(b[i]);
        i = i + 1;
        assert(out@ =~= old(out)@ + b@.take(i as int));
    }
    assert(b@.take(b.len() as int) =~= b@);
}

/// The bytes of a packet with the given id, type and body (its length field
/// counts id, type, body and the two closing zeros, as an `i32`).
pub fn encode_packet(id: i32, ptype: i32, body: &str) -> (r: Vec<u8>)
    ensures
        r@ == packet(id, ptype, body.spec_bytes()),
{
    let b = body.as_bytes();
    let len: usize = b.len();
    let l64: u64 = len as u64;
    let total: u32 = ((l64 % 0x1_0000_0000 + 10) % 0x1_0000_0000) as u32;
    assert(total == ((b@.len() + 10) % 0x1_0000_0000) as u32) by (nonlinear_arith)
        requires
            l64 == b@.len(),
            total == ((l64 % 0x1_0000_0000 + 10) % 0x1_0000_0000) as u32,
    ;
    let mut out: Vec<u8> = Vec::new();
    let lb = u32_to_le_bytes(total);
    extend_bytes(&mut out, lb.as_slice());
    let ib = u32_to_le_bytes(id as u32);
    extend_bytes(&mut out, ib.as_slice());
    let tb = u32_to_le_bytes(ptype as u32);
    extend_bytes(&mut out, tb.as_slice());
    extend_bytes(&mut out, b);
    out.push(0);
    out.push(0);
    assert(out@ =~= packet(id, ptype, body.spec_bytes()));
    out
}

/// The length that the first four bytes of a packet announce, as the receiver
/// takes it: refused unless between 10 and 1 MiB.
pub open spec fn announced_length(len_bytes: Seq<u8>) -> Option<nat> {
    let v = i32_of_le(len_bytes);
    if 10 <= v && v <= 1048576 {
        Some(v as nat)
    } else {
        None
    }
}

/// The message of a refused length.
pub open spec fn bad_length_message(len_bytes: Seq<u8>) -> Seq<char> {
    "paquete RCON con tamaño inválido: "@ + decimal((i32_of_le(len_bytes) as usize) as nat)
}

/// The length of the rest of a packet from its first four bytes; an error where
/// it is not between 10 and 1 048 576.
pub fn packet_length(len_bytes: &[u8]) -> (r: Result<usize, String>)
    requires
        len_bytes@.len() == 4,
    ensures
        match r {
            Ok(n) => announced_length(len_bytes@) == Some(n as nat),
            Err(m) => announced_length(len_bytes@) is None && m@ == bad_length_message(
                len_bytes@,
            ),
        },
{
    let v = u32_from_le_bytes(len_bytes) as i32;
    if 10 <= v && v <= 1048576 {
        Ok(v as usize)
    } else {
        let mut m: Vec<char> = Vec::new();
        push_str(&mut m, "paquete RCON con tamaño inválido: ");
        let d = decimal_chars((v as usize) as u64);
        crate::text::extend(&mut m, &d);
        Err(string_of(&m))
    }
}

/// The text of received bytes: decoded where they are valid UTF-8.
pub open spec fn received_text(b: Seq<u8>) -> Seq<char> {
    if valid_utf8(b) {
        decode_utf8(b)
    } else {
        utf8_lossy(b)
    }
}

/// A received packet without its length field: id, type, and the text of the
/// body (the bytes between the type and the two closing bytes).
pub open spec fn payload_fields(buf: Seq<u8>) -> (i32, i32, Seq<char>) {
    (
        i32_of_le(buf.subrange(0, 4)),
        i32_of_le(buf.subrange(4, 8)),
        received_text(buf.subrange(8, buf.len() - 2)),
    )
}

/// The id, type and body of a received packet (the bytes after its length).
pub fn decode_payload(buf: &[u8]) -> (r: (i32, i32, String))
    requires
        buf@.len() >= 10,
    ensures
        (r.0, r.1, r.2@) == payload_fields(buf@),
{
    let a = slice_bytes(buf, 0, 4);
    let b = slice_bytes(buf, 4, 8);
    let c = slice_bytes(buf, 8, buf.len() - 2);
    let id = u32_from_le_bytes(a.as_slice()) as i32;
    let ptype = u32_from_le_bytes(b.as_slice()) as i32;
    let body = from_utf8_lossy(c.as_slice());
    (id, ptype, body)
}

fn slice_bytes(b: &[u8], lo: usize, hi: usize) -> (r: Vec<u8>)
    requires
        lo <= hi <= b@.len(),
    ensures
        r@ == b@.subrange(lo as int, hi as int),
{
    let mut out: Vec<u8> = Vec::new();
    let mut i = lo;
    while i < hi
        invariant
            lo <= i <= hi <= b@.len(),
            out@ == b@.subrange(lo as int, i as int),
        decreases hi - i,
    {
        out.push(b[i]);
        i = i + 1;
        assert(out@ =~= b@.subrange(lo as int, i as int));
    }
    out
}

/// The numbering of the requests of one connection.
pub struct RconSession {
    pub next_id: i32,
}

impl RconSession {
    /// A new connection: the first request gets id 1.
    pub fn new() -> (r: RconSession)
        ensures
            r.next_id == 1,
    {
        RconSession { next_id: 1 }
    }

    /// The id and bytes of the next request; the id after it is one more.
    pub fn next_packet(&mut self, ptype: i32, body: &str) -> (r: (i32, Vec<u8>))
        requires
            old(self).next_id < i32::MAX,
        ensures
            r.0 == old(self).next_id,
            final(self).next_id == old(self).next_id + 1,
            r.1@ == packet(old(self).next_id, ptype, body.spec_bytes()),
    {
        let id = self.next_id;
        self.next_id = self.next_id + 1;
        (id, encode_packet(id, ptype, body))
    }
}

/// The answer to a login: the server answers a refused password with id -1.
pub fn check_auth_response(resp_id: i32) -> (r: Result<(), String>)
    ensures
        r is Ok <==> resp_id != -1,
        r matches Err(m) ==> m@ == "autenticación RCON rechazada (¿contraseña incorrecta?)"@,
{
    if resp_id == -1 {
        Err(String::from_str("autenticación RCON rechazada (¿contraseña incorrecta?)"))
    } else {
        Ok(())
    }
}

/// A packet that is sent reads back as what was sent: its length is accepted
/// (for a body of at most 1 048 566 bytes) and counts the rest of the packet,
/// and the rest gives back the id, the type and the text of the body.
pub proof fn law_packet_roundtrip(id: i32, ptype: i32, body: Seq<char>)
    requires
        encode_utf8(body).len() <= 1048566,
    ensures
        ({
            let p = packet(id, ptype, encode_utf8(body));
            &&& announced_length(p.subrange(0, 4)) == Some((p.len() - 4) as nat)
            &&& payload_fields(p.skip(4)) == (id, ptype, body)
        }),
{
    let b = encode_utf8(body);
    let p = packet(id, ptype, b);
    lemma_auto_spec_u32_to_from_le_bytes();
    let n = ((b.len() + 10) % 0x1_0000_0000) as u32;
    assert(n == b.len() + 10);
    assert(p.subrange(0, 4) =~= spec_u32_to_le_bytes(n));
    assert(((id as u32) as i32) == id) by (bit_vector);
    assert(((ptype as u32) as i32) == ptype) by (bit_vector);
    assert((n as i32) as int == n as int) by (bit_vector)
        requires
            n <= 1048576u32,
    ;
    let q = p.skip(4);
    assert(q.subrange(0, 4) =~= le_i32(id));
    assert(q.subrange(4, 8) =~= le_i32(ptype));
    assert(q.subrange(8, q.len() - 2) =~= b);
    vstd::utf8::encode_utf8_valid_utf8(body);
    vstd::utf8::encode_utf8_decode_utf8(body);
}

} // verus!
