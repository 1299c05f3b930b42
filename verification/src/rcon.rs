//! Source RCON packets:
//! `[length:i32le][requestId:i32le][type:i32le][payload][0x00 0x00]`.
//! Framing and parsing here; the socket work stays with the caller.
use vstd::prelude::*;

verus! {

pub const TYPE_AUTH: i32 = 3;
pub const TYPE_COMMAND: i32 = 2;
pub const TYPE_RESPONSE: i32 = 0;

/// Largest body length a response may announce.
pub const MAX_BODY_LEN: usize = 4096;

/// Little-endian bytes of a 32-bit integer.
pub open spec fn le_bytes(v: i32) -> Seq<u8> {
    let u = v as u32;
    seq![(u & 0xff) as u8, ((u >> 8u32) & 0xff) as u8, ((u >> 16u32) & 0xff) as u8, ((u >> 24u32) & 0xff) as u8]
}

/// The 32-bit integer of four little-endian bytes.
pub open spec fn from_le(b0: u8, b1: u8, b2: u8, b3: u8) -> i32 {
    ((b0 as u32) | ((b1 as u32) << 8u32) | ((b2 as u32) << 16u32) | ((b3 as u32) << 24u32)) as i32
}

/// Body length of a packet with an `n`-byte payload: id, type, payload and
/// the two terminating NULs.
pub open spec fn body_len(n: nat) -> nat {
    4 + 4 + n + 2
}

/// The bytes of one packet.
pub open spec fn packet(id: i32, ptype: i32, payload: Seq<u8>) -> Seq<u8> {
    le_bytes(body_len(payload.len()) as i32) + le_bytes(id) + le_bytes(ptype) + payload + seq![0u8, 0u8]
}

/// The body length a length prefix announces, when it is acceptable
/// (10 to 4096 bytes).
pub open spec fn announced_len(b: Seq<u8>) -> Option<int> {
    let v = from_le(b[0], b[1], b[2], b[3]);
    if 10 <= v <= 4096 {
        Some(v as int)
    } else {
        None
    }
}

/// (request id, type, payload) of a body: the payload stops before the two
/// terminating bytes.
pub open spec fn body_fields(body: Seq<u8>) -> (i32, i32, Seq<u8>) {
    (
        from_le(body[0], body[1], body[2], body[3]),
        from_le(body[4], body[5], body[6], body[7]),
        body.subrange(8, body.len() - 2),
    )
}

/// Little-endian bytes of `v`.
pub fn i32_le_bytes(v: i32) -> (r: [u8; 4])
    ensures
        r@ == le_bytes(v),
{
    let u = v as u32;
    let r = [(u & 0xff) as u8, ((u >> 8u32) & 0xff) as u8, ((u >> 16u32) & 0xff) as u8, ((u >> 24u32) & 0xff) as u8];
    assert(r@ =~= le_bytes(v));
    r
}

/// The integer of four little-endian bytes.
pub fn i32_from_le(b0: u8, b1: u8, b2: u8, b3: u8) -> (v: i32)
    ensures
        v == from_le(b0, b1, b2, b3),
{
    ((b0 as u32) | ((b1 as u32) << 8u32) | ((b2 as u32) << 16u32) | ((b3 as u32) << 24u32)) as i32
}

/// Body length of a packet whose payload has `payload_len` bytes.
pub fn body_length(payload_len: usize) -> (n: usize)
    requires
        payload_len <= usize::MAX - 10,
    ensures
        n == body_len(payload_len as nat),
{
    4 + 4 + payload_len + 2
}

/// Frames one packet.
pub fn encode_packet(id: i32, ptype: i32, payload: &[u8]) -> (r: Vec<u8>)
    requires
        payload@.len() + 10 <= i32::MAX,
    ensures
        r@ == packet(id, ptype, payload@),
{
    let length = (payload.len() + 10) as i32;
    let mut buf: Vec<u8> = Vec::new();
    let l = i32_le_bytes(length);
    let a = i32_le_bytes(id);
    let t = i32_le_bytes(ptype);
    let mut k: usize = 0;
    while k < 4
        invariant
            k <= 4,
            buf@ == l@.take(k as int),
        decreases 4 - k,
    {
        buf.push(l[k]);
        assert(l@.take(k + 1) =~= l@.take(k as int).push(l@[k as int]));
        k += 1;
    }
    k = 0;
    while k < 4
        invariant
            k <= 4,
            buf@ == l@ + a@.take(k as int),
        decreases 4 - k,
    {
        buf.push(a[k]);
        assert(l@ + a@.take(k + 1) =~= (l@ + a@.take(k as int)).push(a@[k as int]));
        k += 1;
    }
    k = 0;
    while k < 4
        invariant
            k <= 4,
            buf@ == l@ + a@ + t@.take(k as int),
        decreases 4 - k,
    {
        buf.push(t[k]);
        assert(l@ + a@ + t@.take(k + 1) =~= (l@ + a@ + t@.take(k as int)).push(t@[k as int]));
        k += 1;
    }
    let mut i: usize = 0;
    assert(l@.take(4) =~= l@);
    assert(a@.take(4) =~= a@);
    assert(t@.take(4) =~= t@);
    while i < payload.len()
        invariant
            i <= payload@.len(),
            buf@ == l@ + a@ + t@ + payload@.take(i as int),
        decreases payload@.len() - i,
    {
        buf.push(payload[i]);
        assert(l@ + a@ + t@ + payload@.take(i + 1) =~= (l@ + a@ + t@ + payload@.take(i as int)).push(payload@[i as int]));
        i += 1;
    }
    buf.push(0);
    buf.push(0);
    assert(payload@.take(i as int) =~= payload@);
    assert(buf@ =~= packet(id, ptype, payload@));
    buf
}

/// The body length a 4-byte length prefix announces; `None` for a length
/// outside 10..=4096.
pub fn body_length_of(prefix: &[u8]) -> (r: Option<usize>)
    requires
        prefix@.len() == 4,
    ensures
        match announced_len(prefix@) {
            Some(n) => r == Some(n as usize),
            None => r is None,
        },
{
    let v = i32_from_le(prefix[0], prefix[1], prefix[2], prefix[3]);
    if 10 <= v && v <= 4096 {
        Some(v as usize)
    } else {
        None
    }
}

/// (request id, type, payload) of a packet body.
pub fn decode_body(body: &[u8]) -> (r: (i32, i32, Vec<u8>))
    requires
        body@.len() >= 10,
    ensures
        (r.0, r.1, r.2@) == body_fields(body@),
{
    let id = i32_from_le(body[0], body[1], body[2], body[3]);
    let ptype = i32_from_le(body[4], body[5], body[6], body[7]);
    let mut payload: Vec<u8> = Vec::new();
    let end = body.len() - 2;
    let mut i: usize = 8;
    while i < end
        invariant
            8 <= i <= end,
            end == body@.len() - 2,
            payload@ == body@.subrange(8, i as int),
        decreases end - i,
    {
        payload.push(body[i]);
        assert(body@.subrange(8, i + 1) =~= body@.subrange(8, i as int).push(body@[i as int]));
        i += 1;
    }
    (id, ptype, payload)
}

/// Whether a reply rejects the request: the server answers id `-1`.
pub fn is_rejected(resp_id: i32) -> (r: bool)
    ensures
        r == (resp_id == -1),
{
    resp_id == -1
}

proof fn lemma_le_roundtrip(v: i32)
    ensures
        from_le(le_bytes(v)[0], le_bytes(v)[1], le_bytes(v)[2], le_bytes(v)[3]) == v,
{
    let u = v as u32;
    assert((((u & 0xff) as u8 as u32) | ((((u >> 8u32) & 0xff) as u8 as u32) << 8u32) | ((((u >> 16u32) & 0xff) as u8
        as u32) << 16u32) | ((((u >> 24u32) & 0xff) as u8 as u32) << 24u32)) == u) by (bit_vector);
    assert((u as i32) == v) by (bit_vector)
        requires
            u == v as u32,
    ;
}

/// A framed packet reads back as it was written: its length prefix is
/// accepted and announces the body, and the body gives back the request id,
/// type and payload.
pub proof fn law_packet_roundtrip(id: i32, ptype: i32, payload: Seq<u8>)
    requires
        payload.len() <= MAX_BODY_LEN - 10,
    ensures
        announced_len(packet(id, ptype, payload).take(4)) == Some(body_len(payload.len()) as int),
        body_fields(packet(id, ptype, payload).skip(4)) == (id, ptype, payload),
{
    let p = packet(id, ptype, payload);
    let n = body_len(payload.len()) as i32;
    lemma_le_roundtrip(n);
    lemma_le_roundtrip(id);
    lemma_le_roundtrip(ptype);
    assert(p.take(4) =~= le_bytes(n));
    let body = p.skip(4);
    assert(body[0] == le_bytes(id)[0] && body[1] == le_bytes(id)[1] && body[2] == le_bytes(id)[2] && body[3]
        == le_bytes(id)[3]);
    assert(body[4] == le_bytes(ptype)[0] && body[5] == le_bytes(ptype)[1] && body[6] == le_bytes(ptype)[2]
        && body[7] == le_bytes(ptype)[3]);
    assert(body.subrange(8, body.len() - 2) =~= payload);
}

} // verus!
