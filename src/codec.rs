//! The wire layout of a frame:
//! `[total_length: i32][header_length: i32][header bytes][body bytes]`,
//! big-endian, where `total_length = 4 + header_length + body_length`.
use vstd::prelude::*;

use crate::error::ClientError;

verus! {

/// The four big-endian bytes of `n`.
pub open spec fn be_bytes(n: u32) -> Seq<u8> {
    seq![(n >> 24u32) as u8, (n >> 16u32) as u8, (n >> 8u32) as u8, n as u8]
}

/// The `u32` whose big-endian bytes are `a, b, c, d`.
pub open spec fn be_value(a: u8, b: u8, c: u8, d: u8) -> u32 {
    ((a as u32) << 24u32) | ((b as u32) << 16u32) | ((c as u32) << 8u32) | (d as u32)
}

/// The big-endian `i32` stored at offset `i` of `s`.
pub open spec fn i32_at(s: Seq<u8>, i: int) -> i32 {
    be_value(s[i], s[i + 1], s[i + 2], s[i + 3]) as i32
}

/// The total length that a buffer announces in its first four bytes.
pub open spec fn declared_length(s: Seq<u8>) -> int {
    i32_at(s, 0) as int
}

/// The header length that a buffer announces in its second four bytes.
pub open spec fn declared_header_length(s: Seq<u8>) -> int {
    i32_at(s, 4) as int
}

/// Not enough bytes are buffered yet to hold one frame.
pub open spec fn is_incomplete(s: Seq<u8>) -> bool {
    s.len() < 4 || (declared_length(s) >= 4 && s.len() < 4 + declared_length(s))
}

/// The announced total length cannot even hold the header-length field.
pub open spec fn is_malformed_length(s: Seq<u8>) -> bool {
    s.len() >= 4 && declared_length(s) < 4
}

/// One whole frame is buffered at the start of `s`.
pub open spec fn is_complete(s: Seq<u8>) -> bool {
    s.len() >= 4 && declared_length(s) >= 4 && s.len() >= 4 + declared_length(s)
}

/// The number of bytes that the first frame of `s` takes, length prefix included.
pub open spec fn frame_size(s: Seq<u8>) -> int {
    4 + declared_length(s)
}

/// The first frame of `s` is whole and its header length lies inside it.
pub open spec fn is_well_formed(s: Seq<u8>) -> bool {
    is_complete(s) && 0 <= declared_header_length(s) <= declared_length(s) - 4
}

/// The header bytes of the first frame of `s`.
pub open spec fn header_of(s: Seq<u8>) -> Seq<u8> {
    s.subrange(8, 8 + declared_header_length(s))
}

/// The body bytes of the first frame of `s`.
pub open spec fn body_of(s: Seq<u8>) -> Seq<u8> {
    s.subrange(8 + declared_header_length(s), frame_size(s))
}

/// A header and a body fit in one frame: the total length fits in an `i32`.
pub open spec fn fits_in_frame(header: Seq<u8>, body: Seq<u8>) -> bool {
    4 + header.len() + body.len() <= i32::MAX
}

/// The bytes of the frame that carries `header` and `body`.
pub open spec fn frame_bytes(header: Seq<u8>, body: Seq<u8>) -> Seq<u8> {
    be_bytes((4 + header.len() + body.len()) as u32) + be_bytes(header.len() as u32) + header
        + body
}

proof fn lemma_be_round_trip(n: u32)
    ensures
        be_value(be_bytes(n)[0], be_bytes(n)[1], be_bytes(n)[2], be_bytes(n)[3]) == n,
{
    let a = (n >> 24u32) as u8;
    let b = (n >> 16u32) as u8;
    let c = (n >> 8u32) as u8;
    let d = n as u8;
    assert(((a as u32) << 24u32) | ((b as u32) << 16u32) | ((c as u32) << 8u32) | (d as u32)
        == n) by (bit_vector)
        requires
            a == (n >> 24u32) as u8,
            b == (n >> 16u32) as u8,
            c == (n >> 8u32) as u8,
            d == n as u8,
    ;
}

proof fn lemma_small_u32_as_i32(n: u32)
    requires
        n <= i32::MAX,
    ensures
        n as i32 == n as int,
{
}

/// What a buffer that starts with an encoded frame announces: the total and
/// header lengths that went in, whatever bytes follow the frame.
proof fn lemma_frame_prefix(header: Seq<u8>, body: Seq<u8>, rest: Seq<u8>)
    requires
        fits_in_frame(header, body),
    ensures
        ({
            let s = frame_bytes(header, body) + rest;
            &&& s.len() >= 8
            &&& declared_length(s) == 4 + header.len() + body.len()
            &&& declared_header_length(s) == header.len()
        }),
{
    let t = (4 + header.len() + body.len()) as u32;
    let h = header.len() as u32;
    let s = frame_bytes(header, body) + rest;
    lemma_be_round_trip(t);
    lemma_be_round_trip(h);
    assert(s[0] == be_bytes(t)[0] && s[1] == be_bytes(t)[1] && s[2] == be_bytes(t)[2] && s[3]
        == be_bytes(t)[3]);
    assert(s[4] == be_bytes(h)[0] && s[5] == be_bytes(h)[1] && s[6] == be_bytes(h)[2] && s[7]
        == be_bytes(h)[3]);
    lemma_small_u32_as_i32(t);
    lemma_small_u32_as_i32(h);
}

/// Framing round trip: the frame built from a header and a body is read back
/// as that header and that body, and takes exactly its own bytes, whatever
/// bytes follow it in the buffer.
pub proof fn lemma_frame_round_trip(header: Seq<u8>, body: Seq<u8>, rest: Seq<u8>)
    requires
        fits_in_frame(header, body),
    ensures
        ({
            let s = frame_bytes(header, body) + rest;
            &&& is_well_formed(s)
            &&& frame_size(s) == frame_bytes(header, body).len()
            &&& header_of(s) == header
            &&& body_of(s) == body
        }),
{
    let e = frame_bytes(header, body);
    let s = e + rest;
    lemma_frame_prefix(header, body, rest);
    assert(header_of(s) =~= header);
    assert(body_of(s) =~= body);
}

/// Partial delivery: every proper prefix of an encoded frame reads as
/// incomplete (never as malformed nor as a frame), so bytes that arrive in
/// pieces are only taken once the whole frame is there.
pub proof fn lemma_prefix_incomplete(header: Seq<u8>, body: Seq<u8>, k: int)
    requires
        fits_in_frame(header, body),
        0 <= k < frame_bytes(header, body).len(),
    ensures
        is_incomplete(frame_bytes(header, body).take(k)),
        !is_malformed_length(frame_bytes(header, body).take(k)),
        !is_complete(frame_bytes(header, body).take(k)),
{
    let e = frame_bytes(header, body);
    let p = e.take(k);
    if k >= 4 {
        let t = (4 + header.len() + body.len()) as u32;
        lemma_be_round_trip(t);
        assert(p[0] == be_bytes(t)[0] && p[1] == be_bytes(t)[1] && p[2] == be_bytes(t)[2] && p[3]
            == be_bytes(t)[3]);
        lemma_small_u32_as_i32(t);
    }
}

/// Why a buffer does not yield a frame.
#[derive(Debug)]
pub enum Error {
    /// Not enough data is buffered yet; read more and retry.
    Incomplete,
    /// The buffered data can never become a valid frame.
    Other(ClientError),
}

/// The header and body bytes of one frame, as carved out of a buffer.
pub struct RawFrame {
    pub header: Vec<u8>,
    pub body: Vec<u8>,
}

/// Reads the big-endian `i32` at offset `pos`.
pub fn read_i32(buf: &[u8], pos: usize) -> (r: i32)
    requires
        pos + 4 <= buf@.len(),
    ensures
        r == i32_at(buf@, pos as int),
{
    let v: u32 = ((buf[pos] as u32) << 24u32) | ((buf[pos + 1] as u32) << 16u32) | ((buf[pos
        + 2] as u32) << 8u32) | (buf[pos + 3] as u32);
    v as i32
}

/// Appends the four big-endian bytes of `n`.
pub fn put_u32(out: &mut Vec<u8>, n: u32)
    ensures
        final(out)@ == old(out)@ + be_bytes(n),
{
    out.push((n >> 24u32) as u8);
    out.push((n >> 16u32) as u8);
    out.push((n >> 8u32) as u8);
    out.push(n as u8);
    assert(final(out)@ =~= old(out)@ + be_bytes(n));
}

/// Appends all of `src` to `out`.
fn put_slice(out: &mut Vec<u8>, src: &[u8])
    ensures
        final(out)@ == old(out)@ + src@,
{
    let ghost start = out@;
    let mut i: usize = 0;
    while i < src.len()
        invariant
            i <= src@.len(),
            out@ == start + src@.take(i as int),
        decreases src@.len() - i,
    {
        out.push(src[i]);
        i = i + 1;
        assert(out@ =~= start + src@.take(i as int));
    }
    assert(src@.take(i as int) =~= src@);
}

/// Copies `src[from..to]` into a new vector.
pub(crate) fn copy_range(src: &[u8], from: usize, to: usize) -> (r: Vec<u8>)
    requires
        from <= to <= src@.len(),
    ensures
        r@ == src@.subrange(from as int, to as int),
{
    let mut r: Vec<u8> = Vec::new();
    let mut i: usize = from;
    while i < to
        invariant
            from <= i <= to <= src@.len(),
            r@ == src@.subrange(from as int, i as int),
        decreases to - i,
    {
        r.push(src[i]);
        i = i + 1;
        assert(r@ =~= src@.subrange(from as int, i as int));
    }
    r
}

/// Lays out one frame: total length, header length, header, body.
/// Fails when the total length does not fit in an `i32`.
pub fn encode_frame(header: &[u8], body: &[u8]) -> (r: Result<Vec<u8>, ClientError>)
    ensures
        fits_in_frame(header@, body@) <==> r is Ok,
        r matches Ok(v) ==> v@ == frame_bytes(header@, body@),
        r matches Err(e) ==> e is InvalidFrame,
{
    if header.len() > 0x7fff_fffb || body.len() > 0x7fff_fffb - header.len() {
        return Err(ClientError::InvalidFrame("Failed to encode frame: frame is too large".to_string()));
    }
    let total: usize = 4 + header.len() + body.len();
    let mut buf: Vec<u8> = Vec::with_capacity(total + 4);
    put_u32(&mut buf, total as u32);
    put_u32(&mut buf, header.len() as u32);
    put_slice(&mut buf, header);
    put_slice(&mut buf, body);
    assert(buf@ =~= frame_bytes(header@, body@));
    Ok(buf)
}

/// Tells whether `buf` starts with one whole frame, without decoding it.
/// On success returns the number of bytes that the frame takes.
pub fn check(buf: &[u8]) -> (r: Result<usize, Error>)
    ensures
        is_incomplete(buf@) <==> r is Err && r->Err_0 is Incomplete,
        is_malformed_length(buf@) <==> (r matches Err(Error::Other(e)) && e is InvalidFrame),
        is_complete(buf@) <==> r is Ok,
        r matches Ok(n) ==> n == frame_size(buf@),
{
    if buf.len() < 4 {
        return Err(Error::Incomplete);
    }
    let frame_length = read_i32(buf, 0);
    if frame_length < 4 {
        return Err(Error::Other(ClientError::InvalidFrame("Invalid frame length".to_string())));
    }
    if buf.len() - 4 < frame_length as usize {
        return Err(Error::Incomplete);
    }
    Ok(4 + frame_length as usize)
}

/// Carves the header and body out of the frame at the start of `buf`.
pub fn parse(buf: &[u8]) -> (r: Result<RawFrame, ClientError>)
    ensures
        is_well_formed(buf@) <==> r is Ok,
        r matches Ok(f) ==> f.header@ == header_of(buf@) && f.body@ == body_of(buf@),
        r matches Err(e) ==> e is InvalidFrame,
{
    if buf.len() < 8 {
        return Err(ClientError::InvalidFrame("Invalid frame length".to_string()));
    }
    let frame_length = read_i32(buf, 0);
    if frame_length < 4 || buf.len() - 4 < frame_length as usize {
        return Err(ClientError::InvalidFrame("Invalid frame length".to_string()));
    }
    let header_length = read_i32(buf, 4);
    if header_length < 0 || header_length > frame_length - 4 {
        return Err(ClientError::InvalidFrame("Invalid frame header length".to_string()));
    }
    let header_end: usize = 8 + header_length as usize;
    let frame_end: usize = 4 + frame_length as usize;
    let header = copy_range(buf, 8, header_end);
    let body = copy_range(buf, header_end, frame_end);
    Ok(RawFrame { header, body })
}

} // verus!
