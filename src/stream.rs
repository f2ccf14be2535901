//! The receive side of a connection: bytes arrive in arbitrary pieces and
//! whole frames are carved out of them one at a time.
use vstd::prelude::*;

use crate::codec::{
    body_of, check, copy_range, frame_bytes, fits_in_frame, frame_size, header_of,
    is_complete, is_incomplete, is_malformed_length, is_well_formed, lemma_frame_round_trip,
    lemma_prefix_incomplete, parse, Error, RawFrame,
};
use crate::error::ClientError;

verus! {

/// The bytes received from a peer and not yet taken as frames.
pub struct ReceiveBuffer {
    buffer: Vec<u8>,
}

impl View for ReceiveBuffer {
    type V = Seq<u8>;

    closed spec fn view(&self) -> Seq<u8> {
        self.buffer@
    }
}

impl ReceiveBuffer {
    /// An empty buffer.
    pub fn new() -> (r: ReceiveBuffer)
        ensures
            r@ == Seq::<u8>::empty(),
    {
        ReceiveBuffer { buffer: Vec::with_capacity(1024 * 1024) }
    }

    /// Whether nothing is buffered.
    pub fn is_empty(&self) -> (r: bool)
        ensures
            r == (self@.len() == 0),
    {
        self.buffer.len() == 0
    }

    /// Takes the bytes of one read. A read of no bytes means the peer closed
    /// the stream: with nothing buffered that is a clean end (`Ok(false)`),
    /// with a partial frame buffered it is a reset. Otherwise the bytes are
    /// appended and more may follow (`Ok(true)`).
    pub fn feed(&mut self, data: &[u8]) -> (r: Result<bool, ClientError>)
        ensures
            data@.len() == 0 && old(self)@.len() == 0 <==> r == Ok::<bool, ClientError>(false),
            data@.len() == 0 && old(self)@.len() > 0 <==> (r matches Err(e)
                && e is ConnectionReset),
            data@.len() > 0 <==> r == Ok::<bool, ClientError>(true),
            final(self)@ == old(self)@ + data@,
    {
        if data.len() == 0 {
            if self.buffer.len() == 0 {
                return Ok(false);
            } else {
                return Err(ClientError::ConnectionReset);
            }
        }
        let mut i: usize = 0;
        let ghost start = self.buffer@;
        while i < data.len()
            invariant
                i <= data@.len(),
                self.buffer@ == start + data@.take(i as int),
            decreases data@.len() - i,
        {
            self.buffer.push(data[i]);
            i = i + 1;
            assert(self.buffer@ =~= start + data@.take(i as int));
        }
        assert(data@.take(i as int) =~= data@);
        Ok(true)
    }

    /// Carves the first frame out of the buffer if it is all there, and drops
    /// its bytes; the bytes after it stay for the next call. Returns `Ok(None)`,
    /// keeping every byte, while the frame is incomplete; fails, keeping every
    /// byte, on a malformed frame.
    pub fn parse_frame(&mut self) -> (r: Result<Option<RawFrame>, ClientError>)
        ensures
            is_incomplete(old(self)@) <==> r matches Ok(None),
            is_well_formed(old(self)@) <==> r matches Ok(Some(_)),
            r matches Ok(Some(f)) ==> f.header@ == header_of(old(self)@) && f.body@ == body_of(
                old(self)@,
            ) && final(self)@ == old(self)@.skip(frame_size(old(self)@)),
            !(r matches Ok(Some(_))) ==> final(self)@ == old(self)@,
            r matches Err(e) ==> e is InvalidFrame,
            is_malformed_length(old(self)@) ==> r is Err,
    {
        match check(self.buffer.as_slice()) {
            Ok(len) => {
                let frame = parse(self.buffer.as_slice())?;
                let rest = copy_range(self.buffer.as_slice(), len, self.buffer.len());
                assert(rest@ =~= old(self)@.skip(frame_size(old(self)@)));
                self.buffer = rest;
                Ok(Some(frame))
            },
            Err(Error::Incomplete) => Ok(None),
            Err(Error::Other(e)) => Err(e),
        }
    }
}

/// Partial delivery: wherever the bytes of an encoded frame are cut, the
/// buffer that holds the first part reads as incomplete, so `parse_frame`
/// keeps it whole and takes nothing; once the rest has been appended (with
/// any later bytes behind it) the buffer yields the same header and body as
/// the frame delivered at once, and exactly the later bytes stay.
pub proof fn lemma_partial_delivery(header: Seq<u8>, body: Seq<u8>, k: int, later: Seq<u8>)
    requires
        fits_in_frame(header, body),
        0 <= k < frame_bytes(header, body).len(),
    ensures
        ({
            let e = frame_bytes(header, body);
            let s = e.take(k) + e.skip(k) + later;
            &&& is_incomplete(e.take(k))
            &&& !is_malformed_length(e.take(k))
            &&& is_well_formed(s)
            &&& header_of(s) == header
            &&& body_of(s) == body
            &&& s.skip(frame_size(s)) == later
        }),
{
    let e = frame_bytes(header, body);
    lemma_prefix_incomplete(header, body, k);
    assert(e.take(k) + e.skip(k) + later =~= e + later);
    lemma_frame_round_trip(header, body, later);
    assert((e + later).skip(e.len() as int) =~= later);
}

} // verus!
