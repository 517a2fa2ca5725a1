//! The framed byte channel between the two parties.
//!
//! The channel is ordered, duplex and byte-oriented: every logical message
//! travels as one frame, an 8-byte little-endian length prefix followed by
//! the payload. Communication cost is a first-class observable, so the
//! channel keeps cumulative byte counters for both directions.
//!
//! This type models one endpoint as a pair of byte streams. Writes append
//! to the outgoing stream; `flush` hands the not-yet-transmitted suffix to
//! whatever transport carries it (an in-process peer, a socket owned by the
//! caller); `receive` appends transported bytes to the incoming stream, and
//! `read_frame` consumes them. Any malformed or truncated frame is a fatal
//! transport error: there is no partial-frame recovery.

use vstd::prelude::*;
use vstd::bytes::{spec_u64_to_le_bytes, spec_u64_from_le_bytes, u64_to_le_bytes, u64_from_le_bytes,
    lemma_auto_spec_u64_to_from_le_bytes};
use vstd::slice::{slice_subrange, slice_to_vec};
use crate::MpcError;

verus! {

/// One frame as it appears on the byte stream: the payload length as an
/// 8-byte little-endian prefix, then the payload itself.
pub open spec fn frame_bytes(p: Seq<u8>) -> Seq<u8> {
    spec_u64_to_le_bytes(p.len() as u64) + p
}

/// The byte stream that carries a sequence of frames, in order.
pub open spec fn stream_of(frames: Seq<Seq<u8>>) -> Seq<u8>
    decreases frames.len(),
{
    if frames.len() == 0 {
        Seq::empty()
    } else {
        stream_of(frames.drop_last()) + frame_bytes(frames.last())
    }
}

/// The total payload size of a sequence of frames, without prefix overhead.
pub open spec fn total_payload(frames: Seq<Seq<u8>>) -> nat
    decreases frames.len(),
{
    if frames.len() == 0 {
        0
    } else {
        total_payload(frames.drop_last()) + frames.last().len()
    }
}

/// What a frame parse finds at the head of a byte stream: the payload, if
/// the stream holds a complete length prefix and a complete payload.
pub open spec fn parse_frame(b: Seq<u8>) -> Option<Seq<u8>> {
    if b.len() < 8 {
        None
    } else {
        let len = spec_u64_from_le_bytes(b.take(8)) as int;
        if b.len() - 8 < len {
            None
        } else {
            Some(b.subrange(8, 8 + len))
        }
    }
}

/// One endpoint of the duplex channel.
pub struct Channel {
    outbuf: Vec<u8>,
    sent: usize,
    inbuf: Vec<u8>,
    consumed: usize,
    frames_out: Ghost<Seq<Seq<u8>>>,
}

impl Channel {
    /// The endpoint's internal consistency: the cursors stay inside their
    /// streams, and the outgoing stream is exactly the frames written so far.
    pub closed spec fn wf(self) -> bool {
        &&& self.sent <= self.outbuf@.len()
        &&& self.consumed <= self.inbuf@.len()
        &&& self.outbuf@ == stream_of(self.frames_out@)
    }

    /// The frames written to this endpoint so far, in order.
    pub closed spec fn frames_written(self) -> Seq<Seq<u8>> {
        self.frames_out@
    }

    /// The cumulative number of bytes written, prefixes included.
    pub closed spec fn written_count(self) -> nat {
        self.outbuf@.len()
    }

    /// The cumulative number of bytes consumed by frame reads.
    pub closed spec fn read_count(self) -> nat {
        self.consumed as nat
    }

    /// The incoming bytes that no read has consumed yet.
    pub closed spec fn unread(self) -> Seq<u8> {
        self.inbuf@.skip(self.consumed as int)
    }

    /// The outgoing bytes that no flush has handed to the transport yet.
    pub closed spec fn unflushed(self) -> Seq<u8> {
        self.outbuf@.skip(self.sent as int)
    }

    /// A fresh endpoint with empty streams.
    pub fn new() -> (r: Channel)
        ensures
            r.wf(),
            r.frames_written() == Seq::<Seq<u8>>::empty(),
            r.written_count() == 0,
            r.read_count() == 0,
            r.unread() == Seq::<u8>::empty(),
            r.unflushed() == Seq::<u8>::empty(),
    {
        let r = Channel {
            outbuf: Vec::new(),
            sent: 0,
            inbuf: Vec::new(),
            consumed: 0,
            frames_out: Ghost(Seq::empty()),
        };
        proof {
            assert(r.unread() =~= Seq::<u8>::empty());
            assert(r.unflushed() =~= Seq::<u8>::empty());
        }
        r
    }

    /// The cumulative write counter: every byte written, prefixes included.
    pub fn bytes_written(&self) -> (r: u64)
        ensures
            r == self.written_count(),
    {
        self.outbuf.len() as u64
    }

    /// The cumulative read counter: every byte consumed by frame reads.
    pub fn bytes_read(&self) -> (r: u64)
        ensures
            r == self.read_count(),
    {
        self.consumed as u64
    }

    /// Write one length-prefixed frame to the outgoing stream.
    pub fn write_frame(&mut self, payload: &Vec<u8>)
        requires
            old(self).wf(),
        ensures
            final(self).wf(),
            final(self).frames_written() == old(self).frames_written().push(payload@),
            final(self).written_count() == old(self).written_count() + 8 + payload@.len(),
            final(self).unflushed() == old(self).unflushed() + frame_bytes(payload@),
            final(self).read_count() == old(self).read_count(),
            final(self).unread() == old(self).unread(),
    {
        let ghost old_self = *self;
        let mut prefix = u64_to_le_bytes(payload.len() as u64);
        self.outbuf.append(&mut prefix);
        let mut body = slice_to_vec(payload.as_slice());
        self.outbuf.append(&mut body);
        proof {
            self.frames_out@ = old_self.frames_out@.push(payload@);
            assert(self.outbuf@ =~= old_self.outbuf@ + frame_bytes(payload@));
            assert(stream_of(self.frames_out@) == stream_of(old_self.frames_out@) + frame_bytes(
                payload@,
            )) by {
                assert(self.frames_out@.drop_last() =~= old_self.frames_out@);
            }
            assert(self.unflushed() =~= old_self.unflushed() + frame_bytes(payload@));
            assert(self.unread() =~= old_self.unread());
        }
    }

    /// Hand the not-yet-transmitted outgoing bytes to the transport.
    pub fn flush(&mut self) -> (r: Vec<u8>)
        requires
            old(self).wf(),
        ensures
            final(self).wf(),
            r@ == old(self).unflushed(),
            final(self).unflushed() == Seq::<u8>::empty(),
            final(self).frames_written() == old(self).frames_written(),
            final(self).written_count() == old(self).written_count(),
            final(self).read_count() == old(self).read_count(),
            final(self).unread() == old(self).unread(),
    {
        let r = slice_to_vec(slice_subrange(self.outbuf.as_slice(), self.sent, self.outbuf.len()));
        self.sent = self.outbuf.len();
        proof {
            assert(final(self).unflushed() =~= Seq::<u8>::empty());
        }
        r
    }

    /// Append bytes delivered by the transport to the incoming stream.
    pub fn receive(&mut self, bytes: &Vec<u8>)
        requires
            old(self).wf(),
        ensures
            final(self).wf(),
            final(self).unread() == old(self).unread() + bytes@,
            final(self).frames_written() == old(self).frames_written(),
            final(self).written_count() == old(self).written_count(),
            final(self).read_count() == old(self).read_count(),
            final(self).unflushed() == old(self).unflushed(),
    {
        let mut body = slice_to_vec(bytes.as_slice());
        self.inbuf.append(&mut body);
        proof {
            assert(final(self).unread() =~= old(self).unread() + bytes@);
            assert(final(self).unflushed() =~= old(self).unflushed());
        }
    }

    /// Read one length-prefixed frame from the incoming stream.
    ///
    /// A stream too short for the prefix, or shorter than the length the
    /// prefix announces, is a fatal transport error and consumes nothing.
    pub fn read_frame(&mut self) -> (r: Result<Vec<u8>, MpcError>)
        requires
            old(self).wf(),
        ensures
            final(self).wf(),
            final(self).frames_written() == old(self).frames_written(),
            final(self).written_count() == old(self).written_count(),
            final(self).unflushed() == old(self).unflushed(),
            match r {
                Ok(p) => {
                    &&& parse_frame(old(self).unread()) == Some(p@)
                    &&& final(self).unread() == old(self).unread().skip(8 + p@.len() as int)
                    &&& final(self).read_count() == old(self).read_count() + 8 + p@.len()
                },
                Err(e) => {
                    &&& e == MpcError::Transport
                    &&& parse_frame(old(self).unread()) is None
                    &&& *final(self) == *old(self)
                },
            },
    {
        proof {
            lemma_auto_spec_u64_to_from_le_bytes();
        }
        let avail = self.inbuf.len() - self.consumed;
        if avail < 8 {
            return Err(MpcError::Transport);
        }
        let prefix = slice_subrange(self.inbuf.as_slice(), self.consumed, self.consumed + 8);
        proof {
            assert(prefix@ =~= old(self).unread().take(8));
        }
        let len64 = u64_from_le_bytes(prefix);
        if ((avail - 8) as u64) < len64 {
            return Err(MpcError::Transport);
        }
        let len = len64 as usize;
        let payload = slice_to_vec(
            slice_subrange(
                self.inbuf.as_slice(),
                self.consumed + 8,
                self.consumed + 8 + len,
            ),
        );
        self.consumed = self.consumed + 8 + len;
        proof {
            assert(payload@ =~= old(self).unread().subrange(8, 8 + len as int));
            assert(final(self).unread() =~= old(self).unread().skip(8 + payload@.len() as int));
            assert(final(self).unflushed() =~= old(self).unflushed());
        }
        Ok(payload)
    }
}

/// Move everything one endpoint has flushed onto the peer's incoming
/// stream: the explicit message-passing step between two in-process
/// session endpoints.
pub fn transfer(from: &mut Channel, to: &mut Channel)
    requires
        old(from).wf(),
        old(to).wf(),
    ensures
        final(from).wf(),
        final(to).wf(),
        final(to).unread() == old(to).unread() + old(from).unflushed(),
        final(from).unflushed() == Seq::<u8>::empty(),
        final(from).frames_written() == old(from).frames_written(),
        final(from).written_count() == old(from).written_count(),
        final(from).unread() == old(from).unread(),
        final(from).read_count() == old(from).read_count(),
        final(to).frames_written() == old(to).frames_written(),
        final(to).written_count() == old(to).written_count(),
        final(to).read_count() == old(to).read_count(),
        final(to).unflushed() == old(to).unflushed(),
{
    let bytes = from.flush();
    to.receive(&bytes);
}

/// A stream that holds exactly one complete frame parses to its payload and
/// is consumed whole.
pub proof fn lemma_parse_of_frame(p: Seq<u8>)
    requires
        p.len() <= u64::MAX,
    ensures
        parse_frame(frame_bytes(p)) == Some(p),
        frame_bytes(p).len() == 8 + p.len(),
        frame_bytes(p).skip(8 + p.len() as int) == Seq::<u8>::empty(),
{
    lemma_auto_spec_u64_to_from_le_bytes();
    let b = frame_bytes(p);
    assert(b.take(8) =~= spec_u64_to_le_bytes(p.len() as u64));
    assert(b.subrange(8, 8 + p.len() as int) =~= p);
    assert(b.skip(8 + p.len() as int) =~= Seq::<u8>::empty());
}

/// Law of bandwidth accounting: a stream carrying `N` frames is exactly the
/// frames' total payload size plus 8 prefix bytes per frame long.
pub proof fn lemma_bandwidth_accounting(frames: Seq<Seq<u8>>)
    ensures
        stream_of(frames).len() == total_payload(frames) + 8 * frames.len(),
    decreases frames.len(),
{
    vstd::bytes::lemma_auto_spec_u64_to_from_le_bytes();
    if frames.len() > 0 {
        lemma_bandwidth_accounting(frames.drop_last());
    }
}

/// Law of bandwidth accounting, tied to an endpoint: the write counter of a
/// channel equals the total payload it has carried plus the prefix overhead
/// of every frame.
pub proof fn lemma_channel_accounting(ch: Channel)
    requires
        ch.wf(),
    ensures
        ch.written_count() == total_payload(ch.frames_written()) + 8 * ch.frames_written().len(),
{
    lemma_bandwidth_accounting(ch.frames_written());
}

} // verus!
