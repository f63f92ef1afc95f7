//! The multiplexer: frames from many channels are written, one after the
//! other, into one window of outbound bytes.

use crate::buf::Buf;
use crate::frame::{wire_bytes, Direction, Header, HeaderFields, Id, Time, HEADER_SIZE, MAX_PAYLOAD};
use vstd::prelude::*;

verus! {

/// The bytes of one frame on the wire: the header, then the payload.
pub open spec fn frame_bytes(f: HeaderFields, payload: Seq<u8>) -> Seq<u8> {
    wire_bytes(f) + payload
}

/// The fields of the header that `egress` writes at `time` before `payload`.
pub open spec fn egress_fields(time: u32, id: Id, direction: Direction, payload: Seq<u8>) -> HeaderFields {
    HeaderFields {
        time,
        id: id.value(),
        responder: direction == Direction::Responder,
        payload_length: payload.len() as u16,
    }
}

/// The multiplexer of one connection.
pub struct Mux {
    buffer: Buf,
    bytes_written: u64,
}

impl View for Mux {
    type V = Seq<u8>;

    /// The outbound bytes not yet handed to the transport, oldest first.
    closed spec fn view(&self) -> Seq<u8> {
        self.buffer@
    }
}

impl Mux {
    /// The number of outbound bytes the multiplexer can hold.
    pub closed spec fn capacity(self) -> nat {
        self.buffer.capacity()
    }

    /// The number of bytes accepted so far, headers included, counted modulo 2^64.
    pub closed spec fn written(self) -> u64 {
        self.bytes_written
    }

    /// Whether a frame with `payload` can be accepted: the payload fits a
    /// frame, and header and payload fit in the room that is left.
    pub open spec fn accepts(self, payload: Seq<u8>) -> bool {
        payload.len() <= MAX_PAYLOAD && self@.len() + HEADER_SIZE + payload.len() <= self.capacity()
    }

    /// A multiplexer with nothing pending that can hold `size` outbound bytes.
    pub fn new(size: usize) -> (m: Mux)
        ensures
            m@ == Seq::<u8>::empty(),
            m.capacity() == size,
            m.written() == 0,
    {
        Mux { buffer: Buf::new(size), bytes_written: 0 }
    }

    /// Writes one frame stamped with `time`: its header, then `data`.
    ///
    /// The frame is accepted whole or not at all. It is accepted exactly when
    /// `data` is no longer than 65535 bytes and header and data fit in the
    /// room that is left. Only an accepted frame is counted.
    pub fn egress_at(&mut self, time: Time, id: Id, direction: Direction, data: &[u8]) -> (r:
        Result<(), ()>)
        ensures
            final(self).capacity() == old(self).capacity(),
            r is Ok <==> old(self).accepts(data@),
            r is Ok ==> final(self)@ == old(self)@ + frame_bytes(
                egress_fields(time.0, id, direction, data@),
                data@,
            ),
            r is Ok ==> final(self).written() == (old(self).written() + HEADER_SIZE + data@.len())
                % 0x1_0000_0000_0000_0000,
            r is Err ==> final(self)@ == old(self)@ && final(self).written() == old(self).written(),
    {
        if data.len() > MAX_PAYLOAD {
            return Err(());
        }
        let payload_length = data.len() as u16;
        let header = Header::new(time, id, direction, payload_length);
        let bytes = header.to_bytes();
        assert(wire_bytes(header@).len() == HEADER_SIZE);
        match self.buffer.append_atomic2(bytes.as_slice(), data) {
            Ok(()) => {
                let n = (HEADER_SIZE + data.len()) as u64;
                self.bytes_written = self.bytes_written.wrapping_add(n);
                Ok(())
            },
            Err(()) => Err(()),
        }
    }

    /// Writes one frame stamped with the current time: its header, then `data`.
    ///
    /// As `egress_at`, with a time that is read from the clock.
    pub fn egress(&mut self, id: Id, direction: Direction, data: &[u8]) -> (r: Result<(), ()>)
        ensures
            final(self).capacity() == old(self).capacity(),
            r is Ok <==> old(self).accepts(data@),
            r is Ok ==> exists|time: u32|
                final(self)@ == old(self)@ + frame_bytes(
                    #[trigger] egress_fields(time, id, direction, data@),
                    data@,
                ),
            r is Ok ==> final(self).written() == (old(self).written() + HEADER_SIZE + data@.len())
                % 0x1_0000_0000_0000_0000,
            r is Err ==> final(self)@ == old(self)@ && final(self).written() == old(self).written(),
    {
        let time = Time::now();
        self.egress_at(time, id, direction, data)
    }

    /// The outbound bytes not yet handed to the transport, oldest first.
    pub fn work(&self) -> (pending: &[u8])
        ensures
            pending@ == self@,
    {
        self.buffer.available()
    }

    /// The room that is left for frames, in bytes.
    pub fn writable(&self) -> (n: usize)
        ensures
            n == self.capacity() - self@.len(),
    {
        self.buffer.empty_remaining()
    }

    /// Drops the `bytes` oldest outbound bytes, once the transport has them.
    pub fn consume(&mut self, bytes: usize)
        requires
            bytes <= old(self)@.len(),
        ensures
            final(self).capacity() == old(self).capacity(),
            final(self)@ == old(self)@.skip(bytes as int),
            final(self).written() == old(self).written(),
    {
        self.buffer.consume(bytes)
    }

    /// The number of bytes accepted so far, headers included, counted modulo 2^64.
    pub fn bytes_written(&self) -> (n: u64)
        ensures
            n == self.written(),
    {
        self.bytes_written
    }
}

} // verus!
