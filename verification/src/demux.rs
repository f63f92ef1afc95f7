//! The demultiplexer: a two-state parser that cuts an inbound byte stream
//! into frame headers and the payload bytes that follow each.

use crate::frame::{read_fields, Header, HeaderFields, HEADER_SIZE};
use vstd::prelude::*;
use vstd::slice::slice_subrange;

verus! {

/// Where the parser stands in the stream, as a value of the model.
pub enum DemuxView {
    /// Inside a header: these bytes of it, fewer than eight, have arrived.
    AwaitingHeader(Seq<u8>),
    /// Inside the payload of the frame with this header: this many bytes of
    /// it, at least one, are still to come.
    AwaitingPayload(HeaderFields, nat),
}

/// What one call of the parser reports, as a value of the model.
pub enum DemuxEvent {
    /// Bytes were taken, and no header was completed by them.
    Continue,
    /// A header was completed.
    HeaderReceived(HeaderFields),
    /// These payload bytes belong to the frame with this header; the flag says
    /// whether they are the frame's last.
    DataAppend(HeaderFields, bool, Seq<u8>),
}

/// Whether `s` is a state the parser can be in.
pub open spec fn view_wf(s: DemuxView) -> bool {
    match s {
        DemuxView::AwaitingHeader(got) => got.len() < HEADER_SIZE,
        DemuxView::AwaitingPayload(f, remaining) => 0 < remaining <= f.payload_length,
    }
}

/// The parser at the start of a stream, and after every complete frame.
pub open spec fn start() -> DemuxView {
    DemuxView::AwaitingHeader(Seq::empty())
}

/// One call of the parser on `data`: the state it leaves, the number of bytes
/// it takes from the front of `data`, and what it reports.
///
/// Of non-empty data at least one byte is taken, and never more than up to
/// the end of the header or the payload the parser is in.
pub open spec fn step(s: DemuxView, data: Seq<u8>) -> (DemuxView, nat, DemuxEvent) {
    if data.len() == 0 {
        (s, 0, DemuxEvent::Continue)
    } else {
        match s {
            DemuxView::AwaitingHeader(got) => {
                let need = (HEADER_SIZE - got.len()) as nat;
                if data.len() >= need {
                    let f = read_fields(got + data.take(need as int));
                    let next = if f.payload_length == 0 {
                        start()
                    } else {
                        DemuxView::AwaitingPayload(f, f.payload_length as nat)
                    };
                    (next, need, DemuxEvent::HeaderReceived(f))
                } else {
                    (DemuxView::AwaitingHeader(got + data), data.len(), DemuxEvent::Continue)
                }
            },
            DemuxView::AwaitingPayload(f, remaining) => {
                if remaining <= data.len() {
                    (start(), remaining, DemuxEvent::DataAppend(f, true, data.take(remaining as int)))
                } else {
                    (
                        DemuxView::AwaitingPayload(f, (remaining - data.len()) as nat),
                        data.len(),
                        DemuxEvent::DataAppend(f, false, data),
                    )
                }
            },
        }
    }
}

/// Where the parser stands: in a header of which some bytes have arrived, or
/// in a payload of which some bytes are still to come.
#[derive(Clone, Copy)]
pub enum DemuxState {
    /// The header bytes received so far, and how many they are.
    Header([u8; HEADER_SIZE], u32),
    /// The header of the frame being received, and the payload bytes missing.
    Content(Header, usize),
}

impl View for DemuxState {
    type V = DemuxView;

    open spec fn view(&self) -> DemuxView {
        match *self {
            DemuxState::Header(buf, count) => DemuxView::AwaitingHeader(buf@.take(count as int)),
            DemuxState::Content(header, remaining) => DemuxView::AwaitingPayload(
                header@,
                remaining as nat,
            ),
        }
    }
}

/// What one call of the parser reports.
pub enum DemuxResult<'a> {
    /// Bytes were taken, and no header was completed by them.
    Continue,
    /// A header was completed.
    HeaderReceived(Header),
    /// Payload bytes of the frame with this header; the flag says whether
    /// they are the frame's last.
    DataAppend(Header, bool, &'a [u8]),
}

impl<'a> View for DemuxResult<'a> {
    type V = DemuxEvent;

    open spec fn view(&self) -> DemuxEvent {
        match *self {
            DemuxResult::Continue => DemuxEvent::Continue,
            DemuxResult::HeaderReceived(header) => DemuxEvent::HeaderReceived(header@),
            DemuxResult::DataAppend(header, finished, data) => DemuxEvent::DataAppend(
                header@,
                finished,
                data@,
            ),
        }
    }
}

impl DemuxState {
    /// A header is never complete while it is awaited, and a payload that is
    /// awaited misses at least one byte and no more than its frame announced.
    pub open spec fn wf(self) -> bool {
        match self {
            DemuxState::Header(_, count) => count < HEADER_SIZE,
            DemuxState::Content(header, remaining) => 0 < remaining <= header@.payload_length,
        }
    }

    /// The parser at the start of a stream.
    pub fn new() -> (s: DemuxState)
        ensures
            s.wf(),
            s@ == start(),
    {
        let s = DemuxState::Header([0u8; HEADER_SIZE], 0);
        assert(s@ =~= start()) by {
            assert(s@ matches DemuxView::AwaitingHeader(got) && got =~= Seq::<u8>::empty());
        }
        s
    }

    /// Takes bytes from the front of `data` and reports what they were:
    /// returns how many were taken and the event, as `step` defines them.
    ///
    /// Header bytes are kept in the state until the header is complete.
    /// Payload bytes are handed back as a part of `data`.
    pub fn process<'a>(&mut self, data: &'a [u8]) -> (r: (usize, DemuxResult<'a>))
        requires
            old(self).wf(),
        ensures
            final(self).wf(),
            (final(self)@, r.0 as nat, r.1@) == step(old(self)@, data@),
            data@.len() > 0 ==> 0 < r.0 <= data@.len(),
    {
        if data.len() == 0 {
            return (0, DemuxResult::Continue);
        }
        match *self {
            DemuxState::Header(received, count) => {
                let current = count as usize;
                let need = HEADER_SIZE - current;
                let bytes = if data.len() >= need {
                    need
                } else {
                    data.len()
                };
                let mut buf = received;
                let mut i: usize = 0;
                while i < bytes
                    invariant
                        i <= bytes <= data@.len(),
                        current + bytes <= HEADER_SIZE,
                        buf@.take(current + i) == received@.take(current as int) + data@.take(
                            i as int,
                        ),
                    decreases bytes - i,
                {
                    let ghost before = buf@;
                    buf[current + i] = data[i];
                    proof {
                        assert(buf@ == before.update(current + i, data@[i as int]));
                        assert(buf@.take(current + i + 1) =~= before.take(current + i).push(
                            data@[i as int],
                        ));
                        assert(data@.take(i + 1) =~= data@.take(i as int).push(data@[i as int]));
                        assert(received@.take(current as int) + data@.take(i + 1) =~= (received@.take(
                            current as int,
                        ) + data@.take(i as int)).push(data@[i as int]));
                    }
                    i += 1;
                }
                if data.len() >= need {
                    assert(buf@ =~= buf@.take(HEADER_SIZE as int));
                    let header = Header::from_bytes(buf);
                    let len = header.payload_length() as usize;
                    if len == 0 {
                        *self = DemuxState::new();
                    } else {
                        *self = DemuxState::Content(header, len);
                    }
                    (bytes, DemuxResult::HeaderReceived(header))
                } else {
                    assert(data@.take(bytes as int) =~= data@);
                    *self = DemuxState::Header(buf, (current + bytes) as u32);
                    (bytes, DemuxResult::Continue)
                }
            },
            DemuxState::Content(header, remaining) => {
                if remaining <= data.len() {
                    let part = slice_subrange(data, 0, remaining);
                    *self = DemuxState::new();
                    (remaining, DemuxResult::DataAppend(header, true, part))
                } else {
                    *self = DemuxState::Content(header, remaining - data.len());
                    (data.len(), DemuxResult::DataAppend(header, false, data))
                }
            },
        }
    }
}

/// The demultiplexer of one connection.
pub struct Demux {
    frame_state: DemuxState,
    bytes_read: u64,
}

impl View for Demux {
    type V = DemuxView;

    closed spec fn view(&self) -> DemuxView {
        self.frame_state@
    }
}

impl Demux {
    #[verifier::type_invariant]
    spec fn state_wf(self) -> bool {
        self.frame_state.wf()
    }

    /// The number of bytes taken so far, counted modulo 2^64.
    pub closed spec fn taken(self) -> u64 {
        self.bytes_read
    }

    /// A demultiplexer at the start of a stream, with nothing counted.
    pub fn new() -> (d: Demux)
        ensures
            d@ == start(),
            view_wf(d@),
            d.taken() == 0,
    {
        Demux { frame_state: DemuxState::new(), bytes_read: 0 }
    }

    /// Takes bytes from the front of `data` and reports what they were:
    /// returns how many were taken and the event, as `step` defines them.
    /// The caller feeds what is left of `data` again until nothing is left.
    pub fn ingress<'a>(&mut self, data: &'a [u8]) -> (r: (usize, DemuxResult<'a>))
        ensures
            (final(self)@, r.0 as nat, r.1@) == step(old(self)@, data@),
            data@.len() > 0 ==> 0 < r.0 <= data@.len(),
            view_wf(old(self)@),
            view_wf(final(self)@),
            final(self).taken() == (old(self).taken() + r.0) % 0x1_0000_0000_0000_0000,
    {
        proof {
            use_type_invariant(&*self);
        }
        let mut state = self.frame_state;
        let (sz, r) = state.process(data);
        self.frame_state = state;
        self.bytes_read = self.bytes_read.wrapping_add(sz as u64);
        (sz, r)
    }

    /// The number of bytes taken so far, counted modulo 2^64.
    pub fn bytes_read(&self) -> (n: u64)
        ensures
            n == self.taken(),
    {
        self.bytes_read
    }
}

} // verus!
